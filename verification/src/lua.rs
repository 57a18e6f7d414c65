//! A model of the Luau expression shapes the rewriter inspects and builds:
//! chains of a head identifier followed by member accesses, index
//! operations and calls. Everything the classifier never looks into is
//! `Opaque`; the synthesizers below build the two replacement families, the
//! dynamic-lookup (`FindFirstChild`) chain and the static bracket-index
//! chain, each wrapped in a call to the module-load primitive.

use vstd::prelude::*;
use vstd::string::*;
use crate::strutil::{split_dots, split_dots_exec, str_eq};

verus! {

/// One suffix of an expression chain.
#[derive(Debug, PartialEq, Eq)]
pub enum LuaSuffix {
    /// `.name`
    Dot(String),
    /// `["literal"]`
    BracketStr(String),
    /// `[identifier]`
    BracketName(String),
    /// `(arguments)`
    CallArgs(Vec<LuaExpr>),
    /// `:name(arguments)`
    MethodCall(String, Vec<LuaExpr>),
    /// any index or call shape the rewriter never inspects
    OpaqueSuffix,
}

/// One expression, as far as the rewriter needs to see it.
#[derive(Debug, PartialEq, Eq)]
pub enum LuaExpr {
    /// a string literal, by content
    Str(String),
    /// a bare identifier
    VarName(String),
    /// a variable expression: head identifier plus suffixes
    VarChain(String, Vec<LuaSuffix>),
    /// a function call chain: head identifier plus suffixes
    Call(String, Vec<LuaSuffix>),
    /// anything else
    Opaque,
}

/// One step of a dynamic-lookup chain: `Parent` segments become direct
/// member accesses, every other segment a `:FindFirstChild("segment")` call.
pub open spec fn is_findchild_suffix(s: LuaSuffix, part: Seq<char>) -> bool {
    if part == "Parent"@ {
        s matches LuaSuffix::Dot(n) && n@ == "Parent"@
    } else {
        s matches LuaSuffix::MethodCall(m, args) && m@ == "FindFirstChild"@ && args@.len() == 1
            && (args@[0] matches LuaExpr::Str(c) && c@ == part)
    }
}

/// The dynamic-lookup chain for a dot-joined access path: the first segment
/// as head, then one `is_findchild_suffix` step per further segment. A
/// single-segment path is a bare identifier.
pub open spec fn is_findchild_expr(e: LuaExpr, path: Seq<char>) -> bool {
    let parts = split_dots(path);
    if parts.len() == 1 {
        e matches LuaExpr::VarName(n) && n@ == parts[0]
    } else {
        e matches LuaExpr::VarChain(h, sfx) && h@ == parts[0] && sfx@.len() == parts.len() - 1
            && forall|j: int|
                0 <= j < sfx@.len() ==> is_findchild_suffix(#[trigger] sfx@[j], parts[j + 1])
    }
}

/// The static bracket-index chain for a dot-joined path: the first segment
/// as head, then `["segment"]` per further segment.
pub open spec fn is_bracket_chain(e: LuaExpr, path: Seq<char>) -> bool {
    let parts = split_dots(path);
    e matches LuaExpr::VarChain(h, sfx) && h@ == parts[0] && sfx@.len() == parts.len() - 1
        && forall|j: int|
            0 <= j < sfx@.len() ==> (#[trigger] sfx@[j] matches LuaSuffix::BracketStr(l) && l@
                == parts[j + 1])
}

/// A call of the module-load primitive with exactly one argument.
pub open spec fn is_require_wrap(e: LuaExpr, arg: LuaExpr) -> bool {
    e matches LuaExpr::Call(h, sfx) && h@ == "require"@ && sfx@.len() == 1 && (sfx@[0] matches
        LuaSuffix::CallArgs(a) && a@.len() == 1 && a@[0] == arg)
}

/// `require(<dynamic-lookup chain of path>)`.
pub open spec fn is_find_child_require(e: LuaExpr, path: Seq<char>) -> bool {
    e matches LuaExpr::Call(h, sfx) && h@ == "require"@ && sfx@.len() == 1 && (sfx@[0] matches
        LuaSuffix::CallArgs(a) && a@.len() == 1 && is_findchild_expr(a@[0], path))
}

/// `require(<bracket chain of path>)`.
pub open spec fn is_bracket_require(e: LuaExpr, path: Seq<char>) -> bool {
    e matches LuaExpr::Call(h, sfx) && h@ == "require"@ && sfx@.len() == 1 && (sfx@[0] matches
        LuaSuffix::CallArgs(a) && a@.len() == 1 && is_bracket_chain(a@[0], path))
}

/// Builds the dynamic-lookup chain for a dot-joined access path.
pub fn create_findchild_call(path_expression: String) -> (e: LuaExpr)
    ensures
        is_findchild_expr(e, path_expression@),
{
    let parts = split_dots_exec(path_expression.as_str());
    let ghost pv = parts.deep_view();
    if parts.len() == 1 {
        LuaExpr::VarName(parts[0].clone())
    } else {
        let mut suffixes: Vec<LuaSuffix> = Vec::new();
        let mut i: usize = 1;
        while i < parts.len()
            invariant
                1 <= i <= parts.len(),
                pv == parts.deep_view(),
                parts@.len() == pv.len(),
                suffixes@.len() == i - 1,
                forall|j: int| 0 <= j < i - 1 ==> is_findchild_suffix(
                    #[trigger] suffixes@[j],
                    pv[j + 1],
                ),
            decreases parts.len() - i,
        {
            proof {
                assert(pv[i as int] == parts@[i as int]@);
            }
            if str_eq(parts[i].as_str(), "Parent") {
                suffixes.push(LuaSuffix::Dot("Parent".to_owned()));
            } else {
                let mut args: Vec<LuaExpr> = Vec::new();
                args.push(LuaExpr::Str(parts[i].clone()));
                suffixes.push(LuaSuffix::MethodCall("FindFirstChild".to_owned(), args));
            }
            i += 1;
        }
        LuaExpr::VarChain(parts[0].clone(), suffixes)
    }
}

/// Builds the static bracket-index chain for a dot-joined path, wrapped in
/// the module-load call. Kept as the internal representation step for
/// dependency-package references.
pub fn create_require_call(path_expression: String) -> (e: LuaExpr)
    ensures
        is_bracket_require(e, path_expression@),
{
    let parts = split_dots_exec(path_expression.as_str());
    let ghost pv = parts.deep_view();
    let mut suffixes: Vec<LuaSuffix> = Vec::new();
    let mut i: usize = 1;
    while i < parts.len()
        invariant
            1 <= i <= parts.len() || parts.len() < 1,
            pv == parts.deep_view(),
            parts@.len() == pv.len(),
            suffixes@.len() == i - 1,
            forall|j: int| 0 <= j < i - 1 ==> (#[trigger] suffixes@[j] matches
                LuaSuffix::BracketStr(l) && l@ == pv[j + 1]),
        decreases parts.len() - i,
    {
        proof {
            assert(pv[i as int] == parts@[i as int]@);
        }
        suffixes.push(LuaSuffix::BracketStr(parts[i].clone()));
        i += 1;
    }
    let chain = LuaExpr::VarChain(parts[0].clone(), suffixes);
    proof {
        assert(is_bracket_chain(chain, path_expression@));
    }
    create_require_call_with_expression(chain)
}

/// Wraps one self-contained expression as the single argument of a call of
/// the module-load primitive.
pub fn create_require_call_with_expression(argument: LuaExpr) -> (e: LuaExpr)
    ensures
        is_require_wrap(e, argument),
{
    let mut args: Vec<LuaExpr> = Vec::new();
    args.push(argument);
    let mut suffixes: Vec<LuaSuffix> = Vec::new();
    suffixes.push(LuaSuffix::CallArgs(args));
    LuaExpr::Call("require".to_owned(), suffixes)
}

/// Builds the dynamic-lookup chain for a path and wraps it in the
/// module-load call: the replacement for every rewritten dynamic import.
pub fn create_find_child_require_call(path_expression: String) -> (e: LuaExpr)
    ensures
        is_find_child_require(e, path_expression@),
{
    let ghost pv = path_expression@;
    let chain = create_findchild_call(path_expression);
    let e = create_require_call_with_expression(chain);
    e
}

} // verus!
