//! The pattern matcher and the per-node rewrite decisions. Three trigger
//! shapes are recognized, mutually exclusive by construction: the
//! runtime-binding assignment (`local TS = _G[script]`), the dynamic import
//! by literal path (`TS.import(...)`), and the dependency-module import via
//! `TS.getModule(...)`. Classification extracts a dot-joined target path or
//! fails, leaving the node untouched; a recognized node is replaced by a
//! `require` of a dynamic-lookup chain.

use vstd::prelude::*;
use vstd::string::*;
use crate::lua::{
    is_find_child_require,
    create_find_child_require_call,
    LuaExpr,
    LuaSuffix,
};
use crate::maps::{assoc, find_suffix_spec, SourcemapData};
use crate::resolve::{require_parts, require_parts_spec, roblox_path_to_luau_require};
use crate::strutil::{
    contains_at,
    join_dots,
    join_dots_exec,
    split_dots,
    split_dots_exec,
    str_contains,
    str_eq,
};

verus! {

/// The first method-like name in a suffix chain, scanning from `i`: a `.name`
/// yields the name, a `["literal"]` yields the literal, anything else is
/// skipped.
pub open spec fn spec_method_name_from(sfx: Seq<LuaSuffix>, i: int) -> Option<Seq<char>>
    decreases sfx.len() - i,
{
    if !(0 <= i < sfx.len()) {
        None
    } else {
        match sfx[i] {
            LuaSuffix::Dot(n) => Some(n@),
            LuaSuffix::BracketStr(l) => Some(l@),
            _ => spec_method_name_from(sfx, i + 1),
        }
    }
}

/// The index of the first call suffix at or after `i`.
pub open spec fn spec_first_call_from(sfx: Seq<LuaSuffix>, i: int) -> Option<int>
    decreases sfx.len() - i,
{
    if !(0 <= i < sfx.len()) {
        None
    } else {
        match sfx[i] {
            LuaSuffix::CallArgs(a) => Some(i),
            LuaSuffix::MethodCall(m, a) => Some(i),
            _ => spec_first_call_from(sfx, i + 1),
        }
    }
}

/// The contents of the expressions from `i` on, provided every one is a
/// string literal.
pub open spec fn spec_lit_parts_from(args: Seq<LuaExpr>, i: int) -> Option<Seq<Seq<char>>>
    decreases args.len() - i,
{
    if !(0 <= i < args.len()) {
        Some(Seq::<Seq<char>>::empty())
    } else {
        match args[i] {
            LuaExpr::Str(s) => match spec_lit_parts_from(args, i + 1) {
                Some(rest) => Some(seq![s@] + rest),
                None => None,
            },
            _ => None,
        }
    }
}

/// The names of the `.name` suffixes from `i` on, in order, skipping every
/// other suffix shape.
pub open spec fn spec_dot_names_from(sfx: Seq<LuaSuffix>, i: int) -> Seq<Seq<char>>
    decreases sfx.len() - i,
{
    if !(0 <= i < sfx.len()) {
        Seq::<Seq<char>>::empty()
    } else {
        match sfx[i] {
            LuaSuffix::Dot(n) => seq![n@] + spec_dot_names_from(sfx, i + 1),
            _ => spec_dot_names_from(sfx, i + 1),
        }
    }
}

/// The runtime-binding trigger: a global-table lookup keyed by the
/// self-handle identifier, `_G[script]`, recognized structurally.
pub open spec fn spec_is_global_script_access(head: Seq<char>, sfx: Seq<LuaSuffix>) -> bool {
    head == "_G"@ && sfx.len() >= 1 && (sfx[0] matches LuaSuffix::BracketName(n) && n@
        == "script"@)
}

pub open spec fn spec_is_ts_runtime_assignment(e: LuaExpr) -> bool {
    e matches LuaExpr::VarChain(h, s) && spec_is_global_script_access(h@, s@)
}

/// The synthesized dependency-directory prefix followed by the requested
/// scope and package segments.
pub open spec fn spec_package_path(parts: Seq<Seq<char>>) -> Seq<char> {
    "node_modules."@ + join_dots(parts)
}

/// Resolution of a dependency package named by literal segments: the first
/// index entry whose logical path ends with the package path, with any
/// chained member accesses appended as further segments after the resolved
/// package's logical path, turned into an access path from the current
/// file's logical position.
pub open spec fn spec_resolve_parts(
    parts: Seq<Seq<char>>,
    extras: Seq<Seq<char>>,
    ro: Seq<(Seq<char>, Seq<char>)>,
    fsm: Seq<(Seq<char>, Seq<char>)>,
    cur: Seq<char>,
) -> Option<Seq<char>> {
    if parts.len() == 0 {
        None
    } else {
        match find_suffix_spec(ro, spec_package_path(parts)) {
            None => None,
            Some(target) => match assoc(fsm, cur) {
                None => None,
                Some(src) => Some(
                    join_dots(require_parts_spec(split_dots(src), split_dots(target) + extras)),
                ),
            },
        }
    }
}

/// The literal segments of a `getModule` argument list: every argument after
/// the self-handle must be a string literal.
pub open spec fn spec_resolve_getmodule(
    args: Seq<LuaExpr>,
    ro: Seq<(Seq<char>, Seq<char>)>,
    fsm: Seq<(Seq<char>, Seq<char>)>,
    cur: Seq<char>,
) -> Option<Seq<char>> {
    match spec_lit_parts_from(args, 1) {
        None => None,
        Some(parts) => spec_resolve_parts(parts, Seq::<Seq<char>>::empty(), ro, fsm, cur),
    }
}

/// The package segments referenced by a `TS.getModule(...)` expression,
/// paired with the member accesses chained after the call, which become
/// further segments only after the package's logical path is found.
pub open spec fn spec_getmodule_parts(a1: LuaExpr) -> Option<(Seq<Seq<char>>, Seq<Seq<char>>)> {
    match a1 {
        LuaExpr::Call(h, sfx) => {
            if h@ == "TS"@ && spec_method_name_from(sfx@, 0) == Some("getModule"@) {
                match spec_first_call_from(sfx@, 0) {
                    Some(k) => match sfx@[k] {
                        LuaSuffix::CallArgs(ga) => match spec_lit_parts_from(ga@, 1) {
                            Some(ps) => Some((ps, Seq::<Seq<char>>::empty())),
                            None => None,
                        },
                        _ => None,
                    },
                    None => None,
                }
            } else {
                None
            }
        },
        LuaExpr::VarChain(h, sfx) => {
            if h@ == "TS"@ && sfx@.len() >= 1 && (sfx@[0] matches LuaSuffix::Dot(n) && n@
                == "getModule"@) {
                match spec_first_call_from(sfx@, 0) {
                    Some(k) => match sfx@[k] {
                        LuaSuffix::CallArgs(ga) => match spec_lit_parts_from(ga@, 1) {
                            Some(ps) => Some((ps, spec_dot_names_from(sfx@, k + 1))),
                            None => None,
                        },
                        _ => None,
                    },
                    None => None,
                }
            } else {
                None
            }
        },
        _ => None,
    }
}

/// The dot-joined target path of a dynamic-import argument list: either the
/// second argument is a `TS.getModule(...)` reference, resolved through the
/// index, or every argument after the self-handle is a string literal, each
/// naming one segment to descend through from the caller's own handle.
pub open spec fn spec_translate(
    args: Seq<LuaExpr>,
    ro: Seq<(Seq<char>, Seq<char>)>,
    fsm: Seq<(Seq<char>, Seq<char>)>,
    cur: Seq<char>,
) -> Option<Seq<char>> {
    if args.len() < 2 {
        None
    } else {
        match spec_getmodule_parts(args[1]) {
            Some(pe) => spec_resolve_parts(pe.0, pe.1, ro, fsm, cur),
            None => match spec_lit_parts_from(args, 1) {
                None => None,
                Some(segs) => Some(join_dots(seq!["script"@] + segs)),
            },
        }
    }
}

/// The argument list of a `TS.import(...)` call chain, when the chain's
/// method name is `import` and its first call suffix carries parenthesized
/// arguments.
pub open spec fn spec_import_args(e: LuaExpr) -> Option<Seq<LuaExpr>> {
    match e {
        LuaExpr::Call(h, sfx) => {
            if h@ == "TS"@ && spec_method_name_from(sfx@, 0) == Some("import"@) {
                match spec_first_call_from(sfx@, 0) {
                    Some(k) => match sfx@[k] {
                        LuaSuffix::CallArgs(a) => Some(a@),
                        _ => None,
                    },
                    None => None,
                }
            } else {
                None
            }
        },
        _ => None,
    }
}

/// The method name of a call chain headed by the runtime-support table.
pub open spec fn spec_ts_method_name(e: LuaExpr) -> Option<Seq<char>> {
    match e {
        LuaExpr::Call(h, sfx) => if h@ == "TS"@ {
            spec_method_name_from(sfx@, 0)
        } else {
            None
        },
        _ => None,
    }
}

/// The target path of a rewritable `TS.import(...)` call chain, if any.
pub open spec fn spec_visit_function_call(
    e: LuaExpr,
    ro: Seq<(Seq<char>, Seq<char>)>,
    fsm: Seq<(Seq<char>, Seq<char>)>,
    cur: Seq<char>,
) -> Option<Seq<char>> {
    match spec_import_args(e) {
        Some(args) => spec_translate(args, ro, fsm, cur),
        None => None,
    }
}

/// The target path of a rewritable `TS.import(...)` variable chain, if any:
/// the chain's first suffix must be the `import` member access and its
/// second the parenthesized argument list.
pub open spec fn spec_visit_var_expression(
    head: Seq<char>,
    sfx: Seq<LuaSuffix>,
    ro: Seq<(Seq<char>, Seq<char>)>,
    fsm: Seq<(Seq<char>, Seq<char>)>,
    cur: Seq<char>,
) -> Option<Seq<char>> {
    if head == "TS"@ && sfx.len() >= 2 && (sfx[0] matches LuaSuffix::Dot(n) && n@ == "import"@)
        && (sfx[1] matches LuaSuffix::CallArgs(a)) {
        match sfx[1] {
            LuaSuffix::CallArgs(a) => spec_translate(a@, ro, fsm, cur),
            _ => None,
        }
    } else {
        None
    }
}

fn method_name_from(sfx: &Vec<LuaSuffix>, from: usize) -> (r: Option<String>)
    ensures
        r is Some <==> spec_method_name_from(sfx@, from as int) is Some,
        r is Some ==> r->0@ == spec_method_name_from(sfx@, from as int)->0,
{
    let mut i: usize = from;
    while i < sfx.len()
        invariant
            from <= i,
            spec_method_name_from(sfx@, from as int) == spec_method_name_from(sfx@, i as int),
        decreases sfx.len() - i,
    {
        match &sfx[i] {
            LuaSuffix::Dot(n) => {
                return Some(n.clone());
            },
            LuaSuffix::BracketStr(l) => {
                return Some(l.clone());
            },
            _ => {},
        }
        i += 1;
    }
    None
}

fn first_call_from(sfx: &Vec<LuaSuffix>, from: usize) -> (r: Option<usize>)
    ensures
        r is Some <==> spec_first_call_from(sfx@, from as int) is Some,
        r is Some ==> Some(r->0 as int) == spec_first_call_from(sfx@, from as int),
        r is Some ==> from <= r->0 < sfx.len(),
{
    let mut i: usize = from;
    while i < sfx.len()
        invariant
            from <= i,
            spec_first_call_from(sfx@, from as int) == spec_first_call_from(sfx@, i as int),
        decreases sfx.len() - i,
    {
        match &sfx[i] {
            LuaSuffix::CallArgs(a) => {
                return Some(i);
            },
            LuaSuffix::MethodCall(m, a) => {
                return Some(i);
            },
            _ => {},
        }
        i += 1;
    }
    None
}

fn lit_parts_from(args: &Vec<LuaExpr>, from: usize) -> (r: Option<Vec<String>>)
    ensures
        r is Some <==> spec_lit_parts_from(args@, from as int) is Some,
        r is Some ==> r->0.deep_view() == spec_lit_parts_from(args@, from as int)->0,
{
    let mut acc: Vec<String> = Vec::new();
    let mut i: usize = from;
    proof {
        assert(acc.deep_view() =~= Seq::<Seq<char>>::empty());
    }
    while i < args.len()
        invariant
            from <= i,
            spec_lit_parts_from(args@, from as int) == (match spec_lit_parts_from(
                args@,
                i as int,
            ) {
                Some(rest) => Some(acc.deep_view() + rest),
                None => None::<Seq<Seq<char>>>,
            }),
        decreases args.len() - i,
    {
        match &args[i] {
            LuaExpr::Str(s) => {
                let ghost dv0 = acc.deep_view();
                let ghost sv = s@;
                acc.push(s.clone());
                proof {
                    assert(acc.deep_view() =~= dv0.push(sv));
                    if spec_lit_parts_from(args@, i + 1) is Some {
                        let rest = spec_lit_parts_from(args@, i + 1)->0;
                        assert(dv0 + (seq![sv] + rest) =~= dv0.push(sv) + rest);
                    }
                }
            },
            _ => {
                return None;
            },
        }
        i += 1;
    }
    proof {
        assert(acc.deep_view() + Seq::<Seq<char>>::empty() =~= acc.deep_view());
    }
    Some(acc)
}

fn dot_names_from(sfx: &Vec<LuaSuffix>, from: usize) -> (r: Vec<String>)
    ensures
        r.deep_view() == spec_dot_names_from(sfx@, from as int),
{
    let mut acc: Vec<String> = Vec::new();
    let mut i: usize = from;
    proof {
        assert(acc.deep_view() =~= Seq::<Seq<char>>::empty());
    }
    while i < sfx.len()
        invariant
            from <= i,
            spec_dot_names_from(sfx@, from as int) == acc.deep_view() + spec_dot_names_from(
                sfx@,
                i as int,
            ),
        decreases sfx.len() - i,
    {
        match &sfx[i] {
            LuaSuffix::Dot(n) => {
                let ghost dv0 = acc.deep_view();
                let ghost nv = n@;
                acc.push(n.clone());
                proof {
                    assert(acc.deep_view() =~= dv0.push(nv));
                    assert(dv0 + (seq![nv] + spec_dot_names_from(sfx@, i + 1)) =~= dv0.push(nv)
                        + spec_dot_names_from(sfx@, i + 1));
                }
            },
            _ => {},
        }
        i += 1;
    }
    proof {
        assert(acc.deep_view() + Seq::<Seq<char>>::empty() =~= acc.deep_view());
    }
    acc
}

fn append_all(dst: &mut Vec<String>, src: &Vec<String>)
    ensures
        final(dst).deep_view() == old(dst).deep_view() + src.deep_view(),
{
    let mut i: usize = 0;
    proof {
        assert(old(dst).deep_view() + src.deep_view().take(0) =~= old(dst).deep_view());
    }
    while i < src.len()
        invariant
            i <= src.len(),
            dst.deep_view() == old(dst).deep_view() + src.deep_view().take(i as int),
        decreases src.len() - i,
    {
        let ghost dv0 = dst.deep_view();
        dst.push(src[i].clone());
        proof {
            assert(dst.deep_view() =~= dv0.push(src.deep_view()[i as int]));
            assert(src.deep_view().take(i + 1) =~= src.deep_view().take(i as int).push(
                src.deep_view()[i as int],
            ));
            assert(old(dst).deep_view() + src.deep_view().take(i + 1) =~= (old(dst).deep_view()
                + src.deep_view().take(i as int)).push(src.deep_view()[i as int]));
        }
        i += 1;
    }
    proof {
        assert(src.deep_view().take(src.len() as int) =~= src.deep_view());
    }
}

/// Per-file rewrite context: the current file's own filesystem path, a read
/// reference to the shared path index, and the filesystem path of the
/// runtime-entry file.
pub struct TSTransformer<'a> {
    pub current_fs_path: &'a str,
    pub sourcemap_data: &'a SourcemapData,
    pub runtime_fs_path: &'a str,
}

impl<'a> TSTransformer<'a> {
    /// The logical-to-filesystem direction of the shared index.
    pub open spec fn ro(self) -> Seq<(Seq<char>, Seq<char>)> {
        self.sourcemap_data.roblox_to_fs.deep_view()
    }

    /// The filesystem-to-logical direction of the shared index.
    pub open spec fn fsm(self) -> Seq<(Seq<char>, Seq<char>)> {
        self.sourcemap_data.fs_to_roblox.deep_view()
    }

    /// Recognizes the runtime-binding initializer, `_G[script]`.
    pub fn is_ts_runtime_assignment(&self, expr: &LuaExpr) -> (r: bool)
        ensures
            r == spec_is_ts_runtime_assignment(*expr),
    {
        match expr {
            LuaExpr::VarChain(h, sfx) => self.is_global_script_access(h, sfx),
            _ => false,
        }
    }

    /// Recognizes a global-table lookup keyed by the self-handle.
    pub fn is_global_script_access(&self, head: &String, suffixes: &Vec<LuaSuffix>) -> (r: bool)
        ensures
            r == spec_is_global_script_access(head@, suffixes@),
    {
        if str_eq(head.as_str(), "_G") && suffixes.len() >= 1 {
            match &suffixes[0] {
                LuaSuffix::BracketName(n) => str_eq(n.as_str(), "script"),
                _ => false,
            }
        } else {
            false
        }
    }

    /// The method name of a call chain headed by the runtime-support table.
    pub fn get_ts_method_name(&self, call: &LuaExpr) -> (r: Option<String>)
        ensures
            r is Some <==> spec_ts_method_name(*call) is Some,
            r is Some ==> r->0@ == spec_ts_method_name(*call)->0,
    {
        match call {
            LuaExpr::Call(h, sfx) => {
                if str_eq(h.as_str(), "TS") {
                    method_name_from(sfx, 0)
                } else {
                    None
                }
            },
            _ => None,
        }
    }

    /// The first index entry whose logical path ends with `package_path`:
    /// the documented first-match policy for dependency-package search.
    pub fn find_package_in_sourcemap(&self, package_path: &str) -> (r: Option<String>)
        ensures
            r is Some <==> find_suffix_spec(self.ro(), package_path@) is Some,
            r is Some ==> r->0@ == find_suffix_spec(self.ro(), package_path@)->0,
    {
        self.sourcemap_data.find_logical_with_suffix(package_path)
    }

    fn resolve_parts(&self, parts: &Vec<String>, extras: &Vec<String>) -> (r: Option<String>)
        ensures
            r is Some <==> spec_resolve_parts(
                parts.deep_view(),
                extras.deep_view(),
                self.ro(),
                self.fsm(),
                self.current_fs_path@,
            ) is Some,
            r is Some ==> r->0@ == spec_resolve_parts(
                parts.deep_view(),
                extras.deep_view(),
                self.ro(),
                self.fsm(),
                self.current_fs_path@,
            )->0,
    {
        if parts.len() == 0 {
            return None;
        }
        let joined = join_dots_exec(parts);
        let mut pkg = "node_modules.".to_owned();
        pkg.append(joined.as_str());
        proof {
            assert(pkg@ == spec_package_path(parts.deep_view()));
        }
        match self.find_package_in_sourcemap(pkg.as_str()) {
            Some(target) => {
                match self.sourcemap_data.get_roblox(self.current_fs_path) {
                    Some(src) => {
                        let mut target_parts = split_dots_exec(target.as_str());
                        append_all(&mut target_parts, extras);
                        let source_parts = split_dots_exec(src.as_str());
                        let rp = require_parts(&source_parts, &target_parts);
                        Some(join_dots_exec(&rp))
                    },
                    None => None,
                }
            },
            None => None,
        }
    }

    /// Resolves a `getModule` argument list to an access path through the
    /// index, or fails without touching anything.
    pub fn resolve_getmodule_call_from_args(&self, arguments: &Vec<LuaExpr>) -> (r: Option<
        String,
    >)
        ensures
            r is Some <==> spec_resolve_getmodule(
                arguments@,
                self.ro(),
                self.fsm(),
                self.current_fs_path@,
            ) is Some,
            r is Some ==> r->0@ == spec_resolve_getmodule(
                arguments@,
                self.ro(),
                self.fsm(),
                self.current_fs_path@,
            )->0,
    {
        match lit_parts_from(arguments, 1) {
            Some(parts) => {
                let extras: Vec<String> = Vec::new();
                proof {
                    assert(extras.deep_view() =~= Seq::<Seq<char>>::empty());
                }
                self.resolve_parts(&parts, &extras)
            },
            None => None,
        }
    }

    fn getmodule_parts(&self, a1: &LuaExpr) -> (r: Option<(Vec<String>, Vec<String>)>)
        ensures
            r is Some <==> spec_getmodule_parts(*a1) is Some,
            r is Some ==> (r->0).0.deep_view() == (spec_getmodule_parts(*a1)->0).0,
            r is Some ==> (r->0).1.deep_view() == (spec_getmodule_parts(*a1)->0).1,
    {
        match a1 {
            LuaExpr::Call(h, sfx) => {
                if !str_eq(h.as_str(), "TS") {
                    return None;
                }
                let mn = method_name_from(sfx, 0);
                let is_gm = match &mn {
                    Some(m) => str_eq(m.as_str(), "getModule"),
                    None => false,
                };
                if !is_gm {
                    return None;
                }
                let k = match first_call_from(sfx, 0) {
                    Some(k) => k,
                    None => {
                        return None;
                    },
                };
                match &sfx[k] {
                    LuaSuffix::CallArgs(ga) => {
                        match lit_parts_from(ga, 1) {
                            Some(ps) => {
                                let extras: Vec<String> = Vec::new();
                                proof {
                                    assert(extras.deep_view() =~= Seq::<Seq<char>>::empty());
                                }
                                Some((ps, extras))
                            },
                            None => None,
                        }
                    },
                    _ => None,
                }
            },
            LuaExpr::VarChain(h, sfx) => {
                if !str_eq(h.as_str(), "TS") {
                    return None;
                }
                if sfx.len() < 1 {
                    return None;
                }
                let first_is_gm = match &sfx[0] {
                    LuaSuffix::Dot(n) => str_eq(n.as_str(), "getModule"),
                    _ => false,
                };
                if !first_is_gm {
                    return None;
                }
                let k = match first_call_from(sfx, 0) {
                    Some(k) => k,
                    None => {
                        return None;
                    },
                };
                match &sfx[k] {
                    LuaSuffix::CallArgs(ga) => {
                        match lit_parts_from(ga, 1) {
                            Some(ps) => Some((ps, dot_names_from(sfx, k + 1))),
                            None => None,
                        }
                    },
                    _ => None,
                }
            },
            _ => None,
        }
    }

    /// Extracts the dot-joined target path of a dynamic-import argument
    /// list, as `spec_translate` describes: a `getModule` reference in
    /// second position is resolved through the index; otherwise every
    /// argument after the self-handle must be a string literal, each naming
    /// one segment to descend through from the caller's own handle.
    pub fn translate_literal_path(&self, arguments: &Vec<LuaExpr>) -> (r: Option<String>)
        ensures
            r is Some <==> spec_translate(
                arguments@,
                self.ro(),
                self.fsm(),
                self.current_fs_path@,
            ) is Some,
            r is Some ==> r->0@ == spec_translate(
                arguments@,
                self.ro(),
                self.fsm(),
                self.current_fs_path@,
            )->0,
    {
        if arguments.len() < 2 {
            return None;
        }
        match self.getmodule_parts(&arguments[1]) {
            Some(pe) => self.resolve_parts(&pe.0, &pe.1),
            None => {
                let segs = match lit_parts_from(arguments, 1) {
                    Some(ss) => ss,
                    None => {
                        return None;
                    },
                };
                let mut v: Vec<String> = Vec::new();
                v.push("script".to_owned());
                proof {
                    assert(v.deep_view() =~= seq!["script"@]);
                }
                append_all(&mut v, &segs);
                Some(join_dots_exec(&v))
            },
        }
    }

    /// The runtime-binding rewrite: when the first initializer is the
    /// `_G[script]` lookup and both the current file and the runtime-entry
    /// file are in the index, the replacement initializer is a `require` of
    /// the dynamic-lookup chain from the current file to the runtime entry.
    pub fn visit_local_assignment(&self, expressions: &Vec<LuaExpr>) -> (r: Option<LuaExpr>)
        ensures
            r is Some <==> (expressions@.len() >= 1 && spec_is_ts_runtime_assignment(
                expressions@[0],
            ) && assoc(self.fsm(), self.current_fs_path@) is Some && assoc(
                self.fsm(),
                self.runtime_fs_path@,
            ) is Some),
            r is Some ==> is_find_child_require(
                r->0,
                join_dots(
                    require_parts_spec(
                        split_dots(assoc(self.fsm(), self.current_fs_path@)->0),
                        split_dots(assoc(self.fsm(), self.runtime_fs_path@)->0),
                    ),
                ),
            ),
    {
        if expressions.len() == 0 {
            return None;
        }
        if !self.is_ts_runtime_assignment(&expressions[0]) {
            return None;
        }
        let source = match self.sourcemap_data.get_roblox(self.current_fs_path) {
            Some(s) => s,
            None => {
                return None;
            },
        };
        let target = match self.sourcemap_data.get_roblox(self.runtime_fs_path) {
            Some(t) => t,
            None => {
                return None;
            },
        };
        let path = roblox_path_to_luau_require(source.as_str(), target.as_str());
        Some(create_find_child_require_call(path))
    }

    /// The dynamic-import rewrite on a call chain: a `TS.import(...)` whose
    /// argument list translates to a target path is replaced by a `require`
    /// of the dynamic-lookup chain; anything else is left for the caller to
    /// keep unchanged.
    pub fn visit_function_call(&self, node: &LuaExpr) -> (r: Option<LuaExpr>)
        ensures
            r is Some <==> spec_visit_function_call(
                *node,
                self.ro(),
                self.fsm(),
                self.current_fs_path@,
            ) is Some,
            r is Some ==> is_find_child_require(
                r->0,
                spec_visit_function_call(*node, self.ro(), self.fsm(), self.current_fs_path@)->0,
            ),
    {
        match node {
            LuaExpr::Call(h, sfx) => {
                if !str_eq(h.as_str(), "TS") {
                    return None;
                }
                let mn = method_name_from(sfx, 0);
                let ok = match &mn {
                    Some(m) => str_eq(m.as_str(), "import"),
                    None => false,
                };
                if !ok {
                    return None;
                }
                let k = match first_call_from(sfx, 0) {
                    Some(k) => k,
                    None => {
                        return None;
                    },
                };
                match &sfx[k] {
                    LuaSuffix::CallArgs(args) => {
                        match self.translate_literal_path(args) {
                            Some(path) => Some(create_find_child_require_call(path)),
                            None => None,
                        }
                    },
                    _ => None,
                }
            },
            _ => None,
        }
    }

    /// The dynamic-import rewrite on a variable chain, `TS.import(...)`
    /// followed by further accesses: the result is the replacement call and
    /// the number of leading suffixes it consumes; the caller keeps every
    /// suffix after those.
    pub fn visit_var_expression(&self, head: &String, suffixes: &Vec<LuaSuffix>) -> (r: Option<
        (LuaExpr, usize),
    >)
        ensures
            r is Some <==> spec_visit_var_expression(
                head@,
                suffixes@,
                self.ro(),
                self.fsm(),
                self.current_fs_path@,
            ) is Some,
            r is Some ==> is_find_child_require(
                (r->0).0,
                spec_visit_var_expression(
                    head@,
                    suffixes@,
                    self.ro(),
                    self.fsm(),
                    self.current_fs_path@,
                )->0,
            ),
            r is Some ==> (r->0).1 == 2,
    {
        if !str_eq(head.as_str(), "TS") {
            return None;
        }
        if suffixes.len() < 2 {
            return None;
        }
        let first_is_import = match &suffixes[0] {
            LuaSuffix::Dot(n) => str_eq(n.as_str(), "import"),
            _ => false,
        };
        if !first_is_import {
            return None;
        }
        match &suffixes[1] {
            LuaSuffix::CallArgs(args) => {
                match self.translate_literal_path(args) {
                    Some(path) => Some((create_find_child_require_call(path), 2)),
                    None => None,
                }
            },
            _ => None,
        }
    }
}

/// The inexpensive textual pre-filter ahead of a full parse: whether a
/// file's raw text contains the exact marker substring of the
/// runtime-binding assignment idiom.
pub fn contains_marker(code: &str) -> (r: bool)
    ensures
        r == (exists|i: int| contains_at(code@, "local TS = _G[script]"@, i)),
{
    str_contains(code, "local TS = _G[script]")
}

/// A synthesized replacement is never itself a trigger: its head is the
/// module-load primitive, not the runtime-support table nor the global
/// table, so a second rewrite pass recognizes nothing in already-rewritten
/// output and leaves it unchanged.
pub proof fn lemma_rewritten_node_is_no_trigger(
    e: LuaExpr,
    path: Seq<char>,
    ro: Seq<(Seq<char>, Seq<char>)>,
    fsm: Seq<(Seq<char>, Seq<char>)>,
    cur: Seq<char>,
)
    requires
        is_find_child_require(e, path),
    ensures
        !spec_is_ts_runtime_assignment(e),
        spec_ts_method_name(e) is None,
        spec_import_args(e) is None,
        spec_visit_function_call(e, ro, fsm, cur) is None,
{
    reveal_strlit("require");
    reveal_strlit("TS");
    assert("require"@.len() == 7);
    assert("TS"@.len() == 2);
    assert("require"@ != "TS"@);
}

} // verus!
