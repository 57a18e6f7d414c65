use luau_retarget::lua::{
    create_find_child_require_call, create_findchild_call, create_require_call, LuaExpr, LuaSuffix,
};
use luau_retarget::maps::SourcemapData;
use luau_retarget::transform::{contains_marker, TSTransformer};

fn s(text: &str) -> String {
    text.to_owned()
}

fn marker_expr() -> LuaExpr {
    LuaExpr::VarChain(s("_G"), vec![LuaSuffix::BracketName(s("script"))])
}

fn find_first_child(name: &str) -> LuaSuffix {
    LuaSuffix::MethodCall(s("FindFirstChild"), vec![LuaExpr::Str(s(name))])
}

fn require_of(chain: LuaExpr) -> LuaExpr {
    LuaExpr::Call(s("require"), vec![LuaSuffix::CallArgs(vec![chain])])
}

fn fixture_index() -> SourcemapData {
    let mut d = SourcemapData::new();
    d.insert_pair(s("Game.Modules.Foo"), s("/proj/out/Modules/Foo.luau"));
    d.insert_pair(s("Game.Runtime"), s("/proj/out/Runtime.luau"));
    d.insert_pair(s("Game.node_modules.@scope.pkg"), s("/proj/node_modules/@scope/pkg/init.luau"));
    d
}

fn transformer<'a>(d: &'a SourcemapData) -> TSTransformer<'a> {
    TSTransformer {
        current_fs_path: "/proj/out/Modules/Foo.luau",
        sourcemap_data: d,
        runtime_fs_path: "/proj/out/Runtime.luau",
    }
}

#[test]
fn runtime_binding_rewrites_to_relative_require() {
    let d = fixture_index();
    let t = transformer(&d);
    let r = t.visit_local_assignment(&vec![marker_expr()]);
    let expected = require_of(LuaExpr::VarChain(
        s("script"),
        vec![
            LuaSuffix::Dot(s("Parent")),
            LuaSuffix::Dot(s("Parent")),
            find_first_child("Runtime"),
        ],
    ));
    assert_eq!(r, Some(expected));
}

#[test]
fn runtime_binding_needs_both_paths_in_index() {
    let d = fixture_index();
    let t = TSTransformer {
        current_fs_path: "/proj/out/Unknown.luau",
        sourcemap_data: &d,
        runtime_fs_path: "/proj/out/Runtime.luau",
    };
    assert_eq!(t.visit_local_assignment(&vec![marker_expr()]), None);
}

#[test]
fn non_marker_assignment_is_left_alone() {
    let d = fixture_index();
    let t = transformer(&d);
    assert_eq!(t.visit_local_assignment(&vec![LuaExpr::VarName(s("x"))]), None);
}

#[test]
fn import_of_literal_segments_descends() {
    let d = fixture_index();
    let t = transformer(&d);
    let call = LuaExpr::Call(
        s("TS"),
        vec![
            LuaSuffix::Dot(s("import")),
            LuaSuffix::CallArgs(vec![
                LuaExpr::VarName(s("script")),
                LuaExpr::Str(s("Utils")),
                LuaExpr::Str(s("Math")),
            ]),
        ],
    );
    let r = t.visit_function_call(&call);
    let expected = require_of(LuaExpr::VarChain(
        s("script"),
        vec![find_first_child("Utils"), find_first_child("Math")],
    ));
    assert_eq!(r, Some(expected));
}

#[test]
fn import_with_expression_argument_is_left_alone() {
    let d = fixture_index();
    let t = transformer(&d);
    let call = LuaExpr::Call(
        s("TS"),
        vec![
            LuaSuffix::Dot(s("import")),
            LuaSuffix::CallArgs(vec![
                LuaExpr::VarName(s("script")),
                LuaExpr::VarChain(s("script"), vec![LuaSuffix::Dot(s("Parent"))]),
                LuaExpr::Str(s("Sibling")),
            ]),
        ],
    );
    assert_eq!(t.visit_function_call(&call), None);
}

#[test]
fn import_with_non_literal_tail_is_left_alone() {
    let d = fixture_index();
    let t = transformer(&d);
    let call = LuaExpr::Call(
        s("TS"),
        vec![
            LuaSuffix::Dot(s("import")),
            LuaSuffix::CallArgs(vec![
                LuaExpr::VarName(s("script")),
                LuaExpr::Str(s("Utils")),
                LuaExpr::VarName(s("dynamic")),
            ]),
        ],
    );
    assert_eq!(t.visit_function_call(&call), None);
}

fn getmodule_call(scope: &str, pkg: &str) -> LuaExpr {
    LuaExpr::Call(
        s("TS"),
        vec![
            LuaSuffix::Dot(s("getModule")),
            LuaSuffix::CallArgs(vec![
                LuaExpr::VarName(s("script")),
                LuaExpr::Str(s(scope)),
                LuaExpr::Str(s(pkg)),
            ]),
        ],
    )
}

fn import_of(argument: LuaExpr) -> LuaExpr {
    LuaExpr::Call(
        s("TS"),
        vec![
            LuaSuffix::Dot(s("import")),
            LuaSuffix::CallArgs(vec![LuaExpr::VarName(s("script")), argument]),
        ],
    )
}

#[test]
fn getmodule_resolves_through_node_modules_entry() {
    let d = fixture_index();
    let t = transformer(&d);
    let r = t.visit_function_call(&import_of(getmodule_call("@scope", "pkg")));
    let expected = require_of(LuaExpr::VarChain(
        s("script"),
        vec![
            LuaSuffix::Dot(s("Parent")),
            LuaSuffix::Dot(s("Parent")),
            find_first_child("node_modules"),
            find_first_child("@scope"),
            find_first_child("pkg"),
        ],
    ));
    assert_eq!(r, Some(expected));
}

#[test]
fn getmodule_without_index_entry_is_left_alone() {
    let d = fixture_index();
    let t = transformer(&d);
    let r = t.visit_function_call(&import_of(getmodule_call("@scope", "absent")));
    assert_eq!(r, None);
}

#[test]
fn getmodule_chain_appends_member_accesses() {
    let d = fixture_index();
    let t = transformer(&d);
    let chained = LuaExpr::VarChain(
        s("TS"),
        vec![
            LuaSuffix::Dot(s("getModule")),
            LuaSuffix::CallArgs(vec![
                LuaExpr::VarName(s("script")),
                LuaExpr::Str(s("@scope")),
                LuaExpr::Str(s("pkg")),
            ]),
            LuaSuffix::Dot(s("Math")),
        ],
    );
    let r = t.visit_function_call(&import_of(chained));
    let expected = require_of(LuaExpr::VarChain(
        s("script"),
        vec![
            LuaSuffix::Dot(s("Parent")),
            LuaSuffix::Dot(s("Parent")),
            find_first_child("node_modules"),
            find_first_child("@scope"),
            find_first_child("pkg"),
            find_first_child("Math"),
        ],
    ));
    assert_eq!(r, Some(expected));
}

#[test]
fn var_expression_rewrite_consumes_import_and_call() {
    let d = fixture_index();
    let t = transformer(&d);
    let suffixes = vec![
        LuaSuffix::Dot(s("import")),
        LuaSuffix::CallArgs(vec![
            LuaExpr::VarName(s("script")),
            LuaExpr::Str(s("Utils")),
        ]),
        LuaSuffix::Dot(s("member")),
    ];
    let r = t.visit_var_expression(&s("TS"), &suffixes);
    let (expr, consumed) = r.expect("TS.import var chain must rewrite");
    assert_eq!(consumed, 2);
    assert_eq!(
        expr,
        require_of(LuaExpr::VarChain(s("script"), vec![find_first_child("Utils")]))
    );
}

#[test]
fn rewritten_output_is_not_rewritten_again() {
    let d = fixture_index();
    let t = transformer(&d);
    let once = t
        .visit_local_assignment(&vec![marker_expr()])
        .expect("marker must rewrite");
    assert!(!t.is_ts_runtime_assignment(&once));
    assert_eq!(t.visit_function_call(&once), None);
    assert_eq!(t.get_ts_method_name(&once), None);
}

#[test]
fn getmodule_with_no_package_segments_is_left_alone() {
    let d = fixture_index();
    let t = transformer(&d);
    let bare = LuaExpr::Call(
        s("TS"),
        vec![
            LuaSuffix::Dot(s("getModule")),
            LuaSuffix::CallArgs(vec![LuaExpr::VarName(s("script"))]),
        ],
    );
    assert_eq!(t.visit_function_call(&import_of(bare)), None);
}

#[test]
fn var_expression_with_method_call_arguments_is_left_alone() {
    let d = fixture_index();
    let t = transformer(&d);
    let suffixes = vec![
        LuaSuffix::Dot(s("import")),
        LuaSuffix::MethodCall(s("call"), vec![LuaExpr::Str(s("Utils"))]),
    ];
    assert_eq!(t.visit_var_expression(&s("TS"), &suffixes), None);
}

#[test]
fn method_name_through_bracket_literal() {
    let d = fixture_index();
    let t = transformer(&d);
    let call = LuaExpr::Call(
        s("TS"),
        vec![LuaSuffix::BracketStr(s("import")), LuaSuffix::CallArgs(vec![])],
    );
    assert_eq!(t.get_ts_method_name(&call), Some(s("import")));
}

#[test]
fn find_package_matches_by_suffix_only() {
    let d = fixture_index();
    let t = transformer(&d);
    assert_eq!(
        t.find_package_in_sourcemap("node_modules.@scope.pkg"),
        Some(s("Game.node_modules.@scope.pkg"))
    );
    assert_eq!(t.find_package_in_sourcemap("node_modules.@other.pkg"), None);
}

#[test]
fn marker_prefilter_is_exact() {
    assert!(contains_marker("local TS = _G[script]\nreturn TS"));
    assert!(contains_marker("-- header\nlocal TS = _G[script]"));
    assert!(!contains_marker("local TS = require(x)"));
    assert!(!contains_marker(""));
}

#[test]
fn synthesized_chain_shapes() {
    assert_eq!(create_findchild_call(s("script")), LuaExpr::VarName(s("script")));
    assert_eq!(
        create_findchild_call(s("script.Parent.Runtime")),
        LuaExpr::VarChain(
            s("script"),
            vec![LuaSuffix::Dot(s("Parent")), find_first_child("Runtime")],
        )
    );
    assert_eq!(
        create_require_call(s("a.b.c")),
        require_of(LuaExpr::VarChain(
            s("a"),
            vec![LuaSuffix::BracketStr(s("b")), LuaSuffix::BracketStr(s("c"))],
        ))
    );
    assert_eq!(
        create_find_child_require_call(s("x")),
        require_of(LuaExpr::VarName(s("x")))
    );
}
