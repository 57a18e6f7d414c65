use luau_retarget::resolve::roblox_path_to_luau_require;
use luau_retarget::strutil::{join_dots_exec, split_dots_exec, str_ends_with, str_eq};

#[test]
fn resolve_identical_paths_is_bare_self() {
    let r = roblox_path_to_luau_require("Game.A", "Game.A");
    assert_eq!(r, "script");
}

#[test]
fn resolve_one_ascend_two_descends() {
    let r = roblox_path_to_luau_require("Game.A.B", "Game.A.C.D");
    assert_eq!(r, "script.Parent.C.D");
}

#[test]
fn resolve_target_is_ancestor() {
    let r = roblox_path_to_luau_require("Game.A.B.C", "Game.A");
    assert_eq!(r, "script.Parent.Parent");
}

#[test]
fn resolve_disjoint_roots() {
    let r = roblox_path_to_luau_require("X.A", "Y.B");
    assert_eq!(r, "script.Parent.Parent.Y.B");
}

#[test]
fn resolve_source_is_ancestor() {
    let r = roblox_path_to_luau_require("Game", "Game.Modules.Foo");
    assert_eq!(r, "script.Modules.Foo");
}

#[test]
fn split_keeps_empty_segments() {
    let parts = split_dots_exec("a.b..c");
    assert_eq!(parts, vec!["a", "b", "", "c"]);
}

#[test]
fn split_of_empty_is_one_empty_segment() {
    let parts = split_dots_exec("");
    assert_eq!(parts, vec![""]);
}

#[test]
fn join_inverts_split() {
    let s = "Game.ReplicatedStorage..Modules.Foo";
    let joined = join_dots_exec(&split_dots_exec(s));
    assert_eq!(joined, s);
}

#[test]
fn string_helpers() {
    assert!(str_eq("Parent", "Parent"));
    assert!(!str_eq("Parent", "parent"));
    assert!(str_ends_with("Game.node_modules.pkg", "node_modules.pkg"));
    assert!(!str_ends_with("pkg", "node_modules.pkg"));
}
