use luau_retarget::index::{build_path_maps, collect_entries, RawEntry, SourcemapNode};
use luau_retarget::maps::SourcemapData;

fn node(name: &str, children: Vec<SourcemapNode>, file_paths: Vec<&str>) -> SourcemapNode {
    SourcemapNode {
        name: name.to_owned(),
        children,
        file_paths: file_paths.into_iter().map(|s| s.to_owned()).collect(),
    }
}

#[test]
fn maps_are_exact_inverses() {
    let mut d = SourcemapData::new();
    d.insert_pair("Game.A".to_owned(), "/fs/a".to_owned());
    d.insert_pair("Game.B".to_owned(), "/fs/b".to_owned());
    assert_eq!(d.get_fs("Game.A"), Some("/fs/a".to_owned()));
    assert_eq!(d.get_fs("Game.B"), Some("/fs/b".to_owned()));
    assert_eq!(d.get_roblox("/fs/a"), Some("Game.A".to_owned()));
    assert_eq!(d.get_roblox("/fs/b"), Some("Game.B".to_owned()));
    assert_eq!(d.get_fs("Game.C"), None);
}

#[test]
fn first_record_wins_on_duplicate_keys() {
    let mut d = SourcemapData::new();
    d.insert_pair("Game.A".to_owned(), "/fs/a".to_owned());
    d.insert_pair("Game.A".to_owned(), "/fs/other".to_owned());
    d.insert_pair("Game.Alias".to_owned(), "/fs/a".to_owned());
    assert_eq!(d.get_fs("Game.A"), Some("/fs/a".to_owned()));
    assert_eq!(d.get_roblox("/fs/a"), Some("Game.A".to_owned()));
    assert_eq!(d.get_fs("Game.Alias"), None);
}

#[test]
fn suffix_search_takes_first_recorded_match() {
    let mut d = SourcemapData::new();
    d.insert_pair("Game.X.node_modules.pkg".to_owned(), "/fs/x".to_owned());
    d.insert_pair("Game.Y.node_modules.pkg".to_owned(), "/fs/y".to_owned());
    assert_eq!(
        d.find_logical_with_suffix("node_modules.pkg"),
        Some("Game.X.node_modules.pkg".to_owned())
    );
    assert_eq!(d.find_logical_with_suffix("node_modules.absent"), None);
}

#[test]
fn collected_logical_paths_follow_ancestry() {
    let tree = node(
        "game.Project",
        vec![node(
            "ReplicatedStorage",
            vec![
                node("Modules", vec![node("Foo", vec![], vec!["src/foo.luau"])], vec![]),
                node("NoFile", vec![], vec![]),
            ],
            vec!["rs", "rs/default.project.json", "rs/readme.md"],
        )],
        vec![],
    );
    let mut out: Vec<RawEntry> = Vec::new();
    collect_entries(&tree, "", &mut out);
    assert_eq!(out.len(), 2);
    assert_eq!(out[0].logical, "Project.ReplicatedStorage");
    assert_eq!(out[0].file_ref, "rs");
    assert_eq!(out[0].project_marks, 1);
    assert_eq!(out[1].logical, "Project.ReplicatedStorage.Modules.Foo");
    assert_eq!(out[1].file_ref, "src/foo.luau");
    assert_eq!(out[1].project_marks, 0);
}

#[test]
fn unresolvable_file_reference_is_a_named_error() {
    let tree = node("Project", vec![], vec!["no/such/entry.luau"]);
    let mut d = SourcemapData::new();
    let r = build_path_maps(&tree, &mut d, "", "/tmp");
    let err = r.err().expect("missing filesystem entry must fail the build");
    assert_eq!(err.file_ref, "no/such/entry.luau");
    assert_eq!(d.get_fs("Project"), None);
}

#[test]
fn build_records_resolvable_references_both_ways() {
    let tree = node("Project", vec![node("Sub", vec![], vec!["."])], vec!["."]);
    let mut d = SourcemapData::new();
    let r = build_path_maps(&tree, &mut d, "", "/tmp");
    assert!(r.is_ok());
    let fs = d.get_fs("Project").expect("root must be recorded");
    assert_eq!(d.get_roblox(&fs), Some("Project".to_owned()));
    // both nodes resolve to the same directory: the first record wins
    assert_eq!(d.get_fs("Project.Sub"), None);
}

#[test]
fn build_marks_project_boundaries() {
    let tree = node("Project", vec![], vec![".", "default.project.json", "other.txt"]);
    let mut d = SourcemapData::new();
    let r = build_path_maps(&tree, &mut d, "", "/tmp");
    assert!(r.is_ok());
    let fs = d.get_fs("Project").expect("root must be recorded");
    assert_eq!(d.fs_projects, vec![fs]);
}
