use playground::workspace::Workspace;
use std::collections::HashSet;

#[test]
fn paths_are_derived_from_the_identifier() {
    let ws = Workspace::with_id("/tmp/code", "abc", "c");
    assert_eq!(ws.id, "abc");
    assert_eq!(ws.root, "/tmp/code");
    assert_eq!(ws.source_path, "/tmp/code/abc.c");
    assert_eq!(ws.target_path, "/tmp/code/abc");
}

#[test]
fn a_root_that_ends_in_a_separator_gets_no_second_one() {
    let ws = Workspace::with_id("/tmp/code/", "abc", "py");
    assert_eq!(ws.source_path, "/tmp/code/abc.py");
    assert_eq!(ws.target_path, "/tmp/code/abc");
    let top = Workspace::with_id("/", "abc", "py");
    assert_eq!(top.source_path, "/abc.py");
}

#[test]
fn an_empty_root_gives_relative_paths() {
    let ws = Workspace::with_id("", "abc", "rs");
    assert_eq!(ws.source_path, "abc.rs");
    assert_eq!(ws.target_path, "abc");
}

#[test]
fn an_empty_extension_keeps_the_dot() {
    let ws = Workspace::with_id("scratch", "abc", "");
    assert_eq!(ws.source_path, "scratch/abc.");
    assert_eq!(ws.target_path, "scratch/abc");
}

#[test]
fn paths_agree_with_std_path_join() {
    for root in ["/tmp/code", "/tmp/code/", "rel", "rel/", "/", ""] {
        let ws = Workspace::with_id(root, "id-1", "cpp");
        let base = std::path::Path::new(root);
        assert_eq!(std::path::Path::new(&ws.source_path), base.join("id-1.cpp"));
        assert_eq!(std::path::Path::new(&ws.target_path), base.join("id-1"));
    }
}

#[test]
fn a_fresh_identifier_has_the_hyphenated_shape() {
    for _ in 0..200 {
        let ws = Workspace::acquire("/tmp/code", "c");
        let id: Vec<char> = ws.id.chars().collect();
        assert_eq!(id.len(), 36);
        for (i, c) in id.iter().enumerate() {
            if i == 8 || i == 13 || i == 18 || i == 23 {
                assert_eq!(*c, '-');
            } else {
                assert!(c.is_ascii_digit() || ('a'..='f').contains(c), "{:?}", ws.id);
            }
        }
        assert_eq!(id[14], '4');
        assert!(matches!(id[19], '8' | '9' | 'a' | 'b'));
    }
}

#[test]
fn a_fresh_identifier_is_a_version_four_uuid() {
    let ws = Workspace::acquire("/tmp/code", "c");
    let parsed = uuid::Uuid::parse_str(&ws.id).unwrap();
    assert_eq!(parsed.get_version_num(), 4);
    assert_eq!(parsed.to_string(), ws.id);
}

#[test]
fn a_fresh_workspace_lies_below_its_root() {
    let ws = Workspace::acquire("/tmp/code", "c");
    assert_eq!(ws.root, "/tmp/code");
    assert_eq!(ws.target_path, format!("/tmp/code/{}", ws.id));
    assert_eq!(ws.source_path, format!("/tmp/code/{}.c", ws.id));
}

#[test]
fn a_thousand_workspaces_share_no_identifier_and_no_path() {
    let mut ids = HashSet::new();
    let mut paths = HashSet::new();
    for _ in 0..1000 {
        let ws = Workspace::acquire("/tmp/code", "c");
        assert!(ids.insert(ws.id.clone()));
        assert!(paths.insert(ws.source_path.clone()));
        assert!(paths.insert(ws.target_path.clone()));
    }
    assert_eq!(ids.len(), 1000);
    assert_eq!(paths.len(), 2000);
}

#[test]
fn distinct_identifiers_give_distinct_paths() {
    let a = Workspace::with_id("/tmp/code", "aaaa", "c");
    let b = Workspace::with_id("/tmp/code", "aaab", "c");
    let all = [&a.source_path, &a.target_path, &b.source_path, &b.target_path];
    for i in 0..all.len() {
        for j in 0..all.len() {
            if i != j {
                assert_ne!(all[i], all[j]);
            }
        }
    }
}

#[test]
fn requests_in_different_languages_share_no_path() {
    let a = Workspace::acquire("/tmp/code", "c");
    let b = Workspace::acquire("/tmp/code", "py");
    let c = Workspace::acquire("/tmp/code", "");
    let all = [
        &a.source_path,
        &a.target_path,
        &b.source_path,
        &b.target_path,
        &c.source_path,
        &c.target_path,
    ];
    for i in 0..all.len() {
        for j in 0..all.len() {
            if i != j {
                assert_ne!(all[i], all[j]);
            }
        }
    }
}
