use grab::app::{add_app, list_apps, remove_app, search_apps};
use grab::error::GrabError;
use grab::models::App;

fn app(name: &str, owner: &str, repo: &str) -> App {
    App {
        name: name.to_string(),
        owner: owner.to_string(),
        repo: repo.to_string(),
        asset_pattern: "linux".to_string(),
        version_flag: "--version".to_string(),
    }
}

#[test]
fn add_appends_to_the_registry() {
    let mut apps = vec![app("a", "o", "r")];
    add_app(&mut apps, app("b", "p", "s"));
    assert_eq!(apps.len(), 2);
    assert_eq!(apps[1].name, "b");
}

#[test]
fn remove_uses_one_based_indexing() {
    let mut apps = vec![app("a", "o", "r"), app("b", "p", "s")];
    remove_app(&mut apps, 1).unwrap();
    assert_eq!(apps.len(), 1);
    assert_eq!(apps[0].name, "b");
}

#[test]
fn remove_rejects_index_zero() {
    let mut apps = vec![app("a", "o", "r")];
    match remove_app(&mut apps, 0) {
        Err(GrabError::InvalidInput(m)) => assert_eq!(m, "Index must be greater than 0"),
        other => panic!("unexpected result: {:?}", other),
    }
    assert_eq!(apps.len(), 1);
}

#[test]
fn remove_rejects_index_past_the_end() {
    let mut apps = vec![app("a", "o", "r")];
    match remove_app(&mut apps, 12) {
        Err(GrabError::NotFound(m)) => assert_eq!(m, "No app found at index 12"),
        other => panic!("unexpected result: {:?}", other),
    }
    assert_eq!(apps.len(), 1);
}

#[test]
fn search_is_case_insensitive() {
    let apps = vec![app("Linux-Tool", "Owner", "Repo"), app("other", "x", "y")];
    let hits = search_apps(apps, "LINUX");
    assert_eq!(hits.len(), 1);
    assert_eq!(hits[0].0, 1);
    assert_eq!(hits[0].1.name, "Linux-Tool");
}

#[test]
fn search_matches_owner_and_repo_too() {
    let apps = vec![
        app("a", "BurntSushi", "x"),
        app("b", "y", "ripgrep"),
        app("c", "z", "w"),
    ];
    let hits = search_apps(apps, "burnt");
    assert_eq!(hits.len(), 1);
    assert_eq!(hits[0].0, 1);

    let apps = vec![
        app("a", "BurntSushi", "x"),
        app("b", "y", "ripgrep"),
        app("c", "z", "w"),
    ];
    let hits = search_apps(apps, "RIP");
    assert_eq!(hits.len(), 1);
    assert_eq!(hits[0].0, 2);
}

#[test]
fn search_keeps_registry_order_and_indices() {
    let apps = vec![app("tool-a", "o", "r"), app("x", "o", "r"), app("tool-b", "o", "r")];
    let hits = search_apps(apps, "tool");
    assert_eq!(hits.len(), 2);
    assert_eq!(hits[0].0, 1);
    assert_eq!(hits[1].0, 3);
}

#[test]
fn search_without_hits_is_empty() {
    let apps = vec![app("a", "o", "r")];
    assert!(search_apps(apps, "zzz").is_empty());
}

#[test]
fn list_pairs_each_app_with_its_index() {
    let apps = vec![app("a", "o", "r"), app("b", "p", "s")];
    let listed = list_apps(apps, None);
    assert_eq!(listed.len(), 2);
    assert_eq!(listed[0].0, 1);
    assert_eq!(listed[0].1.name, "a");
    assert_eq!(listed[1].0, 2);
    assert_eq!(listed[1].1.name, "b");
}

#[test]
fn list_truncates_to_the_limit() {
    let apps = vec![app("a", "o", "r"), app("b", "p", "s"), app("c", "q", "t")];
    let listed = list_apps(apps, Some(2));
    assert_eq!(listed.len(), 2);
    assert_eq!(listed[1].0, 2);
}

#[test]
fn list_limit_past_the_end_lists_everything() {
    let apps = vec![app("a", "o", "r")];
    let listed = list_apps(apps, Some(10));
    assert_eq!(listed.len(), 1);
}
