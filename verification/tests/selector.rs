use grab::error::GrabError;
use grab::github_release::{select_asset, Asset};

fn asset(name: &str) -> Asset {
    Asset {
        name: name.to_string(),
        browser_download_url: format!("https://example.invalid/{}", name),
    }
}

#[test]
fn selects_first_matching_asset() {
    let assets = vec![asset("app-linux.tar.gz"), asset("app-windows.zip")];
    let picked = select_asset(&assets, "linux").unwrap();
    assert_eq!(picked.name, "app-linux.tar.gz");
}

#[test]
fn fails_when_no_asset_matches() {
    let assets = vec![asset("app-linux.tar.gz"), asset("app-windows.zip")];
    let e = select_asset(&assets, "darwin").unwrap_err();
    match e {
        GrabError::AssetNotFound(p) => assert_eq!(p, "darwin"),
        other => panic!("unexpected error: {:?}", other),
    }
}

#[test]
fn first_match_wins_over_later_matches() {
    let assets = vec![
        asset("tool-v1-linux-musl.tar.gz"),
        asset("tool-v1-linux-gnu.tar.gz"),
    ];
    let picked = select_asset(&assets, "linux").unwrap();
    assert_eq!(picked.name, "tool-v1-linux-musl.tar.gz");
}

#[test]
fn matching_is_case_sensitive() {
    let assets = vec![asset("app-Linux.tar.gz")];
    assert!(select_asset(&assets, "linux").is_err());
    assert!(select_asset(&assets, "Linux").is_ok());
}

#[test]
fn empty_asset_list_never_matches() {
    let assets: Vec<Asset> = Vec::new();
    assert!(select_asset(&assets, "anything").is_err());
}
