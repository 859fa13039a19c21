use grab::cli::AddArgs;
use grab::client::github_latest_release_url;
use grab::error::GrabError;
use grab::models::App;

#[test]
fn new_trims_every_field() {
    let a = App::new(
        "  rg ".to_string(),
        "\tBurntSushi\n".to_string(),
        " ripgrep ".to_string(),
        " linux ".to_string(),
        " --version ".to_string(),
    )
    .unwrap();
    assert_eq!(a.name, "rg");
    assert_eq!(a.owner, "BurntSushi");
    assert_eq!(a.repo, "ripgrep");
    assert_eq!(a.asset_pattern, "linux");
    assert_eq!(a.version_flag, "--version");
}

#[test]
fn new_rejects_blank_name_first() {
    let e = App::new(
        "   ".to_string(),
        "".to_string(),
        "r".to_string(),
        "p".to_string(),
        "f".to_string(),
    )
    .unwrap_err();
    match e {
        GrabError::InvalidInput(m) => assert_eq!(m, "Name cannot be empty"),
        other => panic!("unexpected error: {:?}", other),
    }
}

#[test]
fn new_names_each_blank_field() {
    let cases = [
        ("", "x", "x", "x", "x", "Name cannot be empty"),
        ("x", "", "x", "x", "x", "Owner cannot be empty"),
        ("x", "x", "", "x", "x", "Repo cannot be empty"),
        ("x", "x", "x", "", "x", "Asset pattern cannot be empty"),
        ("x", "x", "x", "x", "", "Version flag cannot be empty"),
    ];
    for (n, o, r, p, f, msg) in cases {
        let e = App::new(
            n.to_string(),
            o.to_string(),
            r.to_string(),
            p.to_string(),
            f.to_string(),
        )
        .unwrap_err();
        match e {
            GrabError::InvalidInput(m) => assert_eq!(m, msg),
            other => panic!("unexpected error: {:?}", other),
        }
    }
}

fn full_args() -> AddArgs {
    AddArgs {
        name: Some("rg".to_string()),
        owner: Some("BurntSushi".to_string()),
        repo: Some("ripgrep".to_string()),
        asset_pattern: Some("linux".to_string()),
        version_flag: Some("--version".to_string()),
        interactive: false,
    }
}

#[test]
fn complete_args_become_an_app() {
    let a = full_args().into_app().unwrap();
    assert_eq!(a.name, "rg");
    assert_eq!(a.owner, "BurntSushi");
}

#[test]
fn missing_name_is_reported_first() {
    let mut args = full_args();
    args.name = None;
    args.owner = None;
    let e = args.into_app().unwrap_err();
    match e {
        GrabError::InvalidInput(m) => assert_eq!(m, "Name of the app is required"),
        other => panic!("unexpected error: {:?}", other),
    }
}

#[test]
fn each_missing_argument_is_named() {
    let mut args = full_args();
    args.version_flag = None;
    match args.into_app().unwrap_err() {
        GrabError::InvalidInput(m) => assert_eq!(m, "Version flag is required"),
        other => panic!("unexpected error: {:?}", other),
    }
    let mut args = full_args();
    args.asset_pattern = None;
    match args.into_app().unwrap_err() {
        GrabError::InvalidInput(m) => assert_eq!(m, "Asset pattern of the repo is required"),
        other => panic!("unexpected error: {:?}", other),
    }
}

#[test]
fn identity_fields_decide_whether_to_prompt() {
    let args = full_args();
    assert!(!args.are_any_fields_missing());
    let mut args = full_args();
    args.owner = None;
    assert!(args.are_any_fields_missing());
    // A missing pattern or flag alone does not trigger prompting.
    let mut args = full_args();
    args.asset_pattern = None;
    args.version_flag = None;
    assert!(!args.are_any_fields_missing());
}

#[test]
fn new_trims_unicode_white_space() {
    let a = App::new(
        "\u{00A0}rg\u{00A0}".to_string(),
        "\u{2003}o".to_string(),
        "r".to_string(),
        "p".to_string(),
        "f".to_string(),
    )
    .unwrap();
    assert_eq!(a.name, "rg");
    assert_eq!(a.owner, "o");
}

#[test]
fn release_url_templates_owner_and_repo() {
    assert_eq!(
        github_latest_release_url("BurntSushi", "ripgrep"),
        "https://api.github.com/repos/BurntSushi/ripgrep/releases/latest"
    );
}
