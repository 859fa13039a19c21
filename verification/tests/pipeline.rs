use grab::app::{
    check_outcome, download_outcome, run_check, run_download, CheckEvents, DownloadEvents,
    UpdateOutcome,
};
use grab::error::GrabError;
use grab::github_release::{Asset, Release};
use grab::github_version::Version;
use grab::models::App;

fn app(name: &str) -> App {
    App::new(
        name.to_string(),
        "owner".to_string(),
        "repo".to_string(),
        "linux".to_string(),
        "--version".to_string(),
    )
    .unwrap()
}

fn version(tag: &str) -> Version {
    Version {
        tag_name: tag.to_string(),
        html_url: "https://example.invalid/releases".to_string(),
    }
}

fn release_with(names: &[&str]) -> Release {
    Release {
        assets: names
            .iter()
            .map(|n| Asset {
                name: n.to_string(),
                browser_download_url: format!("https://example.invalid/{}", n),
            })
            .collect(),
    }
}

fn up_to_date_events() -> CheckEvents {
    CheckEvents {
        probe: Ok("1.0.0\n".to_string()),
        version: Ok(version("v1.0.0")),
        release: Ok(release_with(&["app-linux.tar.gz"])),
        download: Ok(()),
    }
}

#[test]
fn one_failing_unit_leaves_siblings_alone() {
    // Five apps; the probe of the third fails. The batch still yields five
    // outcomes, and only the third one failed.
    let apps: Vec<App> = (0..5).map(|i| app(&format!("tool{}", i))).collect();
    let mut events: Vec<CheckEvents> = Vec::new();
    for i in 0..5 {
        if i == 2 {
            events.push(CheckEvents {
                probe: Err(GrabError::CommandFailed {
                    command: "tool2".to_string(),
                    exit_code: 127,
                    stderr: "not found".to_string(),
                }),
                version: Ok(version("v1.0.0")),
                release: Ok(release_with(&["app-linux.tar.gz"])),
                download: Ok(()),
            });
        } else {
            events.push(up_to_date_events());
        }
    }
    let outcomes = run_check(&apps, events, true);
    assert_eq!(outcomes.len(), 5);
    let failed = outcomes
        .iter()
        .filter(|o| matches!(o, UpdateOutcome::Failed(_)))
        .count();
    assert_eq!(failed, 1);
    assert!(matches!(outcomes[2], UpdateOutcome::Failed(_)));
    for i in [0usize, 1, 3, 4] {
        assert_eq!(outcomes[i], UpdateOutcome::UpToDate);
    }
}

#[test]
fn update_downloads_matching_asset() {
    let ev = CheckEvents {
        probe: Ok("  1.0.0  ".to_string()),
        version: Ok(version("v2.0.0")),
        release: Ok(release_with(&["app-windows.zip", "app-linux.tar.gz"])),
        download: Ok(()),
    };
    let out = check_outcome("linux", ev, true);
    match out {
        UpdateOutcome::Updated(a) => assert_eq!(a.name, "app-linux.tar.gz"),
        other => panic!("unexpected outcome: {:?}", other),
    }
}

#[test]
fn update_without_download_still_selects_asset() {
    let ev = CheckEvents {
        probe: Ok("1.0.0".to_string()),
        version: Ok(version("v2.0.0")),
        release: Ok(release_with(&["app-linux.tar.gz"])),
        download: Err(GrabError::Http("unreachable".to_string())),
    };
    // With downloads switched off the download event is never consulted.
    let out = check_outcome("linux", ev, false);
    match out {
        UpdateOutcome::Updated(a) => assert_eq!(a.name, "app-linux.tar.gz"),
        other => panic!("unexpected outcome: {:?}", other),
    }
}

#[test]
fn failed_download_fails_the_unit() {
    let ev = CheckEvents {
        probe: Ok("1.0.0".to_string()),
        version: Ok(version("v2.0.0")),
        release: Ok(release_with(&["app-linux.tar.gz"])),
        download: Err(GrabError::Http("status 500".to_string())),
    };
    let out = check_outcome("linux", ev, true);
    assert!(matches!(out, UpdateOutcome::Failed(GrabError::Http(_))));
}

#[test]
fn missing_asset_fails_the_unit() {
    let ev = CheckEvents {
        probe: Ok("1.0.0".to_string()),
        version: Ok(version("v2.0.0")),
        release: Ok(release_with(&["app-windows.zip"])),
        download: Ok(()),
    };
    let out = check_outcome("linux", ev, true);
    match out {
        UpdateOutcome::Failed(GrabError::AssetNotFound(p)) => assert_eq!(p, "linux"),
        other => panic!("unexpected outcome: {:?}", other),
    }
}

#[test]
fn malformed_local_version_fails_the_unit() {
    let ev = CheckEvents {
        probe: Ok("development build".to_string()),
        version: Ok(version("v2.0.0")),
        release: Ok(release_with(&["app-linux.tar.gz"])),
        download: Ok(()),
    };
    let out = check_outcome("linux", ev, true);
    match out {
        UpdateOutcome::Failed(GrabError::InvalidRegexInput(m)) => {
            assert_eq!(m, "Invalid current version")
        }
        other => panic!("unexpected outcome: {:?}", other),
    }
}

#[test]
fn failed_release_query_fails_the_unit() {
    let ev = CheckEvents {
        probe: Ok("1.0.0".to_string()),
        version: Err(GrabError::Http("status 404".to_string())),
        release: Ok(release_with(&["app-linux.tar.gz"])),
        download: Ok(()),
    };
    let out = check_outcome("linux", ev, true);
    assert!(matches!(out, UpdateOutcome::Failed(GrabError::Http(_))));
}

#[test]
fn probe_output_is_trimmed_before_comparison() {
    let ev = CheckEvents {
        probe: Ok("\n\t 1.0.0 \n".to_string()),
        version: Ok(version("v1.0.0")),
        release: Ok(release_with(&["app-linux.tar.gz"])),
        download: Ok(()),
    };
    assert_eq!(check_outcome("linux", ev, true), UpdateOutcome::UpToDate);
}

#[test]
fn bulk_download_isolates_failures() {
    let apps: Vec<App> = (0..3).map(|i| app(&format!("tool{}", i))).collect();
    let events = vec![
        DownloadEvents {
            release: Ok(release_with(&["app-linux.tar.gz"])),
            download: Ok(()),
        },
        DownloadEvents {
            release: Err(GrabError::Http("timeout".to_string())),
            download: Ok(()),
        },
        DownloadEvents {
            release: Ok(release_with(&["app-linux.tar.gz"])),
            download: Ok(()),
        },
    ];
    let outcomes = run_download(&apps, events);
    assert_eq!(outcomes.len(), 3);
    assert!(matches!(outcomes[0], UpdateOutcome::Updated(_)));
    assert!(matches!(outcomes[1], UpdateOutcome::Failed(_)));
    assert!(matches!(outcomes[2], UpdateOutcome::Updated(_)));
}

#[test]
fn bulk_download_reports_selected_asset() {
    let out = download_outcome(
        "linux",
        Ok(release_with(&["a-windows.zip", "a-linux.tar.gz"])),
        Ok(()),
        true,
    );
    match out {
        UpdateOutcome::Updated(a) => assert_eq!(a.name, "a-linux.tar.gz"),
        other => panic!("unexpected outcome: {:?}", other),
    }
}
