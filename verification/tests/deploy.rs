use rem_exec::deploy::cache::{
    cached_binary_path, check_download, checksum_for_asset, download_failed,
    normalize_arch, normalize_requested_arches, normalize_version, plan_asset, printed_hash,
    release_url,
};
use rem_exec::deploy::fetch::{FetchEvent, FetchPhase};
use rem_exec::deploy::steps::{
    begin, deploy_to_host_with, downgrade_refusal, DeployEvent, DeployPhase,
};
use rem_exec::deploy::{
    compare_to_own_version, deploy_error_response, deploy_to_host, detect_arch, is_newer_than_own,
    is_older_than_own, not_deployed_response, own_version, parse_policy, policy,
    remote_deploy_status, set_policy, setup_release_binaries, should_auto_deploy, version_tuple,
    DeployOpts, DeployPolicy, DeployStatus, Fetch, SetupStatus, VERSION,
};
use rem_exec::error::{IoError, IoKind, RemExecError};
use rem_exec::json::Json;
use rem_exec::protocol::{ErrorCode, Response, PROTOCOL_VERSION};
use rem_exec::ssh::SshOutput;

fn flag(v: &Json, key: &str) -> Option<bool> {
    match v.get(key) {
        Some(Json::Bool(b)) => Some(*b),
        _ => None,
    }
}

#[test]
fn deploy_failure_is_a_typed_error_not_a_deployed_object() {
    let err = RemExecError::Other("failed to download SHA256SUMS: curl: (22) 404\n".into());
    let response = deploy_error_response("host1", &err);
    let json = response.to_value();

    assert_eq!(json.get_text("type"), Some("error"));
    assert_eq!(json.get_text("code"), Some("deploy_failed"));
    // A release that 404s does not appear on a second attempt.
    assert_eq!(flag(&json, "retryable"), Some(false));
    assert!(json.get_text("hint").expect("hint").contains("--binary"));
}

/// The message reaches the caller as one line: a compact JSON object is
/// what an agent reads, and a raw `\n` in the middle of it is noise.
#[test]
fn deploy_failure_message_is_collapsed_to_one_line() {
    let err = RemExecError::Other("failed to download:\ncurl: (22) 404\n".into());
    let response = deploy_error_response("host1", &err);
    let json = response.to_value();

    let message = json.get_text("message").expect("message");
    assert!(
        !message.contains('\n'),
        "message must be one line: {message:?}"
    );
    assert_eq!(
        message,
        "deploy to host1 failed: failed to download: curl: (22) 404"
    );
}

/// An unreachable host is not a deploy problem, and saying `deploy_failed`
/// would send an agent looking for a missing release instead of retrying.
#[test]
fn ssh_transport_failures_keep_their_own_code_during_deploy() {
    let err = RemExecError::Ssh("ssh: Could not resolve hostname host1".into());
    let response = deploy_error_response("host1", &err);
    let json = response.to_value();

    assert_eq!(json.get_text("code"), Some("ssh_unreachable"));
    assert_eq!(flag(&json, "retryable"), Some(true));
}

#[test]
fn policy_parses_flag_values_and_the_legacy_env_form() {
    assert_eq!(parse_policy("off"), Some(DeployPolicy::Off));
    assert_eq!(parse_policy("local"), Some(DeployPolicy::Local));
    assert_eq!(parse_policy("on"), Some(DeployPolicy::On));
    // REM_EXEC_AUTO_DEPLOY=1 kept meaning what it did in 0.2.x.
    assert_eq!(parse_policy("1"), Some(DeployPolicy::On));
    assert_eq!(parse_policy("0"), Some(DeployPolicy::Off));
    assert_eq!(parse_policy(" On "), Some(DeployPolicy::On));
    assert_eq!(parse_policy("sometimes"), None);
    // Default is the careful one: hosts never change as a side effect.
    assert_eq!(DeployPolicy::default(), DeployPolicy::Off);
}

#[test]
fn policy_gates_side_effects_not_explicit_deploys() {
    assert!(!DeployPolicy::Off.implicit_deploy());
    assert!(DeployPolicy::Local.implicit_deploy());
    assert!(!DeployPolicy::Local.implicit_fetch());
    assert!(DeployPolicy::On.implicit_fetch());
}

#[test]
fn version_ordering_handles_the_shapes_rxd_reports() {
    assert_eq!(version_tuple("0.3.1"), Some((0, 3, 1)));
    assert_eq!(version_tuple("v0.3.1"), Some((0, 3, 1)));
    assert_eq!(version_tuple("1.10.0"), Some((1, 10, 0)));
    // Pre-release/build metadata is dropped rather than mis-ordered.
    assert_eq!(version_tuple("0.3.1-rc1"), Some((0, 3, 1)));
    // Anything else is unorderable, not "equal".
    assert_eq!(version_tuple("0.3"), None);
    assert_eq!(version_tuple("0.3.1.2"), None);
    assert_eq!(version_tuple("nightly"), None);
    assert_eq!(version_tuple(""), None);
    // 10 > 9 numerically, not lexically.
    assert!(version_tuple("0.10.0") > version_tuple("0.9.0"));
}

#[test]
fn version_comparisons_only_fire_when_provable() {
    let own = VERSION;
    assert!(!is_older_than_own(own));
    assert!(!is_newer_than_own(own));
    assert!(is_older_than_own("0.0.1"));
    assert!(is_newer_than_own("99.0.0"));
    // Unorderable: neither older nor newer, so callers take the safe path
    // (no needless deploy, and no block on an explicit one).
    assert!(!is_older_than_own("nightly"));
    assert!(!is_newer_than_own("nightly"));
    assert_eq!(compare_to_own_version("nightly"), None);
    assert_eq!(own_version(), "v0.4.0");
}

#[test]
fn cached_binaries_are_keyed_by_version() {
    // The 0.2.x cache was version-blind, so an upgraded rx could deploy the
    // previous binary and only notice after overwriting the remote.
    let old = cached_binary_path("/cache", "v0.2.1", "x86_64");
    let new = cached_binary_path("/cache", "v0.3.0", "x86_64");
    assert_ne!(old, new);
    assert!(new.ends_with("rxd-v0.3.0-x86_64"));
}

#[test]
fn normalizes_release_versions() {
    assert_eq!(normalize_version(Some("v0.1.1")), "v0.1.1");
    assert_eq!(normalize_version(Some("0.1.1")), "v0.1.1");
}

#[test]
fn normalizes_supported_arches() {
    assert_eq!(normalize_arch("x86_64"), Some("x86_64"));
    assert_eq!(normalize_arch("amd64"), Some("x86_64"));
    assert_eq!(normalize_arch("arm64"), Some("aarch64"));
    assert_eq!(normalize_arch("riscv64gc"), Some("riscv64"));
    assert_eq!(normalize_arch("armv7l"), Some("armv7"));
    assert_eq!(normalize_arch("arm"), Some("armv7"));
    assert_eq!(normalize_arch("armv6l"), None); // armv6 can't run armv7 builds
    assert_eq!(normalize_arch("sparc64"), None);
}

#[test]
fn auto_deploy_triggers_only_on_missing_or_old_rxd() {
    // Missing / old rxd → deploy and retry.
    assert!(should_auto_deploy(&RemExecError::Ssh(
        "bash: line 1: .local/bin/rxd: not found".into()
    )));
    assert!(should_auto_deploy(&RemExecError::Ssh(
        "No such file or directory".into()
    )));
    assert!(should_auto_deploy(&RemExecError::Ssh(
        "error: unrecognized subcommand 'serve'".into()
    )));
    assert!(should_auto_deploy(&RemExecError::Protocol(
        "invalid JSON".into()
    )));

    // Auth failure / other errors → do NOT redeploy (would fail the same).
    assert!(!should_auto_deploy(&RemExecError::Ssh(
        "Permission denied (publickey).".into()
    )));
    assert!(!should_auto_deploy(&RemExecError::Io(IoError {
        kind: IoKind::Other,
        message: "boom".into()
    })));
}

#[test]
fn not_deployed_response_is_typed_and_names_the_fix() {
    let incompatible = not_deployed_response(
        "host1",
        &DeployStatus::Incompatible {
            version: "0.1.1".into(),
            protocol: 1,
        },
    );
    match incompatible {
        Response::Error {
            code,
            message,
            hint,
            retryable,
        } => {
            assert_eq!(code, Some(ErrorCode::NotDeployed));
            assert!(retryable, "a deploy could make the retry succeed");
            assert!(message.contains("protocol 1"), "{message}");
            let hint = hint.expect("hint present");
            assert!(hint.contains("rx deploy host1"), "{hint}");
            // The most-seen hint in the tool must teach the current env
            // name, not the one being retired.
            assert!(hint.contains("RX_AUTO_DEPLOY"), "{hint}");
            assert!(!hint.contains("REM_EXEC_AUTO_DEPLOY"), "{hint}");
        }
        other => panic!("expected error response, got {other:?}"),
    }

    // The missing case still names the fix.
    match not_deployed_response("h2", &DeployStatus::Missing) {
        Response::Error { code, hint, .. } => {
            assert_eq!(code, Some(ErrorCode::NotDeployed));
            assert!(hint.unwrap().contains("rx deploy h2"));
        }
        other => panic!("expected error response, got {other:?}"),
    }
}

#[test]
fn parses_checksum_for_asset() {
    let sums = "\
aaaaaaaa  rxd-x86_64
bbbbbbbb  rx-x86_64
cccccccc  rxd-aarch64
";
    assert_eq!(
        checksum_for_asset(sums, "rxd-aarch64"),
        Some("cccccccc".to_string())
    );
    assert_eq!(checksum_for_asset(sums, "rxd-riscv64"), None);
}

#[test]
fn a_fixed_policy_wins_over_the_environment() {
    let mut slot = None;
    assert_eq!(policy(slot, Some("local"), Some("on")), DeployPolicy::Local);
    assert_eq!(policy(slot, None, Some("1")), DeployPolicy::On);
    assert_eq!(policy(slot, None, None), DeployPolicy::Off);
    set_policy(&mut slot, DeployPolicy::On);
    assert_eq!(policy(slot, Some("off"), None), DeployPolicy::On);
    assert_eq!(DeployPolicy::Local.as_str(), "local");
}

#[test]
fn requested_arches_are_normalized_once_each() {
    let wanted = vec!["amd64".to_string(), "x86_64".to_string(), "arm".to_string()];
    assert_eq!(
        normalize_requested_arches(&wanted).unwrap(),
        vec!["x86_64", "armv7"]
    );
    assert_eq!(
        normalize_requested_arches(&[]).unwrap(),
        vec!["x86_64", "aarch64", "riscv64", "armv7"]
    );
    assert!(normalize_requested_arches(&["sparc64".to_string()])
        .unwrap_err()
        .message()
        .starts_with("unsupported architecture"));
}

fn ran(success: bool, stdout: &str, stderr: &str) -> SshOutput {
    SshOutput {
        success,
        status: "exit status: 1".to_string(),
        stdout: stdout.as_bytes().to_vec(),
        stderr: stderr.as_bytes().to_vec(),
    }
}

#[test]
fn an_architecture_is_detected_from_uname() {
    assert_eq!(detect_arch("h", &ran(true, "arm64\n", "")).unwrap(), "aarch64");
    assert!(detect_arch("h", &ran(true, "sparc64\n", "")).is_err());
    assert!(detect_arch("h", &ran(false, "", "no route to host")).is_err());
}

#[test]
fn a_release_asset_has_a_url_a_path_and_a_checksum() {
    assert_eq!(
        release_url("v0.4.0", "rxd-x86_64"),
        "https://github.com/kwinsch/rem-exec/releases/download/v0.4.0/rxd-x86_64"
    );
    let plan = plan_asset("abc123  rxd-x86_64\n", "v0.4.0", "x86_64", "/cache").unwrap();
    assert_eq!(plan.asset, "rxd-x86_64");
    assert_eq!(plan.expected, "abc123");
    assert_eq!(plan.dest, "/cache/rxd-v0.4.0-x86_64");
    assert!(plan_asset("", "v0.4.0", "x86_64", "/cache").is_err());
    assert!(check_download("rxd-x86_64", "abc123", "abc123").is_ok());
    assert!(check_download("rxd-x86_64", "abc123", "def456").is_err());
    assert_eq!(printed_hash("/f", &ran(true, "abc123  /f\n", "")).unwrap(), "abc123");
    assert!(printed_hash("/f", &ran(false, "", "no such file")).is_err());
}

#[test]
fn a_missing_release_is_not_an_internal_failure() {
    assert!(matches!(
        download_failed("u", Some(22), b"404"),
        RemExecError::AssetNotFound(_)
    ));
    assert!(matches!(
        download_failed(
            "u",
            Some(22),
            b"curl: (22) The requested URL returned error: 503"
        ),
        RemExecError::Other(_)
    ));
    assert!(matches!(
        download_failed("u", Some(6), b"404"),
        RemExecError::Other(_)
    ));
    assert!(!matches!(
        download_failed("u", Some(6), b"could not resolve"),
        RemExecError::AssetNotFound(_)
    ));
}

#[test]
fn a_setup_names_a_version_and_its_arches() {
    let fetch = setup_release_binaries(None, &[], false, "/cache", 7).unwrap();
    assert_eq!(fetch.version, "v0.4.0");
    assert_eq!(fetch.arches, ["x86_64", "aarch64", "riscv64", "armv7"]);
    assert_eq!(
        fetch.sums_url,
        "https://github.com/kwinsch/rem-exec/releases/download/v0.4.0/SHA256SUMS"
    );
    let asked: Vec<String> = ["arm64", "amd64", "aarch64"].iter().map(|a| a.to_string()).collect();
    let fetch = setup_release_binaries(Some("0.3.0"), &asked, false, "/cache", 7).unwrap();
    assert_eq!(fetch.version, "v0.3.0");
    assert_eq!(fetch.arches, ["aarch64", "x86_64"]);
    let e = setup_release_binaries(None, &["z80".to_string()], false, "/cache", 7).unwrap_err();
    assert_eq!(
        e.message(),
        "unsupported architecture z80; supported: x86_64, aarch64, riscv64, armv7"
    );
}

const SUMS: &str = "aaa  rxd-x86_64\nbbb  rxd-aarch64\n";

/// A fetch of two architectures whose cache directory is ready.
fn fetch(force: bool) -> Fetch {
    let asked: Vec<String> = ["x86_64", "aarch64"].iter().map(|a| a.to_string()).collect();
    let mut f = setup_release_binaries(None, &asked, force, "/cache", 7).unwrap();
    f.step(FetchEvent::Sums(Ok(SUMS.to_string())));
    assert_eq!(f.phase, FetchPhase::MakeStore);
    f.step(FetchEvent::Worked);
    f
}

fn hashed(f: &mut Fetch, hash: &str) {
    f.step(FetchEvent::Hashed(Ok(hash.to_string())));
}

#[test]
fn a_fetch_keeps_what_is_right_and_replaces_what_is_not() {
    let mut f = fetch(false);
    assert_eq!(f.phase, FetchPhase::Look);
    f.step(FetchEvent::Cached(Some(Ok("aaa".to_string()))));
    // The first one stays, the second one is stale.
    assert_eq!(f.phase, FetchPhase::Look);
    f.step(FetchEvent::Cached(Some(Ok("old".to_string()))));
    assert_eq!(f.phase, FetchPhase::Clear);
    assert_eq!(f.tmp, "/cache/rxd-aarch64-v0.4.0.download-7");
    f.step(FetchEvent::Worked);
    assert_eq!(f.phase, FetchPhase::Download);
    f.step(FetchEvent::Worked);
    assert_eq!(f.phase, FetchPhase::Hash);
    hashed(&mut f, "bbb");
    assert_eq!(f.phase, FetchPhase::Chmod);
    f.step(FetchEvent::Worked);
    assert_eq!(f.phase, FetchPhase::Rename);
    f.step(FetchEvent::Worked);
    assert_eq!(f.phase, FetchPhase::Finished);
    let done = f.report().unwrap();
    assert_eq!(done.version, "v0.4.0");
    assert_eq!(done.binaries[0].status, SetupStatus::Cached);
    assert_eq!(done.binaries[1].status, SetupStatus::Installed);
    assert_eq!(done.binaries[1].sha256, "bbb");
    assert_eq!(done.binaries[1].path, "/cache/rxd-v0.4.0-aarch64");
}

#[test]
fn a_download_with_another_checksum_is_discarded() {
    let mut f = fetch(true);
    // Nothing that is cached counts when a fresh download was asked for.
    assert_eq!(f.phase, FetchPhase::Clear);
    f.step(FetchEvent::Worked);
    f.step(FetchEvent::Worked);
    hashed(&mut f, "evil");
    assert_eq!(f.phase, FetchPhase::Discard);
    f.step(FetchEvent::Removed);
    assert_eq!(f.phase, FetchPhase::Finished);
    assert_eq!(
        f.report().unwrap_err().message(),
        "checksum mismatch for rxd-x86_64: expected aaa, got evil"
    );
}

#[test]
fn a_fetch_ends_with_the_first_failure() {
    let asked = ["riscv64".to_string()];
    let mut f = setup_release_binaries(None, &asked, false, "/cache", 7).unwrap();
    f.step(FetchEvent::Sums(Ok(SUMS.to_string())));
    f.step(FetchEvent::Worked);
    assert_eq!(f.phase, FetchPhase::Finished);
    assert_eq!(
        f.report().unwrap_err().message(),
        "SHA256SUMS for v0.4.0 does not contain checksum for rxd-riscv64"
    );

    let mut f = fetch(true);
    f.step(FetchEvent::Worked);
    f.step(FetchEvent::NotDownloaded(download_failed("u", Some(22), b"404")));
    assert!(matches!(
        f.report().unwrap_err(),
        RemExecError::AssetNotFound(_)
    ));

    let mut f = fetch(true);
    f.step(FetchEvent::Failed(IoError {
        kind: IoKind::PermissionDenied,
        message: "EACCES".to_string(),
    }));
    assert_eq!(f.report().unwrap_err().message(), "IO error: EACCES");
}

fn version(version: &str, protocol: u32) -> Result<Response, RemExecError> {
    Ok(Response::Version {
        version: version.to_string(),
        protocol,
    })
}

#[test]
fn the_probe_tells_current_incompatible_missing_and_unknown_apart() {
    assert!(matches!(
        remote_deploy_status(version("0.4.0", PROTOCOL_VERSION)),
        DeployStatus::Current { .. }
    ));
    assert!(matches!(
        remote_deploy_status(version("0.1.0", 1)),
        DeployStatus::Incompatible { protocol: 1, .. }
    ));
    assert!(matches!(
        remote_deploy_status(Err(RemExecError::Ssh("rxd: not found".to_string()))),
        DeployStatus::Missing
    ));
    assert!(matches!(
        remote_deploy_status(Err(RemExecError::Ssh("Connection refused".to_string()))),
        DeployStatus::Unknown
    ));
}

#[test]
fn a_newer_host_is_not_downgraded_unasked() {
    let newer = DeployStatus::Current {
        version: "99.0.0".to_string(),
    };
    assert!(downgrade_refusal("h", &newer).is_some());
    let older = DeployStatus::Current {
        version: "0.0.1".to_string(),
    };
    assert_eq!(downgrade_refusal("h", &older), None);

    let mut d = deploy_to_host("h", "/cache", 7);
    deploy_to_host_with(&mut d, DeployEvent::Probed(newer));
    assert!(matches!(d.phase, DeployPhase::Finished));
    assert!(matches!(d.outcome, Some(Err(RemExecError::Other(_)))));
}

#[test]
fn a_deployment_replaces_the_live_path_last() {
    let mut d = deploy_to_host("h", "/cache", 7);
    let mut phases = vec![d.phase];
    for event in [
        DeployEvent::Probed(DeployStatus::Missing),
        DeployEvent::Ran(ran(true, "x86_64\n", "")),
        DeployEvent::Exists(true),
        DeployEvent::Ran(ran(true, "", "")),
        DeployEvent::Ran(ran(true, "", "")),
        DeployEvent::Ran(ran(true, "", "")),
        DeployEvent::Ran(ran(true, "", "")),
        DeployEvent::Answered(version("0.4.0", PROTOCOL_VERSION)),
    ] {
        deploy_to_host_with(&mut d, event);
        phases.push(d.phase);
    }
    assert_eq!(
        phases,
        vec![
            DeployPhase::Probe,
            DeployPhase::DetectArch,
            DeployPhase::FindBinary,
            DeployPhase::MakeDir,
            DeployPhase::Upload,
            DeployPhase::MakeExecutable,
            DeployPhase::Install,
            DeployPhase::Verify,
            DeployPhase::Finished,
        ]
    );
    match d.outcome {
        Some(Ok(result)) => {
            assert_eq!(result.host, "h");
            assert_eq!(result.arch, "x86_64");
            assert_eq!(result.version, "0.4.0");
            assert!(result.changed);
        }
        other => panic!("expected a deployment, got {other:?}"),
    }
}

#[test]
fn a_failed_install_removes_the_upload() {
    let mut d = deploy_to_host("h", "/cache", 7);
    for event in [
        DeployEvent::Probed(DeployStatus::Missing),
        DeployEvent::Ran(ran(true, "x86_64\n", "")),
        DeployEvent::Exists(true),
        DeployEvent::Ran(ran(true, "", "")),
        DeployEvent::Ran(ran(true, "", "")),
        DeployEvent::Ran(ran(false, "", "read-only file system")),
    ] {
        deploy_to_host_with(&mut d, event);
    }
    assert!(matches!(d.phase, DeployPhase::RemoveStaged));
    assert_eq!(
        d.remote_words(),
        vec!["rm", "-f", ".local/bin/.rxd-deploy.7.tmp"]
    );
    deploy_to_host_with(&mut d, DeployEvent::Removed);
    match d.outcome {
        Some(Err(e)) => assert_eq!(
            e.message(),
            "SSH error: installing rxd on h failed at `chmod 755 .local/bin/.rxd-deploy.7.tmp`: read-only file system"
        ),
        other => panic!("expected a failure, got {other:?}"),
    }
}

#[test]
fn an_offline_deployment_never_fetches() {
    let opts = DeployOpts {
        binary: None,
        allow_fetch: false,
        allow_downgrade: false,
    };
    let mut d = begin("h", opts, "/cache", 7);
    deploy_to_host_with(&mut d, DeployEvent::Probed(DeployStatus::Missing));
    deploy_to_host_with(&mut d, DeployEvent::Ran(ran(true, "x86_64\n", "")));
    deploy_to_host_with(&mut d, DeployEvent::Exists(false));
    assert!(matches!(d.phase, DeployPhase::Finished));
    assert!(matches!(d.outcome, Some(Err(_))));
}
