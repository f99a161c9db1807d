use rem_exec::remote::hostinfo::{identity, parse_os_release, unquote, UnameFields};

#[test]
fn parses_quoted_and_bare_values() {
    let content = "NAME=\"Alpine Linux\"\nID=alpine\nVERSION_ID=3.21\n";
    let (id, version) = parse_os_release(content);
    assert_eq!(id.as_deref(), Some("alpine"));
    assert_eq!(version.as_deref(), Some("3.21"));
}

#[test]
fn rolling_distro_has_no_version_id() {
    let content = "NAME=\"Arch Linux\"\nID=arch\nBUILD_ID=rolling\n";
    let (id, version) = parse_os_release(content);
    assert_eq!(id.as_deref(), Some("arch"));
    assert_eq!(version, None);
}

#[test]
fn does_not_confuse_version_id_with_other_keys() {
    // A substring match on "ID=" must not pick up VARIANT_ID etc.
    let content = "ID=debian\nVERSION_ID=\"12\"\nVARIANT_ID=server\n";
    let (id, version) = parse_os_release(content);
    assert_eq!(id.as_deref(), Some("debian"));
    assert_eq!(version.as_deref(), Some("12"));
}

#[test]
fn unquote_handles_single_quotes_and_whitespace() {
    assert_eq!(unquote("  'x' "), "x");
    assert_eq!(unquote("\"y\""), "y");
    assert_eq!(unquote("z"), "z");
}

#[test]
fn an_identity_is_uname_and_os_release() {
    let uname = UnameFields {
        sysname: b"Linux\0\0".to_vec(),
        release: b"6.12.4\0garbage".to_vec(),
        nodename: b"router1\0".to_vec(),
        machine: b"x86_64\0".to_vec(),
    };
    let id = identity(&Some(uname), Some("ID=alpine\nVERSION_ID=3.21\n"));
    assert_eq!(id.os, "Linux");
    assert_eq!(id.kernel, "6.12.4");
    assert_eq!(id.hostname, "router1");
    assert_eq!(id.arch, "x86_64");
    assert_eq!(id.distro_id.as_deref(), Some("alpine"));
    assert_eq!(id.distro_version.as_deref(), Some("3.21"));
    let unknown = identity(&None, None);
    assert_eq!(unknown.os, "unknown");
    assert_eq!(unknown.arch, "unknown");
    assert_eq!(unknown.distro_id, None);
}
