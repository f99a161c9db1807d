use rem_exec::env::{parse_env, EnvMap};
use rem_exec::error::{IoError, IoKind, RemExecError};
use rem_exec::json::{push_field, typed, Json};
use rem_exec::number::{
    parse_i32, parse_octal, parse_u32, parse_u64, render_hex_prefixed, render_i32, render_octal,
    render_u64,
};
use rem_exec::path::{directory, file_name, join};
use rem_exec::protocol::{
    error_with_hint, io_error_code, octal_mode, parse_octal_mode, DaemonRequest, ErrorCode,
    Request, Response,
};
use rem_exec::text::{
    char_is_white, contains, lines, one_line, split, split_once, split_whitespace, strip_prefix,
    strip_suffix, to_ascii_lowercase, trim,
};

#[test]
fn numbers_are_read_as_std_reads_them() {
    for s in ["0", "7", "+7", "007", "18446744073709551615", "18446744073709551616", "", "+", "-1", "1 ", "x"] {
        assert_eq!(parse_u64(s), s.parse::<u64>().ok(), "{s:?}");
        assert_eq!(parse_u32(s), s.parse::<u32>().ok(), "{s:?}");
    }
    for s in ["-2147483648", "-2147483649", "2147483647", "2147483648", "-0", "-", "+5", "--1"] {
        assert_eq!(parse_i32(s), s.parse::<i32>().ok(), "{s:?}");
    }
    for n in [0, 9, 10, 4096, u64::MAX] {
        assert_eq!(render_u64(n), n.to_string());
        assert_eq!(render_octal(n), format!("{n:o}"));
    }
    for n in [0, -1, i32::MIN, i32::MAX] {
        assert_eq!(render_i32(n), n.to_string());
        assert_eq!(parse_i32(&render_i32(n)), Some(n));
    }
    assert_eq!(parse_octal("644"), Some(0o644));
    assert_eq!(parse_octal("8"), None);
    assert_eq!(render_hex_prefixed(0x0a), "0xa");
}

#[test]
fn text_is_cut_as_std_cuts_it() {
    for s in ["", " a ", "\u{a0}b\u{2003}", "\t\r\n", "é è", "a\r\nb\n\nc\r", "x\n"] {
        assert_eq!(trim(s), s.trim(), "{s:?}");
        let own = lines(s);
        assert_eq!(own, s.lines().collect::<Vec<_>>(), "{s:?}");
        let own = split_whitespace(s);
        assert_eq!(own, s.split_whitespace().collect::<Vec<_>>(), "{s:?}");
        assert_eq!(to_ascii_lowercase(s), s.to_ascii_lowercase());
    }
    for n in 0..0x3100u32 {
        if let Some(c) = char::from_u32(n) {
            assert_eq!(char_is_white(c), c.is_whitespace(), "{n:#x}");
        }
    }
    assert_eq!(split("a::b", ':'), vec!["a", "", "b"]);
    assert_eq!(
        split_once("K=V=W", '='),
        Some(("K".to_string(), "V=W".to_string()))
    );
    assert_eq!(split_once("K", '='), None);
    assert_eq!(strip_prefix("ID=x", "ID=").as_deref(), Some("x"));
    assert_eq!(strip_suffix("a.tmp", ".tmp").as_deref(), Some("a"));
    assert!(contains("abcabd", "abd"));
    assert!(!contains("abcabc", "abd"));
    assert_eq!(one_line("  a\n\tb  c \n"), "a b c");
}

#[test]
fn paths_are_taken_apart_as_std_takes_them() {
    for p in ["/tmp/out.bin", "out.bin", "/out", "a/b/", "/", "", "..", "a/..", "a/.", "./x", "a//b"] {
        let std_path = std::path::Path::new(p);
        assert_eq!(
            file_name(p).as_deref(),
            std_path.file_name().and_then(|n| n.to_str()),
            "{p:?}"
        );
    }
    assert_eq!(directory("/tmp/out.bin"), "/tmp");
    assert_eq!(directory("out.bin"), ".");
    assert_eq!(directory("/out"), "/");
    assert_eq!(join("/a", "b"), "/a/b");
    assert_eq!(join("/a/", "b"), "/a/b");
}

#[test]
fn an_environment_is_sorted_and_a_later_pair_wins() {
    let pairs: Vec<String> = ["B=2", "A=1", "B=3=4", "C="].iter().map(|p| p.to_string()).collect();
    let env = parse_env(&pairs).unwrap();
    assert_eq!(env.len(), 3);
    assert_eq!(env.pair(0), ("A", "1"));
    assert_eq!(env.pair(1), ("B", "3=4"));
    assert_eq!(env.pair(2), ("C", ""));
    assert_eq!(env.to_value().get_text("B"), Some("3=4"));
    assert_eq!(EnvMap::new().len(), 0);
    for bad in ["NOEQUALS", "=V"] {
        let e = parse_env(&[bad.to_string()]).unwrap_err();
        assert_eq!(e, format!("invalid --env '{bad}' (expected K=V)"));
    }
}

#[test]
fn a_mode_is_four_octal_digits_and_reads_back() {
    assert_eq!(octal_mode(0o644), "0644");
    assert_eq!(octal_mode(0o104755), "4755");
    assert_eq!(octal_mode(0), "0000");
    for mode in [0, 0o600, 0o644, 0o4755, 0o7777] {
        assert_eq!(parse_octal_mode(&octal_mode(mode)).ok(), Some(mode));
    }
    for bad in ["", "9999", "rw", "-1", "0o"] {
        assert!(parse_octal_mode(bad).is_err(), "{bad:?}");
    }
}

const CODES: [ErrorCode; 16] = [
    ErrorCode::BadRequest,
    ErrorCode::InvalidProcessId,
    ErrorCode::ProcessNotFound,
    ErrorCode::ProcessExited,
    ErrorCode::Timeout,
    ErrorCode::NotDeployed,
    ErrorCode::DeployFailed,
    ErrorCode::Unsupported,
    ErrorCode::SshUnreachable,
    ErrorCode::SshAuth,
    ErrorCode::BadHost,
    ErrorCode::IncompleteTransfer,
    ErrorCode::EmptyStream,
    ErrorCode::FileChanged,
    ErrorCode::NotFound,
    ErrorCode::Internal,
];

#[test]
fn every_code_is_known_by_its_name() {
    for code in CODES {
        assert_eq!(ErrorCode::from_name(code.as_str()), Some(code));
        let value = Response::error_code(code, "m").to_value();
        assert_eq!(value.get_text("type"), Some("error"));
        assert_eq!(value.get_text("code"), Some(code.as_str()));
        assert!(matches!(value.get("retryable"), Some(Json::Bool(r)) if *r == code.retryable()));
        // Nothing is ever both exit 2 and retryable.
        assert!(!(code.exit_code() == 2 && code.retryable()));
    }
    assert_eq!(ErrorCode::from_name("nope"), None);
}

#[test]
fn a_path_error_is_told_from_a_machine_error() {
    let code = |kind| {
        io_error_code(&IoError {
            kind,
            message: String::new(),
        })
    };
    assert_eq!(code(IoKind::NotFound), ErrorCode::NotFound);
    assert_eq!(code(IoKind::PermissionDenied), ErrorCode::BadRequest);
    assert_eq!(code(IoKind::Other), ErrorCode::Internal);
}

#[test]
fn an_error_carries_its_hint() {
    let r = Response::error("m").with_hint("h");
    assert_eq!(r.to_value().get_text("hint"), Some("h"));
    assert_eq!(r.to_value().get_text("code"), Some("internal"));
    let r = error_with_hint(ErrorCode::BadHost, "m", "try");
    assert_eq!(r.to_value().get_text("message"), Some("m"));
    assert_eq!(r.to_value().get_text("hint"), Some("try"));
    // A hint belongs to an error alone.
    let r = Response::Killed { id: "0123abcd".to_string() }.with_hint("h");
    assert!(r.to_value().get("hint").is_none());
}

#[test]
fn a_member_is_found_by_its_first_name() {
    let mut fields = typed("thing");
    push_field(&mut fields, "n", Json::whole(-3));
    push_field(&mut fields, "n", Json::whole(4));
    push_field(&mut fields, "t", Json::text("x"));
    let v = Json::object(fields);
    assert_eq!(v.get_text("type"), Some("thing"));
    assert_eq!(v.get_int("n"), Some(-3));
    assert_eq!(v.get_int("t"), None);
    assert_eq!(v.get_text("n"), None);
    assert!(v.get("absent").is_none());
    assert!(Json::Null.get("n").is_none());
}

#[test]
fn a_request_names_its_action() {
    let read = Request::Read {
        id: "0123abcd".to_string(),
        stream: "stdout".to_string(),
        offset: Some(4),
        limit: None,
    };
    let v = read.to_value();
    assert_eq!(v.get_text("action"), Some("read"));
    assert_eq!(v.get_int("offset"), Some(4));
    assert!(matches!(v.get("limit"), Some(Json::Null)));
    assert_eq!(Request::Ping.to_value().get_text("action"), Some("ping"));
    let v = DaemonRequest::List {
        host: "h".to_string(),
    }
    .to_value();
    assert_eq!(v.get_text("host"), Some("h"));
}

#[test]
fn an_error_message_names_its_kind() {
    let io = RemExecError::Io(IoError {
        kind: IoKind::Other,
        message: "EIO".to_string(),
    });
    assert_eq!(io.message(), "IO error: EIO");
    assert_eq!(
        RemExecError::ProcessNotFound {
            id: "0123abcd".to_string()
        }
        .message(),
        "process not found: 0123abcd"
    );
    assert_eq!(RemExecError::BadHost("no".to_string()).message(), "no");
    assert_eq!(
        RemExecError::DaemonAlreadyRunning.message(),
        "daemon already running"
    );
}
