//! The optional local daemon, which keeps state between invocations of rx.

use vstd::prelude::*;

use crate::error::{labelled, RemExecError};
use crate::number::{decimal, render_u64};
use crate::path::{join, joined_path};
use crate::text::{from_utf8_lossy, lossy_text};

pub mod server;
pub mod state;
pub mod stream;

verus! {

/// The directory for what the daemon leaves on disk.
pub open spec fn daemon_dir(runtime_dir: Option<&str>, uid: u32) -> Seq<char> {
    joined_path(
        match runtime_dir {
            Some(d) => d@,
            None => "/tmp/rem-exec-"@ + decimal(uid as nat),
        },
        "rem-exec"@,
    )
}

/// What the daemon leaves on disk stands below the user's own runtime directory, and
/// without one no two users share a place.
pub proof fn lemma_daemon_dirs_are_apart(a: u32, b: u32, dir: &str)
    ensures
        a != b ==> daemon_dir(None, a) != daemon_dir(None, b),
        crate::path::final_component(daemon_dir(Some(dir), a)) == Some("rem-exec"@),
        daemon_dir(Some(dir), a) == joined_path(dir@, "rem-exec"@),
{
    crate::process::lemma_base_dirs_are_apart(a, b, dir);
    reveal_strlit("/tmp/rem-exec-");
    reveal_strlit("rem-exec");
    let front = "/tmp/rem-exec-"@;
    let pa = front + decimal(a as nat);
    let pb = front + decimal(b as nat);
    crate::number::lemma_digits_roundtrip(a as nat, 10);
    crate::number::lemma_digits_roundtrip(b as nat, 10);
    assert(crate::number::is_digit(decimal(a as nat).last(), 10));
    assert(crate::number::is_digit(decimal(b as nat).last(), 10));
    assert(pa.last() == decimal(a as nat).last() && pb.last() == decimal(b as nat).last());
    let name = "rem-exec"@;
    assert(name[0] == 'r');
    assert(daemon_dir(None, a) == pa + seq!['/'] + name);
    assert(daemon_dir(None, b) == pb + seq!['/'] + name);
    if daemon_dir(None, a) == daemon_dir(None, b) {
        assert(pa.len() == pb.len());
        assert((pa + seq!['/'] + name).take(pa.len() as int) =~= pa);
        assert((pb + seq!['/'] + name).take(pa.len() as int) =~= pb);
    }
}

fn below(runtime_dir: Option<&str>, uid: u32, name: &str) -> (r: String)
    ensures
        r@ == joined_path(daemon_dir(runtime_dir, uid), name@),
{
    let dir = match runtime_dir {
        Some(d) => d.to_owned(),
        None => labelled("/tmp/rem-exec-", render_u64(uid as u64).as_str()),
    };
    join(join(dir.as_str(), "rem-exec").as_str(), name)
}

/// The daemon socket path, given `XDG_RUNTIME_DIR` and the user's id.
pub fn socket_path(runtime_dir: Option<&str>, uid: u32) -> (r: String)
    ensures
        r@ == joined_path(daemon_dir(runtime_dir, uid), "daemon.sock"@),
{
    below(runtime_dir, uid, "daemon.sock")
}

/// The daemon PID file path, given `XDG_RUNTIME_DIR` and the user's id.
pub fn pid_path(runtime_dir: Option<&str>, uid: u32) -> (r: String)
    ensures
        r@ == joined_path(daemon_dir(runtime_dir, uid), "daemon.pid"@),
{
    below(runtime_dir, uid, "daemon.pid")
}

/// The local base directory for cached process output, given `XDG_RUNTIME_DIR`
/// and the user's id.
pub fn local_base(runtime_dir: Option<&str>, uid: u32) -> (r: String)
    ensures
        r@ == joined_path(daemon_dir(runtime_dir, uid), "data"@),
{
    below(runtime_dir, uid, "data")
}

/// The error for an answer of the daemon that is not the JSON of a response.
pub fn invalid_response(e: &str, answer: &[u8]) -> (r: RemExecError)
    ensures
        r matches RemExecError::Protocol(m) && m@ == "invalid daemon response: "@ + e@ + ": "@
            + lossy_text(answer@),
{
    let mut m = labelled("invalid daemon response: ", e);
    m.append(": ");
    m.append(from_utf8_lossy(answer).as_str());
    RemExecError::Protocol(m)
}

} // verus!
