//! Managed processes: where their state lives, and what it says.

use vstd::prelude::*;

use crate::error::{labelled, IoError, RemExecError};
use crate::number::{
    decimal, digits_of, hex_char, hex_pair, is_digit, parse_i32, parse_u32, parse_u64,
    push_hex_pair, render_i32, render_octal, render_u64, signed_decimal, signed_number,
    unsigned_number,
};
use crate::path::{file_name, final_component, join, joined_path};
use crate::text::{
    char_is_hex_digit, chars_of, ends_with, has_prefix, has_suffix, is_hex_digit, same,
    slice_view, starts_with, string_of_range, trim, trimmed,
};

verus! {

// ---------------------------------------------------------------------------
// The base directory
// ---------------------------------------------------------------------------

/// The per-user base directory for process state: below the runtime directory
/// where there is one, else a directory of the user's own in `/tmp`.
pub open spec fn base_of(runtime_dir: Option<&str>, uid: u32) -> Seq<char> {
    match runtime_dir {
        Some(d) => joined_path(d@, "rem-exec"@),
        None => "/tmp/rem-exec-"@ + decimal(uid as nat),
    }
}

/// Return the per-user base directory for process state on the remote side,
/// given `XDG_RUNTIME_DIR` and the user's id.
pub fn remote_base(runtime_dir: Option<&str>, uid: u32) -> (r: String)
    ensures
        r@ == base_of(runtime_dir, uid),
{
    match runtime_dir {
        Some(d) => join(d, "rem-exec"),
        None => labelled("/tmp/rem-exec-", render_u64(uid as u64).as_str()),
    }
}

/// What `lstat` says of a directory entry.
#[derive(Debug, Clone, Copy)]
pub struct BaseDirMeta {
    pub is_symlink: bool,
    pub is_dir: bool,
    pub uid: u32,
    pub mode: u32,
}

/// What has to be done to the base directory before it is used.
#[derive(Debug, Clone, Copy, PartialEq, Eq, Structural)]
pub enum BaseDirPlan {
    /// It does not exist: create it with mode 0700.
    Create,
    /// It is safe to use as it is.
    Ready,
    /// It is ours but open to others: set its mode to 0700.
    Restrict,
}

/// A real directory of the user's own.
pub open spec fn is_own_dir(meta: BaseDirMeta, uid: u32) -> bool {
    !meta.is_symlink && meta.is_dir && meta.uid == uid
}

/// Some bit for the group or for others is set.
pub open spec fn is_open_to_others(mode: u32) -> bool {
    mode % 64 != 0
}

/// Why a directory entry is not usable as the base directory.
pub open spec fn base_dir_fault(base: Seq<char>, meta: BaseDirMeta, uid: u32) -> Seq<char> {
    if meta.is_symlink {
        "base dir "@ + base + " is a symlink — refusing to use"@
    } else if !meta.is_dir {
        "base dir "@ + base + " is not a directory"@
    } else {
        "base dir "@ + base + " owned by uid "@ + decimal(meta.uid as nat) + ", expected "@
            + decimal(uid as nat)
    }
}

/// `r` says what is to be done to the base directory, or why it is not used.
pub open spec fn is_base_plan(
    r: Result<BaseDirPlan, RemExecError>,
    base: Seq<char>,
    exists: bool,
    meta: Result<BaseDirMeta, IoError>,
    uid: u32,
) -> bool {
    if !exists {
        r == Ok::<BaseDirPlan, RemExecError>(BaseDirPlan::Create)
    } else {
        match meta {
            Err(e) => r matches Err(RemExecError::Other(m)) && m@ == "cannot stat base dir "@ + base
                + ": "@ + e.message@,
            Ok(found) => if is_own_dir(found, uid) {
                r == Ok::<BaseDirPlan, RemExecError>(
                    if is_open_to_others(found.mode) {
                        BaseDirPlan::Restrict
                    } else {
                        BaseDirPlan::Ready
                    },
                )
            } else {
                r matches Err(RemExecError::Other(m)) && m@ == base_dir_fault(base, found, uid)
            },
        }
    }
}

/// A base directory is used as it is only where it is a real directory, is the
/// user's own, and is open to nobody else; one that is open to others is closed
/// first, and anything else under that name is refused.
pub proof fn lemma_base_dir_is_private(
    r: Result<BaseDirPlan, RemExecError>,
    base: Seq<char>,
    exists: bool,
    meta: Result<BaseDirMeta, IoError>,
    uid: u32,
)
    requires
        is_base_plan(r, base, exists, meta, uid),
    ensures
        r == Ok::<BaseDirPlan, RemExecError>(BaseDirPlan::Create) <==> !exists,
        r == Ok::<BaseDirPlan, RemExecError>(BaseDirPlan::Ready) <==> exists && (meta matches Ok(m)
            && m.is_dir && !m.is_symlink && m.uid == uid && m.mode & 0o077 == 0),
        r == Ok::<BaseDirPlan, RemExecError>(BaseDirPlan::Restrict) <==> exists && (meta matches Ok(
            m,
        ) && m.is_dir && !m.is_symlink && m.uid == uid && m.mode & 0o077 != 0),
        r matches Err(e) ==> (e matches RemExecError::Other(m) && crate::text::contains_text(
            m@,
            base,
        )),
{
    match meta {
        Ok(m) => {
            let mode = m.mode;
            assert(mode & 0o077 == mode % 64) by (bit_vector);
            lemma_refused_base_dir_is_named(base, m, uid);
        },
        Err(e) => {
            let a = "cannot stat base dir "@;
            assert(a + base + ": "@ + e.message@ =~= a + base + (": "@ + e.message@));
            crate::text::lemma_part_occurs(a, base, ": "@ + e.message@);
        },
    }
}

/// The refusal of a base directory names the directory, and tells whose it is from whose
/// it should be.
pub proof fn lemma_refused_base_dir_is_named(base: Seq<char>, meta: BaseDirMeta, uid: u32)
    ensures
        crate::text::contains_text(base_dir_fault(base, meta, uid), base),
        !meta.is_symlink && meta.is_dir ==> crate::text::contains_text(
            base_dir_fault(base, meta, uid),
            "owned by uid "@ + decimal(meta.uid as nat),
        ) && crate::text::contains_text(
            base_dir_fault(base, meta, uid),
            "expected "@ + decimal(uid as nat),
        ),
{
    let a = "base dir "@;
    let t = base_dir_fault(base, meta, uid);
    let none = Seq::<char>::empty();
    if meta.is_symlink {
        crate::text::lemma_part_occurs(a, base, " is a symlink — refusing to use"@);
    } else if !meta.is_dir {
        crate::text::lemma_part_occurs(a, base, " is not a directory"@);
    } else {
        reveal_strlit(" owned by uid ");
        reveal_strlit("owned by uid ");
        reveal_strlit(" ");
        reveal_strlit(", expected ");
        reveal_strlit(", ");
        reveal_strlit("expected ");
        assert(" owned by uid "@ =~= " "@ + "owned by uid "@);
        assert(", expected "@ =~= ", "@ + "expected "@);
        let x = decimal(meta.uid as nat);
        let y = decimal(uid as nat);
        let rest = " owned by uid "@ + x + ", expected "@ + y;
        assert(t =~= a + base + rest);
        crate::text::lemma_part_occurs(a, base, rest);
        assert(t =~= (a + base + " "@) + ("owned by uid "@ + x) + (", expected "@ + y));
        crate::text::lemma_part_occurs(a + base + " "@, "owned by uid "@ + x, ", expected "@ + y);
        let front = a + base + " owned by uid "@ + x + ", "@;
        assert(t =~= front + ("expected "@ + y) + none);
        crate::text::lemma_part_occurs(front, "expected "@ + y, none);
    }
}

/// No two users share a base directory in `/tmp`, and one below a runtime directory
/// is an entry of it.
pub proof fn lemma_base_dirs_are_apart(a: u32, b: u32, dir: &str)
    ensures
        a != b ==> base_of(None, a) != base_of(None, b),
        final_component(base_of(Some(dir), a)) == Some("rem-exec"@),
        base_of(Some(dir), a) == base_of(Some(dir), b),
        has_prefix(base_of(None, a), "/tmp/"@),
{
    reveal_strlit("rem-exec");
    reveal_strlit("/tmp/rem-exec-");
    reveal_strlit("/tmp/");
    let name = "rem-exec"@;
    assert(name[0] == 'r');
    assert forall|i: int| 0 <= i < name.len() implies name[i] != '/' by {
        assert(name[0] == 'r' && name[1] == 'e' && name[2] == 'm' && name[3] == '-' && name[4] == 'e'
            && name[5] == 'x' && name[6] == 'e' && name[7] == 'c');
    }
    crate::path::lemma_joined_name(dir@, name);
    crate::number::lemma_unsigned_roundtrip(a as nat, u32::MAX as int);
    crate::number::lemma_unsigned_roundtrip(b as nat, u32::MAX as int);
    let front = "/tmp/rem-exec-"@;
    assert((front + decimal(a as nat)).skip(front.len() as int) =~= decimal(a as nat));
    assert((front + decimal(b as nat)).skip(front.len() as int) =~= decimal(b as nat));
    assert((front + decimal(a as nat)).take(5) =~= "/tmp/"@);
}

/// Validate that the base directory is safe to use: it does not exist yet, or
/// it is a real directory (not a symlink) owned by the current user. Says what
/// is left to do so that it is private.
pub fn ensure_base_dir(
    base: &str,
    exists: bool,
    meta: Result<BaseDirMeta, IoError>,
    uid: u32,
) -> (r: Result<BaseDirPlan, RemExecError>)
    ensures
        is_base_plan(r, base@, exists, meta, uid),
{
    if !exists {
        return Ok(BaseDirPlan::Create);
    }
    let found = match meta {
        Ok(m) => m,
        Err(e) => {
            let mut m = labelled("cannot stat base dir ", base);
            m.append(": ");
            m.append(e.message.as_str());
            return Err(RemExecError::Other(m));
        },
    };
    if found.is_symlink {
        let mut m = labelled("base dir ", base);
        m.append(" is a symlink — refusing to use");
        return Err(RemExecError::Other(m));
    }
    if !found.is_dir {
        let mut m = labelled("base dir ", base);
        m.append(" is not a directory");
        return Err(RemExecError::Other(m));
    }
    if found.uid != uid {
        let mut m = labelled("base dir ", base);
        m.append(" owned by uid ");
        m.append(render_u64(found.uid as u64).as_str());
        m.append(", expected ");
        m.append(render_u64(uid as u64).as_str());
        return Err(RemExecError::Other(m));
    }
    if found.mode % 64 != 0 {
        Ok(BaseDirPlan::Restrict)
    } else {
        Ok(BaseDirPlan::Ready)
    }
}

/// The error for a base directory whose mode could not be set.
pub fn restrict_failed(base: &str, mode: u32, e: &IoError) -> (r: RemExecError)
    ensures
        r matches RemExecError::Other(m) && m@ == "base dir "@ + base@
            + " has insecure permissions "@ + digits_of((mode % 512) as nat, 8)
            + " and chmod to 0700 failed ("@ + e.message@ + ")"@,
{
    let mut m = labelled("base dir ", base);
    m.append(" has insecure permissions ");
    m.append(render_octal((mode % 512) as u64).as_str());
    m.append(" and chmod to 0700 failed (");
    m.append(e.message.as_str());
    m.append(")");
    RemExecError::Other(m)
}

// ---------------------------------------------------------------------------
// Process IDs
// ---------------------------------------------------------------------------

/// Eight hexadecimal digits: a text that can only name a managed process.
pub open spec fn is_process_id(id: Seq<char>) -> bool {
    id.len() == 8 && forall|i: int| 0 <= i < id.len() ==> is_hex_digit(#[trigger] id[i])
}

/// Return true if a user-supplied process ID can only name a managed process.
pub fn is_valid_process_id(id: &str) -> (r: bool)
    ensures
        r == is_process_id(id@),
{
    let chars = chars_of(id);
    if chars.len() != 8 {
        return false;
    }
    let mut i: usize = 0;
    while i < chars.len()
        invariant
            i <= chars@.len() == 8,
            chars@ == id@,
            forall|k: int| 0 <= k < i ==> is_hex_digit(#[trigger] chars@[k]),
        decreases chars@.len() - i,
    {
        if !char_is_hex_digit(chars[i]) {
            assert(!is_hex_digit(id@[i as int]));
            return false;
        }
        i += 1;
    }
    true
}

/// A valid process ID is a single path component: below any base directory it
/// names an entry of that directory and nothing else.
pub proof fn lemma_process_id_is_a_name(base: Seq<char>, id: Seq<char>)
    requires
        is_process_id(id),
    ensures
        !id.contains('/'),
        final_component(joined_path(base, id)) == Some(id),
        joined_path(base, id) == (if base.len() == 0 || base.last() == '/' {
            base
        } else {
            base + seq!['/']
        }) + id,
{
    assert(!id.contains('/')) by {
        if id.contains('/') {
            let i = choose|i: int| 0 <= i < id.len() && id[i] == '/';
            assert(is_hex_digit(id[i]));
        }
    }
    crate::path::lemma_joined_name(base, id);
    assert(is_hex_digit(id[0]));
    assert(joined_path(base, id) =~= (if base.len() == 0 || base.last() == '/' {
        base
    } else {
        base + seq!['/']
    }) + id);
}

/// Two hexadecimal digits for every byte.
pub open spec fn hex_text(bytes: Seq<u8>) -> Seq<char>
    decreases bytes.len(),
{
    if bytes.len() == 0 {
        Seq::empty()
    } else {
        hex_text(bytes.drop_last()) + hex_pair(bytes.last())
    }
}

/// `bytes` in hexadecimal.
pub fn hex_encode(bytes: &[u8]) -> (r: String)
    ensures
        r@ == hex_text(bytes@),
{
    let mut s = String::new();
    let mut i: usize = 0;
    assert(bytes@.take(0) =~= Seq::<u8>::empty());
    while i < bytes.len()
        invariant
            i <= bytes@.len(),
            s@ == hex_text(bytes@.take(i as int)),
        decreases bytes@.len() - i,
    {
        push_hex_pair(&mut s, bytes[i]);
        proof {
            assert(bytes@.take(i + 1).drop_last() =~= bytes@.take(i as int));
        }
        i += 1;
    }
    assert(bytes@.take(i as int) =~= bytes@);
    s
}

proof fn lemma_hex_text(bytes: Seq<u8>)
    ensures
        hex_text(bytes).len() == 2 * bytes.len(),
        forall|i: int| 0 <= i < hex_text(bytes).len() ==> is_hex_digit(#[trigger] hex_text(bytes)[i]),
    decreases bytes.len(),
{
    if bytes.len() > 0 {
        let front = bytes.drop_last();
        lemma_hex_text(front);
        let s = hex_text(bytes);
        assert forall|i: int| 0 <= i < s.len() implies is_hex_digit(#[trigger] s[i]) by {
            if i < hex_text(front).len() {
                assert(s[i] == hex_text(front)[i]);
            } else {
                assert(s[i] == hex_pair(bytes.last())[i - hex_text(front).len()]);
                assert(is_hex_digit(hex_char(bytes.last() as int / 16)));
                assert(is_hex_digit(hex_char(bytes.last() as int % 16)));
            }
        }
    }
}

/// Different bytes make different texts, so that different random bytes make
/// different process IDs.
pub proof fn lemma_hex_text_is_injective(a: Seq<u8>, b: Seq<u8>)
    requires
        hex_text(a) == hex_text(b),
    ensures
        a == b,
    decreases a.len(),
{
    lemma_hex_text(a);
    lemma_hex_text(b);
    if a.len() > 0 {
        let x = a.last();
        let y = b.last();
        let fa = hex_text(a.drop_last());
        let fb = hex_text(b.drop_last());
        lemma_hex_text(a.drop_last());
        lemma_hex_text(b.drop_last());
        assert(hex_text(a).take(fa.len() as int) =~= fa);
        assert(hex_text(b).take(fa.len() as int) =~= fb);
        assert(hex_text(a)[fa.len() as int] == hex_char(x as int / 16));
        assert(hex_text(b)[fa.len() as int] == hex_char(y as int / 16));
        assert(hex_text(a)[fa.len() as int + 1] == hex_char(x as int % 16));
        assert(hex_text(b)[fa.len() as int + 1] == hex_char(y as int % 16));
        assert(x as int / 16 == y as int / 16 && x as int % 16 == y as int % 16);
        lemma_hex_text_is_injective(a.drop_last(), b.drop_last());
        assert(a =~= a.drop_last().push(x));
        assert(b =~= b.drop_last().push(y));
    } else {
        assert(a =~= b);
    }
}

/// The process ID that four random bytes make. It is always a valid one.
pub fn generate_id(random: &[u8]) -> (r: String)
    requires
        random@.len() == 4,
    ensures
        r@ == hex_text(random@),
        is_process_id(r@),
{
    proof {
        lemma_hex_text(random@);
    }
    hex_encode(random)
}

// ---------------------------------------------------------------------------
// Process states
// ---------------------------------------------------------------------------

/// Process state as it is recorded and shown.
#[derive(Debug, Clone, Copy, PartialEq, Eq, Structural)]
pub enum ProcessState {
    Running,
    /// Exited normally with this code.
    Exited(i32),
    /// Terminated by this signal number.
    Signaled(i32),
    /// Terminated by our own `kill`.
    ExitedKilled,
    /// Died without a recorded exit status (detected by self-healing).
    ExitedUnknown,
    /// The command never started; `execvp` failed with this `errno`.
    ExecFailed(i32),
}

/// What stands between a prefix of length `n` and the last character.
pub open spec fn inner(s: Seq<char>, n: int) -> Seq<char> {
    s.subrange(n, s.len() - 1)
}

/// The number between the brackets, or -1 where there is none.
pub open spec fn number_or_minus_one(s: Seq<char>) -> int {
    match signed_number(s, i32::MIN as int, i32::MAX as int) {
        Some(n) => n,
        None => -1,
    }
}

/// The state that a status text records. Anything unreadable is an unknown
/// end, never a running process.
pub open spec fn state_of(s: Seq<char>) -> ProcessState {
    if s == "running"@ {
        ProcessState::Running
    } else if s == "exited(killed)"@ {
        ProcessState::ExitedKilled
    } else if s == "exited(unknown)"@ {
        ProcessState::ExitedUnknown
    } else if has_prefix(s, "signaled("@) && has_suffix(s, ")"@) {
        ProcessState::Signaled(number_or_minus_one(inner(s, 9)) as i32)
    } else if has_prefix(s, "exited("@) && has_suffix(s, ")"@) {
        ProcessState::Exited(number_or_minus_one(inner(s, 7)) as i32)
    } else {
        ProcessState::ExitedUnknown
    }
}

/// Why a command could not be executed, by `errno`.
pub open spec fn reason_of(errno: i32) -> Seq<char> {
    if errno == 2 {
        "command_not_found"@
    } else if errno == 13 {
        "permission_denied"@
    } else if errno == 8 {
        "exec_format_error"@
    } else {
        "errno_"@ + signed_decimal(errno as int)
    }
}

/// Why a command could not be executed: no such file (`ENOENT`), not executable
/// (`EACCES`), not a program (`ENOEXEC`), or the number itself.
pub fn exec_reason(errno: i32) -> (r: String)
    ensures
        r@ == reason_of(errno),
{
    if errno == 2 {
        "command_not_found".to_owned()
    } else if errno == 13 {
        "permission_denied".to_owned()
    } else if errno == 8 {
        "exec_format_error".to_owned()
    } else {
        labelled("errno_", render_i32(errno).as_str())
    }
}

/// A text with an opening bracket in front and a closing one at its end is
/// longer than its front.
proof fn lemma_brackets(s: Seq<char>, prefix: Seq<char>)
    requires
        has_prefix(s, prefix),
        has_suffix(s, ")"@),
        prefix.len() > 0,
        prefix.last() == '(',
    ensures
        prefix.len() < s.len(),
{
    reveal_strlit(")");
    let n = prefix.len() as int;
    assert(s.take(n)[n - 1] == '(');
    assert(s.skip(s.len() - 1)[0] == ')');
}

/// The number in brackets after a prefix of length `n`.
fn bracketed(s: &str, n: usize) -> (r: i32)
    requires
        n < s@.len(),
    ensures
        r == number_or_minus_one(inner(s@, n as int)),
{
    let chars = chars_of(s);
    let body = string_of_range(&chars, n, chars.len() - 1);
    match parse_i32(body.as_str()) {
        Some(v) => v,
        None => -1,
    }
}

impl ProcessState {
    /// Reads a status text.
    pub fn parse(s: &str) -> (r: Self)
        ensures
            r == state_of(s@),
    {
        proof {
            reveal_strlit("signaled(");
            reveal_strlit("exited(");
            reveal_strlit(")");
        }
        if same(s, "running") {
            ProcessState::Running
        } else if same(s, "exited(killed)") {
            ProcessState::ExitedKilled
        } else if same(s, "exited(unknown)") {
            ProcessState::ExitedUnknown
        } else if starts_with(s, "signaled(") && ends_with(s, ")") {
            proof {
                lemma_brackets(s@, "signaled("@);
            }
            ProcessState::Signaled(bracketed(s, 9))
        } else if starts_with(s, "exited(") && ends_with(s, ")") {
            proof {
                lemma_brackets(s@, "exited("@);
            }
            ProcessState::Exited(bracketed(s, 7))
        } else {
            ProcessState::ExitedUnknown
        }
    }

    /// The text of this state.
    pub open spec fn text(self) -> Seq<char> {
        match self {
            ProcessState::Running => "running"@,
            ProcessState::Exited(code) => "exited("@ + signed_decimal(code as int) + ")"@,
            ProcessState::Signaled(sig) => "signaled("@ + signed_decimal(sig as int) + ")"@,
            ProcessState::ExitedKilled => "exited(killed)"@,
            ProcessState::ExitedUnknown => "exited(unknown)"@,
            ProcessState::ExecFailed(errno) => "exec_failed("@ + reason_of(errno) + ")"@,
        }
    }

    /// The text of this state, as it is recorded and shown.
    pub fn render(&self) -> (r: String)
        ensures
            r@ == self.text(),
    {
        match self {
            ProcessState::Running => "running".to_owned(),
            ProcessState::Exited(code) => {
                let mut s = labelled("exited(", render_i32(*code).as_str());
                s.append(")");
                s
            },
            ProcessState::Signaled(sig) => {
                let mut s = labelled("signaled(", render_i32(*sig).as_str());
                s.append(")");
                s
            },
            ProcessState::ExitedKilled => "exited(killed)".to_owned(),
            ProcessState::ExitedUnknown => "exited(unknown)".to_owned(),
            ProcessState::ExecFailed(errno) => {
                let mut s = labelled("exec_failed(", exec_reason(*errno).as_str());
                s.append(")");
                s
            },
        }
    }
}

/// Every state that a status file can record is read back as it was written.
/// A failed exec is not recorded there but in a marker of its own.
pub proof fn lemma_state_roundtrip(state: ProcessState)
    requires
        state !is ExecFailed,
    ensures
        state_of(state.text()) == state,
{
    reveal_strlit("running");
    reveal_strlit("exited(killed)");
    reveal_strlit("exited(unknown)");
    reveal_strlit("signaled(");
    reveal_strlit("exited(");
    reveal_strlit(")");
    let s = state.text();
    match state {
        ProcessState::Exited(n) => {
            crate::number::lemma_signed_roundtrip(n);
            let d = signed_decimal(n as int);
            assert(s[0] == 'e');
            assert(s[7] == d[0]);
            assert(s.take(7) =~= "exited("@);
            assert(s.skip(s.len() - 1) =~= ")"@);
            assert(inner(s, 7) =~= d);
            assert("exited(killed)"@[7] == 'k');
            assert("exited(unknown)"@[7] == 'u');
            assert("running"@[0] == 'r');
            if has_prefix(s, "signaled("@) {
                assert(s.take(9)[0] == 's');
            }
        },
        ProcessState::Signaled(n) => {
            crate::number::lemma_signed_roundtrip(n);
            let d = signed_decimal(n as int);
            assert(s[0] == 's');
            assert(s.take(9) =~= "signaled("@);
            assert(s.skip(s.len() - 1) =~= ")"@);
            assert(inner(s, 9) =~= d);
            assert("exited(killed)"@[0] == 'e');
            assert("exited(unknown)"@[0] == 'e');
            assert("running"@[0] == 'r');
        },
        ProcessState::ExitedKilled => {
            assert("running"@[0] == 'r');
            assert(s[0] == 'e');
        },
        ProcessState::ExitedUnknown => {
            assert("running"@[0] == 'r');
            assert(s[0] == 'e');
            assert("exited(killed)"@.len() == 14);
            assert(s.len() == 15);
        },
        _ => {},
    }
}

/// Only the text `running` is read as a running process.
pub proof fn lemma_only_running_is_running(s: Seq<char>)
    ensures
        state_of(s) is Running <==> s == "running"@,
{
}

// ---------------------------------------------------------------------------
// The process directory
// ---------------------------------------------------------------------------

/// Per-process state directory layout.
#[derive(Debug)]
pub struct ProcessDir {
    pub dir: String,
}

/// A number in a state file: its text, trimmed.
pub open spec fn recorded_number(content: Option<Seq<char>>, max: int) -> Option<int> {
    match content {
        Some(s) => unsigned_number(trimmed(s), max),
        None => None,
    }
}

/// A signed number in a state file: its text, trimmed.
pub open spec fn recorded_errno(content: Option<Seq<char>>) -> Option<int> {
    match content {
        Some(s) => signed_number(trimmed(s), i32::MIN as int, i32::MAX as int),
        None => None,
    }
}

/// A number that is written to a state file is read back.
pub proof fn lemma_recorded_number(n: nat, max: int)
    requires
        n <= max,
    ensures
        recorded_number(Some(decimal(n)), max) == Some(n as int),
{
    crate::number::lemma_unsigned_roundtrip(n, max);
    crate::number::lemma_digits_roundtrip(n, 10);
    let s = decimal(n);
    assert(is_digit(s[0], 10) && is_digit(s.last(), 10));
    crate::text::lemma_trimmed_already(s);
}

/// An `errno` that is written to a state file is read back.
pub proof fn lemma_recorded_errno(errno: i32)
    ensures
        recorded_errno(Some(signed_decimal(errno as int))) == Some(errno as int),
{
    crate::number::lemma_signed_roundtrip(errno);
    let s = signed_decimal(errno as int);
    assert(s[0] == '-' || is_digit(s[0], 10));
    assert(s.last() == s[s.len() - 1]);
    crate::text::lemma_trimmed_already(s);
}

/// A state that is written to the status file is read back.
pub proof fn lemma_recorded_state(state: ProcessState)
    requires
        state !is ExecFailed,
    ensures
        state_of(trimmed(state.text())) == state,
{
    lemma_state_roundtrip(state);
    reveal_strlit("running");
    reveal_strlit("exited(killed)");
    reveal_strlit("exited(unknown)");
    reveal_strlit("signaled(");
    reveal_strlit("exited(");
    reveal_strlit(")");
    let s = state.text();
    match state {
        ProcessState::Exited(_) => {
            assert(s[0] == 'e' && s.last() == ')');
        },
        ProcessState::Signaled(_) => {
            assert(s[0] == 's' && s.last() == ')');
        },
        ProcessState::Running => {
            assert(s[0] == 'r' && s.last() == 'g');
        },
        _ => {
            assert(s[0] == 'e' && s.last() == ')');
        },
    }
    crate::text::lemma_trimmed_already(s);
}

impl ProcessDir {
    /// The path of the entry `name` of this directory.
    pub open spec fn entry(self, name: Seq<char>) -> Seq<char> {
        joined_path(self.dir@, name)
    }

    /// The directory of process `id` below `base`.
    pub fn new(base: &str, id: &str) -> (r: Self)
        ensures
            r.dir@ == joined_path(base@, id@),
    {
        ProcessDir { dir: join(base, id) }
    }

    /// Where the command line is recorded.
    pub fn cmd_path(&self) -> (r: String)
        ensures
            r@ == self.entry("cmd"@),
    {
        join(self.dir.as_str(), "cmd")
    }

    /// Where the start time is recorded.
    pub fn started_path(&self) -> (r: String)
        ensures
            r@ == self.entry("started"@),
    {
        join(self.dir.as_str(), "started")
    }

    /// Where the end time is recorded.
    pub fn ended_path(&self) -> (r: String)
        ensures
            r@ == self.entry("ended"@),
    {
        join(self.dir.as_str(), "ended")
    }

    /// Where the state is recorded.
    pub fn status_path(&self) -> (r: String)
        ensures
            r@ == self.entry("status"@),
    {
        join(self.dir.as_str(), "status")
    }

    /// Where the command's PID is recorded.
    pub fn pid_path(&self) -> (r: String)
        ensures
            r@ == self.entry("pid"@),
    {
        join(self.dir.as_str(), "pid")
    }

    /// Where the runner's PID is recorded.
    pub fn runner_pid_path(&self) -> (r: String)
        ensures
            r@ == self.entry("runner_pid"@),
    {
        join(self.dir.as_str(), "runner_pid")
    }

    /// The FIFO that feeds the command's stdin.
    pub fn stdin_pipe_path(&self) -> (r: String)
        ensures
            r@ == self.entry("stdin_pipe"@),
    {
        join(self.dir.as_str(), "stdin_pipe")
    }

    /// Where the PID of the FIFO's holder is recorded.
    pub fn stdin_holder_path(&self) -> (r: String)
        ensures
            r@ == self.entry("stdin_holder_pid"@),
    {
        join(self.dir.as_str(), "stdin_holder_pid")
    }

    /// The captured standard output.
    pub fn stdout_path(&self) -> (r: String)
        ensures
            r@ == self.entry("stdout"@),
    {
        join(self.dir.as_str(), "stdout")
    }

    /// The captured standard error.
    pub fn stderr_path(&self) -> (r: String)
        ensures
            r@ == self.entry("stderr"@),
    {
        join(self.dir.as_str(), "stderr")
    }

    /// Where the `errno` of a failed exec is recorded.
    pub fn exec_error_path(&self) -> (r: String)
        ensures
            r@ == self.entry("exec_error"@),
    {
        join(self.dir.as_str(), "exec_error")
    }

    /// The file of a stream, if there is such a stream.
    pub fn stream_path(&self, stream: &str) -> (r: Option<String>)
        ensures
            r is Some <==> stream@ == "stdout"@ || stream@ == "stderr"@,
            r matches Some(p) ==> p@ == self.entry(stream@),
    {
        if same(stream, "stdout") {
            Some(self.stdout_path())
        } else if same(stream, "stderr") {
            Some(self.stderr_path())
        } else {
            None
        }
    }

    /// The process ID: the last component of the directory.
    pub open spec fn id_text(self) -> Seq<char> {
        match final_component(self.dir@) {
            Some(name) => name,
            None => "unknown"@,
        }
    }

    /// Extract the process ID from the directory path.
    pub fn id(&self) -> (r: String)
        ensures
            r@ == self.id_text(),
    {
        match file_name(self.dir.as_str()) {
            Some(name) => name,
            None => "unknown".to_owned(),
        }
    }

    /// The state that the status file holds; no file, no process.
    pub fn read_status(&self, content: Option<&str>) -> (r: Result<ProcessState, RemExecError>)
        ensures
            match content {
                Some(s) => r == Ok::<ProcessState, RemExecError>(state_of(trimmed(s@))),
                None => r matches Err(RemExecError::ProcessNotFound { id }) && id@
                    == self.id_text(),
            },
    {
        match content {
            Some(s) => {
                let t = trim(s);
                Ok(ProcessState::parse(t.as_str()))
            },
            None => Err(RemExecError::ProcessNotFound { id: self.id() }),
        }
    }

    /// The command line that was recorded, empty where none was.
    pub fn read_cmd(&self, content: Option<&str>) -> (r: String)
        ensures
            r@ == match content {
                Some(s) => trimmed(s@),
                None => Seq::empty(),
            },
    {
        match content {
            Some(s) => trim(s),
            None => String::new(),
        }
    }

    /// The start time that was recorded, zero where none was.
    pub fn read_started(&self, content: Option<&str>) -> (r: u64)
        ensures
            r == match recorded_number(slice_view(content), u64::MAX as int) {
                Some(n) => n,
                None => 0,
            },
    {
        match content {
            Some(s) => match parse_u64(trim(s).as_str()) {
                Some(n) => n,
                None => 0,
            },
            None => 0,
        }
    }

    /// The end time that was recorded, if any.
    pub fn read_ended(&self, content: Option<&str>) -> (r: Option<u64>)
        ensures
            r is Some <==> recorded_number(slice_view(content), u64::MAX as int) is Some,
            r matches Some(n) ==> recorded_number(slice_view(content), u64::MAX as int) == Some(n as int),
    {
        match content {
            Some(s) => parse_u64(trim(s).as_str()),
            None => None,
        }
    }

    /// A PID that was recorded, if any.
    pub fn read_pid(&self, content: Option<&str>) -> (r: Option<u32>)
        ensures
            r is Some <==> recorded_number(slice_view(content), u32::MAX as int) is Some,
            r matches Some(n) ==> recorded_number(slice_view(content), u32::MAX as int) == Some(n as int),
    {
        match content {
            Some(s) => parse_u32(trim(s).as_str()),
            None => None,
        }
    }

    /// The PID of the process that holds stdin open, if it was recorded.
    pub fn read_stdin_holder_pid(&self, content: Option<&str>) -> (r: Option<u32>)
        ensures
            r is Some <==> recorded_number(slice_view(content), u32::MAX as int) is Some,
            r matches Some(n) ==> recorded_number(slice_view(content), u32::MAX as int) == Some(n as int),
    {
        self.read_pid(content)
    }

    /// The PID of the runner, if it was recorded.
    pub fn read_runner_pid(&self, content: Option<&str>) -> (r: Option<u32>)
        ensures
            r is Some <==> recorded_number(slice_view(content), u32::MAX as int) is Some,
            r matches Some(n) ==> recorded_number(slice_view(content), u32::MAX as int) == Some(n as int),
    {
        self.read_pid(content)
    }

    /// The `errno` of a failed exec, if one was recorded.
    pub fn read_exec_error(&self, content: Option<&str>) -> (r: Option<i32>)
        ensures
            r is Some <==> recorded_errno(slice_view(content)) is Some,
            r matches Some(n) ==> recorded_errno(slice_view(content)) == Some(n as int),
    {
        match content {
            Some(s) => parse_i32(trim(s).as_str()),
            None => None,
        }
    }

    /// The size of a stream, given the sizes of the two files. Another stream
    /// has none.
    pub fn stream_size(&self, stream: &str, stdout: Option<u64>, stderr: Option<u64>) -> (r: u64)
        ensures
            r == size_of_stream(stream@, stdout, stderr),
    {
        let found: Option<u64> = if same(stream, "stdout") {
            stdout
        } else if same(stream, "stderr") {
            stderr
        } else {
            None
        };
        match found {
            Some(n) => n,
            None => 0,
        }
    }
}

/// The size of a stream, zero where there is no such file.
pub open spec fn size_of_stream(stream: Seq<char>, stdout: Option<u64>, stderr: Option<u64>) -> u64 {
    let found = if stream == "stdout"@ {
        stdout
    } else if stream == "stderr"@ {
        stderr
    } else {
        None
    };
    match found {
        Some(n) => n,
        None => 0,
    }
}

/// A stream has the size of its own file, and none where there is no such file.
pub proof fn lemma_stream_sizes(stdout: Option<u64>, stderr: Option<u64>)
    ensures
        stdout matches Some(n) ==> size_of_stream("stdout"@, stdout, stderr) == n,
        stderr matches Some(n) ==> size_of_stream("stderr"@, stdout, stderr) == n,
        stdout is None ==> size_of_stream("stdout"@, stdout, stderr) == 0,
        stderr is None ==> size_of_stream("stderr"@, stdout, stderr) == 0,
        forall|s: Seq<char>|
            s != "stdout"@ && s != "stderr"@ ==> #[trigger] size_of_stream(s, stdout, stderr) == 0,
{
    reveal_strlit("stdout");
    reveal_strlit("stderr");
    assert("stdout"@[3] == 'o' && "stderr"@[3] == 'e');
}

/// A program that is not there, one that may not be run and one that is no program are
/// told by name, as the system numbers them, and nothing else is told by these names.
pub proof fn lemma_reasons_are_named(errno: i32)
    ensures
        reason_of(errno) == "command_not_found"@ <==> errno == 2,
        reason_of(errno) == "permission_denied"@ <==> errno == 13,
        reason_of(errno) == "exec_format_error"@ <==> errno == 8,
        errno != 2 && errno != 13 && errno != 8 ==> has_suffix(
            reason_of(errno),
            signed_decimal(errno as int),
        ),
{
    if reason_of(errno) == reason_of(2) {
        lemma_reasons_differ(errno, 2);
    }
    if reason_of(errno) == reason_of(13) {
        lemma_reasons_differ(errno, 13);
    }
    if reason_of(errno) == reason_of(8) {
        lemma_reasons_differ(errno, 8);
    }
    let d = signed_decimal(errno as int);
    let t = "errno_"@ + d;
    assert(t.skip(t.len() - d.len()) =~= d);
}

/// Two reasons are the same only for the same `errno`: what a failed exec is
/// reported with tells the number.
pub proof fn lemma_reasons_differ(a: i32, b: i32)
    requires
        reason_of(a) == reason_of(b),
    ensures
        a == b,
{
    reveal_strlit("command_not_found");
    reveal_strlit("permission_denied");
    reveal_strlit("exec_format_error");
    reveal_strlit("errno_");
    assert("command_not_found"@[0] == 'c');
    assert("permission_denied"@[0] == 'p');
    assert("exec_format_error"@[1] == 'x');
    assert("exec_format_error"@[0] == 'e');
    let front = "errno_"@;
    assert(front[0] == 'e' && front[1] == 'r');
    crate::number::lemma_signed_roundtrip(a);
    crate::number::lemma_signed_roundtrip(b);
    let da = signed_decimal(a as int);
    let db = signed_decimal(b as int);
    assert((front + da).skip(6) =~= da);
    assert((front + db).skip(6) =~= db);
    assert((front + da)[0] == 'e' && (front + da)[1] == 'r');
    assert((front + db)[0] == 'e' && (front + db)[1] == 'r');
}

/// The process directory of a valid ID gives the ID back.
pub proof fn lemma_dir_id(base: Seq<char>, id: Seq<char>, dir: ProcessDir)
    requires
        is_process_id(id),
        dir.dir@ == joined_path(base, id),
    ensures
        dir.id_text() == id,
{
    lemma_process_id_is_a_name(base, id);
}

/// The unix timestamp for a clock that is `since_epoch` seconds past the epoch;
/// zero for a clock set before it.
pub fn unix_timestamp(since_epoch: Option<u64>) -> (r: u64)
    ensures
        r == match since_epoch {
            Some(s) => s,
            None => 0,
        },
{
    match since_epoch {
        Some(s) => s,
        None => 0,
    }
}

} // verus!
