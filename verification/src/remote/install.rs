//! Installing a file atomically: what is done in which order, and what is
//! answered when a step fails.

use vstd::prelude::*;

use crate::error::{labelled, IoError, IoKind};
use crate::framing::{chunked, unframed, wire_of, End, FrameError, CHUNK_SIZE};
use crate::number::{decimal, parse_u32, render_u64, unsigned_number};
use crate::path::{directory, directory_of, file_name, final_component, join, joined_path};
use crate::protocol::{
    code_of_io, error_with_hint, io_error_code, is_error, octal_mode, octal_text, ErrorCode,
    Response,
};
use crate::text::string_view;

verus! {

// ---------------------------------------------------------------------------
// The order of steps
// ---------------------------------------------------------------------------

/// What an installation wants done next.
#[derive(Debug, Clone, Copy, PartialEq, Eq, Structural)]
pub enum InstallPhase {
    /// Create the temp file, private (0600), which must not exist yet.
    Create,
    /// Stream the body into it and sync it.
    Fill,
    /// Give it this mode.
    Chmod(u32),
    /// Give it its owner and group.
    Chown,
    /// Read the mode that it has.
    Measure,
    /// Rename it to the target, then sync the directory.
    Rename,
    /// Remove the temp file, then answer.
    Discard,
    /// Nothing: there is an answer.
    Finished,
}

/// What came of the last step.
#[derive(Debug)]
pub enum InstallEvent {
    /// A system operation worked.
    Worked,
    /// A system operation failed.
    Failed(IoError),
    /// The body was streamed in, or must be rejected like this.
    Filled(Result<u64, Response>),
    /// Changing the owner failed like this.
    NotOwned(String),
    /// The mode of the temp file, where it could be read.
    Mode(Option<u32>),
    /// The temp file was removed, or could not be.
    Removed,
}

/// One file being installed.
#[derive(Debug)]
pub struct Install {
    pub path: String,
    /// The directory of the target.
    pub dir: String,
    /// The temp file, beside the target.
    pub tmp: String,
    pub mode: Option<u32>,
    pub owner: Option<String>,
    pub group: Option<String>,
    pub phase: InstallPhase,
    /// How many bytes were streamed in.
    pub bytes: u64,
    /// The mode the file ends up with, where it could be read.
    pub effective: Option<u32>,
    pub answer: Option<Response>,
}

/// The event is one that the phase waits for.
pub open spec fn install_fits(phase: InstallPhase, event: InstallEvent) -> bool {
    match phase {
        InstallPhase::Create | InstallPhase::Chmod(_) | InstallPhase::Rename => event is Worked
            || event is Failed,
        InstallPhase::Fill => event is Filled,
        InstallPhase::Chown => event is Worked || event is NotOwned,
        InstallPhase::Measure => event is Mode,
        InstallPhase::Discard => event is Removed,
        InstallPhase::Finished => false,
    }
}

/// What follows once the file has its mode.
pub open spec fn after_mode(j: Install) -> InstallPhase {
    if j.owner is Some || j.group is Some {
        InstallPhase::Chown
    } else {
        InstallPhase::Measure
    }
}

/// What follows once the file has its bytes.
pub open spec fn after_fill(j: Install) -> InstallPhase {
    match j.mode {
        Some(m) => InstallPhase::Chmod(m),
        None => after_mode(j),
    }
}

/// The phase after an event. Everything that goes wrong once the temp file
/// exists leads to its removal.
pub open spec fn install_next(j: Install, event: InstallEvent) -> InstallPhase {
    match (j.phase, event) {
        (InstallPhase::Create, InstallEvent::Worked) => InstallPhase::Fill,
        (InstallPhase::Create, _) => InstallPhase::Finished,
        (InstallPhase::Fill, InstallEvent::Filled(Ok(_))) => after_fill(j),
        (InstallPhase::Chmod(_), InstallEvent::Worked) => after_mode(j),
        (InstallPhase::Chown, InstallEvent::Worked) => InstallPhase::Measure,
        (InstallPhase::Measure, _) => InstallPhase::Rename,
        (InstallPhase::Rename, InstallEvent::Worked) => InstallPhase::Finished,
        (InstallPhase::Discard, _) => InstallPhase::Finished,
        _ => InstallPhase::Discard,
    }
}

/// The hint for a temp file that could not be created.
pub open spec fn create_hint(dir: Seq<char>, kind: IoKind) -> Option<Seq<char>> {
    match kind {
        IoKind::NotFound => Some(
            dir + " does not exist — create it first, e.g. `rx run HOST -- mkdir -p "@ + dir + "`"@,
        ),
        IoKind::PermissionDenied => Some(
            "the SSH user cannot write "@ + dir
                + " — choose a writable path, or run rxd privileged (deploy+invoke via doas)"@,
        ),
        _ => None,
    }
}

/// The hint for an owner that could not be set.
pub open spec fn owner_hint() -> Seq<char> {
    "owner/group need a privileged rxd (e.g. deploy+invoke rxd via doas)"@
}

/// The mode as it is shown.
pub open spec fn shown_mode(mode: Option<u32>) -> Option<Seq<char>> {
    match mode {
        Some(m) => Some(octal_text(m as int)),
        None => None,
    }
}

/// `r` says that the file was installed.
pub open spec fn is_copied(r: Response, to: Seq<char>, n: u64, m: Option<u32>) -> bool {
    r matches Response::Copied { path, bytes, mode } && path@ == to && bytes == n && string_view(
        mode,
    ) == shown_mode(m)
}

/// `r` is what is answered when this event ends the good path of `j`.
pub open spec fn is_install_answer(j: Install, event: InstallEvent, r: Response) -> bool {
    match (j.phase, event) {
        (InstallPhase::Create, InstallEvent::Failed(e)) => is_error(
            r,
            code_of_io(e.kind),
            "create temp file in "@ + j.dir@ + ": "@ + e.message@,
            create_hint(j.dir@, e.kind),
        ),
        (InstallPhase::Fill, InstallEvent::Filled(Err(rejection))) => r == rejection,
        (InstallPhase::Chmod(_), InstallEvent::Failed(e)) => is_error(
            r,
            code_of_io(e.kind),
            "chmod failed: "@ + e.message@,
            None,
        ),
        (InstallPhase::Chown, InstallEvent::NotOwned(m)) => is_error(
            r,
            ErrorCode::Unsupported,
            m@,
            Some(owner_hint()),
        ),
        (InstallPhase::Rename, InstallEvent::Failed(e)) => is_error(
            r,
            code_of_io(e.kind),
            "rename to "@ + j.path@ + ": "@ + e.message@,
            None,
        ),
        (InstallPhase::Rename, InstallEvent::Worked) => is_copied(
            r,
            j.path@,
            j.bytes,
            j.effective,
        ),
        _ => false,
    }
}

/// What an event does to an installation.
pub open spec fn installed(j0: Install, event: InstallEvent, j1: Install) -> bool {
    &&& j1.path == j0.path && j1.dir == j0.dir && j1.tmp == j0.tmp
    &&& j1.mode == j0.mode && j1.owner == j0.owner && j1.group == j0.group
    &&& j1.phase == install_next(j0, event)
    &&& j1.bytes == match event {
        InstallEvent::Filled(Ok(n)) => n,
        _ => j0.bytes,
    }
    &&& j1.effective == match event {
        InstallEvent::Mode(m) => m,
        _ => j0.effective,
    }
    &&& if j0.phase is Discard {
        j1.answer == j0.answer
    } else if j1.phase is Discard || j1.phase is Finished {
        j1.answer matches Some(r) && is_install_answer(j0, event, r)
    } else {
        j1.answer is None
    }
}

impl Install {
    /// There is an answer from the moment something went wrong or all is done.
    pub open spec fn wf(self) -> bool {
        (self.phase is Discard || self.phase is Finished) <==> self.answer is Some
    }

    fn fail(&mut self, phase: InstallPhase, answer: Response)
        ensures
            *final(self) == (Install { phase, answer: Some(answer), ..*old(self) }),
    {
        self.phase = phase;
        self.answer = Some(answer);
    }

    fn owned(&self) -> (r: InstallPhase)
        ensures
            r == after_mode(*self),
    {
        if self.owner.is_some() || self.group.is_some() {
            InstallPhase::Chown
        } else {
            InstallPhase::Measure
        }
    }
}

/// The name of the temp file of an installation.
pub open spec fn temp_name(suffix: Seq<char>) -> Seq<char> {
    ".rxd-put-"@ + suffix + ".tmp"@
}

/// `r` is an installation that is about to begin, or says why it cannot.
pub open spec fn is_install(
    r: Result<Install, Response>,
    path: Seq<char>,
    mode: Option<u32>,
    owner: Option<String>,
    group: Option<String>,
    suffix: Seq<char>,
) -> bool {
    match final_component(path) {
        Some(_) => r matches Ok(j) && j.phase is Create && j.path@ == path && j.dir@
            == directory_of(path) && j.tmp@ == joined_path(directory_of(path), temp_name(suffix))
            && j.mode == mode && j.owner == owner && j.group == group,
        None => r matches Err(resp) && is_error(
            resp,
            ErrorCode::BadRequest,
            "invalid target path: "@ + path,
            None,
        ),
    }
}

/// An installation goes to the path that was asked for, with the mode, the owner and the
/// group that were asked for, by way of a file in the same directory whose name no other
/// suffix gives; a path without a file name is the caller's mistake.
pub proof fn lemma_install_is_staged_beside(
    r: Result<Install, Response>,
    dir: Seq<char>,
    name: Seq<char>,
    mode: Option<u32>,
    owner: Option<String>,
    group: Option<String>,
    suffix: Seq<char>,
    other: Seq<char>,
)
    requires
        is_install(r, joined_path(dir, name), mode, owner, group, suffix),
        dir.len() > 0 && dir.last() != '/' && crate::path::trimmed_directory(dir) == dir,
        name.len() > 0 && !name.contains('/') && name != seq!['.'] && name != seq!['.', '.'],
        !suffix.contains('/'),
    ensures
        r matches Ok(j) && j.phase is Create && j.path@ == joined_path(dir, name) && j.dir@ == dir
            && directory_of(j.tmp@) == dir && j.mode == mode && j.owner == owner && j.group == group,
        suffix != other ==> temp_name(suffix) != temp_name(other),
{
    crate::path::lemma_joined_name(dir, name);
    crate::path::lemma_joined_directory(dir, name);
    reveal_strlit(".rxd-put-");
    reveal_strlit(".tmp");
    let t = temp_name(suffix);
    let u = temp_name(other);
    assert(t[0] == '.' && t[1] == 'r');
    assert forall|i: int| 0 <= i < t.len() implies t[i] != '/' by {
        if 9 <= i < 9 + suffix.len() {
            assert(t[i] == suffix[i - 9]);
            assert(suffix.contains(suffix[i - 9]));
        } else if i < 9 {
            assert(t[i] == ".rxd-put-"@[i]);
        } else {
            assert(t[i] == ".tmp"@[i - 9 - suffix.len()]);
        }
    }
    assert(!t.contains('/'));
    crate::path::lemma_joined_directory(dir, t);
    assert(t.subrange(9, t.len() - 4) =~= suffix);
    assert(u.subrange(9, u.len() - 4) =~= other);
}

/// Begin an installation: the target needs a file name, and the temp file stands
/// beside it, so that the rename stays within one directory.
pub fn begin_install(
    path: &str,
    mode: Option<u32>,
    owner: Option<String>,
    group: Option<String>,
    suffix: &str,
) -> (r: Result<Install, Response>)
    ensures
        r matches Ok(j) ==> j.wf(),
        is_install(r, path@, mode, owner, group, suffix@),
{
    if file_name(path).is_none() {
        return Err(
            Response::error_code(
                ErrorCode::BadRequest,
                labelled("invalid target path: ", path).as_str(),
            ),
        );
    }
    let dir = directory(path);
    let mut name = labelled(".rxd-put-", suffix);
    name.append(".tmp");
    let tmp = join(dir.as_str(), name.as_str());
    Ok(
        Install {
            path: path.to_owned(),
            dir,
            tmp,
            mode,
            owner,
            group,
            phase: InstallPhase::Create,
            bytes: 0,
            effective: None,
            answer: None,
        },
    )
}

/// The answer for a temp file that could not be created. The temp file is the
/// first thing that touches the destination directory, so a missing parent or an
/// unwritable one surfaces here; both are the caller's to fix.
fn not_created(dir: &str, e: &IoError) -> (r: Response)
    ensures
        is_error(
            r,
            code_of_io(e.kind),
            "create temp file in "@ + dir@ + ": "@ + e.message@,
            create_hint(dir@, e.kind),
        ),
{
    let mut text = labelled("create temp file in ", dir);
    text.append(": ");
    text.append(e.message.as_str());
    let code = io_error_code(e);
    match e.kind {
        IoKind::NotFound => {
            let mut hint = dir.to_owned();
            hint.append(" does not exist — create it first, e.g. `rx run HOST -- mkdir -p ");
            hint.append(dir);
            hint.append("`");
            error_with_hint(code, text.as_str(), hint.as_str())
        },
        IoKind::PermissionDenied => {
            let mut hint = labelled("the SSH user cannot write ", dir);
            hint.append(
                " — choose a writable path, or run rxd privileged (deploy+invoke via doas)",
            );
            error_with_hint(code, text.as_str(), hint.as_str())
        },
        _ => Response::error_code(code, text.as_str()),
    }
}

/// One step of installing a file: create, fill, mode, owner, rename. The file
/// only ever appears at its path whole and with its intended permissions.
pub fn install_file(job: &mut Install, event: InstallEvent)
    requires
        old(job).wf(),
        install_fits(old(job).phase, event),
    ensures
        final(job).wf(),
        installed(*old(job), event, *final(job)),
{
    match event {
        InstallEvent::Worked => match job.phase {
            InstallPhase::Create => {
                job.phase = InstallPhase::Fill;
            },
            InstallPhase::Chmod(_) => {
                job.phase = job.owned();
            },
            InstallPhase::Chown => {
                job.phase = InstallPhase::Measure;
            },
            _ => {
                // Report the mode the file actually has, not the one requested:
                // with none it keeps the temp file's own.
                let mode: Option<String> = match job.effective {
                    Some(m) => Some(octal_mode(m)),
                    None => None,
                };
                let answer = Response::Copied { path: job.path.clone(), bytes: job.bytes, mode };
                job.fail(InstallPhase::Finished, answer);
            },
        },
        InstallEvent::Failed(e) => match job.phase {
            InstallPhase::Create => {
                let answer = not_created(job.dir.as_str(), &e);
                job.fail(InstallPhase::Finished, answer);
            },
            InstallPhase::Chmod(_) => {
                let text = labelled("chmod failed: ", e.message.as_str());
                let answer = Response::error_code(io_error_code(&e), text.as_str());
                job.fail(InstallPhase::Discard, answer);
            },
            _ => {
                let mut text = labelled("rename to ", job.path.as_str());
                text.append(": ");
                text.append(e.message.as_str());
                let answer = Response::error_code(io_error_code(&e), text.as_str());
                job.fail(InstallPhase::Discard, answer);
            },
        },
        InstallEvent::Filled(Ok(n)) => {
            job.bytes = n;
            job.phase = match job.mode {
                Some(m) => InstallPhase::Chmod(m),
                None => job.owned(),
            };
        },
        InstallEvent::Filled(Err(rejection)) => {
            job.fail(InstallPhase::Discard, rejection);
        },
        InstallEvent::NotOwned(m) => {
            let answer = error_with_hint(
                ErrorCode::Unsupported,
                m.as_str(),
                "owner/group need a privileged rxd (e.g. deploy+invoke rxd via doas)",
            );
            job.fail(InstallPhase::Discard, answer);
        },
        InstallEvent::Mode(m) => {
            job.effective = m;
            job.phase = InstallPhase::Rename;
        },
        InstallEvent::Removed => {
            job.phase = InstallPhase::Finished;
        },
    }
}

/// The target is replaced last: a rename follows only on a file that was filled
/// and that has the mode and the owner that were asked for, each of which worked.
pub proof fn lemma_target_is_replaced_last(j: Install, event: InstallEvent)
    requires
        install_fits(j.phase, event),
    ensures
        install_next(j, event) is Rename ==> j.phase is Measure,
        install_next(j, event) is Measure ==> {
            ||| j.phase is Chown && event is Worked
            ||| j.phase is Chmod && event is Worked && j.owner is None && j.group is None
            ||| j.phase is Fill && (event matches InstallEvent::Filled(Ok(_))) && j.mode is None
                && j.owner is None && j.group is None
        },
        install_next(j, event) is Chown ==> {
            ||| j.phase is Chmod && event is Worked
            ||| j.phase is Fill && (event matches InstallEvent::Filled(Ok(_))) && j.mode is None
        },
        install_next(j, event) matches InstallPhase::Chmod(m) ==> j.phase is Fill && (event
            matches InstallEvent::Filled(Ok(_))) && j.mode == Some(m),
        install_next(j, event) is Fill ==> j.phase is Create && event is Worked,
{
}

/// No partial file is left behind: once the temp file exists, an installation
/// ends either by renaming it or by removing it.
pub proof fn lemma_rejected_transfer_leaves_nothing(j: Install, event: InstallEvent)
    requires
        install_fits(j.phase, event),
        j.phase !is Create,
    ensures
        install_next(j, event) is Finished ==> j.phase is Discard || (j.phase is Rename && event
            is Worked),
        (event is Failed || event is NotOwned || (event matches InstallEvent::Filled(Err(_))))
            ==> install_next(j, event) is Discard,
{
}

/// How many steps an installation still takes at most.
pub open spec fn install_rank(phase: InstallPhase) -> nat {
    match phase {
        InstallPhase::Create => 7,
        InstallPhase::Fill => 6,
        InstallPhase::Chmod(_) => 5,
        InstallPhase::Chown => 4,
        InstallPhase::Measure => 3,
        InstallPhase::Rename => 2,
        InstallPhase::Discard => 1,
        InstallPhase::Finished => 0,
    }
}

/// Every installation comes to an end.
pub proof fn lemma_install_ends(j: Install, event: InstallEvent)
    requires
        install_fits(j.phase, event),
    ensures
        install_rank(install_next(j, event)) < install_rank(j.phase),
{
}

/// A file: what it holds, its permission bits, and whether it was given the owner
/// and group that were asked for.
#[verifier::ext_equal]
pub struct StoredFile {
    pub bytes: Seq<u8>,
    pub mode: u32,
    pub owned: bool,
}

/// What the files are once the step of this phase was done.
pub open spec fn stepped(
    files: Map<Seq<char>, StoredFile>,
    j: Install,
    body: Seq<u8>,
) -> Map<Seq<char>, StoredFile> {
    match j.phase {
        InstallPhase::Create => files.insert(
            j.tmp@,
            StoredFile { bytes: Seq::empty(), mode: 0o600, owned: false },
        ),
        InstallPhase::Fill => files.insert(
            j.tmp@,
            StoredFile { bytes: body, ..files[j.tmp@] },
        ),
        InstallPhase::Chmod(m) => files.insert(
            j.tmp@,
            StoredFile { mode: m, ..files[j.tmp@] },
        ),
        InstallPhase::Chown => files.insert(
            j.tmp@,
            StoredFile { owned: true, ..files[j.tmp@] },
        ),
        InstallPhase::Rename => files.remove(j.tmp@).insert(j.path@, files[j.tmp@]),
        InstallPhase::Discard => files.remove(j.tmp@),
        InstallPhase::Measure | InstallPhase::Finished => files,
    }
}

/// What is heard of a step that worked.
pub open spec fn good_news(phase: InstallPhase, bytes: u64, mode: Option<u32>) -> InstallEvent {
    match phase {
        InstallPhase::Fill => InstallEvent::Filled(Ok(bytes)),
        InstallPhase::Measure => InstallEvent::Mode(mode),
        InstallPhase::Discard => InstallEvent::Removed,
        _ => InstallEvent::Worked,
    }
}

/// What the files are once every step that is left was done.
pub open spec fn carried_out(
    files: Map<Seq<char>, StoredFile>,
    j: Install,
    body: Seq<u8>,
    mode: Option<u32>,
) -> Map<Seq<char>, StoredFile>
    decreases install_rank(j.phase),
{
    let next = install_next(j, good_news(j.phase, body.len() as u64, mode));
    if j.phase is Finished || install_rank(next) >= install_rank(j.phase) {
        files
    } else {
        carried_out(stepped(files, j, body), Install { phase: next, ..j }, body, mode)
    }
}

/// An installation puts the file where it belongs: once its steps were done, the
/// path holds the body, with the mode that was asked for, private where none was,
/// and with the owner where one was asked for; the temp file is gone, and every
/// other file is as it was.
pub proof fn lemma_install_puts_the_file_there(
    files: Map<Seq<char>, StoredFile>,
    j: Install,
    body: Seq<u8>,
    mode: Option<u32>,
)
    requires
        j.phase is Create,
        j.path@ != j.tmp@,
    ensures
        ({
            let after = carried_out(files, j, body, mode);
            &&& after.contains_key(j.path@)
            &&& after[j.path@].bytes == body
            &&& after[j.path@].mode == (match j.mode {
                Some(m) => m,
                None => 0o600u32,
            })
            &&& after[j.path@].owned <==> j.owner is Some || j.group is Some
            &&& !after.contains_key(j.tmp@)
            &&& forall|other: Seq<char>|
                other != j.path@ && other != j.tmp@ ==> after.contains_key(other)
                    == files.contains_key(other) && #[trigger] after[other] == files[other]
        }),
{
    reveal_with_fuel(carried_out, 8);
}

/// A body that was rejected is answered with its rejection, as it is, and the temp file
/// is removed.
pub proof fn lemma_rejection_is_passed_on(j0: Install, rejection: Response, j1: Install)
    requires
        j0.phase is Fill,
        installed(j0, InstallEvent::Filled(Err(rejection)), j1),
    ensures
        j1.answer == Some(rejection),
        j1.phase is Discard,
{
}

/// What is wrong with an installation is said by its own code, and success only
/// where the file is in place: it names the path, the length that was written and
/// the mode that the file was seen to have.
pub proof fn lemma_install_is_answered(j: Install, event: InstallEvent, r: Response)
    requires
        is_install_answer(j, event, r),
        j.phase !is Fill,
    ensures
        r is Copied <==> j.phase is Rename && event is Worked,
        r !is Copied ==> r is Error,
        r matches Response::Copied { path, bytes, mode } ==> path@ == j.path@ && bytes == j.bytes
            && (j.effective is None <==> mode is None) && (j.effective matches Some(m) ==> (mode
            matches Some(text) && crate::protocol::mode_of(text@) == Some(m as int % 4096))),
        r matches Response::Error { code, .. } ==> (code == Some(ErrorCode::Unsupported)
            <==> j.phase is Chown),
        r matches Response::Error { code, hint, .. } ==> j.phase is Create ==> {
            &&& (event matches InstallEvent::Failed(e) && e.kind is NotFound) ==> code == Some(
                ErrorCode::NotFound,
            ) && hint is Some
            &&& (event matches InstallEvent::Failed(e) && e.kind is PermissionDenied) ==> code
                == Some(ErrorCode::BadRequest) && hint is Some
        },
{
    if let Some(m) = j.effective {
        crate::protocol::lemma_octal_roundtrip(m);
    }
}

// ---------------------------------------------------------------------------
// Accepting a body
// ---------------------------------------------------------------------------

/// `r` rejects a transfer with this code and text.
pub open spec fn rejects(r: Result<u64, Response>, code: ErrorCode, text: Seq<char>) -> bool {
    r matches Err(resp) && is_error(resp, code, text, None)
}

/// `r` is what becomes of a body of a declared size.
pub open spec fn is_put_verdict(
    r: Result<u64, Response>,
    path: Seq<char>,
    size: Option<u64>,
    copied: Result<u64, IoError>,
) -> bool {
    match copied {
        Err(e) => rejects(r, ErrorCode::Internal, "write failed: "@ + e.message@),
        Ok(n) => if size is Some && size != Some(n) {
            rejects(
                r,
                ErrorCode::IncompleteTransfer,
                "incomplete transfer to "@ + path + ": expected "@ + decimal(size->0 as nat)
                    + " bytes, received "@ + decimal(n as nat),
            )
        } else {
            r == Ok::<u64, Response>(n)
        },
    }
}

/// A body is accepted exactly where all of it was written and it is as long as was
/// declared; whatever is accepted is as long as what was written, and a body of
/// another length is rejected as incomplete, shorter or longer.
pub proof fn lemma_body_is_as_long_as_declared(
    r: Result<u64, Response>,
    path: Seq<char>,
    size: Option<u64>,
    copied: Result<u64, IoError>,
)
    requires
        is_put_verdict(r, path, size, copied),
    ensures
        r matches Ok(n) ==> (copied matches Ok(m) && m == n) && (size matches Some(d) ==> d == n),
        copied matches Ok(m) ==> (size is None || size == Some(m)) ==> r is Ok,
        copied matches Ok(m) ==> (size matches Some(d) && d != m) ==> (r matches Err(resp) && (resp
            matches Response::Error { code, .. } && code == Some(ErrorCode::IncompleteTransfer))),
        copied is Err ==> (r matches Err(resp) && (resp matches Response::Error { code, .. } && code
            == Some(ErrorCode::Internal))),
{
}

/// The rejection of a body of another length tells how much was declared from how much
/// arrived.
pub proof fn lemma_short_body_is_told(
    r: Result<u64, Response>,
    path: Seq<char>,
    declared: u64,
    arrived: u64,
)
    requires
        declared != arrived,
        is_put_verdict(r, path, Some(declared), Ok(arrived)),
    ensures
        r matches Err(Response::Error { message, .. }) && crate::text::contains_text(
            message@,
            "expected "@ + decimal(declared as nat),
        ) && crate::text::contains_text(message@, "received "@ + decimal(arrived as nat))
            && crate::text::contains_text(message@, path),
{
    reveal_strlit(": expected ");
    reveal_strlit(": ");
    reveal_strlit("expected ");
    reveal_strlit(" bytes, received ");
    reveal_strlit(" bytes, ");
    reveal_strlit("received ");
    assert(": expected "@ =~= ": "@ + "expected "@);
    assert(" bytes, received "@ =~= " bytes, "@ + "received "@);
    let none = Seq::<char>::empty();
    let a = "incomplete transfer to "@;
    let d = decimal(declared as nat);
    let n = decimal(arrived as nat);
    let t = a + path + ": expected "@ + d + " bytes, received "@ + n;
    assert(t =~= a + path + (": expected "@ + d + " bytes, received "@ + n));
    crate::text::lemma_part_occurs(a, path, ": expected "@ + d + " bytes, received "@ + n);
    assert(t =~= (a + path + ": "@) + ("expected "@ + d) + (" bytes, received "@ + n));
    crate::text::lemma_part_occurs(
        a + path + ": "@,
        "expected "@ + d,
        " bytes, received "@ + n,
    );
    let front = a + path + ": expected "@ + d + " bytes, "@;
    assert(t =~= front + ("received "@ + n) + none);
    crate::text::lemma_part_occurs(front, "received "@ + n, none);
}

/// A framed body is accepted exactly where its framing came to its end and it
/// holds a byte, or none was allowed; what is accepted is its length.
pub proof fn lemma_stream_is_accepted_whole(
    r: Result<u64, Response>,
    path: Seq<char>,
    copied: Result<(), CopyFault>,
    complete: bool,
    bytes: u64,
    allow_empty: bool,
)
    requires
        is_stream_verdict(r, path, copied, complete, bytes, allow_empty),
    ensures
        r is Ok <==> copied is Ok && complete && (bytes > 0 || allow_empty),
        r matches Ok(n) ==> n == bytes,
        r matches Err(resp) ==> (resp matches Response::Error { code, .. } && {
            &&& code == Some(ErrorCode::EmptyStream) <==> copied is Ok && complete
            &&& copied is Ok && !complete ==> code == Some(ErrorCode::IncompleteTransfer)
            &&& (copied matches Err(CopyFault::Frame(_))) ==> code == Some(
                ErrorCode::IncompleteTransfer,
            )
        }),
{
}

/// Whether a body of a declared size is accepted: a short stream (a dropped
/// connection) is rejected rather than installed as a truncated file.
pub fn put(path: &str, size: Option<u64>, copied: Result<u64, IoError>) -> (r: Result<u64, Response>)
    ensures
        is_put_verdict(r, path@, size, copied),
{
    match copied {
        Err(e) => Err(
            Response::error_code(
                ErrorCode::Internal,
                labelled("write failed: ", e.message.as_str()).as_str(),
            ),
        ),
        Ok(bytes) => match size {
            Some(expected) => {
                if bytes == expected {
                    return Ok(bytes);
                }
                let mut text = labelled("incomplete transfer to ", path);
                text.append(": expected ");
                text.append(render_u64(expected).as_str());
                text.append(" bytes, received ");
                text.append(render_u64(bytes).as_str());
                Err(Response::error_code(ErrorCode::IncompleteTransfer, text.as_str()))
            },
            None => Ok(bytes),
        },
    }
}

/// What ended the copying of a framed body early.
#[derive(Debug)]
pub enum CopyFault {
    /// The framing is broken.
    Frame(FrameError),
    /// Reading or writing failed.
    Io(IoError),
}

/// The text of the rejection of a stream that ended before its terminator.
pub open spec fn incomplete_text(path: Seq<char>, bytes: u64) -> Seq<char> {
    "incomplete transfer to "@ + path + ": stream ended after "@ + decimal(bytes as nat)
        + " bytes without its end marker (sender died or the connection dropped)"@
}

/// The rejection of a stream that ended before its terminator.
pub fn incomplete_stream(path: &str, bytes: u64) -> (r: Response)
    ensures
        is_error(r, ErrorCode::IncompleteTransfer, incomplete_text(path@, bytes), None),
{
    let mut text = labelled("incomplete transfer to ", path);
    text.append(": stream ended after ");
    text.append(render_u64(bytes).as_str());
    text.append(" bytes without its end marker (sender died or the connection dropped)");
    Response::error_code(ErrorCode::IncompleteTransfer, text.as_str())
}

/// `r` rejects a stream without a byte.
pub open spec fn rejects_empty(r: Result<u64, Response>, path: Seq<char>) -> bool {
    r matches Err(resp) && is_error(
        resp,
        ErrorCode::EmptyStream,
        "refusing to install an empty file at "@ + path + ": stdin carried 0 bytes"@,
        Some(
            "the producer in the pipe most likely failed (`set -o pipefail` surfaces that); pass --allow-empty to write an empty file on purpose"@,
        ),
    )
}

/// `r` is what becomes of a framed body.
pub open spec fn is_stream_verdict(
    r: Result<u64, Response>,
    path: Seq<char>,
    copied: Result<(), CopyFault>,
    complete: bool,
    bytes: u64,
    allow_empty: bool,
) -> bool {
    match copied {
        Err(CopyFault::Frame(FrameError::UnexpectedEof)) => rejects(
            r,
            ErrorCode::IncompleteTransfer,
            incomplete_text(path, bytes),
        ),
        Err(CopyFault::Frame(e)) => rejects(
            r,
            ErrorCode::IncompleteTransfer,
            path + ": "@ + e.text(),
        ),
        Err(CopyFault::Io(e)) => if e.kind is UnexpectedEof {
            rejects(r, ErrorCode::IncompleteTransfer, incomplete_text(path, bytes))
        } else if e.kind is InvalidData {
            rejects(r, ErrorCode::IncompleteTransfer, path + ": "@ + e.message@)
        } else {
            rejects(r, ErrorCode::Internal, "write failed: "@ + e.message@)
        },
        Ok(()) => if !complete {
            rejects(r, ErrorCode::IncompleteTransfer, incomplete_text(path, bytes))
        } else if bytes == 0 && !allow_empty {
            rejects_empty(r, path)
        } else {
            r == Ok::<u64, Response>(bytes)
        },
    }
}

fn broken(path: &str, text: &str) -> (r: Result<u64, Response>)
    ensures
        rejects(r, ErrorCode::IncompleteTransfer, path@ + ": "@ + text@),
{
    let mut message = labelled(path, ": ");
    message.append(text);
    Err(Response::error_code(ErrorCode::IncompleteTransfer, message.as_str()))
}

/// Whether a length-framed body is accepted, the length of which was not known
/// in advance. Completeness comes from the framing: without the terminator
/// nothing is installed. A stream that is well-formed but empty is rejected too,
/// unless that was asked for: it is what a failed producer in a pipe sends.
pub fn put_stream(
    path: &str,
    copied: Result<(), CopyFault>,
    complete: bool,
    bytes: u64,
    allow_empty: bool,
) -> (r: Result<u64, Response>)
    ensures
        is_stream_verdict(r, path@, copied, complete, bytes, allow_empty),
{
    match copied {
        Err(CopyFault::Frame(FrameError::UnexpectedEof)) => Err(incomplete_stream(path, bytes)),
        Err(CopyFault::Frame(e)) => broken(path, e.message().as_str()),
        Err(CopyFault::Io(e)) => match e.kind {
            IoKind::UnexpectedEof => Err(incomplete_stream(path, bytes)),
            IoKind::InvalidData => broken(path, e.message.as_str()),
            _ => Err(
                Response::error_code(
                    ErrorCode::Internal,
                    labelled("write failed: ", e.message.as_str()).as_str(),
                ),
            ),
        },
        Ok(()) => {
            if !complete {
                return Err(incomplete_stream(path, bytes));
            }
            if bytes == 0 && !allow_empty {
                let mut text = labelled("refusing to install an empty file at ", path);
                text.append(": stdin carried 0 bytes");
                return Err(
                    error_with_hint(
                        ErrorCode::EmptyStream,
                        text.as_str(),
                        "the producer in the pipe most likely failed (`set -o pipefail` surfaces that); pass --allow-empty to write an empty file on purpose",
                    ),
                );
            }
            Ok(bytes)
        },
    }
}

/// How copying a framed stream from the wire ends.
pub open spec fn copy_of(wire: Seq<u8>) -> Result<(), CopyFault> {
    match unframed(wire, 0).end {
        End::Complete { used } => Ok(()),
        End::Truncated => Err(CopyFault::Frame(FrameError::UnexpectedEof)),
        End::Bad(e) => Err(CopyFault::Frame(e)),
    }
}

/// What a sender wrote whole is accepted, with its byte count; an empty stream
/// only where that was asked for.
pub proof fn lemma_sent_stream_is_accepted(
    payload: Seq<u8>,
    path: Seq<char>,
    allow_empty: bool,
    r: Result<u64, Response>,
)
    requires
        payload.len() <= u64::MAX,
        is_stream_verdict(
            r,
            path,
            copy_of(wire_of(chunked(payload, CHUNK_SIZE as nat))),
            true,
            payload.len() as u64,
            allow_empty,
        ),
    ensures
        unframed(wire_of(chunked(payload, CHUNK_SIZE as nat)), 0).payload == payload,
        payload.len() > 0 || allow_empty ==> r == Ok::<u64, Response>(payload.len() as u64),
        payload.len() == 0 && !allow_empty ==> rejects_empty(r, path),
{
    crate::framing::lemma_write_then_read(payload);
}

/// A sender that dies mid-stream installs nothing: whatever prefix of its stream
/// arrived, the transfer is rejected as incomplete.
pub proof fn lemma_cut_stream_is_rejected(
    payload: Seq<u8>,
    cut: nat,
    path: Seq<char>,
    complete: bool,
    bytes: u64,
    allow_empty: bool,
    r: Result<u64, Response>,
)
    requires
        payload.len() <= u64::MAX,
        cut < wire_of(chunked(payload, CHUNK_SIZE as nat)).len(),
        is_stream_verdict(
            r,
            path,
            copy_of(wire_of(chunked(payload, CHUNK_SIZE as nat)).take(cut as int)),
            complete,
            bytes,
            allow_empty,
        ),
    ensures
        rejects(r, ErrorCode::IncompleteTransfer, incomplete_text(path, bytes)),
{
    crate::framing::lemma_chunked_payload(payload, CHUNK_SIZE as nat);
    crate::framing::lemma_truncation_is_seen(chunked(payload, CHUNK_SIZE as nat), cut);
}

// ---------------------------------------------------------------------------
// Owner and group
// ---------------------------------------------------------------------------

/// A user or group given by number, or by a name that the system knows.
pub open spec fn account(name: Seq<char>, known: Option<u32>) -> Option<u32> {
    match unsigned_number(name, u32::MAX as int) {
        Some(n) => Some(n as u32),
        None => known,
    }
}

/// The user ID for a name or number; `known` is what the system has for the name.
pub fn resolve_uid(owner: &str, known: Option<u32>) -> (r: Option<u32>)
    ensures
        r == account(owner@, known),
{
    match parse_u32(owner) {
        Some(n) => Some(n),
        None => known,
    }
}

/// The group ID for a name or number; `known` is what the system has for the
/// name.
pub fn resolve_gid(group: &str, known: Option<u32>) -> (r: Option<u32>)
    ensures
        r == account(group@, known),
{
    match parse_u32(group) {
        Some(n) => Some(n),
        None => known,
    }
}

/// What stands for "do not change" in a change of owner.
pub const UNCHANGED: u32 = 0xffff_ffff;

/// `r` holds the IDs to hand to chown, or says which account is not known.
pub open spec fn are_chown_ids(
    r: Result<(u32, u32), String>,
    owner: Option<String>,
    group: Option<String>,
    user: Option<u32>,
    members: Option<u32>,
) -> bool {
    match (owner, group) {
        (Some(o), _) if account(o@, user) is None => r matches Err(m) && m@ == "unknown user: "@
            + o@,
        (_, Some(g)) if account(g@, members) is None => r matches Err(m) && m@
            == "unknown group: "@ + g@,
        _ => r matches Ok(ids) && ids.0 == (match owner {
            Some(o) => account(o@, user)->0,
            None => UNCHANGED,
        }) && ids.1 == (match group {
            Some(g) => account(g@, members)->0,
            None => UNCHANGED,
        }),
    }
}

/// An account that is given by its number has that number, whatever the system
/// knows; any other name has the number that the system knows, if any.
pub proof fn lemma_account_by_number_or_name(n: u32, name: Seq<char>, known: Option<u32>)
    ensures
        account(decimal(n as nat), known) == Some(n),
        unsigned_number(name, u32::MAX as int) is None ==> account(name, known) == known,
{
    crate::number::lemma_unsigned_roundtrip(n as nat, u32::MAX as int);
}

/// The owner is the first of the two IDs and the group the second. One that was
/// not asked for is left as it is, which the system takes all ones for; and an
/// account that nobody knows is an error that names it, the owner first.
pub proof fn lemma_owner_and_group_are_not_mixed(
    r: Result<(u32, u32), String>,
    owner: Option<String>,
    group: Option<String>,
    user: Option<u32>,
    members: Option<u32>,
)
    requires
        are_chown_ids(r, owner, group, user, members),
    ensures
        r matches Ok(ids) ==> {
            &&& owner matches Some(o) ==> account(o@, user) == Some(ids.0)
            &&& group matches Some(g) ==> account(g@, members) == Some(ids.1)
            &&& owner is None ==> ids.0 == u32::MAX
            &&& group is None ==> ids.1 == u32::MAX
        },
        r is Err <==> {
            ||| (owner matches Some(o) && account(o@, user) is None)
            ||| (group matches Some(g) && account(g@, members) is None)
        },
        (owner matches Some(o) && account(o@, user) is None) ==> (r matches Err(m)
            && crate::text::has_suffix(m@, owner->0@)),
        !(owner matches Some(o) && account(o@, user) is None) ==> (r matches Err(m)
            ==> crate::text::has_suffix(m@, group->0@)),
{
    if let Err(m) = r {
        if owner matches Some(o) && account(o@, user) is None {
            let name = owner->0@;
            assert(m@.skip(m@.len() - name.len()) =~= name);
        } else {
            let name = group->0@;
            assert(m@.skip(m@.len() - name.len()) =~= name);
        }
    }
}

/// The IDs to hand to chown. Either name may be absent, which leaves that part
/// unchanged; an unknown user is reported before an unknown group.
pub fn apply_chown(
    owner: &Option<String>,
    group: &Option<String>,
    user: Option<u32>,
    members: Option<u32>,
) -> (r: Result<(u32, u32), String>)
    ensures
        are_chown_ids(r, *owner, *group, user, members),
{
    let uid: u32 = match owner {
        Some(o) => match resolve_uid(o.as_str(), user) {
            Some(n) => n,
            None => {
                return Err(labelled("unknown user: ", o.as_str()));
            },
        },
        None => UNCHANGED,
    };
    let gid: u32 = match group {
        Some(g) => match resolve_gid(g.as_str(), members) {
            Some(n) => n,
            None => {
                return Err(labelled("unknown group: ", g.as_str()));
            },
        },
        None => UNCHANGED,
    };
    Ok((uid, gid))
}

/// The message for a chown that the system refused.
pub fn chown_failed(e: &IoError) -> (r: String)
    ensures
        r@ == "chown failed: "@ + e.message@,
{
    labelled("chown failed: ", e.message.as_str())
}

} // verus!
