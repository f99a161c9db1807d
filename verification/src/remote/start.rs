//! Starting a process: what is refused, what is recorded, and what each of the
//! processes involved does when something happens to it.
//!
//! ```text
//! Runner (child) ─┬─ forks Holder: keeps the FIFO's write end open, pauses
//!                 └─ forks Command: exec's the command with the FIFO as stdin
//! ```
//!
//! Killing the holder closes the last writer on the FIFO, so the command sees
//! EOF on stdin.

use vstd::prelude::*;

use crate::encoding::holds_nul;
use crate::env::EnvMap;
use crate::error::{labelled, RemExecError};
use crate::number::{decimal, render_i32, render_u64, signed_decimal};
use crate::path::joined_path;
use crate::process::{ProcessDir, ProcessState};
use crate::protocol::{is_error, ErrorCode, Response};
use crate::text::{join, joined, string_view, views};

verus! {

// ---------------------------------------------------------------------------
// What is refused
// ---------------------------------------------------------------------------

/// Some text of the list holds a NUL.
pub open spec fn any_nul(list: Seq<Seq<char>>) -> bool {
    exists|i: int| 0 <= i < list.len() && (#[trigger] list[i]).contains('\0')
}

/// Some name or value of the environment holds a NUL.
pub open spec fn env_nul(pairs: Seq<(Seq<char>, Seq<char>)>) -> bool {
    exists|i: int|
        0 <= i < pairs.len() && ((#[trigger] pairs[i]).0.contains('\0') || pairs[i].1.contains(
            '\0',
        ))
}

/// Why a command cannot be started: no C string can carry a NUL.
pub open spec fn start_fault(
    command: Seq<Seq<char>>,
    cwd: Option<&str>,
    env: EnvMap,
) -> Option<Seq<char>> {
    if any_nul(command) {
        Some("command argument contains a NUL byte"@)
    } else if cwd matches Some(dir) && dir@.contains('\0') {
        Some("cwd contains a NUL byte"@)
    } else if env_nul(env.pairs()) {
        Some("env key or value contains a NUL byte"@)
    } else {
        None
    }
}

/// A command is refused exactly where something that is handed over as a C string
/// holds a NUL: a word of it, its directory, or a name or value of its environment.
pub proof fn lemma_no_nul_is_handed_over(
    command: Seq<Seq<char>>,
    cwd: Option<&str>,
    env: EnvMap,
    i: int,
    k: int,
)
    ensures
        start_fault(command, cwd, env) is None ==> {
            &&& 0 <= i < command.len() ==> !command[i].contains('\0')
            &&& cwd matches Some(dir) ==> !dir@.contains('\0')
            &&& 0 <= k < env.pairs().len() ==> !env.pairs()[k].0.contains('\0')
                && !env.pairs()[k].1.contains('\0')
        },
        start_fault(command, cwd, env) is Some ==> {
            ||| exists|n: int| 0 <= n < command.len() && (#[trigger] command[n]).contains('\0')
            ||| (cwd matches Some(dir) && dir@.contains('\0'))
            ||| exists|n: int|
                0 <= n < env.pairs().len() && ((#[trigger] env.pairs()[n]).0.contains('\0')
                    || env.pairs()[n].1.contains('\0'))
        },
{
}

fn list_holds_nul(list: &[String]) -> (r: bool)
    ensures
        r == any_nul(views(list@)),
{
    let ghost v = views(list@);
    let mut i: usize = 0;
    while i < list.len()
        invariant
            i <= list@.len(),
            v == views(list@),
            forall|k: int| 0 <= k < i ==> !(#[trigger] v[k]).contains('\0'),
        decreases list@.len() - i,
    {
        assert(v[i as int] == list@[i as int]@);
        if holds_nul(list[i].as_str()) {
            return true;
        }
        i += 1;
    }
    false
}

fn env_holds_nul(env: &EnvMap) -> (r: bool)
    ensures
        r == env_nul(env.pairs()),
{
    let mut i: usize = 0;
    while i < env.len()
        invariant
            i <= env.pairs().len(),
            forall|k: int|
                0 <= k < i ==> !(#[trigger] env.pairs()[k]).0.contains('\0')
                    && !env.pairs()[k].1.contains('\0'),
        decreases env.pairs().len() - i,
    {
        let (k, v) = env.pair(i);
        if holds_nul(k) || holds_nul(v) {
            return true;
        }
        i += 1;
    }
    false
}

/// A file to be written when a process starts.
#[derive(Debug)]
pub struct StartFile {
    pub path: String,
    pub content: String,
}

/// What is recorded before the process is forked.
#[derive(Debug)]
pub struct StartPlan {
    pub id: String,
    /// Created first, with mode 0700.
    pub dir: ProcessDir,
    /// The files, in the order they are written; the state comes first, so a
    /// directory with any of them is a process that is at least starting.
    pub files: Vec<StartFile>,
}

/// The names and contents of the files of a new process.
pub open spec fn start_files(command: Seq<Seq<char>>, now: u64) -> Seq<(Seq<char>, Seq<char>)> {
    seq![
        ("status"@, ProcessState::Running.text()),
        ("cmd"@, joined(command, " "@)),
        ("started"@, decimal(now as nat)),
        ("stdout"@, Seq::empty()),
        ("stderr"@, Seq::empty()),
    ]
}

/// A file of this name is among those that are written, with this content.
pub open spec fn is_recorded(
    files: Seq<(Seq<char>, Seq<char>)>,
    name: Seq<char>,
    content: Seq<char>,
) -> bool {
    exists|i: int|
        0 <= i < files.len() && (#[trigger] files[i]).0 == name && files[i].1 == content
}

/// What is recorded of a new process reads back: it is running, it runs the command
/// whose words stand there with a space between them, it was started now, and it has
/// written nothing yet. The state is the first thing there.
pub proof fn lemma_start_is_recorded(command: Seq<Seq<char>>, now: u64)
    ensures
        start_files(command, now)[0].0 == "status"@,
        crate::process::state_of(crate::text::trimmed(start_files(command, now)[0].1))
            == ProcessState::Running,
        is_recorded(start_files(command, now), "cmd"@, joined(command, " "@)),
        exists|text: Seq<char>| #[trigger]
            is_recorded(start_files(command, now), "started"@, text)
                && crate::process::recorded_number(Some(text), u64::MAX as int) == Some(now as int),
        is_recorded(start_files(command, now), "stdout"@, Seq::empty()),
        is_recorded(start_files(command, now), "stderr"@, Seq::empty()),
{
    crate::process::lemma_recorded_state(ProcessState::Running);
    crate::process::lemma_recorded_number(now as nat, u64::MAX as int);
    let files = start_files(command, now);
    assert(files[1] == ("cmd"@, joined(command, " "@)));
    assert(files[2] == ("started"@, decimal(now as nat)));
    assert(is_recorded(files, "started"@, decimal(now as nat)));
    assert(files[3] == ("stdout"@, Seq::<char>::empty()));
    assert(files[4] == ("stderr"@, Seq::<char>::empty()));
}

fn push_file(files: &mut Vec<StartFile>, path: String, content: String)
    ensures
        final(files)@ == old(files)@.push(StartFile { path, content }),
{
    files.push(StartFile { path, content });
}

/// The refusal of a process that cannot be started as asked for.
///
/// NUL bytes are rejected up front: an argument with one cannot be handed to
/// `execvp`, and one in the working directory would silently skip `chdir`.
pub fn refuse_start(command: &[String], cwd: Option<&str>, env: &EnvMap) -> (r: Option<Response>)
    ensures
        match start_fault(views(command@), cwd, *env) {
            Some(why) => r matches Some(resp) && is_error(resp, ErrorCode::BadRequest, why, None),
            None => r is None,
        },
{
    if list_holds_nul(command) {
        return Some(
            Response::error_code(
                ErrorCode::BadRequest,
                "command argument contains a NUL byte",
            ),
        );
    }
    if let Some(dir) = cwd {
        if holds_nul(dir) {
            return Some(
                Response::error_code(ErrorCode::BadRequest, "cwd contains a NUL byte"),
            );
        }
    }
    if env_holds_nul(env) {
        return Some(
            Response::error_code(
                ErrorCode::BadRequest,
                "env key or value contains a NUL byte",
            ),
        );
    }
    None
}

/// `plan` is what is recorded of a new process.
pub open spec fn is_start_of(
    plan: StartPlan,
    command: Seq<Seq<char>>,
    base: Seq<char>,
    id: Seq<char>,
    now: u64,
) -> bool {
    &&& plan.id@ == id
    &&& plan.dir.dir@ == joined_path(base, id)
    &&& plan.files@.len() == 5
    &&& forall|i: int|
        #![trigger plan.files@[i]]
        0 <= i < 5 ==> plan.files@[i].path@ == plan.dir.entry(start_files(command, now)[i].0)
            && plan.files@[i].content@ == start_files(command, now)[i].1
}

/// Everything that is recorded of a process stands in its own directory, which its ID
/// names, and the first file is the one that its state is read from.
pub proof fn lemma_start_writes_to_its_directory(
    plan: StartPlan,
    command: Seq<Seq<char>>,
    base: Seq<char>,
    id: Seq<char>,
    now: u64,
    i: int,
)
    requires
        is_start_of(plan, command, base, id, now),
        crate::process::is_process_id(id),
        0 <= i < plan.files@.len(),
    ensures
        plan.dir.id_text() == id && plan.id@ == id,
        crate::text::has_prefix(plan.files@[i].path@, plan.dir.dir@ + seq!['/']),
        plan.files@[0].path@ == plan.dir.dir@ + seq!['/'] + "status"@,
        crate::process::state_of(crate::text::trimmed(plan.files@[0].content@))
            == ProcessState::Running,
{
    crate::process::lemma_dir_id(base, id, plan.dir);
    crate::process::lemma_process_id_is_a_name(base, id);
    lemma_start_is_recorded(command, now);
    let dir = plan.dir.dir@;
    assert(crate::text::is_hex_digit(id[7]));
    assert(dir.last() == id[7]);
    reveal_strlit("status");
    reveal_strlit("cmd");
    reveal_strlit("started");
    reveal_strlit("stdout");
    reveal_strlit("stderr");
    let name = start_files(command, now)[i].0;
    assert(name[0] == 's' || name[0] == 'c');
    let p = plan.files@[i].path@;
    assert(p == dir + seq!['/'] + name);
    assert(p.take(dir.len() as int + 1) =~= dir + seq!['/']);
    let first = plan.files@[0].path@;
    assert("status"@[0] == 's');
    assert(start_files(command, now)[0].0 == "status"@);
    assert(first == dir + seq!['/'] + "status"@);
}

/// Prepare a new process, or refuse it.
pub fn start(
    command: &[String],
    cwd: Option<&str>,
    env: &EnvMap,
    base: &str,
    id: &str,
    now: u64,
) -> (r: Result<StartPlan, Response>)
    requires
        command@.len() > 0,
    ensures
        match start_fault(views(command@), cwd, *env) {
            Some(why) => r matches Err(resp) && is_error(resp, ErrorCode::BadRequest, why, None),
            None => r matches Ok(plan) && is_start_of(plan, views(command@), base@, id@, now),
        },
{
    if let Some(refused) = refuse_start(command, cwd, env) {
        return Err(refused);
    }
    let dir = ProcessDir::new(base, id);
    let mut files: Vec<StartFile> = Vec::new();
    push_file(&mut files, dir.status_path(), ProcessState::Running.render());
    push_file(&mut files, dir.cmd_path(), join(command, " "));
    push_file(&mut files, dir.started_path(), render_u64(now));
    push_file(&mut files, dir.stdout_path(), String::new());
    push_file(&mut files, dir.stderr_path(), String::new());
    Ok(StartPlan { id: id.to_owned(), dir, files })
}

// ---------------------------------------------------------------------------
// The end of a process
// ---------------------------------------------------------------------------

/// The low seven bits of a wait status: the signal that ended the process.
pub open spec fn wait_signal(status: i32) -> i32 {
    status & 0x7f
}

/// The exit code in a wait status.
pub open spec fn wait_code(status: i32) -> i32 {
    (status >> 8) & 0xff
}

/// `libc::WIFEXITED`: no signal ended the process.
#[verifier::external_body]
fn exited(status: i32) -> (r: bool)
    ensures
        r == (wait_signal(status) == 0),
{
    libc::WIFEXITED(status)
}

/// `libc::WEXITSTATUS`: the second byte of the status.
#[verifier::external_body]
fn exit_status(status: i32) -> (r: i32)
    ensures
        r == wait_code(status),
{
    libc::WEXITSTATUS(status)
}

/// `libc::WIFSIGNALED`: the low seven bits are a signal, neither zero nor the
/// mark of a stopped process.
#[verifier::external_body]
fn signaled(status: i32) -> (r: bool)
    ensures
        r == (1 <= wait_signal(status) <= 126),
{
    libc::WIFSIGNALED(status)
}

/// `libc::WTERMSIG`: the low seven bits of the status.
#[verifier::external_body]
fn term_signal(status: i32) -> (r: i32)
    ensures
        r == wait_signal(status),
{
    libc::WTERMSIG(status)
}

/// How a process ended, from its wait status.
pub open spec fn ending(status: i32) -> ProcessState {
    if wait_signal(status) == 0 {
        ProcessState::Exited(wait_code(status))
    } else if 1 <= wait_signal(status) <= 126 {
        ProcessState::Signaled(wait_signal(status))
    } else {
        ProcessState::ExitedUnknown
    }
}

/// The system packs an exit code into the second byte of a wait status and a signal
/// into the low seven bits, with a bit of its own where a core was dumped: either is
/// found again. All seven bits set mark a process that was only stopped.
pub proof fn lemma_ending_is_found(code: i32, signal: i32, status: i32)
    requires
        0 <= code <= 255,
        1 <= signal <= 126,
    ensures
        status == code * 256 ==> ending(status) == ProcessState::Exited(code),
        status == signal || status == signal + 128 ==> ending(status) == ProcessState::Signaled(
            signal,
        ),
        status == 127 || status == code * 256 + 127 ==> ending(status)
            == ProcessState::ExitedUnknown,
{
    if status == code * 256 {
        assert(status & 0x7f == 0 && (status >> 8) & 0xff == code) by (bit_vector)
            requires
                0 <= code <= 255,
                status == code * 256,
        ;
    }
    if status == 127 || status == code * 256 + 127 {
        assert(status & 0x7f == 127) by (bit_vector)
            requires
                0 <= code <= 255,
                status == 127 || status == code * 256 + 127,
        ;
    }
    if status == signal || status == signal + 128 {
        assert(status & 0x7f == signal) by (bit_vector)
            requires
                1 <= signal <= 126,
                status == signal || status == signal + 128,
        ;
    }
}

/// How a process ended, from its wait status.
pub fn ended_as(status: i32) -> (r: ProcessState)
    ensures
        r == ending(status),
{
    if exited(status) {
        ProcessState::Exited(exit_status(status))
    } else if signaled(status) {
        ProcessState::Signaled(term_signal(status))
    } else {
        ProcessState::ExitedUnknown
    }
}

// ---------------------------------------------------------------------------
// The runner
// ---------------------------------------------------------------------------

/// What can happen to the runner.
#[derive(Debug, Clone, Copy, PartialEq, Eq, Structural)]
pub enum RunnerEvent {
    /// /dev/null, the FIFO or an output file could not be opened.
    SetupFailed,
    /// The holder could not be forked.
    HolderFailed,
    /// The command could not be forked; the holder is there.
    CommandFailed,
    /// The command was forked.
    Forked { command: i32 },
    /// The command ended with this wait status.
    Ended { status: i32 },
}

/// One thing that the runner does.
#[derive(Debug)]
pub enum RunnerAct {
    /// Write the runner's PID to its file.
    RecordRunner,
    /// Write the holder's PID to its file.
    RecordHolder,
    /// Write this to the status file.
    Status(String),
    /// Write the end time.
    StampEnd,
    /// Send this PID to the waiting parent; zero for none.
    Report(i32),
    /// Send SIGTERM to the holder.
    StopHolder,
    /// Exit with this code.
    Exit(i32),
}

/// What one thing that the runner does says.
pub enum RunnerActModel {
    RecordRunner,
    RecordHolder,
    Status(Seq<char>),
    StampEnd,
    Report(i32),
    StopHolder,
    Exit(i32),
}

impl RunnerAct {
    /// What this says.
    pub open spec fn model(self) -> RunnerActModel {
        match self {
            RunnerAct::RecordRunner => RunnerActModel::RecordRunner,
            RunnerAct::RecordHolder => RunnerActModel::RecordHolder,
            RunnerAct::Status(s) => RunnerActModel::Status(s@),
            RunnerAct::StampEnd => RunnerActModel::StampEnd,
            RunnerAct::Report(pid) => RunnerActModel::Report(pid),
            RunnerAct::StopHolder => RunnerActModel::StopHolder,
            RunnerAct::Exit(code) => RunnerActModel::Exit(code),
        }
    }
}

/// What the runner does, as a sequence.
pub open spec fn act_models(acts: Seq<RunnerAct>) -> Seq<RunnerActModel> {
    Seq::new(acts.len(), |i: int| acts[i].model())
}

/// What the runner does about an event, in this order.
///
/// A setup failure records the state, releases the parent from its read and
/// exits. After the fork the PIDs are recorded *before* the parent is told: the
/// parent writes the command's PID only after that, so whoever sees the command
/// recorded sees its runner recorded too, and a command that exits at once is
/// never taken for one that died unrecorded.
pub open spec fn runner_acts(event: RunnerEvent) -> Seq<RunnerActModel> {
    let never_started = RunnerActModel::Status(ProcessState::Exited(127).text());
    match event {
        RunnerEvent::SetupFailed | RunnerEvent::HolderFailed => seq![
            never_started,
            RunnerActModel::Report(0),
            RunnerActModel::Exit(1),
        ],
        RunnerEvent::CommandFailed => seq![
            never_started,
            RunnerActModel::Report(0),
            RunnerActModel::StopHolder,
            RunnerActModel::Exit(1),
        ],
        RunnerEvent::Forked { command } => seq![
            RunnerActModel::RecordRunner,
            RunnerActModel::RecordHolder,
            RunnerActModel::Report(command),
        ],
        RunnerEvent::Ended { status } => seq![
            RunnerActModel::Status(ending(status).text()),
            RunnerActModel::StampEnd,
            RunnerActModel::StopHolder,
            RunnerActModel::Exit(0),
        ],
    }
}

fn push_act(acts: &mut Vec<RunnerAct>, act: RunnerAct)
    ensures
        act_models(final(acts)@) == act_models(old(acts)@).push(act.model()),
{
    acts.push(act);
    assert(act_models(acts@) =~= act_models(old(acts)@).push(act.model()));
}

/// The runner's answer to an event.
pub fn runner_step(event: RunnerEvent) -> (r: Vec<RunnerAct>)
    ensures
        act_models(r@) == runner_acts(event),
{
    let mut acts: Vec<RunnerAct> = Vec::new();
    assert(act_models(acts@) =~= Seq::empty());
    match event {
        RunnerEvent::SetupFailed | RunnerEvent::HolderFailed => {
            push_act(&mut acts, RunnerAct::Status(ProcessState::Exited(127).render()));
            push_act(&mut acts, RunnerAct::Report(0));
            push_act(&mut acts, RunnerAct::Exit(1));
        },
        RunnerEvent::CommandFailed => {
            push_act(&mut acts, RunnerAct::Status(ProcessState::Exited(127).render()));
            push_act(&mut acts, RunnerAct::Report(0));
            push_act(&mut acts, RunnerAct::StopHolder);
            push_act(&mut acts, RunnerAct::Exit(1));
        },
        RunnerEvent::Forked { command } => {
            push_act(&mut acts, RunnerAct::RecordRunner);
            push_act(&mut acts, RunnerAct::RecordHolder);
            push_act(&mut acts, RunnerAct::Report(command));
        },
        RunnerEvent::Ended { status } => {
            push_act(&mut acts, RunnerAct::Status(ended_as(status).render()));
            push_act(&mut acts, RunnerAct::StampEnd);
            push_act(&mut acts, RunnerAct::StopHolder);
            push_act(&mut acts, RunnerAct::Exit(0));
        },
    }
    assert(act_models(acts@) =~= runner_acts(event));
    acts
}

/// Whatever happens to the runner: the parent learns of a command only after the
/// runner and the holder were recorded, it always learns of a failure, and
/// nothing is done after an exit.
pub proof fn lemma_runner_is_recorded_first(event: RunnerEvent, i: int)
    requires
        0 <= i < runner_acts(event).len(),
    ensures
        (runner_acts(event)[i] matches RunnerActModel::Report(pid) && pid != 0) ==> i == 2
            && runner_acts(event)[0] is RecordRunner && runner_acts(event)[1] is RecordHolder,
        runner_acts(event)[i] is Exit ==> i == runner_acts(event).len() - 1,
        (event is SetupFailed || event is HolderFailed || event is CommandFailed)
            ==> runner_acts(event)[1] == RunnerActModel::Report(0),
{
}

/// What the runner writes down reads back as what happened: a command that ended is
/// recorded as it ended before its end is stamped and its stdin let go, and one that
/// was never forked as one that exited with 127, which the parent is told by a PID
/// of zero. Only a command that was forked is reported, and the runner then goes on.
pub proof fn lemma_runner_tells_what_happened(event: RunnerEvent)
    ensures
        event matches RunnerEvent::Ended { status } ==> {
            let acts = runner_acts(event);
            &&& acts.len() == 4
            &&& acts[0] matches RunnerActModel::Status(text) && crate::process::state_of(
                crate::text::trimmed(text),
            ) == ending(status)
            &&& acts[1] is StampEnd
            &&& acts[2] is StopHolder
            &&& acts[3] == RunnerActModel::Exit(0)
        },
        event matches RunnerEvent::Forked { command } ==> {
            let acts = runner_acts(event);
            &&& acts.last() == RunnerActModel::Report(command)
            &&& forall|i: int|
                0 <= i < acts.len() ==> (#[trigger] acts[i]) !is Exit && acts[i] !is Status
        },
        (event is SetupFailed || event is HolderFailed || event is CommandFailed) ==> {
            let acts = runner_acts(event);
            &&& acts[0] matches RunnerActModel::Status(text) && crate::process::state_of(
                crate::text::trimmed(text),
            ) == ProcessState::Exited(127)
            &&& acts.last() == RunnerActModel::Exit(1)
            &&& (exists|i: int| 0 <= i < acts.len() && (#[trigger] acts[i]) is StopHolder)
                <==> event is CommandFailed
        },
{
    let acts = runner_acts(event);
    match event {
        RunnerEvent::Ended { status } => {
            crate::process::lemma_recorded_state(ending(status));
            assert(acts[0] == RunnerActModel::Status(ending(status).text()));
        },
        RunnerEvent::Forked { .. } => {},
        _ => {
            crate::process::lemma_recorded_state(ProcessState::Exited(127));
            assert(acts[0] == RunnerActModel::Status(ProcessState::Exited(127).text()));
            if event is CommandFailed {
                assert(acts[2] is StopHolder);
            }
        },
    }
}

/// What can go wrong in the command's process before the command runs.
#[derive(Debug)]
pub enum CommandFault {
    /// The FIFO could not be opened for reading.
    StdinFailed,
    /// The working directory could not be entered.
    ChdirFailed { dir: String, message: String },
    /// `execvp` failed.
    ExecFailed { program: String, errno: i32, message: String },
}

/// What the command's process does about it, in this order, before it exits with
/// 127. The marker comes before the status: whoever sees that the process ended
/// sees that it never started.
#[derive(Debug)]
pub struct CommandReply {
    /// Write this to the captured stderr.
    pub stderr: String,
    /// Record this `errno` in the marker that the runner never touches.
    pub marker: Option<String>,
    /// Write this to the status file.
    pub status: String,
}

/// What a caller reads on stderr.
pub open spec fn fault_line(fault: CommandFault) -> Seq<char> {
    match fault {
        CommandFault::StdinFailed => "rxd: failed to open stdin FIFO\n"@,
        CommandFault::ChdirFailed { dir, message } => "rxd: chdir("@ + dir@ + ") failed: "@
            + message@ + "\n"@,
        CommandFault::ExecFailed { program, errno, message } => "rx: exec "@ + program@ + ": "@
            + message@ + "\n"@,
    }
}

/// `r` is the answer to a fault in the command's process.
pub open spec fn is_fault_reply(r: CommandReply, fault: CommandFault) -> bool {
    &&& r.stderr@ == fault_line(fault)
    &&& r.status@ == ProcessState::Exited(127).text()
    &&& match fault {
        CommandFault::ExecFailed { errno, .. } => r.marker matches Some(m) && m@ == signed_decimal(
            errno as int,
        ),
        _ => r.marker is None,
    }
}

/// Whatever keeps a command from running, its process exits with 127 and says why on
/// a line of stderr; a failed exec alone leaves its `errno` behind, which reads back.
pub proof fn lemma_fault_is_told(r: CommandReply, fault: CommandFault)
    requires
        is_fault_reply(r, fault),
    ensures
        crate::process::state_of(crate::text::trimmed(r.status@)) == ProcessState::Exited(127),
        r.marker is Some <==> fault is ExecFailed,
        fault matches CommandFault::ExecFailed { errno, .. } ==> crate::process::recorded_errno(
            string_view(r.marker),
        ) == Some(errno as int),
        r.stderr@.len() > 1 && r.stderr@.last() == '\n',
        fault matches CommandFault::ExecFailed { program, message, .. }
            ==> crate::text::contains_text(r.stderr@, program@) && crate::text::contains_text(
            r.stderr@,
            message@,
        ),
        fault matches CommandFault::ChdirFailed { dir, message } ==> crate::text::contains_text(
            r.stderr@,
            dir@,
        ) && crate::text::contains_text(r.stderr@, message@),
{
    crate::process::lemma_recorded_state(ProcessState::Exited(127));
    reveal_strlit("\n");
    reveal_strlit("rxd: failed to open stdin FIFO\n");
    reveal_strlit("rxd: chdir(");
    reveal_strlit(") failed: ");
    reveal_strlit("rx: exec ");
    reveal_strlit(": ");
    match fault {
        CommandFault::ExecFailed { program, errno, message } => {
            crate::process::lemma_recorded_errno(errno);
            lemma_parts_occur("rx: exec "@, program@, ": "@, message@, "\n"@);
        },
        CommandFault::ChdirFailed { dir, message } => {
            lemma_parts_occur("rxd: chdir("@, dir@, ") failed: "@, message@, "\n"@);
        },
        _ => {},
    }
}

proof fn lemma_parts_occur(a: Seq<char>, b: Seq<char>, c: Seq<char>, d: Seq<char>, e: Seq<char>)
    ensures
        crate::text::contains_text(a + b + c + d + e, b),
        crate::text::contains_text(a + b + c + d + e, d),
{
    let s = a + b + c + d + e;
    let i = a.len() as int;
    let k = (a.len() + b.len() + c.len()) as int;
    assert(s.subrange(i, i + b.len()) =~= b);
    assert(s.subrange(k, k + d.len()) =~= d);
    assert(crate::text::occurs_at(s, b, i));
    assert(crate::text::occurs_at(s, d, k));
}

/// The answer to a fault in the command's process: say why on stderr, and mark
/// a failed exec so that it is told apart from a command that exited with 127.
pub fn command_fault(fault: &CommandFault) -> (r: CommandReply)
    ensures
        is_fault_reply(r, *fault),
{
    let status = ProcessState::Exited(127).render();
    match fault {
        CommandFault::StdinFailed => CommandReply {
            stderr: "rxd: failed to open stdin FIFO\n".to_owned(),
            marker: None,
            status,
        },
        CommandFault::ChdirFailed { dir, message } => {
            let mut stderr = labelled("rxd: chdir(", dir.as_str());
            stderr.append(") failed: ");
            stderr.append(message.as_str());
            stderr.append("\n");
            CommandReply { stderr, marker: None, status }
        },
        CommandFault::ExecFailed { program, errno, message } => {
            let mut stderr = labelled("rx: exec ", program.as_str());
            stderr.append(": ");
            stderr.append(message.as_str());
            stderr.append("\n");
            CommandReply { stderr, marker: Some(render_i32(*errno)), status }
        },
    }
}

/// What the parent writes down of the PID it read.
pub open spec fn pid_record(pid: i32) -> Option<Seq<char>> {
    if pid > 0 {
        Some(signed_decimal(pid as int))
    } else {
        None
    }
}

/// A PID is recorded as it is, so that it reads back; no PID is recorded where the
/// command was not forked.
pub proof fn lemma_pid_is_recorded(pid: i32)
    ensures
        pid > 0 ==> pid_record(pid) is Some && crate::process::recorded_number(
            pid_record(pid),
            u32::MAX as int,
        ) == Some(pid as int),
        pid <= 0 ==> pid_record(pid) is None,
{
    if pid > 0 {
        crate::process::lemma_recorded_number(pid as nat, u32::MAX as int);
    }
}

/// What the parent does with the PID it read: record it, and wait until the
/// command has its stdin. Without a PID there is nothing to wait for.
pub fn parent_step(pid: i32) -> (r: Option<String>)
    ensures
        string_view(r) == pid_record(pid),
{
    if pid > 0 {
        Some(render_i32(pid))
    } else {
        None
    }
}

/// `r` answers a start request.
pub open spec fn is_started(
    r: Result<Response, RemExecError>,
    plan: Result<StartPlan, Response>,
    failure: Option<RemExecError>,
) -> bool {
    match plan {
        Err(refused) => r == Ok::<Response, RemExecError>(refused),
        Ok(p) => match failure {
            Some(e) => r == Err::<Response, RemExecError>(e),
            None => r matches Ok(Response::Started { id }) && id == p.id,
        },
    }
}

/// A start is answered with the ID of the process that was planned where nothing failed;
/// a refusal is passed on as it is, and so is a failure.
pub proof fn lemma_start_is_answered(
    r: Result<Response, RemExecError>,
    plan: Result<StartPlan, Response>,
    failure: Option<RemExecError>,
)
    requires
        is_started(r, plan, failure),
    ensures
        plan matches Ok(p) ==> (failure is None ==> (r matches Ok(Response::Started { id }) && id@
            == p.id@)),
        plan is Ok ==> (failure matches Some(e) ==> r == Err::<Response, RemExecError>(e)),
        plan matches Err(refused) ==> r == Ok::<Response, RemExecError>(refused),
{
}

/// The answer to a start request.
pub fn started(plan: Result<StartPlan, Response>, failure: Option<RemExecError>) -> (r: Result<
    Response,
    RemExecError,
>)
    ensures
        is_started(r, plan, failure),
{
    match plan {
        Err(refused) => Ok(refused),
        Ok(p) => match failure {
            Some(e) => Err(e),
            None => Ok(Response::Started { id: p.id }),
        },
    }
}

} // verus!
