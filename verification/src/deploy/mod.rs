//! Deploying rxd: when a host may change, which binary it gets, and in which
//! steps.

pub mod cache;
pub mod fetch;
pub mod steps;

pub use cache::{
    binary_store_dir, detect_arch, SetupBinary, SetupResult, SetupStatus,
};
pub use fetch::{setup_release_binaries, Fetch};
pub use steps::{deploy_to_host, deploy_to_host_with};

use std::cmp::Ordering;

use vstd::prelude::*;

use crate::error::{labelled, RemExecError};
use crate::number::{decimal, parse_u64, render_u64, unsigned_number};
use crate::protocol::{error_with_hint, is_error, ErrorCode, Response, PROTOCOL_VERSION};
use crate::ssh::{classify_ssh_failure, hint_for, ssh_failure, transport_hint};
use crate::text::{
    chars_of, contains, contains_text, find_char, find_from, joined, lowered, one_line, same,
    single_line, split, split_all, string_of_range, to_ascii_lowercase, trim, trim_start_char,
    trim_start_matches, trimmed, views,
};

verus! {

/// The version of this build. rx and rxd are two halves of one wire protocol,
/// so the only correct rxd for a given rx is its own version.
pub const VERSION: &'static str = "0.4.0";

// ---------------------------------------------------------------------------
// Policy
// ---------------------------------------------------------------------------

/// How much rx may do on its own when a host's rxd is missing or mismatched.
///
/// What an operator controls is *when remote hosts change*. The default is
/// [`DeployPolicy::Off`]: rx never touches a host you did not tell it to.
#[derive(Debug, Clone, Copy, PartialEq, Eq, Structural)]
pub enum DeployPolicy {
    /// Never deploy as a side effect. A mismatch is reported as `not_deployed`
    /// with the command that fixes it.
    Off,
    /// May deploy from the local cache during another command, but never
    /// downloads.
    Local,
    /// May fetch the matching rxd and deploy it during another command.
    On,
}

impl Default for DeployPolicy {
    fn default() -> (r: Self)
        ensures
            r == DeployPolicy::Off,
    {
        DeployPolicy::Off
    }
}

impl DeployPolicy {
    /// Whether rx may deploy as a side effect of some other command.
    pub fn implicit_deploy(self) -> (r: bool)
        ensures
            r == (self !is Off),
    {
        !matches!(self, DeployPolicy::Off)
    }

    /// Whether rx may download a missing binary without being asked to.
    pub fn implicit_fetch(self) -> (r: bool)
        ensures
            r == (self is On),
    {
        matches!(self, DeployPolicy::On)
    }

    /// The name of this policy.
    pub open spec fn name(self) -> Seq<char> {
        match self {
            DeployPolicy::Off => "off"@,
            DeployPolicy::Local => "local"@,
            DeployPolicy::On => "on"@,
        }
    }

    /// The name of this policy.
    pub fn as_str(self) -> (r: &'static str)
        ensures
            r@ == self.name(),
    {
        match self {
            DeployPolicy::Off => "off",
            DeployPolicy::Local => "local",
            DeployPolicy::On => "on",
        }
    }
}

/// The policy that a text names, in any case and with white space around it.
pub open spec fn policy_of(value: Seq<char>) -> Option<DeployPolicy> {
    let v = lowered(trimmed(value));
    if v == "off"@ || v == "0"@ || v == "false"@ || v == "no"@ || v == ""@ {
        Some(DeployPolicy::Off)
    } else if v == "local"@ || v == "cache"@ {
        Some(DeployPolicy::Local)
    } else if v == "on"@ || v == "1"@ || v == "true"@ || v == "yes"@ {
        Some(DeployPolicy::On)
    } else {
        None
    }
}

/// Every policy is named by its own name, and nothing that is not understood lets a
/// host change.
pub proof fn lemma_policy_is_read_back(p: DeployPolicy, value: Seq<char>)
    ensures
        policy_of(p.name()) == Some(p),
        policy_of(value) matches Some(q) ==> (q !is Off ==> value.len() > 0),
        trimmed(value).len() == 0 ==> policy_of(value) == Some(DeployPolicy::Off),
{
    reveal_strlit("off");
    reveal_strlit("local");
    reveal_strlit("on");
    reveal_strlit("cache");
    reveal_strlit("0");
    reveal_strlit("1");
    reveal_strlit("false");
    reveal_strlit("true");
    reveal_strlit("no");
    reveal_strlit("yes");
    reveal_strlit("");
    let n = p.name();
    assert("off"@[0] == 'o' && "off"@[1] == 'f' && "off"@[2] == 'f');
    assert("on"@[0] == 'o' && "on"@[1] == 'n');
    assert("no"@[0] == 'n');
    assert("local"@[0] == 'l' && "local"@[1] == 'o' && "local"@[2] == 'c' && "local"@[3] == 'a'
        && "local"@[4] == 'l');
    assert("false"@[0] == 'f' && "cache"@[0] == 'c' && "yes"@[0] == 'y' && "0"@.len() == 1);
    crate::text::lemma_trimmed_already(n);
    assert(lowered(n) =~= n);
    if trimmed(value).len() == 0 {
        assert(lowered(trimmed(value)) =~= ""@);
    }
    if value.len() == 0 {
        assert(trimmed(value).len() == 0);
    }
}

/// Parse a policy from a flag value or an environment variable. `1`, `true` and
/// `yes` mean `on`.
pub fn parse_policy(value: &str) -> (r: Option<DeployPolicy>)
    ensures
        r == policy_of(value@),
{
    let low = to_ascii_lowercase(trim(value).as_str());
    let v = low.as_str();
    if same(v, "off") || same(v, "0") || same(v, "false") || same(v, "no") || same(v, "") {
        Some(DeployPolicy::Off)
    } else if same(v, "local") || same(v, "cache") {
        Some(DeployPolicy::Local)
    } else if same(v, "on") || same(v, "1") || same(v, "true") || same(v, "yes") {
        Some(DeployPolicy::On)
    } else {
        None
    }
}

/// Fix the policy in `slot`. The first call wins.
pub fn set_policy(slot: &mut Option<DeployPolicy>, policy: DeployPolicy)
    ensures
        *final(slot) == match *old(slot) {
            Some(p) => Some(p),
            None => Some(policy),
        },
{
    if slot.is_none() {
        *slot = Some(policy);
    }
}

/// The effective policy: the one that was fixed, else what `RX_AUTO_DEPLOY`
/// says (or, where that is not set, the older `REM_EXEC_AUTO_DEPLOY`), else off.
pub open spec fn effective_policy(
    fixed: Option<DeployPolicy>,
    current: Option<&str>,
    older: Option<&str>,
) -> DeployPolicy {
    let value = if current is Some {
        current
    } else {
        older
    };
    match fixed {
        Some(p) => p,
        None => match value {
            Some(v) => match policy_of(v@) {
                Some(p) => p,
                None => DeployPolicy::Off,
            },
            None => DeployPolicy::Off,
        },
    }
}

/// A policy that was fixed holds whatever the environment says; without one the
/// newer variable decides alone where it is set, and the older one where it is not.
/// Where nobody says anything that is understood, no host changes.
pub proof fn lemma_policy_is_what_was_said(
    p: DeployPolicy,
    value: &str,
    current: Option<&str>,
    older: Option<&str>,
)
    ensures
        effective_policy(Some(p), current, older) == p,
        effective_policy(None, None, None) is Off,
        policy_of(value@) is None ==> effective_policy(None, Some(value), older) is Off,
        policy_of(value@) == Some(p) ==> effective_policy(None, Some(value), older) == p,
        policy_of(value@) == Some(p) ==> effective_policy(None, None, Some(value)) == p,
{
}

/// The effective policy, from the fixed one and the two environment variables.
pub fn policy(
    fixed: Option<DeployPolicy>,
    current: Option<&str>,
    older: Option<&str>,
) -> (r: DeployPolicy)
    ensures
        r == effective_policy(fixed, current, older),
{
    if let Some(p) = fixed {
        return p;
    }
    let value: Option<&str> = if current.is_some() {
        current
    } else {
        older
    };
    match value {
        Some(v) => match parse_policy(v) {
            Some(p) => p,
            None => DeployPolicy::Off,
        },
        None => DeployPolicy::Off,
    }
}

/// Whether rx may deploy as a side effect of the current command, per the
/// effective policy.
pub fn auto_deploy_enabled(policy: DeployPolicy) -> (r: bool)
    ensures
        r == (policy !is Off),
{
    policy.implicit_deploy()
}

// ---------------------------------------------------------------------------
// Versions
// ---------------------------------------------------------------------------

/// The release tag of this build.
pub open spec fn own_tag() -> Seq<char> {
    "v"@ + VERSION@
}

/// The rxd version this rx speaks to, as a release tag.
pub fn own_version() -> (r: String)
    ensures
        r@ == own_tag(),
{
    labelled("v", VERSION)
}

/// `s` up to the first `-` or `+`.
pub open spec fn version_core(s: Seq<char>) -> Seq<char> {
    let a = find_char(s, '-');
    let b = find_char(s, '+');
    s.take(if a <= b {
        a
    } else {
        b
    })
}

/// `(major, minor, patch)` of a version. A `v` in front and any pre-release or
/// build suffix are dropped; anything that is not three numbers has none.
pub open spec fn version_of(version: Seq<char>) -> Option<(int, int, int)> {
    let parts = split_all(version_core(trim_start_char(trimmed(version), 'v')), '.');
    if parts.len() == 3 {
        match (
            unsigned_number(parts[0], u64::MAX as int),
            unsigned_number(parts[1], u64::MAX as int),
            unsigned_number(parts[2], u64::MAX as int),
        ) {
            (Some(a), Some(b), Some(c)) => Some((a, b, c)),
            _ => None,
        }
    } else {
        None
    }
}

/// `(major, minor, patch)` for ordering: coarse, but the only question asked of
/// it is "is this host behind us".
pub fn version_tuple(version: &str) -> (r: Option<(u64, u64, u64)>)
    ensures
        r is Some <==> version_of(version@) is Some,
        r matches Some(t) ==> version_of(version@) == Some((t.0 as int, t.1 as int, t.2 as int)),
{
    let core = trim_start_matches(trim(version).as_str(), 'v');
    let chars = chars_of(core.as_str());
    proof {
        assert(chars@.skip(0) =~= chars@);
    }
    let a: usize = find_from(&chars, '-', 0);
    let b: usize = find_from(&chars, '+', 0);
    let end: usize = if a <= b {
        a
    } else {
        b
    };
    let cut = string_of_range(&chars, 0, end);
    proof {
        assert(cut@ =~= version_core(core@));
    }
    let parts = split(cut.as_str(), '.');
    let ghost p = views(parts@);
    if parts.len() != 3 {
        return None;
    }
    assert(p[0] == parts@[0]@ && p[1] == parts@[1]@ && p[2] == parts@[2]@);
    match (
        parse_u64(parts[0].as_str()),
        parse_u64(parts[1].as_str()),
        parse_u64(parts[2].as_str()),
    ) {
        (Some(x), Some(y), Some(z)) => Some((x, y, z)),
        _ => None,
    }
}

/// Version `a` is older than version `b`.
pub open spec fn is_older(a: (int, int, int), b: (int, int, int)) -> bool {
    a.0 < b.0 || (a.0 == b.0 && (a.1 < b.1 || (a.1 == b.1 && a.2 < b.2)))
}

/// Versions are ordered by their first number that differs: of two that differ one is
/// older, never both, and the order carries on.
pub proof fn lemma_versions_are_ordered(
    a: (int, int, int),
    b: (int, int, int),
    c: (int, int, int),
)
    ensures
        is_older(a, b) || is_older(b, a) <==> a != b,
        !(is_older(a, b) && is_older(b, a)),
        is_older(a, b) && is_older(b, c) ==> is_older(a, c),
        is_older(a, (a.0, a.1, a.2 + 1)),
        is_older(a, (a.0, a.1 + 1, b.2)),
        is_older(a, (a.0 + 1, b.1, b.2)),
{
}

/// The text of a version.
pub open spec fn version_text(a: nat, b: nat, c: nat) -> Seq<char> {
    joined(seq![decimal(a), decimal(b), decimal(c)], seq!['.'])
}

proof fn lemma_number_is_plain(n: nat, ch: char)
    requires
        !crate::number::is_digit(ch, 10),
    ensures
        decimal(n).len() > 0,
        !decimal(n).contains(ch),
        forall|i: int|
            0 <= i < decimal(n).len() ==> crate::number::is_digit(#[trigger] decimal(n)[i], 10),
{
    crate::number::lemma_digits_roundtrip(n, 10);
    if decimal(n).contains(ch) {
        let i = choose|i: int| 0 <= i < decimal(n).len() && decimal(n)[i] == ch;
        assert(crate::number::is_digit(decimal(n)[i], 10));
    }
}

proof fn lemma_version_text(a: nat, b: nat, c: nat)
    requires
        a <= u64::MAX && b <= u64::MAX && c <= u64::MAX,
    ensures
        version_text(a, b, c).len() > 0,
        forall|i: int|
            0 <= i < version_text(a, b, c).len() ==> crate::number::is_digit(
                #[trigger] version_text(a, b, c)[i],
                10,
            ) || version_text(a, b, c)[i] == '.',
        crate::number::is_digit(version_text(a, b, c)[0], 10),
        crate::number::is_digit(version_text(a, b, c).last(), 10),
        split_all(version_text(a, b, c), '.') == seq![decimal(a), decimal(b), decimal(c)],
{
    let parts = seq![decimal(a), decimal(b), decimal(c)];
    lemma_number_is_plain(a, '.');
    lemma_number_is_plain(b, '.');
    lemma_number_is_plain(c, '.');
    crate::text::lemma_split_undoes_join(parts, '.');
    reveal_with_fuel(joined, 4);
    let two = parts.drop_last();
    assert(two.len() == 2 && two.last() == decimal(b) && two.drop_last()[0] == decimal(a));
    assert(version_text(a, b, c) =~= decimal(a) + seq!['.'] + decimal(b) + seq!['.'] + decimal(c));
}

/// Three numbers with dots between them are a version, those numbers in that order,
/// with a `v` in front or without, and whatever stands behind a hyphen or a plus.
pub proof fn lemma_version_is_read_back(a: nat, b: nat, c: nat, mark: char, suffix: Seq<char>)
    requires
        a <= u64::MAX && b <= u64::MAX && c <= u64::MAX,
        mark == '-' || mark == '+',
        suffix.len() > 0,
        !crate::text::is_white(suffix.last()),
    ensures
        version_of(version_text(a, b, c)) == Some((a as int, b as int, c as int)),
        version_of(seq!['v'] + version_text(a, b, c)) == Some((a as int, b as int, c as int)),
        version_of(version_text(a, b, c) + seq![mark] + suffix) == Some(
            (a as int, b as int, c as int),
        ),
{
    let t = version_text(a, b, c);
    lemma_version_text(a, b, c);
    crate::number::lemma_unsigned_roundtrip(a, u64::MAX as int);
    crate::number::lemma_unsigned_roundtrip(b, u64::MAX as int);
    crate::number::lemma_unsigned_roundtrip(c, u64::MAX as int);
    let tagged = seq!['v'] + t;
    let marked = t + seq![mark] + suffix;
    assert(tagged.skip(1) =~= t);
    assert(tagged.last() == t.last());
    assert(marked.last() == suffix.last());
    crate::text::lemma_trimmed_already(t);
    crate::text::lemma_trimmed_already(tagged);
    crate::text::lemma_trimmed_already(marked);
    assert(trim_start_char(t, 'v') == t);
    assert(trim_start_char(tagged, 'v') == t);
    assert(trim_start_char(marked, 'v') == marked);
    assert forall|i: int| 0 <= i < t.len() implies t[i] != '-' && t[i] != '+' && marked[i] != '-'
        && marked[i] != '+' by {
        assert(marked[i] == t[i]);
    }
    crate::text::lemma_find_char_is(t, '-', t.len() as int);
    crate::text::lemma_find_char_is(t, '+', t.len() as int);
    assert(version_core(t) =~= t);
    assert(marked[t.len() as int] == mark);
    crate::text::lemma_find_char_is(marked, mark, t.len() as int);
    crate::text::lemma_find_char(marked, '-');
    crate::text::lemma_find_char(marked, '+');
    assert(version_core(marked) =~= t);
}

/// Order a remote rxd version against this rx's own. `None` when either side
/// cannot be parsed; the caller must then take whichever action is safe under
/// uncertainty, not assume equality.
pub fn compare_to_own_version(remote: &str) -> (r: Option<Ordering>)
    ensures
        match (version_of(remote@), version_of(VERSION@)) {
            (Some(a), Some(b)) => r == Some(
                if is_older(a, b) {
                    Ordering::Less
                } else if is_older(b, a) {
                    Ordering::Greater
                } else {
                    Ordering::Equal
                },
            ),
            _ => r is None,
        },
{
    match (version_tuple(remote), version_tuple(VERSION)) {
        (Some(a), Some(b)) => if a.0 < b.0 || (a.0 == b.0 && (a.1 < b.1 || (a.1 == b.1 && a.2
            < b.2))) {
            Some(Ordering::Less)
        } else if b.0 < a.0 || (b.0 == a.0 && (b.1 < a.1 || (b.1 == a.1 && b.2 < a.2))) {
            Some(Ordering::Greater)
        } else {
            Some(Ordering::Equal)
        },
        _ => None,
    }
}

/// The remote version is provably behind this rx.
pub open spec fn behind_own(remote: Seq<char>) -> bool {
    version_of(remote) matches Some(a) && (version_of(VERSION@) matches Some(b) && is_older(a, b))
}

/// The remote version is provably ahead of this rx.
pub open spec fn ahead_of_own(remote: Seq<char>) -> bool {
    version_of(remote) matches Some(a) && (version_of(VERSION@) matches Some(b) && is_older(b, a))
}

/// Whether a remote rxd is *provably* behind this rx. Used where the cost of
/// being wrong is a needless deploy, so an unorderable version means "leave it
/// alone".
pub fn is_older_than_own(remote: &str) -> (r: bool)
    ensures
        r == behind_own(remote@),
{
    matches!(compare_to_own_version(remote), Some(Ordering::Less))
}

/// Whether a remote rxd is *provably* ahead of this rx.
pub fn is_newer_than_own(remote: &str) -> (r: bool)
    ensures
        r == ahead_of_own(remote@),
{
    matches!(compare_to_own_version(remote), Some(Ordering::Greater))
}

/// No version is both behind and ahead, an unorderable one is neither, and a
/// version that reads as this rx's own is neither.
pub proof fn lemma_version_order(remote: Seq<char>)
    ensures
        !(behind_own(remote) && ahead_of_own(remote)),
        version_of(remote) is None ==> !behind_own(remote) && !ahead_of_own(remote),
        version_of(remote) == version_of(VERSION@) ==> !behind_own(remote) && !ahead_of_own(remote),
{
}

/// A host is behind this rx exactly where its version is older, and ahead exactly
/// where it is newer: a version that can be read is one of the two unless it is our
/// own.
pub proof fn lemma_host_is_behind_or_ahead(remote: Seq<char>, own: (int, int, int))
    requires
        version_of(VERSION@) == Some(own),
    ensures
        version_of(remote) matches Some(v) ==> {
            &&& behind_own(remote) <==> is_older(v, own)
            &&& ahead_of_own(remote) <==> is_older(own, v)
            &&& v != own <==> behind_own(remote) || ahead_of_own(remote)
        },
{
}

// ---------------------------------------------------------------------------
// Options and results
// ---------------------------------------------------------------------------

/// Knobs for a deployment. Defaults suit an explicit `rx deploy`: fetch what is
/// needed, refuse to move a host backwards.
#[derive(Debug)]
pub struct DeployOpts {
    /// Push this local binary instead of a cached release asset.
    pub binary: Option<String>,
    /// May download the matching release asset if the cache lacks it.
    pub allow_fetch: bool,
    /// Permit replacing an rxd that is *newer* than this rx.
    pub allow_downgrade: bool,
}

impl Default for DeployOpts {
    fn default() -> (r: Self)
        ensures
            r == (DeployOpts { binary: None, allow_fetch: true, allow_downgrade: false }),
    {
        DeployOpts { binary: None, allow_fetch: true, allow_downgrade: false }
    }
}

impl DeployOpts {
    /// The options an implicit (policy-driven) deploy runs with.
    pub fn for_policy(policy: DeployPolicy) -> (r: Self)
        ensures
            r == (DeployOpts {
                binary: None,
                allow_fetch: policy is On,
                allow_downgrade: false,
            }),
    {
        DeployOpts { binary: None, allow_fetch: policy.implicit_fetch(), allow_downgrade: false }
    }
}

/// Result of a successful deployment.
#[derive(Debug)]
pub struct DeployResult {
    pub host: String,
    pub arch: String,
    pub version: String,
    /// False when the host already ran this exact rxd and nothing was uploaded.
    pub changed: bool,
}

/// What the remote's rxd looks like, determined by probing the stable `version`
/// command.
#[derive(Debug)]
pub enum DeployStatus {
    /// rxd present and speaking our protocol.
    Current { version: String },
    /// rxd present but a different protocol than ours (older or newer).
    Incompatible { version: String, protocol: u32 },
    /// rxd absent, or too old or broken to answer `version` parseably.
    Missing,
    /// Couldn't tell: a connectivity or authentication failure, not a deploy
    /// problem.
    Unknown,
}

/// What the answer to the `version` probe says.
pub open spec fn status_by(answer: Result<Response, RemExecError>) -> DeployStatus {
    match answer {
        Ok(Response::Version { version, protocol }) => if protocol == PROTOCOL_VERSION {
            DeployStatus::Current { version }
        } else {
            DeployStatus::Incompatible { version, protocol }
        },
        Ok(_) => DeployStatus::Missing,
        Err(e) => if ssh_failure(e.text()) is Some {
            DeployStatus::Unknown
        } else {
            DeployStatus::Missing
        },
    }
}

/// A host is taken for current only where it says that it speaks our protocol, and
/// it is then the version that it says; a host that could not be reached is never
/// taken for one that lacks rxd.
pub proof fn lemma_status_is_what_the_host_says(answer: Result<Response, RemExecError>)
    ensures
        status_by(answer) matches DeployStatus::Current { version } ==> answer == Ok::<
            Response,
            RemExecError,
        >(Response::Version { version, protocol: PROTOCOL_VERSION }),
        status_by(answer) matches DeployStatus::Incompatible { version, protocol } ==> protocol
            != PROTOCOL_VERSION && answer == Ok::<Response, RemExecError>(
            Response::Version { version, protocol },
        ),
        status_by(answer) is Unknown <==> (answer matches Err(e) && ssh_failure(e.text()) is Some),
        (answer matches Ok(r) && r is Version) ==> status_by(answer) is Current || status_by(answer)
            is Incompatible,
{
}

/// Classify the answer to the `version` probe.
///
/// A parseable answer yields an exact protocol number, and an unparseable or
/// absent one is treated as needing a deploy. A connectivity or authentication
/// failure is `Unknown`, so it is never mistaken for a deploy problem.
pub fn remote_deploy_status(answer: Result<Response, RemExecError>) -> (r: DeployStatus)
    ensures
        r == status_by(answer),
{
    match answer {
        Ok(Response::Version { version, protocol }) => {
            if protocol == PROTOCOL_VERSION {
                DeployStatus::Current { version }
            } else {
                DeployStatus::Incompatible { version, protocol }
            }
        },
        Ok(_) => DeployStatus::Missing,
        Err(e) => {
            if classify_ssh_failure(e.message().as_str()).is_some() {
                DeployStatus::Unknown
            } else {
                DeployStatus::Missing
            }
        },
    }
}

/// What a `not_deployed` error says of the remote.
pub open spec fn not_deployed_text(host: Seq<char>, status: DeployStatus) -> Seq<char> {
    match status {
        DeployStatus::Incompatible { version, protocol } => "remote rxd "@ + version@ + " on "@
            + host + " speaks protocol "@ + decimal(protocol as nat)
            + ", but rx needs protocol "@ + decimal(PROTOCOL_VERSION as nat),
        _ => "rxd is missing or unversioned on "@ + host,
    }
}

/// The hint of a `not_deployed` error.
pub open spec fn not_deployed_hint(host: Seq<char>) -> Seq<char> {
    "run `rx deploy "@ + host + "` to install rxd "@ + own_tag()
        + "; or --auto-deploy=on (env RX_AUTO_DEPLOY=on) to deploy during a command instead"@
}

/// What is said of a host without a fitting rxd names the host, and the hint the command
/// that mends it; of an rxd with another protocol its version and both protocols are
/// told, each as what it is.
pub proof fn lemma_not_deployed_names_the_host(host: Seq<char>, status: DeployStatus)
    ensures
        contains_text(not_deployed_text(host, status), host),
        contains_text(not_deployed_hint(host), "rx deploy "@ + host),
        status matches DeployStatus::Incompatible { version, protocol } ==> contains_text(
            not_deployed_text(host, status),
            "rxd "@ + version@,
        ) && contains_text(
            not_deployed_text(host, status),
            "speaks protocol "@ + decimal(protocol as nat),
        ) && contains_text(
            not_deployed_text(host, status),
            "needs protocol "@ + decimal(PROTOCOL_VERSION as nat),
        ),
{
    let none = Seq::<char>::empty();
    reveal_strlit("run `rx deploy ");
    reveal_strlit("rx deploy ");
    reveal_strlit("run `");
    assert("run `rx deploy "@ =~= "run `"@ + "rx deploy "@);
    let b = "` to install rxd "@ + own_tag()
        + "; or --auto-deploy=on (env RX_AUTO_DEPLOY=on) to deploy during a command instead"@;
    assert(not_deployed_hint(host) =~= "run `"@ + ("rx deploy "@ + host) + b);
    crate::text::lemma_part_occurs("run `"@, "rx deploy "@ + host, b);
    let t = not_deployed_text(host, status);
    match status {
        DeployStatus::Incompatible { version, protocol } => {
            reveal_strlit("remote rxd ");
            reveal_strlit("remote ");
            reveal_strlit("rxd ");
            reveal_strlit(" speaks protocol ");
            reveal_strlit("speaks protocol ");
            reveal_strlit(" ");
            reveal_strlit(", but rx needs protocol ");
            reveal_strlit(", but rx ");
            reveal_strlit("needs protocol ");
            assert("remote rxd "@ =~= "remote "@ + "rxd "@);
            assert(" speaks protocol "@ =~= " "@ + "speaks protocol "@);
            assert(", but rx needs protocol "@ =~= ", but rx "@ + "needs protocol "@);
            let p = decimal(protocol as nat);
            let q = decimal(PROTOCOL_VERSION as nat);
            let end = ", but rx needs protocol "@ + q;
            let front = "remote rxd "@ + version@ + " on "@;
            assert(t =~= front + host + (" speaks protocol "@ + p + end));
            crate::text::lemma_part_occurs(front, host, " speaks protocol "@ + p + end);
            let rest = " on "@ + host + " speaks protocol "@ + p + end;
            assert(t =~= "remote "@ + ("rxd "@ + version@) + rest);
            crate::text::lemma_part_occurs("remote "@, "rxd "@ + version@, rest);
            assert(t =~= (front + host + " "@) + ("speaks protocol "@ + p) + end);
            crate::text::lemma_part_occurs(front + host + " "@, "speaks protocol "@ + p, end);
            let all = front + host + " speaks protocol "@ + p + ", but rx "@;
            assert(t =~= all + ("needs protocol "@ + q) + none);
            crate::text::lemma_part_occurs(all, "needs protocol "@ + q, none);
        },
        _ => {
            let a = "rxd is missing or unversioned on "@;
            assert(t =~= a + host + none);
            crate::text::lemma_part_occurs(a, host, none);
        },
    }
}

/// Build the actionable "remote rxd needs (re)deploying" error. Names the
/// remote's state and both ways to fix it.
pub fn not_deployed_response(host: &str, status: &DeployStatus) -> (r: Response)
    ensures
        is_error(
            r,
            ErrorCode::NotDeployed,
            not_deployed_text(host@, *status),
            Some(not_deployed_hint(host@)),
        ),
{
    let detail: String = match status {
        DeployStatus::Incompatible { version, protocol } => {
            let mut d = labelled("remote rxd ", version.as_str());
            d.append(" on ");
            d.append(host);
            d.append(" speaks protocol ");
            d.append(render_u64(*protocol as u64).as_str());
            d.append(", but rx needs protocol ");
            d.append(render_u64(PROTOCOL_VERSION as u64).as_str());
            d
        },
        _ => labelled("rxd is missing or unversioned on ", host),
    };
    let mut hint = labelled("run `rx deploy ", host);
    hint.append("` to install rxd ");
    hint.append(own_version().as_str());
    hint.append(
        "; or --auto-deploy=on (env RX_AUTO_DEPLOY=on) to deploy during a command instead",
    );
    error_with_hint(ErrorCode::NotDeployed, detail.as_str(), hint.as_str())
}

/// The error looks like a missing or an outdated rxd.
pub open spec fn suggests_deploy(err: RemExecError) -> bool {
    match err {
        RemExecError::Ssh(m) => contains_text(m@, "not found"@) || contains_text(
            m@,
            "No such file"@,
        ) || contains_text(m@, "unrecognized subcommand"@) || contains_text(
            m@,
            "unexpected argument"@,
        ),
        RemExecError::Protocol(_) => true,
        _ => false,
    }
}

/// The phrases by which a missing or an outdated rxd is known.
pub open spec fn deploy_phrases() -> Seq<Seq<char>> {
    seq!["not found"@, "No such file"@, "unrecognized subcommand"@, "unexpected argument"@]
}

/// A deploy is suggested by what cannot be understood and by what SSH says of a
/// program that is not there or too old, and by nothing else.
pub proof fn lemma_deploy_is_suggested(err: RemExecError, k: int)
    requires
        0 <= k < deploy_phrases().len(),
    ensures
        err is Protocol ==> suggests_deploy(err),
        err !is Protocol && err !is Ssh ==> !suggests_deploy(err),
        err matches RemExecError::Ssh(m) ==> (contains_text(m@, deploy_phrases()[k])
            ==> suggests_deploy(err)),
        err matches RemExecError::Ssh(m) ==> (suggests_deploy(err) ==> exists|i: int|
            0 <= i < deploy_phrases().len() && contains_text(m@, #[trigger] deploy_phrases()[i])),
{
    let p = deploy_phrases();
    assert(p[0] == "not found"@ && p[1] == "No such file"@ && p[2] == "unrecognized subcommand"@
        && p[3] == "unexpected argument"@);
}

/// Check if auto-deploy should be attempted based on the error.
///
/// Covers a missing rxd and an rxd too old to understand `serve`; a protocol
/// error (unparseable JSON) also implies a version mismatch. Deliberately does
/// not match "Permission denied": that fires on SSH authentication failure,
/// where a redeploy would fail the same way.
pub fn should_auto_deploy(err: &RemExecError) -> (r: bool)
    ensures
        r == suggests_deploy(*err),
{
    match err {
        RemExecError::Ssh(m) => contains(m.as_str(), "not found") || contains(
            m.as_str(),
            "No such file",
        ) || contains(m.as_str(), "unrecognized subcommand") || contains(
            m.as_str(),
            "unexpected argument",
        ),
        RemExecError::Protocol(_) => true,
        _ => false,
    }
}

/// The hint of a failed deploy.
pub open spec fn deploy_hint() -> Seq<char> {
    "pass --binary PATH to push a local rxd build, or --offline to use only what the deploy cache already has"@
}

/// `hint`, as text, for an error response.
pub open spec fn failed_deploy_text(host: Seq<char>, detail: Seq<char>) -> Seq<char> {
    single_line("deploy to "@ + host + " failed: "@ + detail)
}

/// `r` says that a deploy failed, and why.
pub open spec fn is_deploy_error(r: Response, host: Seq<char>, err: RemExecError) -> bool {
    let ssh = match err {
        RemExecError::Ssh(detail) => ssh_failure(detail@),
        _ => None,
    };
    match ssh {
        Some(code) => is_error(r, code, failed_deploy_text(host, err->Ssh_0@), hint_for(code)),
        None => is_error(
            r,
            ErrorCode::DeployFailed,
            failed_deploy_text(host, err.text()),
            Some(deploy_hint()),
        ),
    }
}

/// A failed deploy is an error in one line. One that SSH is to blame for has the code
/// that SSH's failure has anywhere else; any other is a failed deploy, with a hint.
pub proof fn lemma_failed_deploy_is_told(r: Response, host: Seq<char>, err: RemExecError)
    requires
        is_deploy_error(r, host, err),
    ensures
        r matches Response::Error { code, message, hint, .. } && {
            &&& !message@.contains('\n')
            &&& (err matches RemExecError::Ssh(m) && ssh_failure(m@) is Some) ==> (
            err matches RemExecError::Ssh(m) && code == ssh_failure(m@))
            &&& !(err matches RemExecError::Ssh(m) && ssh_failure(m@) is Some) ==> code == Some(
                ErrorCode::DeployFailed,
            ) && hint is Some
        },
{
    crate::text::lemma_single_line("deploy to "@ + host + " failed: "@ + err.text());
    if let RemExecError::Ssh(m) = err {
        crate::text::lemma_single_line("deploy to "@ + host + " failed: "@ + m@);
    }
}

/// Turn a failed deploy into the same typed error shape every other command
/// produces. SSH-level failures keep their own codes (and therefore their own
/// retryability), so an unreachable host reports `ssh_unreachable` here exactly
/// as it would anywhere else. The message is one line.
pub fn deploy_error_response(host: &str, err: &RemExecError) -> (r: Response)
    ensures
        is_deploy_error(r, host@, *err),
{
    let mut message = labelled("deploy to ", host);
    message.append(" failed: ");
    if let RemExecError::Ssh(detail) = err {
        if let Some(code) = classify_ssh_failure(detail.as_str()) {
            message.append(detail.as_str());
            let line = one_line(message.as_str());
            return match transport_hint(code) {
                Some(hint) => error_with_hint(code, line.as_str(), hint),
                None => Response::error_code(code, line.as_str()),
            };
        }
    }
    message.append(err.message().as_str());
    error_with_hint(
        ErrorCode::DeployFailed,
        one_line(message.as_str()).as_str(),
        "pass --binary PATH to push a local rxd build, or --offline to use only what the deploy cache already has",
    )
}


} // verus!
