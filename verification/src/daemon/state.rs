//! In-memory state of the daemon, and where it caches process output.

use vstd::prelude::*;
use vstd::utf8::encode_utf8;

use crate::number::{hex_pair, push_hex_pair};
use crate::path::{join, joined_path};
use crate::text::same;

verus! {

/// A process being tracked by the daemon.
#[derive(Debug)]
pub struct TrackedProcess {
    pub id: String,
    pub local_dir: String,
}

/// Per-host state tracking: each process once.
#[derive(Debug)]
pub struct HostState {
    pub processes: Vec<TrackedProcess>,
}

/// In-memory state of the daemon: each host once.
#[derive(Debug)]
pub struct DaemonState {
    pub hosts: Vec<(String, HostState)>,
    pub local_base: String,
}

// ---------------------------------------------------------------------------
// Processes of one host
// ---------------------------------------------------------------------------

/// Process `i` has this ID.
pub open spec fn process_at(ps: Seq<TrackedProcess>, id: Seq<char>, i: int) -> bool {
    0 <= i < ps.len() && ps[i].id@ == id
}

/// Where the process with this ID stands.
pub open spec fn process_index(ps: Seq<TrackedProcess>, id: Seq<char>) -> int {
    choose|i: int| process_at(ps, id, i)
}

impl View for HostState {
    type V = Map<Seq<char>, Seq<char>>;

    /// The local directory of each process.
    open spec fn view(&self) -> Map<Seq<char>, Seq<char>> {
        Map::new(
            |id: Seq<char>| exists|i: int| process_at(self.processes@, id, i),
            |id: Seq<char>| self.processes@[process_index(self.processes@, id)].local_dir@,
        )
    }
}

impl HostState {
    /// No process stands twice.
    pub open spec fn wf(self) -> bool {
        forall|i: int, j: int|
            0 <= i < j < self.processes@.len() ==> (#[trigger] self.processes@[i]).id@ != (
            #[trigger] self.processes@[j]).id@
    }

    /// No process.
    pub fn new() -> (r: Self)
        ensures
            r.wf(),
            r@ == Map::<Seq<char>, Seq<char>>::empty(),
    {
        let r = HostState { processes: Vec::new() };
        assert(r@ =~= Map::<Seq<char>, Seq<char>>::empty());
        r
    }

    fn find(&self, id: &str) -> (r: Option<usize>)
        ensures
            match r {
                Some(i) => process_at(self.processes@, id@, i as int),
                None => forall|i: int| !process_at(self.processes@, id@, i),
            },
    {
        let mut i: usize = 0;
        while i < self.processes.len()
            invariant
                i <= self.processes@.len(),
                forall|k: int| 0 <= k < i ==> !process_at(self.processes@, id@, k),
            decreases self.processes@.len() - i,
        {
            if same(self.processes[i].id.as_str(), id) {
                return Some(i);
            }
            i += 1;
        }
        None
    }

    /// Track a process; one with the same ID is replaced.
    pub fn insert(&mut self, id: &str, local_dir: &str)
        requires
            old(self).wf(),
        ensures
            final(self).wf(),
            final(self)@ == old(self)@.insert(id@, local_dir@),
    {
        let entry = TrackedProcess { id: id.to_owned(), local_dir: local_dir.to_owned() };
        let ghost ps0 = self.processes@;
        let ghost at: int = ps0.len() as int;
        match self.find(id) {
            Some(i) => {
                proof {
                    at = i as int;
                }
                self.processes.set(i, entry);
            },
            None => {
                assert forall|k: int| 0 <= k < ps0.len() implies (#[trigger] ps0[k]).id@ != id@ by {
                    assert(!process_at(ps0, id@, k));
                }
                self.processes.push(entry);
            },
        }
        proof {
            let ps1 = self.processes@;
            assert(process_at(ps1, id@, at));
            assert forall|k: Seq<char>|
                #[trigger] self@.contains_key(k) <==> old(self)@.insert(id@, local_dir@).contains_key(
                    k,
                ) by {
                if self@.contains_key(k) && k != id@ {
                    let i = process_index(ps1, k);
                    assert(process_at(ps1, k, i));
                    assert(process_at(ps0, k, i));
                }
                if old(self)@.contains_key(k) {
                    let i = process_index(ps0, k);
                    assert(process_at(ps0, k, i));
                    assert(process_at(ps1, k, i));
                }
            }
            assert forall|k: Seq<char>| #[trigger] self@.contains_key(k) implies self@[k] == old(
                self,
            )@.insert(id@, local_dir@)[k] by {
                let i = process_index(ps1, k);
                assert(process_at(ps1, k, i));
                if k != id@ {
                    assert(process_at(ps0, k, i));
                    let j = process_index(ps0, k);
                    assert(process_at(ps0, k, j));
                    assert(i == j);
                } else {
                    assert(i == at);
                }
            }
            assert(self@ =~= old(self)@.insert(id@, local_dir@));
        }
    }

    /// Forget every process.
    pub fn clear(&mut self)
        ensures
            final(self).wf(),
            final(self)@ == Map::<Seq<char>, Seq<char>>::empty(),
    {
        self.processes = Vec::new();
        assert(self@ =~= Map::<Seq<char>, Seq<char>>::empty());
    }

    /// There are as many processes as IDs.
    pub proof fn lemma_count(self)
        requires
            self.wf(),
        ensures
            self@.dom().finite(),
            self@.dom().len() == self.processes@.len(),
    {
        let ids = Seq::new(self.processes@.len(), |i: int| self.processes@[i].id@);
        assert(ids.no_duplicates());
        ids.unique_seq_to_set();
        assert(ids.to_set() =~= self@.dom()) by {
            assert forall|k: Seq<char>| ids.to_set().contains(k) <==> self@.dom().contains(k) by {
                if self@.dom().contains(k) {
                    let i = process_index(self.processes@, k);
                    assert(process_at(self.processes@, k, i));
                    assert(ids[i] == k);
                }
                if ids.to_set().contains(k) {
                    let i = choose|i: int| 0 <= i < ids.len() && ids[i] == k;
                    assert(process_at(self.processes@, k, i));
                }
            }
        }
    }
}

// ---------------------------------------------------------------------------
// Hosts
// ---------------------------------------------------------------------------

/// Host `i` has this name.
pub open spec fn host_at(hs: Seq<(String, HostState)>, host: Seq<char>, i: int) -> bool {
    0 <= i < hs.len() && hs[i].0@ == host
}

/// Where the host with this name stands.
pub open spec fn host_index(hs: Seq<(String, HostState)>, host: Seq<char>) -> int {
    choose|i: int| host_at(hs, host, i)
}

/// `new` is `hs` with another state for host `at`.
pub open spec fn updated_at(
    hs: Seq<(String, HostState)>,
    new: Seq<(String, HostState)>,
    at: int,
) -> bool {
    new == hs.update(at, (hs[at].0, new[at].1))
}

/// How many processes are tracked on these hosts.
pub open spec fn tracked_count(hs: Seq<(String, HostState)>) -> nat
    decreases hs.len(),
{
    if hs.len() == 0 {
        0
    } else {
        tracked_count(hs.drop_last()) + hs.last().1@.dom().len()
    }
}

impl View for DaemonState {
    type V = Map<Seq<char>, Map<Seq<char>, Seq<char>>>;

    /// The processes of each host.
    open spec fn view(&self) -> Map<Seq<char>, Map<Seq<char>, Seq<char>>> {
        Map::new(
            |h: Seq<char>| exists|i: int| host_at(self.hosts@, h, i),
            |h: Seq<char>| self.hosts@[host_index(self.hosts@, h)].1@,
        )
    }
}

/// The processes of a host; none where the host is not known.
pub open spec fn processes_of(
    m: Map<Seq<char>, Map<Seq<char>, Seq<char>>>,
    host: Seq<char>,
) -> Map<Seq<char>, Seq<char>> {
    if m.contains_key(host) {
        m[host]
    } else {
        Map::empty()
    }
}

impl DaemonState {
    /// No host stands twice, and no process of a host does.
    pub open spec fn wf(self) -> bool {
        &&& forall|i: int, j: int|
            0 <= i < j < self.hosts@.len() ==> (#[trigger] self.hosts@[i]).0@ != (
            #[trigger] self.hosts@[j]).0@
        &&& forall|i: int| 0 <= i < self.hosts@.len() ==> (#[trigger] self.hosts@[i]).1.wf()
    }

    /// No host, with output cached below `local_base`.
    pub fn new(local_base: &str) -> (r: Self)
        ensures
            r.wf(),
            r@ == Map::<Seq<char>, Map<Seq<char>, Seq<char>>>::empty(),
            r.local_base@ == local_base@,
    {
        let r = DaemonState { hosts: Vec::new(), local_base: local_base.to_owned() };
        assert(r@ =~= Map::<Seq<char>, Map<Seq<char>, Seq<char>>>::empty());
        r
    }

    fn find(&self, host: &str) -> (r: Option<usize>)
        ensures
            match r {
                Some(i) => host_at(self.hosts@, host@, i as int),
                None => forall|i: int| !host_at(self.hosts@, host@, i),
            },
    {
        let mut i: usize = 0;
        while i < self.hosts.len()
            invariant
                i <= self.hosts@.len(),
                forall|k: int| 0 <= k < i ==> !host_at(self.hosts@, host@, k),
            decreases self.hosts@.len() - i,
        {
            if same(self.hosts[i].0.as_str(), host) {
                return Some(i);
            }
            i += 1;
        }
        None
    }

    proof fn lemma_at(self, host: Seq<char>, i: int)
        requires
            self.wf(),
            host_at(self.hosts@, host, i),
        ensures
            self@.contains_key(host),
            self@[host] == self.hosts@[i].1@,
    {
        let j = host_index(self.hosts@, host);
        assert(host_at(self.hosts@, host, j));
        assert(i == j);
    }

    /// Replacing the state of host `i` is an insertion under its name.
    proof fn lemma_updated(self, new: DaemonState, host: Seq<char>, i: int)
        requires
            self.wf(),
            new.wf(),
            host_at(new.hosts@, host, i),
            host_at(self.hosts@, host, i) || (i == self.hosts@.len() && !self@.contains_key(host)),
            new.hosts@.len() == if i < self.hosts@.len() {
                self.hosts@.len()
            } else {
                self.hosts@.len() + 1
            },
            forall|k: int|
                0 <= k < self.hosts@.len() && k != i ==> #[trigger] new.hosts@[k]
                    == self.hosts@[k],
        ensures
            new@ == self@.insert(host, new.hosts@[i].1@),
    {
        let value = new.hosts@[i].1@;
        assert forall|h: Seq<char>|
            #[trigger] new@.contains_key(h) <==> self@.insert(host, value).contains_key(h) by {
            if new@.contains_key(h) && h != host {
                let k = host_index(new.hosts@, h);
                assert(host_at(new.hosts@, h, k));
                assert(host_at(self.hosts@, h, k));
            }
            if self@.contains_key(h) {
                let k = host_index(self.hosts@, h);
                assert(host_at(self.hosts@, h, k));
                assert(host_at(new.hosts@, h, k));
            }
        }
        assert forall|h: Seq<char>| #[trigger] new@.contains_key(h) implies new@[h] == self@.insert(
            host,
            value,
        )[h] by {
            let k = host_index(new.hosts@, h);
            assert(host_at(new.hosts@, h, k));
            new.lemma_at(h, k);
            if h != host {
                assert(host_at(self.hosts@, h, k));
                self.lemma_at(h, k);
            } else {
                new.lemma_at(h, i);
            }
        }
        assert(new@ =~= self@.insert(host, value));
    }

    /// Set the state of a host.
    fn put_host(&mut self, host: &str, value: HostState) -> (r: usize)
        requires
            old(self).wf(),
            value.wf(),
        ensures
            final(self).wf(),
            final(self)@ == old(self)@.insert(host@, value@),
            final(self).local_base == old(self).local_base,
            host_at(final(self).hosts@, host@, r as int),
    {
        let ghost hs0 = self.hosts@;
        match self.find(host) {
            Some(i) => {
                self.hosts.set(i, (host.to_owned(), value));
                proof {
                    old(self).lemma_updated(*self, host@, i as int);
                }
                i
            },
            None => {
                assert forall|k: int| 0 <= k < hs0.len() implies (#[trigger] hs0[k]).0@ != host@ by {
                    assert(!host_at(hs0, host@, k));
                }
                let at: usize = self.hosts.len();
                self.hosts.push((host.to_owned(), value));
                proof {
                    old(self).lemma_updated(*self, host@, hs0.len() as int);
                }
                at
            },
        }
    }

    proof fn lemma_updated_at(self, new: DaemonState, at: int)
        requires
            self.wf(),
            0 <= at < self.hosts@.len(),
            updated_at(self.hosts@, new.hosts@, at),
            new.hosts@[at].1.wf(),
        ensures
            new.wf(),
    {
        assert forall|i: int, j: int| 0 <= i < j < new.hosts@.len() implies (
        #[trigger] new.hosts@[i]).0@ != (#[trigger] new.hosts@[j]).0@ by {
            assert(self.hosts@[i].0@ != self.hosts@[j].0@);
        }
        assert forall|i: int| 0 <= i < new.hosts@.len() implies (#[trigger] new.hosts@[i]).1.wf() by {
            if i != at {
                assert(self.hosts@[i].1.wf());
            }
        }
    }

    fn entry(&mut self, at: usize) -> (r: &mut HostState)
        requires
            at < old(self).hosts@.len(),
        ensures
            *r == old(self).hosts@[at as int].1,
            final(self).local_base == old(self).local_base,
            updated_at(old(self).hosts@, final(self).hosts@, at as int),
            final(self).hosts@[at as int].1 == *final(r),
    {
        &mut self.hosts[at].1
    }

    /// Get or create the state of a host.
    pub fn host_mut(&mut self, host: &str) -> (r: &mut HostState)
        requires
            old(self).wf(),
        ensures
            r.wf(),
            r@ == processes_of(old(self)@, host@),
            final(self).local_base == old(self).local_base,
            final(r).wf() ==> final(self).wf() && final(self)@ == old(self)@.insert(
                host@,
                final(r)@,
            ),
    {
        let at: usize = match self.find(host) {
            Some(i) => i,
            None => self.put_host(host, HostState::new()),
        };
        let ghost mid = *self;
        proof {
            mid.lemma_at(host@, at as int);
            assert(mid@ =~= old(self)@ || mid@ =~= old(self)@.insert(host@, Map::empty()));
        }
        proof {
            assert forall|end: DaemonState|
                #![trigger end.wf()]
                #![trigger end@]
                updated_at(mid.hosts@, end.hosts@, at as int) && end.hosts@[at as int].1.wf() implies {
                &&& end.wf()
                &&& end@ == old(self)@.insert(host@, end.hosts@[at as int].1@)
            } by {
                mid.lemma_updated_at(end, at as int);
                mid.lemma_updated(end, host@, at as int);
                assert(end@ =~= old(self)@.insert(host@, end.hosts@[at as int].1@));
            }
        }
        self.entry(at)
    }

    /// Forget the processes of a host; a host that is not known stays unknown.
    pub fn forget(&mut self, host: &str)
        requires
            old(self).wf(),
        ensures
            final(self).wf(),
            final(self)@ == if old(self)@.contains_key(host@) {
                old(self)@.insert(host@, Map::empty())
            } else {
                old(self)@
            },
            final(self).local_base == old(self).local_base,
    {
        match self.find(host) {
            Some(i) => {
                proof {
                    self.lemma_at(host@, i as int);
                }
                let r = self.host_mut(host);
                r.clear();
            },
            None => {
                proof {
                    if self@.contains_key(host@) {
                        assert(host_at(self.hosts@, host@, host_index(self.hosts@, host@)));
                    }
                }
            },
        }
    }

    /// The local cache directory for a host.
    pub fn host_dir(&self, host: &str) -> (r: String)
        ensures
            r@ == host_cache(self.local_base@, host@),
    {
        join(self.local_base.as_str(), safe_path_component(host).as_str())
    }

    /// The local directory for a process on a host.
    pub fn local_dir(&self, host: &str, id: &str) -> (r: String)
        ensures
            r@ == process_cache(self.local_base@, host@, id@),
    {
        join(self.host_dir(host).as_str(), safe_path_component(id).as_str())
    }

    /// How many hosts and processes are tracked.
    pub fn summary(&self) -> (r: (usize, usize))
        requires
            self.wf(),
            tracked_count(self.hosts@) <= usize::MAX,
        ensures
            r.0 == self@.dom().len(),
            r.1 == tracked_count(self.hosts@),
    {
        let mut procs: usize = 0;
        let mut i: usize = 0;
        assert(self.hosts@.take(0) =~= Seq::<(String, HostState)>::empty());
        while i < self.hosts.len()
            invariant
                i <= self.hosts@.len(),
                self.wf(),
                procs == tracked_count(self.hosts@.take(i as int)),
                tracked_count(self.hosts@) <= usize::MAX,
            decreases self.hosts@.len() - i,
        {
            proof {
                let next = self.hosts@.take(i + 1);
                assert(next.drop_last() =~= self.hosts@.take(i as int));
                self.hosts@[i as int].1.lemma_count();
                lemma_tracked_count(self.hosts@, i + 1);
            }
            procs += self.hosts[i].1.processes.len();
            i += 1;
        }
        proof {
            assert(self.hosts@.take(i as int) =~= self.hosts@);
            self.lemma_host_count();
        }
        (self.hosts.len(), procs)
    }

    proof fn lemma_host_count(self)
        requires
            self.wf(),
        ensures
            self@.dom().len() == self.hosts@.len(),
    {
        let names = Seq::new(self.hosts@.len(), |i: int| self.hosts@[i].0@);
        assert(names.no_duplicates());
        names.unique_seq_to_set();
        assert(names.to_set() =~= self@.dom()) by {
            assert forall|k: Seq<char>| names.to_set().contains(k) <==> self@.dom().contains(k) by {
                if self@.dom().contains(k) {
                    let i = host_index(self.hosts@, k);
                    assert(host_at(self.hosts@, k, i));
                    assert(names[i] == k);
                }
                if names.to_set().contains(k) {
                    let i = choose|i: int| 0 <= i < names.len() && names[i] == k;
                    assert(host_at(self.hosts@, k, i));
                }
            }
        }
    }
}

proof fn lemma_tracked_count(hs: Seq<(String, HostState)>, n: int)
    requires
        0 <= n <= hs.len(),
    ensures
        tracked_count(hs.take(n)) <= tracked_count(hs),
    decreases hs.len(),
{
    if n == hs.len() {
        assert(hs.take(n) =~= hs);
    } else {
        lemma_tracked_count(hs.drop_last(), n);
        assert(hs.drop_last().take(n) =~= hs.take(n));
    }
}

// ---------------------------------------------------------------------------
// Cache paths
// ---------------------------------------------------------------------------

/// The byte stands for itself in a cache path.
pub open spec fn is_plain_byte(b: u8) -> bool {
    0x41 <= b <= 0x5a || 0x61 <= b <= 0x7a || 0x30 <= b <= 0x39 || b == 0x2e || b == 0x5f || b
        == 0x2d
}

/// How a byte is written in a cache path.
pub open spec fn escaped(b: u8) -> Seq<char> {
    if is_plain_byte(b) {
        seq![b as char]
    } else {
        seq!['%'] + hex_pair(b)
    }
}

/// How bytes are written in a cache path.
pub open spec fn escaped_all(bytes: Seq<u8>) -> Seq<char>
    decreases bytes.len(),
{
    if bytes.len() == 0 {
        Seq::empty()
    } else {
        escaped(bytes[0]) + escaped_all(bytes.skip(1))
    }
}

/// The path component that stands for a host or a process.
pub open spec fn safe_component(s: Seq<char>) -> Seq<char> {
    "c-"@ + escaped_all(encode_utf8(s))
}

/// The local cache directory for a host.
pub open spec fn host_cache(base: Seq<char>, host: Seq<char>) -> Seq<char> {
    joined_path(base, safe_component(host))
}

/// The local cache directory for a process.
pub open spec fn process_cache(base: Seq<char>, host: Seq<char>, id: Seq<char>) -> Seq<char> {
    joined_path(host_cache(base, host), safe_component(id))
}

fn push_escaped(out: &mut String, b: u8)
    ensures
        final(out)@ == old(out)@ + escaped(b),
{
    match b {
        0x41..=0x5a | 0x61..=0x7a | 0x30..=0x39 | 0x2e | 0x5f | 0x2d => {
            out.push(b as char);
        },
        _ => {
            out.push('%');
            push_hex_pair(out, b);
        },
    }
    assert(out@ =~= old(out)@ + escaped(b));
}

/// A path component for a host or a process that no input can turn into another
/// directory: everything but a few plain characters is escaped.
pub fn safe_path_component(input: &str) -> (r: String)
    ensures
        r@ == safe_component(input@),
{
    let bytes = input.as_bytes();
    let mut out = "c-".to_owned();
    let mut i: usize = 0;
    assert(bytes@.skip(0) =~= bytes@);
    while i < bytes.len()
        invariant
            i <= bytes@.len(),
            out@ + escaped_all(bytes@.skip(i as int)) == "c-"@ + escaped_all(bytes@),
        decreases bytes@.len() - i,
    {
        let ghost before = out@;
        push_escaped(&mut out, bytes[i]);
        proof {
            let rest = bytes@.skip(i as int);
            assert(rest.skip(1) =~= bytes@.skip(i + 1));
            assert(before + (escaped(rest[0]) + escaped_all(rest.skip(1))) =~= out@ + escaped_all(
                rest.skip(1),
            ));
        }
        i += 1;
    }
    assert(bytes@.skip(i as int) =~= Seq::<u8>::empty());
    assert(out@ + Seq::<char>::empty() =~= out@);
    out
}

/// The char of a number up to 255 keeps its value.
proof fn lemma_byte_char(a: u8, b: u8)
    ensures
        a as char == b as char ==> a == b,
        a as char == '%' ==> a == 0x25,
        a as char == '/' ==> a == 0x2f,
{
}

proof fn lemma_hex_pair(a: u8, b: u8)
    ensures
        hex_pair(a) == hex_pair(b) ==> a == b,
        hex_pair(a)[0] != '/' && hex_pair(a)[1] != '/',
{
    if hex_pair(a) == hex_pair(b) {
        assert(hex_pair(a)[0] == hex_pair(b)[0]);
        assert(hex_pair(a)[1] == hex_pair(b)[1]);
    }
}

proof fn lemma_escaped_injective(a: Seq<u8>, b: Seq<u8>)
    requires
        escaped_all(a) == escaped_all(b),
    ensures
        a == b,
    decreases a.len() + b.len(),
{
    let ea = escaped_all(a);
    if a.len() == 0 || b.len() == 0 {
        if a.len() > 0 {
            assert(ea.len() == escaped(a[0]).len() + escaped_all(a.skip(1)).len());
        }
        if b.len() > 0 {
            assert(ea.len() == escaped(b[0]).len() + escaped_all(b.skip(1)).len());
        }
        assert(a =~= b);
    } else {
        let (ra, rb) = (escaped_all(a.skip(1)), escaped_all(b.skip(1)));
        assert(ea[0] == escaped(a[0])[0]);
        assert(ea[0] == escaped(b[0])[0]);
        lemma_byte_char(a[0], b[0]);
        lemma_byte_char(b[0], a[0]);
        lemma_hex_pair(a[0], b[0]);
        let n = escaped(a[0]).len() as int;
        assert(is_plain_byte(a[0]) == is_plain_byte(b[0]));
        assert(ea.skip(n) =~= ra);
        assert(ea.skip(n) =~= rb);
        if !is_plain_byte(a[0]) {
            assert(ea.subrange(1, 3) =~= hex_pair(a[0]));
            assert(ea.subrange(1, 3) =~= hex_pair(b[0]));
        }
        assert(a[0] == b[0]);
        lemma_escaped_injective(a.skip(1), b.skip(1));
        assert(a =~= seq![a[0]] + a.skip(1));
        assert(b =~= seq![b[0]] + b.skip(1));
    }
}

proof fn lemma_escaped_has_no_slash(bytes: Seq<u8>)
    ensures
        !escaped_all(bytes).contains('/'),
    decreases bytes.len(),
{
    let e = escaped_all(bytes);
    if bytes.len() > 0 {
        let rest = escaped_all(bytes.skip(1));
        lemma_escaped_has_no_slash(bytes.skip(1));
        lemma_hex_pair(bytes[0], bytes[0]);
        lemma_byte_char(bytes[0], bytes[0]);
        let n = escaped(bytes[0]).len();
        assert forall|i: int| 0 <= i < e.len() implies e[i] != '/' by {
            if i >= n {
                assert(e[i] == rest[i - n]);
                assert(rest.contains(rest[i - n]));
            }
        }
    }
}

/// A cache path component is a plain name, whatever it stands for: it holds no
/// slash and is neither empty nor a dot name. Two names never share one.
pub proof fn lemma_safe_component(a: Seq<char>, b: Seq<char>)
    ensures
        !safe_component(a).contains('/'),
        safe_component(a).len() >= 2 && safe_component(a)[0] == 'c',
        safe_component(a) == safe_component(b) ==> a == b,
{
    reveal_strlit("c-");
    let ea = escaped_all(encode_utf8(a));
    let eb = escaped_all(encode_utf8(b));
    lemma_escaped_has_no_slash(encode_utf8(a));
    assert forall|i: int| 0 <= i < safe_component(a).len() implies safe_component(a)[i] != '/' by {
        if i >= 2 {
            assert(safe_component(a)[i] == ea[i - 2]);
            assert(ea.contains(ea[i - 2]));
        }
    }
    if safe_component(a) == safe_component(b) {
        assert(safe_component(a).skip(2) =~= ea);
        assert(safe_component(b).skip(2) =~= eb);
        lemma_escaped_injective(encode_utf8(a), encode_utf8(b));
        vstd::utf8::encode_utf8_decode_utf8(a);
        vstd::utf8::encode_utf8_decode_utf8(b);
    }
}

proof fn lemma_joined_same(base: Seq<char>, a: Seq<char>, b: Seq<char>)
    requires
        a.len() > 0,
        b.len() > 0,
        a[0] != '/',
        b[0] != '/',
        joined_path(base, a) == joined_path(base, b),
    ensures
        a == b,
{
    let n = joined_path(base, a).len() - a.len();
    assert(joined_path(base, a).skip(n) =~= a);
    assert(joined_path(base, b).skip(n) =~= b);
}

/// Two processes never share a cache directory, on one host or on two, and the
/// directory of a process lies directly below that of its host.
pub proof fn lemma_cache_dirs_differ(
    base: Seq<char>,
    host_a: Seq<char>,
    id_a: Seq<char>,
    host_b: Seq<char>,
    id_b: Seq<char>,
)
    ensures
        process_cache(base, host_a, id_a) == process_cache(base, host_b, id_b) ==> host_a == host_b
            && id_a == id_b,
        process_cache(base, host_a, id_a) == host_cache(base, host_a) + seq!['/'] + safe_component(
            id_a,
        ),
{
    let (ha, hb) = (host_cache(base, host_a), host_cache(base, host_b));
    let (sa, sb) = (safe_component(host_a), safe_component(host_b));
    let (pa, pb) = (safe_component(id_a), safe_component(id_b));
    lemma_safe_component(host_a, host_b);
    lemma_safe_component(host_b, host_a);
    lemma_safe_component(id_a, id_b);
    lemma_safe_component(id_b, id_a);
    assert(ha.last() == sa.last() && sa.contains(sa.last()));
    assert(hb.last() == sb.last() && sb.contains(sb.last()));
    let wa = process_cache(base, host_a, id_a);
    let wb = process_cache(base, host_b, id_b);
    assert(wa == ha + seq!['/'] + pa);
    assert(wb == hb + seq!['/'] + pb);
    if wa == wb {
        assert(wa[ha.len() as int] == '/');
        assert(wb[hb.len() as int] == '/');
        if ha.len() < hb.len() {
            let k = hb.len() - ha.len() - 1;
            assert(wa[hb.len() as int] == pa[k]);
            assert(pa.contains(pa[k]));
        } else if hb.len() < ha.len() {
            let k = ha.len() - hb.len() - 1;
            assert(wb[ha.len() as int] == pb[k]);
            assert(pb.contains(pb[k]));
        }
        assert(wa.take(ha.len() as int) =~= ha);
        assert(wb.take(hb.len() as int) =~= hb);
        assert(wa.skip(ha.len() as int + 1) =~= pa);
        assert(wb.skip(hb.len() as int + 1) =~= pb);
        lemma_joined_same(base, sa, sb);
    }
}

} // verus!
