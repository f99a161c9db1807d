//! Filling the cache of release binaries: what is downloaded, in which order,
//! and what of it is kept.

use vstd::prelude::*;

use crate::deploy::cache::{
    arch_of, asset_name, cached_name, check_download, chosen_arches, is_asset_plan,
    listed_checksum, mismatch_text, normalize_requested_arches, normalize_version, plan_asset,
    release_url, tag_of, unlisted_text, unsupported_arch_text, AssetPlan,
    SetupBinary, SetupResult, SetupStatus, RELEASE_BASE_URL,
};
use crate::error::{IoError, RemExecError};
use crate::number::{decimal, render_u64};
use crate::path::{join, joined_path};
use crate::text::{lines_of, same, views};

verus! {

/// What a cache fetch wants done next.
#[derive(Debug, Clone, Copy, PartialEq, Eq, Structural)]
pub enum FetchPhase {
    /// Download the checksums of the release.
    Sums,
    /// Create the cache directory.
    MakeStore,
    /// Hash the cached binary, where there is one.
    Look,
    /// Remove what an earlier download left under the temp name.
    Clear,
    /// Download the asset to the temp name.
    Download,
    /// Hash the download.
    Hash,
    /// Make the download executable (0755).
    Chmod,
    /// Rename the download to its place in the cache.
    Rename,
    /// Remove the download, then report.
    Discard,
    /// Nothing: there is a report.
    Finished,
}

/// What came of the last step.
#[derive(Debug)]
pub enum FetchEvent {
    /// The checksums of the release.
    Sums(Result<String, RemExecError>),
    /// An operation worked.
    Worked,
    /// A system operation failed.
    Failed(IoError),
    /// The hash of the cached binary, where there is one.
    Cached(Option<Result<String, RemExecError>>),
    /// The download failed.
    NotDownloaded(RemExecError),
    /// The hash of the download.
    Hashed(Result<String, RemExecError>),
    /// The download was removed, or could not be.
    Removed,
}

/// One filling of the cache.
#[derive(Debug)]
pub struct Fetch {
    /// The release tag.
    pub version: String,
    pub arches: Vec<String>,
    /// Where the checksums of the release are.
    pub sums_url: String,
    /// The cache directory.
    pub store: String,
    pub pid: u32,
    /// Download again what is cached already.
    pub force: bool,
    pub phase: FetchPhase,
    /// The checksums of the release.
    pub sums: String,
    /// The asset that is being fetched, and its temp name.
    pub current: Option<AssetPlan>,
    pub tmp: String,
    /// What is in the cache by now, in the order of `arches`.
    pub binaries: Vec<SetupBinary>,
    pub failure: Option<RemExecError>,
}

/// The event is one that the phase waits for.
pub open spec fn fetch_fits(phase: FetchPhase, event: FetchEvent) -> bool {
    match phase {
        FetchPhase::Sums => event is Sums,
        FetchPhase::MakeStore | FetchPhase::Clear | FetchPhase::Chmod | FetchPhase::Rename => event
            is Worked || event is Failed,
        FetchPhase::Look => event is Cached,
        FetchPhase::Download => event is Worked || event is NotDownloaded || event is Failed,
        FetchPhase::Hash => event is Hashed,
        FetchPhase::Discard => event is Removed,
        FetchPhase::Finished => false,
    }
}

/// The temp name of a download.
pub open spec fn download_name(arch: Seq<char>, version: Seq<char>, pid: u32) -> Seq<char> {
    asset_name(arch) + "-"@ + version + ".download-"@ + decimal(pid as nat)
}

/// An asset is being fetched.
pub open spec fn is_at_work(phase: FetchPhase) -> bool {
    !(phase is Sums || phase is MakeStore || phase is Finished)
}

impl Fetch {
    /// Cached binary `i` is that of architecture `i`, with the checksum that the
    /// release lists for it.
    pub open spec fn keeps(self, i: int) -> bool {
        let b = self.binaries@[i];
        let arch = self.arches@[i]@;
        &&& b.arch@ == arch
        &&& b.path@ == joined_path(self.store@, cached_name(self.version@, arch))
        &&& listed_checksum(lines_of(self.sums@), asset_name(arch)) == Some(b.sha256@)
    }

    /// What is cached is what the release lists, and the asset at work is the
    /// next one.
    pub open spec fn wf(self) -> bool {
        let at = self.binaries@.len();
        &&& at <= self.arches@.len()
        &&& forall|i: int| 0 <= i < at ==> #[trigger] self.keeps(i)
        &&& (self.phase is Sums || self.phase is MakeStore) ==> at == 0
        &&& is_at_work(self.phase) ==> {
            &&& at < self.arches@.len()
            &&& self.current matches Some(p) && is_asset_plan(
                p,
                self.sums@,
                self.version@,
                self.arches@[at as int]@,
                self.store@,
            )
            &&& self.tmp@ == joined_path(
                self.store@,
                download_name(self.arches@[at as int]@, self.version@, self.pid),
            )
        }
        &&& self.phase is Discard ==> self.failure is Some
        &&& self.failure is Some ==> self.phase is Discard || self.phase is Finished
        &&& self.phase is Finished && self.failure is None ==> at == self.arches@.len()
    }

    /// How the fetch of architecture `i` opens.
    pub open spec fn opening(self, i: int) -> FetchPhase {
        if i >= self.arches@.len() || listed_checksum(
            lines_of(self.sums@),
            asset_name(self.arches@[i]@),
        ) is None {
            FetchPhase::Finished
        } else if self.force {
            FetchPhase::Clear
        } else {
            FetchPhase::Look
        }
    }

    /// `hash` is the checksum of the asset at work.
    pub open spec fn is_right(self, hash: Seq<char>) -> bool {
        self.current matches Some(p) && hash == p.expected@
    }

    /// The event puts the asset at work into the cache, or finds it there.
    pub open spec fn settles(self, event: FetchEvent) -> bool {
        match (self.phase, event) {
            (FetchPhase::Look, FetchEvent::Cached(Some(Ok(h)))) => self.is_right(h@),
            (FetchPhase::Rename, FetchEvent::Worked) => true,
            _ => false,
        }
    }

    /// The architecture that is opened next.
    pub open spec fn following(self) -> int {
        if self.phase is MakeStore {
            0
        } else {
            self.binaries@.len() as int + 1
        }
    }
}

/// The phase after an event. A download that does not hash to what the release
/// lists leads to its removal.
pub open spec fn fetch_next(f: Fetch, event: FetchEvent) -> FetchPhase {
    match (f.phase, event) {
        (FetchPhase::Sums, FetchEvent::Sums(Ok(_))) => FetchPhase::MakeStore,
        (FetchPhase::MakeStore, FetchEvent::Worked) => f.opening(f.following()),
        (FetchPhase::Look, FetchEvent::Cached(None)) => FetchPhase::Clear,
        (FetchPhase::Look, FetchEvent::Cached(Some(Ok(h)))) => if f.is_right(h@) {
            f.opening(f.following())
        } else {
            FetchPhase::Clear
        },
        (FetchPhase::Clear, FetchEvent::Worked) => FetchPhase::Download,
        (FetchPhase::Download, FetchEvent::Worked) => FetchPhase::Hash,
        (FetchPhase::Hash, FetchEvent::Hashed(Ok(h))) => if f.is_right(h@) {
            FetchPhase::Chmod
        } else {
            FetchPhase::Discard
        },
        (FetchPhase::Chmod, FetchEvent::Worked) => FetchPhase::Rename,
        (FetchPhase::Rename, FetchEvent::Worked) => f.opening(f.following()),
        _ => FetchPhase::Finished,
    }
}

/// The event completes the fetch.
pub open spec fn completes(f: Fetch, event: FetchEvent) -> bool {
    (f.settles(event) || (f.phase is MakeStore && event is Worked)) && f.following()
        >= f.arches@.len()
}

/// `e` is what is reported when this event ends the good path of `f`.
pub open spec fn is_fetch_failure(f: Fetch, event: FetchEvent, e: RemExecError) -> bool {
    match event {
        FetchEvent::Sums(Err(x)) => e == x,
        FetchEvent::Failed(x) => e == RemExecError::Io(x),
        FetchEvent::Cached(Some(Err(x))) => e == x,
        FetchEvent::NotDownloaded(x) => e == x,
        FetchEvent::Hashed(Err(x)) => e == x,
        FetchEvent::Hashed(Ok(h)) => e matches RemExecError::Other(m) && m@ == mismatch_text(
            f.current->0.asset@,
            f.current->0.expected@,
            h@,
        ),
        _ => e matches RemExecError::Other(m) && m@ == unlisted_text(
            f.version@,
            asset_name(f.arches@[f.following()]@),
        ),
    }
}

/// What an event does to a fetch.
pub open spec fn fetched(f0: Fetch, event: FetchEvent, f1: Fetch) -> bool {
    &&& f1.version == f0.version && f1.arches == f0.arches && f1.sums_url == f0.sums_url
    &&& f1.store == f0.store && f1.pid == f0.pid && f1.force == f0.force
    &&& f1.sums == match event {
        FetchEvent::Sums(Ok(t)) => t,
        _ => f0.sums,
    }
    &&& f1.phase == fetch_next(f0, event)
    &&& if f0.settles(event) {
        &&& f1.binaries@.len() == f0.binaries@.len() + 1
        &&& f1.binaries@.drop_last() == f0.binaries@
        &&& f1.binaries@.last().status == if f0.phase is Rename {
            SetupStatus::Installed
        } else {
            SetupStatus::Cached
        }
    } else {
        f1.binaries == f0.binaries
    }
    &&& if f0.phase is Discard {
        f1.failure == f0.failure
    } else if f1.phase is Discard || (f1.phase is Finished && !completes(f0, event)) {
        f1.failure matches Some(e) && is_fetch_failure(f0, event, e)
    } else {
        f1.failure is None
    }
}

/// Plan a cache fetch: the tag, the architectures, and where the checksums are.
/// An architecture that is not supported ends it before anything is downloaded.
pub fn setup_release_binaries(
    version: Option<&str>,
    requested: &[String],
    force: bool,
    store: &str,
    pid: u32,
) -> (r: Result<Fetch, RemExecError>)
    ensures
        r is Ok <==> forall|i: int|
            0 <= i < requested@.len() ==> arch_of(#[trigger] requested@[i]@) is Some,
        r matches Ok(f) ==> f.wf() && f.phase is Sums && f.failure is None && f.version@ == tag_of(
            version,
        ) && f.sums_url@ == RELEASE_BASE_URL@ + "/"@ + tag_of(version) + "/"@ + "SHA256SUMS"@
            && f.store@ == store@ && f.pid == pid && f.force == force && views(f.arches@)
            == chosen_arches(views(requested@)),
        r matches Err(e) ==> exists|i: int|
            0 <= i < requested@.len() && arch_of(#[trigger] requested@[i]@) is None && (forall|
                j: int,
            |
                0 <= j < i ==> arch_of(#[trigger] requested@[j]@) is Some) && (e
                matches RemExecError::Other(m) && m@ == unsupported_arch_text(requested@[i]@)),
{
    let tag = normalize_version(version);
    match normalize_requested_arches(requested) {
        Err(e) => Err(e),
        Ok(arches) => {
            let sums_url = release_url(tag.as_str(), "SHA256SUMS");
            Ok(
                Fetch {
                    version: tag,
                    arches,
                    sums_url,
                    store: store.to_owned(),
                    pid,
                    force,
                    phase: FetchPhase::Sums,
                    sums: String::new(),
                    current: None,
                    tmp: String::new(),
                    binaries: Vec::new(),
                    failure: None,
                },
            )
        },
    }
}

/// `f1` is `f0` with the fetch of the next architecture opened.
spec fn opened(f0: Fetch, f1: Fetch) -> bool {
    let at = f0.binaries@.len() as int;
    &&& f1.version == f0.version && f1.arches == f0.arches && f1.sums_url == f0.sums_url
    &&& f1.store == f0.store && f1.pid == f0.pid && f1.force == f0.force
    &&& f1.sums == f0.sums && f1.binaries == f0.binaries
    &&& f1.phase == f0.opening(at)
    &&& if f1.phase is Finished && at < f0.arches@.len() {
        f1.failure matches Some(RemExecError::Other(m)) && m@ == unlisted_text(
            f0.version@,
            asset_name(f0.arches@[at]@),
        )
    } else {
        f1.failure is None
    }
}

impl Fetch {
    fn fail(&mut self, phase: FetchPhase, e: RemExecError)
        ensures
            *final(self) == (Fetch { phase, failure: Some(e), ..*old(self) }),
    {
        self.phase = phase;
        self.failure = Some(e);
    }

    /// Open the fetch of the next architecture, or finish.
    fn open(&mut self)
        requires
            old(self).binaries@.len() <= old(self).arches@.len(),
            forall|i: int|
                0 <= i < old(self).binaries@.len() ==> #[trigger] old(self).keeps(i),
            old(self).failure is None,
        ensures
            final(self).wf(),
            opened(*old(self), *final(self)),
    {
        let ghost before = *self;
        let at: usize = self.binaries.len();
        if at >= self.arches.len() {
            self.phase = FetchPhase::Finished;
        } else {
            let arch = self.arches[at].as_str();
            match plan_asset(
                self.sums.as_str(),
                self.version.as_str(),
                arch,
                self.store.as_str(),
            ) {
                Err(e) => {
                    self.fail(FetchPhase::Finished, e);
                },
                Ok(plan) => {
                    let mut name = plan.asset.clone();
                    name.append("-");
                    name.append(self.version.as_str());
                    name.append(".download-");
                    name.append(render_u64(self.pid as u64).as_str());
                    self.tmp = join(self.store.as_str(), name.as_str());
                    self.current = Some(plan);
                    self.phase = if self.force {
                        FetchPhase::Clear
                    } else {
                        FetchPhase::Look
                    };
                },
            }
        }
        assert forall|i: int| 0 <= i < self.binaries@.len() implies #[trigger] self.keeps(i) by {
            assert(before.keeps(i));
        }
    }

    /// Record the asset at work as cached, and open the next one.
    fn settle(&mut self, status: SetupStatus)
        requires
            old(self).wf(),
            is_at_work(old(self).phase),
            old(self).failure is None,
        ensures
            final(self).wf(),
            exists|mid: Fetch| #[trigger]
                opened(mid, *final(self)) && mid.binaries@.len() == old(self).binaries@.len() + 1
                    && mid.binaries@.drop_last() == old(self).binaries@
                    && mid.binaries@.last().status == status && mid == (Fetch {
                    binaries: mid.binaries,
                    current: mid.current,
                    ..*old(self)
                }),
    {
        let ghost before = *self;
        let at: usize = self.binaries.len();
        let arch = self.arches[at].clone();
        match self.current.take() {
            None => {},
            Some(p) => {
                self.binaries.push(SetupBinary { arch, path: p.dest, sha256: p.expected, status });
            },
        }
        let ghost mid = *self;
        assert forall|i: int| 0 <= i < self.binaries@.len() implies #[trigger] self.keeps(i) by {
            if i < at {
                assert(before.keeps(i));
            }
        }
        assert(mid.binaries@.drop_last() =~= before.binaries@);
        self.open();
        assert(opened(mid, *self));
    }

    /// One step of filling the cache: checksums, directory, then for each
    /// architecture look, download, hash, mode, rename. A binary only ever
    /// appears in the cache with the checksum that the release lists for it.
    pub fn step(&mut self, event: FetchEvent)
        requires
            old(self).wf(),
            fetch_fits(old(self).phase, event),
        ensures
            final(self).wf(),
            fetched(*old(self), event, *final(self)),
    {
        let ghost before = *self;
        match event {
            FetchEvent::Sums(Ok(t)) => {
                self.sums = t;
                self.phase = FetchPhase::MakeStore;
            },
            FetchEvent::Sums(Err(e)) => {
                self.fail(FetchPhase::Finished, e);
            },
            FetchEvent::Failed(e) => {
                self.fail(FetchPhase::Finished, RemExecError::Io(e));
            },
            FetchEvent::NotDownloaded(e) => {
                self.fail(FetchPhase::Finished, e);
            },
            FetchEvent::Worked => match self.phase {
                FetchPhase::MakeStore => {
                    self.open();
                },
                FetchPhase::Clear => {
                    self.phase = FetchPhase::Download;
                },
                FetchPhase::Download => {
                    self.phase = FetchPhase::Hash;
                },
                FetchPhase::Chmod => {
                    self.phase = FetchPhase::Rename;
                },
                _ => {
                    self.settle(SetupStatus::Installed);
                },
            },
            FetchEvent::Cached(None) => {
                self.phase = FetchPhase::Clear;
            },
            FetchEvent::Cached(Some(Err(e))) => {
                self.fail(FetchPhase::Finished, e);
            },
            FetchEvent::Cached(Some(Ok(hash))) => {
                let right: bool = match &self.current {
                    Some(p) => same(hash.as_str(), p.expected.as_str()),
                    None => false,
                };
                if right {
                    self.settle(SetupStatus::Cached);
                } else {
                    self.phase = FetchPhase::Clear;
                }
            },
            FetchEvent::Hashed(Err(e)) => {
                self.fail(FetchPhase::Finished, e);
            },
            FetchEvent::Hashed(Ok(hash)) => {
                let checked = match &self.current {
                    Some(p) => check_download(
                        p.asset.as_str(),
                        p.expected.as_str(),
                        hash.as_str(),
                    ),
                    None => Ok(()),
                };
                match checked {
                    Ok(()) => {
                        self.phase = FetchPhase::Chmod;
                    },
                    Err(e) => {
                        self.fail(FetchPhase::Discard, e);
                    },
                }
            },
            FetchEvent::Removed => {
                self.phase = FetchPhase::Finished;
            },
        }
        assert forall|i: int| 0 <= i < before.binaries@.len() implies #[trigger] self.keeps(i) by {
            assert(before.keeps(i));
        }
    }

    /// The report of a finished fetch.
    pub fn report(self) -> (r: Result<SetupResult, RemExecError>)
        requires
            self.wf(),
            self.phase is Finished,
        ensures
            match self.failure {
                Some(e) => r == Err::<SetupResult, RemExecError>(e),
                None => r == Ok::<SetupResult, RemExecError>(
                    SetupResult { version: self.version, binaries: self.binaries },
                ),
            },
    {
        match self.failure {
            Some(e) => Err(e),
            None => Ok(SetupResult { version: self.version, binaries: self.binaries }),
        }
    }
}

/// A fetch takes its course: a binary that is cached with the right checksum is not
/// downloaded again unless that was asked for, any other is; what was downloaded is
/// hashed, and what hashes right is made executable and put into its place.
pub proof fn lemma_fetch_takes_its_course(f: Fetch, hash: String, sums: String, i: int)
    requires
        0 <= i < f.arches@.len(),
        listed_checksum(lines_of(f.sums@), asset_name(f.arches@[i]@)) is Some,
    ensures
        f.phase is Sums ==> fetch_next(f, FetchEvent::Sums(Ok(sums))) is MakeStore,
        f.force ==> f.opening(i) is Clear,
        !f.force ==> f.opening(i) is Look,
        f.phase is Look ==> fetch_next(f, FetchEvent::Cached(None)) is Clear,
        f.phase is Look && (f.current matches Some(p) && p.expected@ != hash@) ==> fetch_next(
            f,
            FetchEvent::Cached(Some(Ok(hash))),
        ) is Clear,
        f.phase is Look && (f.current matches Some(p) && p.expected@ == hash@) ==> f.settles(
            FetchEvent::Cached(Some(Ok(hash))),
        ),
        f.phase is Clear ==> fetch_next(f, FetchEvent::Worked) is Download,
        f.phase is Download ==> fetch_next(f, FetchEvent::Worked) is Hash,
        f.phase is Hash && (f.current matches Some(p) && p.expected@ == hash@) ==> fetch_next(
            f,
            FetchEvent::Hashed(Ok(hash)),
        ) is Chmod,
        f.phase is Hash && (f.current matches Some(p) && p.expected@ != hash@) ==> fetch_next(
            f,
            FetchEvent::Hashed(Ok(hash)),
        ) is Discard,
        f.phase is Chmod ==> fetch_next(f, FetchEvent::Worked) is Rename,
        f.phase is Rename ==> f.settles(FetchEvent::Worked),
        f.phase is Rename && f.binaries@.len() + 1 == i ==> fetch_next(f, FetchEvent::Worked)
            == f.opening(i),
{
}

/// Nothing is fetched that the release does not list, and nothing beyond what was asked
/// for.
pub proof fn lemma_only_listed_assets_are_fetched(f: Fetch, i: int)
    ensures
        i >= f.arches@.len() ==> f.opening(i) is Finished,
        0 <= i < f.arches@.len() && listed_checksum(
            lines_of(f.sums@),
            asset_name(f.arches@[i]@),
        ) is None ==> f.opening(i) is Finished,
        f.opening(i) !is Finished ==> i < f.arches@.len() && listed_checksum(
            lines_of(f.sums@),
            asset_name(f.arches@[i]@),
        ) is Some,
{
}

/// What ends a fetch early is reported as it came; a download that hashes wrong with
/// both checksums, and an asset that is not listed with its name.
pub proof fn lemma_fetch_failure_is_passed_on(f: Fetch, event: FetchEvent, e: RemExecError)
    requires
        is_fetch_failure(f, event, e),
    ensures
        event matches FetchEvent::Sums(Err(x)) ==> e == x,
        event matches FetchEvent::Failed(x) ==> e == RemExecError::Io(x),
        event matches FetchEvent::Cached(Some(Err(x))) ==> e == x,
        event matches FetchEvent::NotDownloaded(x) ==> e == x,
        event matches FetchEvent::Hashed(Err(x)) ==> e == x,
        event matches FetchEvent::Hashed(Ok(h)) ==> (e matches RemExecError::Other(m)
            && crate::text::contains_text(m@, "got "@ + h@) && crate::text::contains_text(
            m@,
            "expected "@ + f.current->0.expected@,
        )),
        event is Worked ==> (e matches RemExecError::Other(m) && crate::text::contains_text(
            m@,
            asset_name(f.arches@[f.following()]@),
        )),
{
    if let FetchEvent::Hashed(Ok(h)) = event {
        crate::deploy::cache::lemma_mismatch_tells_both(
            f.current->0.asset@,
            f.current->0.expected@,
            h@,
        );
    }
    if event is Worked {
        let name = asset_name(f.arches@[f.following()]@);
        let a = "SHA256SUMS for "@ + f.version@ + " does not contain checksum for "@;
        let none = Seq::<char>::empty();
        assert(a + name =~= a + name + none);
        crate::text::lemma_part_occurs(a, name, none);
    }
}

/// A download is kept only where it hashes to what the release lists: a rename
/// follows only on a mode that was set, that only on a hash that is right, and
/// nothing counts as installed without the rename.
pub proof fn lemma_only_a_verified_download_is_kept(f0: Fetch, event: FetchEvent, f1: Fetch)
    requires
        f0.wf(),
        fetch_fits(f0.phase, event),
        fetched(f0, event, f1),
        f1.wf(),
    ensures
        f1.phase is Rename ==> f0.phase is Chmod && event is Worked,
        f1.phase is Chmod ==> f0.phase is Hash && (event matches FetchEvent::Hashed(Ok(h))
            && listed_checksum(
            lines_of(f0.sums@),
            asset_name(f0.arches@[f0.binaries@.len() as int]@),
        ) == Some(h@)),
        f1.binaries@.len() > f0.binaries@.len() ==> (if f1.binaries@.last().status is Installed {
            f0.phase is Rename
        } else {
            f0.phase is Look && (event matches FetchEvent::Cached(Some(Ok(h))) && h@
                == f1.binaries@.last().sha256@)
        }),
{
    if f1.binaries@.len() > f0.binaries@.len() {
        assert(f1.keeps(f0.binaries@.len() as int));
    }
}

/// A fetch that reports success has every architecture that was asked for, each
/// with the checksum that the release lists for it.
pub proof fn lemma_finished_fetch_is_complete(f: Fetch, i: int)
    requires
        f.wf(),
        f.phase is Finished,
        f.failure is None,
        0 <= i < f.arches@.len(),
    ensures
        f.binaries@.len() == f.arches@.len(),
        f.binaries@[i].arch@ == f.arches@[i]@,
        listed_checksum(lines_of(f.sums@), asset_name(f.arches@[i]@)) == Some(
            f.binaries@[i].sha256@,
        ),
{
    assert(f.keeps(i));
}

} // verus!
