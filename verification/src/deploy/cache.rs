//! Release binaries: which architectures there are, where their binaries are
//! cached, and which downloads are kept.

use vstd::prelude::*;

use crate::deploy::{own_tag, own_version};
use crate::error::{labelled, RemExecError};
use crate::path::{join, joined_path};
use crate::ssh::{push_arg, SshOutput};
use crate::text::{
    contains, contains_text, from_utf8_lossy, lines, lines_of, lossy_text, same, split_whitespace,
    starts_with, trim, trimmed, views, words_of,
};

verus! {

/// Where release assets are downloaded from.
pub const RELEASE_BASE_URL: &'static str = "https://github.com/kwinsch/rem-exec/releases/download";

// ---------------------------------------------------------------------------
// Architectures
// ---------------------------------------------------------------------------

/// The release architecture for a machine name. 32-bit ARM is ARMv7 hard-float;
/// an armv6 machine cannot run such a binary, so it has none.
pub open spec fn arch_of(raw: Seq<char>) -> Option<Seq<char>> {
    if raw == "x86_64"@ || raw == "amd64"@ {
        Some("x86_64"@)
    } else if raw == "aarch64"@ || raw == "arm64"@ {
        Some("aarch64"@)
    } else if raw == "riscv64"@ || raw == "riscv64gc"@ {
        Some("riscv64"@)
    } else if raw == "armv7"@ || raw == "armv7l"@ || raw == "arm"@ || raw == "armhf"@ {
        Some("armv7"@)
    } else {
        None
    }
}

/// A release architecture is its own name, and each of the names that machines have
/// for it stands for it; every one is supported.
pub proof fn lemma_arch_is_its_own_name(raw: Seq<char>)
    ensures
        arch_of(raw) matches Some(a) ==> arch_of(a) == Some(a) && supported_arches().contains(a),
        forall|i: int|
            0 <= i < supported_arches().len() ==> arch_of(#[trigger] supported_arches()[i]) == Some(
                supported_arches()[i],
            ),
        arch_of("amd64"@) == arch_of("x86_64"@),
        arch_of("arm64"@) == arch_of("aarch64"@),
        arch_of("riscv64gc"@) == arch_of("riscv64"@),
        arch_of("armv7l"@) == arch_of("armv7"@),
        arch_of("arm"@) == arch_of("armv7"@),
        arch_of("armhf"@) == arch_of("armv7"@),
{
    reveal_strlit("x86_64");
    reveal_strlit("amd64");
    reveal_strlit("aarch64");
    reveal_strlit("arm64");
    reveal_strlit("riscv64");
    reveal_strlit("riscv64gc");
    reveal_strlit("armv7");
    reveal_strlit("armv7l");
    reveal_strlit("arm");
    reveal_strlit("armhf");
    assert("x86_64"@[0] == 'x' && "amd64"@[0] == 'a' && "amd64"@[1] == 'm');
    assert("aarch64"@[0] == 'a' && "aarch64"@[1] == 'a' && "arm64"@[1] == 'r' && "arm64"@[3]
        == '6' && "arm64"@[0] == 'a');
    assert("riscv64"@[0] == 'r' && "riscv64gc"@[0] == 'r');
    assert("armv7"@[0] == 'a' && "armv7"@[1] == 'r' && "armv7"@[3] == 'v');
    assert("armv7l"@[0] == 'a' && "armv7l"@[1] == 'r');
    assert("arm"@[0] == 'a' && "arm"@[1] == 'r' && "arm"@.len() == 3);
    assert("armhf"@[0] == 'a' && "armhf"@[1] == 'r' && "armhf"@[3] == 'h');
    let s = supported_arches();
    assert(s[0] == "x86_64"@ && s[1] == "aarch64"@ && s[2] == "riscv64"@ && s[3] == "armv7"@);
}

/// The release architecture for a machine name.
pub fn normalize_arch(raw: &str) -> (r: Option<&'static str>)
    ensures
        match arch_of(raw@) {
            Some(a) => r matches Some(s) && s@ == a,
            None => r is None,
        },
{
    if same(raw, "x86_64") || same(raw, "amd64") {
        Some("x86_64")
    } else if same(raw, "aarch64") || same(raw, "arm64") {
        Some("aarch64")
    } else if same(raw, "riscv64") || same(raw, "riscv64gc") {
        Some("riscv64")
    } else if same(raw, "armv7") || same(raw, "armv7l") || same(raw, "arm") || same(raw, "armhf") {
        Some("armv7")
    } else {
        None
    }
}

/// The architectures that releases are built for.
pub open spec fn supported_arches() -> Seq<Seq<char>> {
    seq!["x86_64"@, "aarch64"@, "riscv64"@, "armv7"@]
}

/// The architectures that are asked for, each once, in the order in which they
/// first come up.
pub open spec fn distinct_arches(requested: Seq<Seq<char>>) -> Seq<Seq<char>>
    decreases requested.len(),
{
    if requested.len() == 0 {
        Seq::empty()
    } else {
        let front = distinct_arches(requested.drop_last());
        let arch = arch_of(requested.last())->0;
        if front.contains(arch) {
            front
        } else {
            front.push(arch)
        }
    }
}

/// The architectures to cache: all of them where none is asked for.
pub open spec fn chosen_arches(requested: Seq<Seq<char>>) -> Seq<Seq<char>> {
    if requested.len() == 0 {
        supported_arches()
    } else {
        distinct_arches(requested)
    }
}

/// Where none is asked for, every supported architecture is cached; where some are,
/// those and no others, each once.
pub proof fn lemma_chosen_arches(requested: Seq<Seq<char>>, a: Seq<char>)
    requires
        forall|j: int| 0 <= j < requested.len() ==> arch_of(#[trigger] requested[j]) is Some,
    ensures
        requested.len() == 0 ==> (chosen_arches(requested).contains(a) <==> supported_arches().contains(
            a,
        )),
        requested.len() > 0 ==> (chosen_arches(requested).contains(a) <==> exists|j: int|
            0 <= j < requested.len() && arch_of(#[trigger] requested[j]) == Some(a)),
        requested.len() > 0 ==> chosen_arches(requested).no_duplicates(),
{
    lemma_distinct_arches(requested);
    if requested.len() > 0 {
        let all = distinct_arches(requested);
        if all.contains(a) {
            let k = choose|k: int| 0 <= k < all.len() && all[k] == a;
            lemma_requested_arches_are_there(requested, 0, k);
        }
        if exists|j: int| 0 <= j < requested.len() && arch_of(#[trigger] requested[j]) == Some(a) {
            let j = choose|j: int|
                0 <= j < requested.len() && arch_of(#[trigger] requested[j]) == Some(a);
            lemma_requested_arches_are_there(requested, j, 0);
        }
    }
}

fn holds(list: &Vec<String>, item: &str) -> (r: bool)
    ensures
        r == views(list@).contains(item@),
{
    let mut i: usize = 0;
    let ghost all = views(list@);
    while i < list.len()
        invariant
            i <= list@.len(),
            all == views(list@),
            forall|k: int| 0 <= k < i ==> #[trigger] all[k] != item@,
        decreases list@.len() - i,
    {
        if same(list[i].as_str(), item) {
            assert(all[i as int] == item@);
            return true;
        }
        assert(all[i as int] != item@);
        i += 1;
    }
    false
}

/// The message for an architecture that no release is built for.
pub open spec fn unsupported_arch_text(raw: Seq<char>) -> Seq<char> {
    "unsupported architecture "@ + raw + "; supported: x86_64, aarch64, riscv64, armv7"@
}

/// The architectures to cache: all of them where none is asked for, else those
/// asked for, each once. The first one that is not supported is the error.
pub fn normalize_requested_arches(requested: &[String]) -> (r: Result<Vec<String>, RemExecError>)
    ensures
        r is Ok <==> forall|i: int|
            0 <= i < requested@.len() ==> arch_of(#[trigger] requested@[i]@) is Some,
        r matches Ok(v) ==> views(v@) == chosen_arches(views(requested@)),
        r matches Err(e) ==> exists|i: int|
            0 <= i < requested@.len() && arch_of(#[trigger] requested@[i]@) is None && (forall|
                j: int,
            |
                0 <= j < i ==> arch_of(#[trigger] requested@[j]@) is Some) && (e
                matches RemExecError::Other(m) && m@ == unsupported_arch_text(requested@[i]@)),
{
    let mut arches: Vec<String> = Vec::new();
    if requested.len() == 0 {
        push_arg(&mut arches, "x86_64");
        push_arg(&mut arches, "aarch64");
        push_arg(&mut arches, "riscv64");
        push_arg(&mut arches, "armv7");
        assert(views(arches@) =~= supported_arches());
        return Ok(arches);
    }
    let ghost all = views(requested@);
    let mut i: usize = 0;
    assert(all.take(0) =~= Seq::<Seq<char>>::empty());
    assert(views(arches@) =~= Seq::<Seq<char>>::empty());
    while i < requested.len()
        invariant
            i <= requested@.len(),
            all == views(requested@),
            views(arches@) == distinct_arches(all.take(i as int)),
            forall|j: int| 0 <= j < i ==> arch_of(#[trigger] requested@[j]@) is Some,
        decreases requested@.len() - i,
    {
        match normalize_arch(requested[i].as_str()) {
            None => {
                let mut m = labelled("unsupported architecture ", requested[i].as_str());
                m.append("; supported: x86_64, aarch64, riscv64, armv7");
                assert(arch_of(requested@[i as int]@) is None);
                return Err(RemExecError::Other(m));
            },
            Some(arch) => {
                proof {
                    assert(all.take(i + 1).drop_last() =~= all.take(i as int));
                    assert(all.take(i + 1).last() == requested@[i as int]@);
                }
                if !holds(&arches, arch) {
                    push_arg(&mut arches, arch);
                }
            },
        }
        i += 1;
    }
    assert(all.take(i as int) =~= all);
    Ok(arches)
}

/// No architecture is cached twice.
pub proof fn lemma_distinct_arches(requested: Seq<Seq<char>>)
    ensures
        distinct_arches(requested).no_duplicates(),
    decreases requested.len(),
{
    if requested.len() > 0 {
        lemma_distinct_arches(requested.drop_last());
    }
}

/// Every architecture that was asked for is there, and none that was not.
pub proof fn lemma_requested_arches_are_there(requested: Seq<Seq<char>>, i: int, k: int)
    requires
        forall|j: int| 0 <= j < requested.len() ==> arch_of(#[trigger] requested[j]) is Some,
    ensures
        0 <= i < requested.len() ==> distinct_arches(requested).contains(arch_of(requested[i])->0),
        0 <= k < distinct_arches(requested).len() ==> exists|j: int|
            0 <= j < requested.len() && arch_of(#[trigger] requested[j]) == Some(
                distinct_arches(requested)[k],
            ),
    decreases requested.len(),
{
    if requested.len() > 0 {
        let shorter = requested.drop_last();
        let n = requested.len() - 1;
        let front = distinct_arches(shorter);
        let all = distinct_arches(requested);
        let arch = arch_of(requested[n])->0;
        assert forall|j: int| 0 <= j < shorter.len() implies arch_of(
            #[trigger] shorter[j],
        ) is Some by {
            assert(shorter[j] == requested[j]);
        }
        lemma_requested_arches_are_there(shorter, i, k);
        if 0 <= i < n {
            assert(shorter[i] == requested[i]);
            let at = choose|at: int| 0 <= at < front.len() && front[at] == arch_of(requested[i])->0;
            assert(all[at] == front[at]);
        } else if i == n {
            if !front.contains(arch) {
                assert(all.last() == arch);
            }
        }
        if 0 <= k < front.len() {
            assert(all[k] == front[k]);
            let j = choose|j: int|
                0 <= j < shorter.len() && arch_of(#[trigger] shorter[j]) == Some(front[k]);
            assert(requested[j] == shorter[j]);
        } else if 0 <= k < all.len() {
            assert(arch_of(requested[n]) == Some(all[k]));
        }
    }
}

/// `r` is what the output of `uname -m` on a host comes to.
pub open spec fn is_detected(
    r: Result<String, RemExecError>,
    host: Seq<char>,
    output: SshOutput,
) -> bool {
    if !output.success {
        r matches Err(RemExecError::Ssh(m)) && m@ == "failed to detect arch on "@ + host + ": "@
            + lossy_text(output.stderr@)
    } else {
        let raw = trimmed(lossy_text(output.stdout@));
        match arch_of(raw) {
            Some(arch) => r matches Ok(s) && s@ == arch,
            None => r matches Err(RemExecError::Other(m)) && m@ == "unsupported architecture on "@
                + host + ": "@ + raw,
        }
    }
}

/// An architecture is detected only where the host said its machine name, and it is
/// then one that releases are built for; a host that said nothing is SSH's failure.
pub proof fn lemma_arch_is_detected(
    r: Result<String, RemExecError>,
    host: Seq<char>,
    output: SshOutput,
)
    requires
        is_detected(r, host, output),
    ensures
        r matches Ok(a) ==> output.success && arch_of(trimmed(lossy_text(output.stdout@))) == Some(
            a@,
        ) && supported_arches().contains(a@),
        r matches Err(e) ==> (e is Ssh <==> !output.success),
        output.success && arch_of(trimmed(lossy_text(output.stdout@))) is Some ==> r is Ok,
{
    if output.success {
        lemma_arch_is_its_own_name(trimmed(lossy_text(output.stdout@)));
    }
}

/// The remote's architecture, from the output of `uname -m` there.
pub fn detect_arch(host: &str, output: &SshOutput) -> (r: Result<String, RemExecError>)
    ensures
        is_detected(r, host@, *output),
{
    if !output.success {
        let mut m = labelled("failed to detect arch on ", host);
        m.append(": ");
        m.append(from_utf8_lossy(&output.stderr).as_str());
        return Err(RemExecError::Ssh(m));
    }
    let raw = trim(from_utf8_lossy(&output.stdout).as_str());
    match normalize_arch(raw.as_str()) {
        Some(arch) => Ok(arch.to_owned()),
        None => {
            let mut m = labelled("unsupported architecture on ", host);
            m.append(": ");
            m.append(raw.as_str());
            Err(RemExecError::Other(m))
        },
    }
}

// ---------------------------------------------------------------------------
// The cache of release binaries
// ---------------------------------------------------------------------------

/// The local directory where release binaries are stored, below the home
/// directory.
pub fn binary_store_dir(home: Option<&str>) -> (r: String)
    ensures
        r@ == joined_path(
            match home {
                Some(h) => h@,
                None => "/root"@,
            },
            ".local/share/rem-exec/bin"@,
        ),
{
    match home {
        Some(h) => join(h, ".local/share/rem-exec/bin"),
        None => join("/root", ".local/share/rem-exec/bin"),
    }
}

/// The name of a cached release asset.
pub open spec fn cached_name(version: Seq<char>, arch: Seq<char>) -> Seq<char> {
    "rxd-"@ + version + "-"@ + arch
}

/// Path a cached release asset lives at. The version is part of the name so an
/// upgraded rx can never deploy the previous rx's binary.
pub fn cached_binary_path(store: &str, version: &str, arch: &str) -> (r: String)
    ensures
        r@ == joined_path(store@, cached_name(version@, arch@)),
{
    let mut name = labelled("rxd-", version);
    name.append("-");
    name.append(arch);
    join(store, name.as_str())
}

/// Binaries of different versions never share a path.
pub proof fn lemma_cache_is_keyed_by_version(
    store: Seq<char>,
    v1: Seq<char>,
    v2: Seq<char>,
    arch: Seq<char>,
)
    requires
        v1 != v2,
    ensures
        joined_path(store, cached_name(v1, arch)) != joined_path(store, cached_name(v2, arch)),
{
    reveal_strlit("rxd-");
    reveal_strlit("-");
    let n1 = cached_name(v1, arch);
    let n2 = cached_name(v2, arch);
    assert(n1[0] == 'r' && n2[0] == 'r');
    let p1 = joined_path(store, n1);
    let p2 = joined_path(store, n2);
    if p1 == p2 {
        let k = p1.len() - n1.len();
        assert(k == p2.len() - n2.len());
        assert(n1 =~= p1.skip(k));
        assert(n2 =~= p2.skip(k));
        assert(v1 =~= n1.subrange(4, (4 + v1.len()) as int));
        assert(v2 =~= n2.subrange(4, (4 + v2.len()) as int));
        assert(v1 == v2);
    }
}

/// A release version as a tag: with a `v` in front, this build's where none is
/// given.
pub open spec fn tag_of(version: Option<&str>) -> Seq<char> {
    match version {
        Some(v) => if v@.len() > 0 && v@[0] == 'v' {
            v@
        } else {
            "v"@ + v@
        },
        None => own_tag(),
    }
}

/// A tag has a `v` in front, and a version and its tag name the same release.
pub proof fn lemma_version_and_tag(version: &str, tag: &str)
    requires
        tag@ == seq!['v'] + version@,
    ensures
        tag_of(Some(tag)) == tag@,
        !(version@.len() > 0 && version@[0] == 'v') ==> tag_of(Some(version)) == tag@,
        tag_of(Some(version)).len() > 0 && tag_of(Some(version))[0] == 'v',
        tag_of(None) == seq!['v'] + crate::deploy::VERSION@,
{
    reveal_strlit("v");
    assert("v"@ =~= seq!['v']);
}

/// A release version as a tag.
pub fn normalize_version(version: Option<&str>) -> (r: String)
    ensures
        r@ == tag_of(version),
{
    proof {
        reveal_strlit("v");
    }
    match version {
        Some(v) => {
            if starts_with(v, "v") {
                assert(v@.take(1)[0] == "v"@[0]);
                v.to_owned()
            } else {
                proof {
                    if v@.len() > 0 && v@[0] == 'v' {
                        assert(v@.take(1) =~= "v"@);
                    }
                }
                labelled("v", v)
            }
        },
        None => own_version(),
    }
}

/// The download address of a release asset.
pub fn release_url(version: &str, asset: &str) -> (r: String)
    ensures
        r@ == RELEASE_BASE_URL@ + "/"@ + version@ + "/"@ + asset@,
{
    let mut u = labelled(RELEASE_BASE_URL, "/");
    u.append(version);
    u.append("/");
    u.append(asset);
    u
}

/// The checksum that one line of `SHA256SUMS` gives for `asset`: its first word,
/// where its second is the name.
pub open spec fn line_checksum(line: Seq<char>, asset: Seq<char>) -> Option<Seq<char>> {
    let w = words_of(line);
    if w.len() >= 2 && w[1] == asset {
        Some(w[0])
    } else {
        None
    }
}

/// The checksum that the first of these lines with one gives for `asset`.
pub open spec fn listed_checksum(lines: Seq<Seq<char>>, asset: Seq<char>) -> Option<Seq<char>>
    decreases lines.len(),
{
    if lines.len() == 0 {
        None
    } else if line_checksum(lines[0], asset) is Some {
        line_checksum(lines[0], asset)
    } else {
        listed_checksum(lines.skip(1), asset)
    }
}

/// A checksum is the one that stands in front of the asset's name on the first line
/// that names the asset; lines that name others do not matter, and an asset that no
/// line names has none.
pub proof fn lemma_checksum_is_found(
    lines: Seq<Seq<char>>,
    hash: Seq<char>,
    asset: Seq<char>,
    other: Seq<char>,
)
    requires
        hash.len() > 0 && asset.len() > 0,
        forall|i: int| 0 <= i < hash.len() ==> !crate::text::is_white(#[trigger] hash[i]),
        forall|i: int| 0 <= i < asset.len() ==> !crate::text::is_white(#[trigger] asset[i]),
    ensures
        listed_checksum(seq![hash + seq![' ', ' '] + asset] + lines, asset) == Some(hash),
        line_checksum(other, asset) is None ==> listed_checksum(seq![other] + lines, asset)
            == listed_checksum(lines, asset),
        asset != other ==> line_checksum(hash + seq![' ', ' '] + asset, other) is None,
        listed_checksum(Seq::empty(), asset) is None,
{
    let line = hash + seq![' ', ' '] + asset;
    let rest = seq![' '] + asset;
    assert(line =~= hash + seq![' '] + rest);
    crate::text::lemma_words(hash, ' ', rest);
    crate::text::lemma_words(asset, ' ', asset);
    let w = words_of(line);
    assert(w == seq![hash] + seq![asset]);
    assert(w[0] == hash && w[1] == asset);
    assert((seq![line] + lines)[0] == line);
    assert((seq![other] + lines)[0] == other);
    assert((seq![other] + lines).skip(1) =~= lines);
}

/// The checksum that a `SHA256SUMS` file gives for `asset`.
pub fn checksum_for_asset(sums: &str, asset: &str) -> (r: Option<String>)
    ensures
        match listed_checksum(lines_of(sums@), asset@) {
            Some(c) => r matches Some(s) && s@ == c,
            None => r is None,
        },
{
    let all = lines(sums);
    let ghost v = views(all@);
    let mut i: usize = 0;
    assert(v.skip(0) =~= v);
    while i < all.len()
        invariant
            i <= all@.len(),
            v == views(all@),
            v == lines_of(sums@),
            listed_checksum(v, asset@) == listed_checksum(v.skip(i as int), asset@),
        decreases all@.len() - i,
    {
        let words = split_whitespace(all[i].as_str());
        let ghost w = views(words@);
        proof {
            assert(v.skip(i as int)[0] == all@[i as int]@);
            assert(v.skip(i as int).skip(1) =~= v.skip(i + 1));
        }
        if words.len() >= 2 {
            assert(w[0] == words@[0]@ && w[1] == words@[1]@);
            if same(words[1].as_str(), asset) {
                return Some(words[0].clone());
            }
        }
        i += 1;
    }
    None
}

/// `r` is what the output of `sha256sum` comes to.
pub open spec fn is_printed_hash(
    r: Result<String, RemExecError>,
    path: Seq<char>,
    output: SshOutput,
) -> bool {
    if !output.success {
        r matches Err(RemExecError::Other(m)) && m@ == "sha256sum failed for "@ + path + ": "@
            + lossy_text(output.stderr@)
    } else {
        let w = words_of(lossy_text(output.stdout@));
        if w.len() > 0 {
            r matches Ok(s) && s@ == w[0]
        } else {
            r matches Err(RemExecError::Other(m)) && m@ == "sha256sum returned no hash for "@ + path
        }
    }
}

/// What is printed in front of the file's name is the hash, and nothing is taken for
/// one where the program failed.
pub proof fn lemma_hash_is_printed_first(
    r: Result<String, RemExecError>,
    path: Seq<char>,
    output: SshOutput,
    hash: Seq<char>,
    rest: Seq<char>,
)
    requires
        is_printed_hash(r, path, output),
        hash.len() > 0,
        forall|i: int| 0 <= i < hash.len() ==> !crate::text::is_white(#[trigger] hash[i]),
    ensures
        output.success && lossy_text(output.stdout@) == hash + seq![' '] + rest ==> (r
            matches Ok(s) && s@ == hash),
        !output.success ==> r is Err,
{
    crate::text::lemma_words(hash, ' ', rest);
}

/// The hash that `sha256sum` printed: its first word.
pub fn printed_hash(path: &str, output: &SshOutput) -> (r: Result<String, RemExecError>)
    ensures
        is_printed_hash(r, path@, *output),
{
    if !output.success {
        let mut m = labelled("sha256sum failed for ", path);
        m.append(": ");
        m.append(from_utf8_lossy(&output.stderr).as_str());
        return Err(RemExecError::Other(m));
    }
    let words = split_whitespace(from_utf8_lossy(&output.stdout).as_str());
    let ghost w = views(words@);
    if words.len() > 0 {
        assert(w[0] == words@[0]@);
        Ok(words[0].clone())
    } else {
        Err(RemExecError::Other(labelled("sha256sum returned no hash for ", path)))
    }
}

/// `curl` gave up because the server does not have what was asked for: exit
/// status 22 says that the server refused, its message with which status.
pub open spec fn says_missing(exit_code: Option<i32>, stderr: Seq<u8>) -> bool {
    exit_code == Some(22i32) && contains_text(lossy_text(stderr), "404"@)
}

/// Only a refusal by the server that says so is taken for a missing asset: not a
/// failure of another kind, nor a refusal with another status.
pub proof fn lemma_missing_is_said(exit_code: Option<i32>, stderr: Seq<u8>)
    ensures
        says_missing(exit_code, stderr) ==> exit_code == Some(22i32),
        !contains_text(lossy_text(stderr), "404"@) ==> !says_missing(exit_code, stderr),
        contains_text(lossy_text(stderr), "404"@) ==> says_missing(Some(22), stderr),
{
}

/// `r` is the error for a download that `curl` gave up on.
pub open spec fn is_download_error(
    r: RemExecError,
    url: Seq<char>,
    exit_code: Option<i32>,
    stderr: Seq<u8>,
) -> bool {
    let text = "failed to download "@ + url + ": "@ + lossy_text(stderr);
    if says_missing(exit_code, stderr) {
        r matches RemExecError::AssetNotFound(m) && m@ == text
    } else {
        r matches RemExecError::Other(m) && m@ == text
    }
}

/// An asset is called missing only where the server said so, and every failed download
/// says what was asked for and what `curl` said.
pub proof fn lemma_failed_download_is_told(
    r: RemExecError,
    url: Seq<char>,
    exit_code: Option<i32>,
    stderr: Seq<u8>,
)
    requires
        is_download_error(r, url, exit_code, stderr),
    ensures
        r is AssetNotFound <==> exit_code == Some(22i32) && contains_text(lossy_text(stderr), "404"@),
        contains_text(r.text(), url),
        contains_text(r.text(), lossy_text(stderr)),
{
    let a = "failed to download "@;
    let said = lossy_text(stderr);
    let t = a + url + ": "@ + said;
    assert(r.text() == t);
    assert(t.subrange(a.len() as int, (a.len() + url.len()) as int) =~= url);
    assert(crate::text::occurs_at(t, url, a.len() as int));
    let k = t.len() - said.len();
    assert(t.subrange(k, k + said.len()) =~= said);
    assert(crate::text::occurs_at(t, said, k));
}

/// The error for a download that `curl` gave up on. An asset that the server
/// does not have will not be there on a second attempt either, so it is told
/// apart from a server that is busy or broken.
pub fn download_failed(url: &str, exit_code: Option<i32>, stderr: &[u8]) -> (r: RemExecError)
    ensures
        is_download_error(r, url@, exit_code, stderr@),
{
    let mut m = labelled("failed to download ", url);
    m.append(": ");
    let said = from_utf8_lossy(stderr);
    m.append(said.as_str());
    let refused: bool = match exit_code {
        Some(c) => c == 22,
        None => false,
    };
    if refused && contains(said.as_str(), "404") {
        RemExecError::AssetNotFound(m)
    } else {
        RemExecError::Other(m)
    }
}

/// Result of preparing the local deploy cache from release assets.
#[derive(Debug)]
pub struct SetupResult {
    pub version: String,
    pub binaries: Vec<SetupBinary>,
}

/// One binary of the deploy cache.
#[derive(Debug)]
pub struct SetupBinary {
    pub arch: String,
    pub path: String,
    pub sha256: String,
    pub status: SetupStatus,
}

/// How a binary got into the cache.
#[derive(Debug, Clone, Copy, PartialEq, Eq, Structural)]
pub enum SetupStatus {
    /// It was there and its checksum is right.
    Cached,
    /// It was downloaded.
    Installed,
}

/// One release asset: what it must hash to, where it is kept, where it is from.
#[derive(Debug)]
pub struct AssetPlan {
    pub asset: String,
    pub expected: String,
    pub dest: String,
    pub url: String,
}

/// The name of the release asset of an architecture.
pub open spec fn asset_name(arch: Seq<char>) -> Seq<char> {
    "rxd-"@ + arch
}

/// `p` is the plan for the asset of `arch`, by these checksums.
pub open spec fn is_asset_plan(
    p: AssetPlan,
    sums: Seq<char>,
    version: Seq<char>,
    arch: Seq<char>,
    store: Seq<char>,
) -> bool {
    &&& p.asset@ == asset_name(arch)
    &&& listed_checksum(lines_of(sums), asset_name(arch)) == Some(p.expected@)
    &&& p.dest@ == joined_path(store, cached_name(version, arch))
    &&& p.url@ == RELEASE_BASE_URL@ + "/"@ + version + "/"@ + asset_name(arch)
}

/// What is said of an asset that the checksums do not list.
pub open spec fn unlisted_text(version: Seq<char>, asset: Seq<char>) -> Seq<char> {
    "SHA256SUMS for "@ + version + " does not contain checksum for "@ + asset
}

/// Plan one architecture of a cache fetch. An asset without a checksum is never
/// downloaded.
pub fn plan_asset(sums: &str, version: &str, arch: &str, store: &str) -> (r: Result<
    AssetPlan,
    RemExecError,
>)
    ensures
        match listed_checksum(lines_of(sums@), asset_name(arch@)) {
            Some(_) => r matches Ok(p) && is_asset_plan(p, sums@, version@, arch@, store@),
            None => r matches Err(RemExecError::Other(m)) && m@ == unlisted_text(
                version@,
                asset_name(arch@),
            ),
        },
{
    let asset = labelled("rxd-", arch);
    match checksum_for_asset(sums, asset.as_str()) {
        None => {
            let mut m = labelled("SHA256SUMS for ", version);
            m.append(" does not contain checksum for ");
            m.append(asset.as_str());
            Err(RemExecError::Other(m))
        },
        Some(expected) => {
            let dest = cached_binary_path(store, version, arch);
            let url = release_url(version, asset.as_str());
            Ok(AssetPlan { asset, expected, dest, url })
        },
    }
}

/// What is said of a download with another checksum than the release lists.
pub open spec fn mismatch_text(asset: Seq<char>, expected: Seq<char>, actual: Seq<char>) -> Seq<
    char,
> {
    "checksum mismatch for "@ + asset + ": expected "@ + expected + ", got "@ + actual
}

/// The message tells the checksum that the release lists from the one that was found.
pub proof fn lemma_mismatch_tells_both(asset: Seq<char>, expected: Seq<char>, actual: Seq<char>)
    ensures
        contains_text(mismatch_text(asset, expected, actual), asset),
        contains_text(mismatch_text(asset, expected, actual), "expected "@ + expected),
        contains_text(mismatch_text(asset, expected, actual), "got "@ + actual),
{
    reveal_strlit(": expected ");
    reveal_strlit(": ");
    reveal_strlit("expected ");
    reveal_strlit(", got ");
    reveal_strlit(", ");
    reveal_strlit("got ");
    assert(": expected "@ =~= ": "@ + "expected "@);
    assert(", got "@ =~= ", "@ + "got "@);
    let t = mismatch_text(asset, expected, actual);
    let a = "checksum mismatch for "@;
    let none = Seq::<char>::empty();
    assert(t =~= a + asset + (": expected "@ + expected + ", got "@ + actual));
    crate::text::lemma_part_occurs(a, asset, ": expected "@ + expected + ", got "@ + actual);
    assert(t =~= (a + asset + ": "@) + ("expected "@ + expected) + (", got "@ + actual));
    crate::text::lemma_part_occurs(a + asset + ": "@, "expected "@ + expected, ", got "@ + actual);
    assert(t =~= (a + asset + ": expected "@ + expected + ", "@) + ("got "@ + actual) + none);
    crate::text::lemma_part_occurs(
        a + asset + ": expected "@ + expected + ", "@,
        "got "@ + actual,
        none,
    );
}

/// A download is kept only where it hashes to what the release says.
pub fn check_download(asset: &str, expected: &str, actual: &str) -> (r: Result<(), RemExecError>)
    ensures
        r is Ok <==> actual@ == expected@,
        r matches Err(e) ==> (e matches RemExecError::Other(m) && m@ == mismatch_text(
            asset@,
            expected@,
            actual@,
        )),
{
    if same(actual, expected) {
        return Ok(());
    }
    let mut m = labelled("checksum mismatch for ", asset);
    m.append(": expected ");
    m.append(expected);
    m.append(", got ");
    m.append(actual);
    Err(RemExecError::Other(m))
}

} // verus!
