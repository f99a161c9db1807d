//! Native host identity for `ping`: what the kernel and os-release say.

use vstd::prelude::*;

use crate::text::{
    chars_of, from_utf8_lossy, has_prefix, lines, lines_of, lossy_text, string_of_range,
    strip_prefix, trim, trimmed, views,
};

verus! {

/// Host identity fields returned by `ping`.
#[derive(Debug)]
pub struct HostIdentity {
    /// `uname -s`: operating system name, e.g. "Linux".
    pub os: String,
    /// `uname -r`: kernel release, e.g. "6.12.4".
    pub kernel: String,
    /// `uname -n`: node name.
    pub hostname: String,
    /// `uname -m`: machine hardware name, e.g. "x86_64". Reported verbatim
    /// rather than normalized to our deploy names, so unusual hosts still get a
    /// truthful answer.
    pub arch: String,
    /// `ID=` from os-release, e.g. "alpine", "debian", "arch".
    pub distro_id: Option<String>,
    /// `VERSION_ID=` from os-release, e.g. "3.21". Absent on rolling distros.
    pub distro_version: Option<String>,
}

/// The fixed fields of `uname(2)`, as it filled them.
#[derive(Debug)]
pub struct UnameFields {
    pub sysname: Vec<u8>,
    pub release: Vec<u8>,
    pub nodename: Vec<u8>,
    pub machine: Vec<u8>,
}

/// The bytes in front of the first NUL.
pub open spec fn until_nul(buf: Seq<u8>) -> Seq<u8>
    decreases buf.len(),
{
    if buf.len() == 0 || buf[0] == 0 {
        Seq::empty()
    } else {
        seq![buf[0]] + until_nul(buf.skip(1))
    }
}

/// A field is what stands in front of the first NUL, whatever follows it; one
/// without a NUL is taken whole.
pub proof fn lemma_field_ends_at_nul(text: Seq<u8>, rest: Seq<u8>)
    requires
        !text.contains(0u8),
    ensures
        until_nul(text + seq![0u8] + rest) == text,
        until_nul(text) == text,
    decreases text.len(),
{
    let buf = text + seq![0u8] + rest;
    if text.len() > 0 {
        let shorter = text.skip(1);
        assert(text.contains(text[0]));
        assert(!shorter.contains(0u8)) by {
            if shorter.contains(0u8) {
                let i = choose|i: int| 0 <= i < shorter.len() && shorter[i] == 0u8;
                assert(text[i + 1] == 0u8);
            }
        }
        lemma_field_ends_at_nul(shorter, rest);
        assert(buf.skip(1) =~= shorter + seq![0u8] + rest);
        assert(seq![text[0]] + shorter =~= text);
    } else {
        assert(buf[0] == 0);
        assert(text =~= Seq::empty());
    }
}

/// Decode a NUL-terminated fixed array (a `utsname` field).
pub fn c_field(buf: &[u8]) -> (r: String)
    ensures
        r@ == lossy_text(until_nul(buf@)),
{
    let mut bytes: Vec<u8> = Vec::new();
    let mut i: usize = 0;
    assert(buf@.skip(0) =~= buf@);
    assert(bytes@ + until_nul(buf@) =~= until_nul(buf@));
    while i < buf.len() && buf[i] != 0
        invariant
            i <= buf@.len(),
            bytes@ + until_nul(buf@.skip(i as int)) == until_nul(buf@),
        decreases buf@.len() - i,
    {
        let ghost before = bytes@;
        bytes.push(buf[i]);
        proof {
            let rest = buf@.skip(i as int);
            assert(rest.skip(1) =~= buf@.skip(i + 1));
            assert(bytes@ + until_nul(rest.skip(1)) =~= before + (seq![rest[0]] + until_nul(
                rest.skip(1),
            )));
        }
        i += 1;
    }
    assert(bytes@ + until_nul(buf@.skip(i as int)) =~= bytes@);
    from_utf8_lossy(&bytes)
}

/// A `utsname` field, or "unknown" where `uname` failed.
pub open spec fn field_text(field: Option<Seq<u8>>) -> Seq<char> {
    match field {
        Some(buf) => lossy_text(until_nul(buf)),
        None => "unknown"@,
    }
}

/// (sysname, release, nodename, machine) from `uname(2)`, or "unknown" each on
/// failure.
pub fn uname_fields(uname: &Option<UnameFields>) -> (r: (String, String, String, String))
    ensures
        match *uname {
            Some(u) => r.0@ == field_text(Some(u.sysname@)) && r.1@ == field_text(Some(u.release@))
                && r.2@ == field_text(Some(u.nodename@)) && r.3@ == field_text(Some(u.machine@)),
            None => r.0@ == field_text(None) && r.1@ == field_text(None) && r.2@ == field_text(None)
                && r.3@ == field_text(None),
        },
{
    match uname {
        Some(u) => (c_field(&u.sysname), c_field(&u.release), c_field(&u.nodename), c_field(
            &u.machine,
        )),
        None => (
            "unknown".to_owned(),
            "unknown".to_owned(),
            "unknown".to_owned(),
            "unknown".to_owned(),
        ),
    }
}

/// `v` without one pair of `q` around it.
pub open spec fn dequoted(v: Seq<char>, q: char) -> Seq<char> {
    if v.len() >= 2 && v[0] == q && v.last() == q {
        v.subrange(1, v.len() - 1)
    } else {
        v
    }
}

/// A value without white space, then double, then single quotes around it.
pub open spec fn unquoted(v: Seq<char>) -> Seq<char> {
    dequoted(dequoted(trimmed(v), '"'), '\'')
}

fn strip_quotes(v: &str, q: char) -> (r: String)
    ensures
        r@ == dequoted(v@, q),
{
    let chars = chars_of(v);
    let n: usize = chars.len();
    if n >= 2 && chars[0] == q && chars[n - 1] == q {
        string_of_range(&chars, 1, n - 1)
    } else {
        v.to_owned()
    }
}

/// Strip surrounding whitespace and shell quotes from an os-release value.
pub fn unquote(value: &str) -> (r: String)
    ensures
        r@ == unquoted(value@),
{
    let v = trim(value);
    let v = strip_quotes(v.as_str(), '"');
    strip_quotes(v.as_str(), '\'')
}

/// A value is what stands between its quotes, of either kind, or the value itself
/// where it has none.
pub proof fn lemma_value_is_unquoted(v: Seq<char>)
    requires
        v.len() > 0,
        !crate::text::is_white(v[0]),
        !crate::text::is_white(v.last()),
        v[0] != '"' && v[0] != '\'',
    ensures
        unquoted(seq!['"'] + v + seq!['"']) == v,
        unquoted(seq!['\''] + v + seq!['\'']) == v,
        unquoted(v) == v,
{
    let double = seq!['"'] + v + seq!['"'];
    let single = seq!['\''] + v + seq!['\''];
    crate::text::lemma_trimmed_already(double);
    crate::text::lemma_trimmed_already(single);
    crate::text::lemma_trimmed_already(v);
    assert(double.subrange(1, double.len() - 1) =~= v);
    assert(single.subrange(1, single.len() - 1) =~= v);
}

/// The value of the last line that begins with `key`.
pub open spec fn last_value(lines: Seq<Seq<char>>, key: Seq<char>) -> Option<Seq<char>>
    decreases lines.len(),
{
    if lines.len() == 0 {
        None
    } else if has_prefix(lines.last(), key) {
        Some(unquoted(lines.last().skip(key.len() as int)))
    } else {
        last_value(lines.drop_last(), key)
    }
}

/// The last line with the key has the value; a line that does not begin with the key
/// has no say, and without any such line there is no value.
pub proof fn lemma_last_value(lines: Seq<Seq<char>>, key: Seq<char>, v: Seq<char>, line: Seq<char>)
    ensures
        last_value(lines.push(key + v), key) == Some(unquoted(v)),
        !has_prefix(line, key) ==> last_value(lines.push(line), key) == last_value(lines, key),
        last_value(Seq::empty(), key) is None,
{
    assert((key + v).take(key.len() as int) =~= key);
    assert((key + v).skip(key.len() as int) =~= v);
    assert(lines.push(line).drop_last() =~= lines);
}

/// `o` holds the text `v`, or both are nothing.
pub open spec fn holds_text(o: Option<String>, v: Option<Seq<char>>) -> bool {
    match o {
        Some(s) => v == Some(s@),
        None => v is None,
    }
}

/// Extract `ID` and `VERSION_ID` values from os-release file contents.
pub fn parse_os_release(content: &str) -> (r: (Option<String>, Option<String>))
    ensures
        holds_text(r.0, last_value(lines_of(content@), "ID="@)),
        holds_text(r.1, last_value(lines_of(content@), "VERSION_ID="@)),
{
    let all = lines(content);
    let ghost v = views(all@);
    let mut id: Option<String> = None;
    let mut version: Option<String> = None;
    let mut i: usize = 0;
    assert(v.take(0) =~= Seq::<Seq<char>>::empty());
    while i < all.len()
        invariant
            i <= all@.len(),
            v == views(all@),
            holds_text(id, last_value(v.take(i as int), "ID="@)),
            holds_text(version, last_value(v.take(i as int), "VERSION_ID="@)),
        decreases all@.len() - i,
    {
        let line = all[i].as_str();
        proof {
            assert(v.take(i + 1).drop_last() =~= v.take(i as int));
            assert(v.take(i + 1).last() == line@);
            reveal_strlit("ID=");
            reveal_strlit("VERSION_ID=");
            if has_prefix(line@, "ID="@) {
                assert(line@.take(3)[0] == 'I');
                if has_prefix(line@, "VERSION_ID="@) {
                    assert(line@.take(11)[0] == 'V');
                }
            }
        }
        if let Some(value) = strip_prefix(line, "ID=") {
            id = Some(unquote(value.as_str()));
        } else if let Some(value) = strip_prefix(line, "VERSION_ID=") {
            version = Some(unquote(value.as_str()));
        }
        i += 1;
    }
    assert(v.take(i as int) =~= v);
    (id, version)
}

/// `r` is the identity of a host.
pub open spec fn is_identity(
    r: HostIdentity,
    uname: Option<UnameFields>,
    os_release: Option<&str>,
) -> bool {
    &&& match uname {
        Some(u) => r.os@ == field_text(Some(u.sysname@)) && r.kernel@ == field_text(
            Some(u.release@),
        ) && r.hostname@ == field_text(Some(u.nodename@)) && r.arch@ == field_text(
            Some(u.machine@),
        ),
        None => r.os@ == field_text(None) && r.kernel@ == field_text(None) && r.hostname@
            == field_text(None) && r.arch@ == field_text(None),
    }
    &&& match os_release {
        Some(content) => holds_text(r.distro_id, last_value(lines_of(content@), "ID="@))
            && holds_text(r.distro_version, last_value(lines_of(content@), "VERSION_ID="@)),
        None => r.distro_id is None && r.distro_version is None,
    }
}

/// Each part of an identity is what its own field holds up to the NUL; where the
/// fields cannot be had all of them are unknown, and where os-release cannot be had
/// nothing is said of the distribution.
pub proof fn lemma_identity_is_what_the_kernel_says(
    r: HostIdentity,
    os: Seq<u8>,
    kernel: Seq<u8>,
    hostname: Seq<u8>,
    arch: Seq<u8>,
    u: UnameFields,
    os_release: Option<&str>,
)
    requires
        !os.contains(0u8) && !kernel.contains(0u8) && !hostname.contains(0u8) && !arch.contains(0u8),
        u.sysname@ == os.push(0),
        u.release@ == kernel.push(0),
        u.nodename@ == hostname.push(0),
        u.machine@ == arch.push(0),
    ensures
        is_identity(r, Some(u), os_release) ==> {
            &&& r.os@ == lossy_text(os)
            &&& r.kernel@ == lossy_text(kernel)
            &&& r.hostname@ == lossy_text(hostname)
            &&& r.arch@ == lossy_text(arch)
        },
        is_identity(r, None, os_release) ==> r.os@ == "unknown"@ && r.kernel@ == "unknown"@
            && r.hostname@ == "unknown"@ && r.arch@ == "unknown"@,
        is_identity(r, Some(u), None) ==> r.distro_id is None && r.distro_version is None,
{
    let none = Seq::<u8>::empty();
    lemma_field_ends_at_nul(os, none);
    lemma_field_ends_at_nul(kernel, none);
    lemma_field_ends_at_nul(hostname, none);
    lemma_field_ends_at_nul(arch, none);
    assert(os + seq![0u8] + none =~= os.push(0));
    assert(kernel + seq![0u8] + none =~= kernel.push(0));
    assert(hostname + seq![0u8] + none =~= hostname.push(0));
    assert(arch + seq![0u8] + none =~= arch.push(0));
}

/// Gather host identity from `uname(2)` and the contents of os-release. Uname
/// failure degrades to "unknown" fields rather than failing the whole probe; a
/// missing os-release leaves the distro fields out.
pub fn identity(uname: &Option<UnameFields>, os_release: Option<&str>) -> (r: HostIdentity)
    ensures
        is_identity(r, *uname, os_release),
{
    let (os, kernel, hostname, arch) = uname_fields(uname);
    let (distro_id, distro_version) = match os_release {
        Some(content) => parse_os_release(content),
        None => (None, None),
    };
    HostIdentity { os, kernel, hostname, arch, distro_id, distro_version }
}

} // verus!
