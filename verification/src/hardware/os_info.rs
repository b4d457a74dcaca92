//! The operating system's name and version.
use vstd::prelude::*;
use crate::text;
use crate::text::{lines_of, seq_starts_with, trim_char, trim_ws, utf8_lossy};

verus! {

/// The operating system as the dashboard shows it.
pub struct OsInfo {
    pub name: String,
    pub version: String,
    pub display: String,
}

/// What the system offered about itself; `None` where a command could not be
/// run or the file could not be read.
pub struct OsReadings {
    /// Output of `sw_vers -productName`.
    pub product_name: Option<Vec<u8>>,
    /// Output of `sw_vers -productVersion`.
    pub product_version: Option<Vec<u8>>,
    /// Contents of `/etc/os-release`.
    pub os_release: Option<String>,
}

/// The value of the last `key=` line, with surrounding double quotes removed.
pub open spec fn release_value(ls: Seq<Seq<char>>, key: Seq<char>) -> Option<Seq<char>>
    decreases ls.len(),
{
    if ls.len() == 0 {
        None
    } else if seq_starts_with(ls.last(), key) {
        Some(trim_char(ls.last().skip(key.len() as int), '"'))
    } else {
        release_value(ls.drop_last(), key)
    }
}

/// What an os-release file describes: `None` without a `PRETTY_NAME`, which
/// becomes the display; the name falls back to it, the version to "".
pub open spec fn os_release_spec(content: Seq<char>) -> Option<(Seq<char>, Seq<char>, Seq<char>)> {
    let ls = lines_of(content);
    match release_value(ls, "PRETTY_NAME="@) {
        Some(display) => Some((
            match release_value(ls, "NAME="@) { Some(n) => n, None => display },
            match release_value(ls, "VERSION="@) { Some(v) => v, None => Seq::empty() },
            display,
        )),
        None => None,
    }
}

/// The three views of an `OsInfo`: name, version, display.
pub open spec fn os_view(o: OsInfo) -> (Seq<char>, Seq<char>, Seq<char>) {
    (o.name@, o.version@, o.display@)
}

/// No line starts with two of the three keys.
proof fn lemma_keys_disjoint(l: Seq<char>)
    ensures
        seq_starts_with(l, "PRETTY_NAME="@) ==> !seq_starts_with(l, "NAME="@),
        seq_starts_with(l, "PRETTY_NAME="@) ==> !seq_starts_with(l, "VERSION="@),
        seq_starts_with(l, "NAME="@) ==> !seq_starts_with(l, "VERSION="@),
{
    reveal_strlit("PRETTY_NAME=");
    reveal_strlit("NAME=");
    reveal_strlit("VERSION=");
    if seq_starts_with(l, "PRETTY_NAME="@) {
        assert(l[0] == l.take(12)[0]);
        assert(l.take(5)[0] == l[0]);
    }
    if seq_starts_with(l, "NAME="@) && seq_starts_with(l, "VERSION="@) {
        assert(l.take(5)[0] == l[0]);
        assert(l.take(8)[0] == l[0]);
    }
}

/// The value after `key` on a line that starts with it, unquoted.
fn unquoted_after(line: &[char], key_len: usize) -> (r: Vec<char>)
    requires
        key_len <= line.len(),
    ensures
        r@ == trim_char(line@.skip(key_len as int), '"'),
{
    let rest = text::sub_chars(line, key_len, line.len());
    assert(line@.subrange(key_len as int, line@.len() as int) == line@.skip(key_len as int));
    text::trim_char_chars(rest.as_slice(), '"')
}

/// The system described by an os-release file (`None` without `PRETTY_NAME`).
pub fn parse_os_release(content: &str) -> (r: Option<OsInfo>)
    ensures
        match os_release_spec(content@) {
            Some(v) => r matches Some(o) && os_view(o) == v,
            None => r is None,
        },
{
    let cv = text::chars_of(content);
    let ls = text::lines(cv.as_slice());
    let ghost all = lines_of(content@);
    let pk = text::chars_of("PRETTY_NAME=");
    let nk = text::chars_of("NAME=");
    let vk = text::chars_of("VERSION=");
    let mut pretty: Option<Vec<char>> = None;
    let mut name: Option<Vec<char>> = None;
    let mut version: Option<Vec<char>> = None;
    let mut i: usize = 0;
    while i < ls.len()
        invariant
            i <= ls.len(),
            all == lines_of(content@),
            ls.len() == all.len(),
            forall|k: int| 0 <= k < ls.len() ==> #[trigger] ls[k]@ == all[k],
            pk@ == "PRETTY_NAME="@,
            nk@ == "NAME="@,
            vk@ == "VERSION="@,
            match pretty {
                Some(p) => release_value(all.take(i as int), "PRETTY_NAME="@) == Some(p@),
                None => release_value(all.take(i as int), "PRETTY_NAME="@) is None,
            },
            match name {
                Some(p) => release_value(all.take(i as int), "NAME="@) == Some(p@),
                None => release_value(all.take(i as int), "NAME="@) is None,
            },
            match version {
                Some(p) => release_value(all.take(i as int), "VERSION="@) == Some(p@),
                None => release_value(all.take(i as int), "VERSION="@) is None,
            },
        decreases ls.len() - i,
    {
        let line = ls[i].as_slice();
        assert(all.take(i + 1).drop_last() == all.take(i as int));
        assert(all.take(i + 1).last() == all[i as int]);
        proof { lemma_keys_disjoint(all[i as int]); }
        if text::chars_start_with(line, pk.as_slice()) {
            pretty = Some(unquoted_after(line, pk.len()));
        } else if text::chars_start_with(line, nk.as_slice()) {
            name = Some(unquoted_after(line, nk.len()));
        } else if text::chars_start_with(line, vk.as_slice()) {
            version = Some(unquoted_after(line, vk.len()));
        }
        i += 1;
    }
    assert(all.take(ls.len() as int) == all);
    match pretty {
        Some(p) => {
            let display = text::string_of(p.as_slice());
            let n = match name {
                Some(n) => text::string_of(n.as_slice()),
                None => text::string_of(p.as_slice()),
            };
            let v = match version {
                Some(v) => text::string_of(v.as_slice()),
                None => String::new(),
            };
            Some(OsInfo { name: n, version: v, display })
        },
        None => None,
    }
}

/// The system as `sw_vers` reports it: `None` when the product name is empty
/// after trimming; the display is "name version".
pub fn macos_info(name_out: &[u8], version_out: &[u8]) -> (r: Option<OsInfo>)
    ensures
        ({
            let n = trim_ws(utf8_lossy(name_out@));
            let v = trim_ws(utf8_lossy(version_out@));
            if n.len() == 0 {
                r is None
            } else {
                r matches Some(o) && os_view(o) == (n, v, n + " "@ + v)
            }
        }),
{
    let ns = text::lossy_string(name_out);
    let n = text::trim_str(ns.as_str());
    if n.len() == 0 {
        return None;
    }
    let vs = text::lossy_string(version_out);
    let v = text::trim_str(vs.as_str());
    let name = text::string_of(n.as_slice());
    let version = text::string_of(v.as_slice());
    let mut display = text::string_of(n.as_slice());
    display.append(" ");
    display.append(version.as_str());
    Some(OsInfo { name, version, display })
}

/// The system when nothing could be read about it.
pub fn unknown_os() -> (r: OsInfo)
    ensures
        os_view(r) == ("Unknown OS"@, Seq::<char>::empty(), "Unknown OS"@),
{
    OsInfo {
        name: String::from_str("Unknown OS"),
        version: String::new(),
        display: String::from_str("Unknown OS"),
    }
}

/// The system from what could be read: `sw_vers` first (both queries ran and
/// the name is not empty), then `/etc/os-release` (with a `PRETTY_NAME`),
/// else "Unknown OS".
pub fn detect(readings: &OsReadings) -> (r: OsInfo)
    ensures
        ({
            let mac = match (readings.product_name, readings.product_version) {
                (Some(n), Some(v)) => {
                    let nt = trim_ws(utf8_lossy(n@));
                    let vt = trim_ws(utf8_lossy(v@));
                    if nt.len() > 0 { Some((nt, vt, nt + " "@ + vt)) } else { None }
                },
                _ => None,
            };
            let linux = match readings.os_release {
                Some(c) => os_release_spec(c@),
                None => None,
            };
            os_view(r) == (match mac {
                Some(m) => m,
                None => match linux {
                    Some(l) => l,
                    None => ("Unknown OS"@, Seq::<char>::empty(), "Unknown OS"@),
                },
            })
        }),
{
    if let (Some(n), Some(v)) = (&readings.product_name, &readings.product_version) {
        if let Some(info) = macos_info(n.as_slice(), v.as_slice()) {
            return info;
        }
    }
    if let Some(c) = &readings.os_release {
        if let Some(info) = parse_os_release(c.as_str()) {
            return info;
        }
    }
    unknown_os()
}

} // verus!
