//! Version comparison and release selection for the self-update command.
use vstd::prelude::*;
use crate::text;
use crate::text::{split_char, parse_u64_spec, chars_of, split_chars, parse_u64_chars};

verus! {

/// Why a version string was refused.
#[derive(Debug, Clone, Copy, PartialEq, Eq, Structural)]
pub enum VersionError {
    /// Not three dot-separated parts.
    Format,
    /// The first part is not a decimal number.
    Major,
    /// The second part is not a decimal number.
    Minor,
    /// The third part is not a decimal number.
    Patch,
}

/// `s` without one leading `v`, if it has one.
pub open spec fn strip_v(s: Seq<char>) -> Seq<char> {
    if s.len() > 0 && s[0] == 'v' { s.drop_first() } else { s }
}

/// The version `MAJOR.MINOR.PATCH` written by `s`, with an optional leading `v`.
pub open spec fn version_of(s: Seq<char>) -> Result<(u64, u64, u64), VersionError> {
    let parts = split_char(strip_v(s), '.');
    if parts.len() != 3 {
        Err(VersionError::Format)
    } else {
        match parse_u64_spec(parts[0]) {
            None => Err(VersionError::Major),
            Some(a) => match parse_u64_spec(parts[1]) {
                None => Err(VersionError::Minor),
                Some(b) => match parse_u64_spec(parts[2]) {
                    None => Err(VersionError::Patch),
                    Some(c) => Ok((a, b, c)),
                },
            },
        }
    }
}

/// Lexicographic order on versions: `a` is later than `b`.
pub open spec fn version_gt(a: (u64, u64, u64), b: (u64, u64, u64)) -> bool {
    a.0 > b.0 || (a.0 == b.0 && (a.1 > b.1 || (a.1 == b.1 && a.2 > b.2)))
}

/// Parses `MAJOR.MINOR.PATCH`, with an optional leading `v`.
pub fn parse_version(s: &str) -> (r: Result<(u64, u64, u64), VersionError>)
    ensures
        r == version_of(s@),
{
    let all = chars_of(s);
    let body: &[char] = if all.len() > 0 && all[0] == 'v' {
        assert(all@.subrange(1, all@.len() as int) == s@.drop_first());
        all.as_slice().split_at(1).1
    } else {
        all.as_slice()
    };
    assert(body@ == strip_v(s@));
    let parts = split_chars(body, '.');
    if parts.len() != 3 {
        return Err(VersionError::Format);
    }
    let major = match parse_u64_chars(parts[0].as_slice()) {
        None => { return Err(VersionError::Major); },
        Some(v) => v,
    };
    let minor = match parse_u64_chars(parts[1].as_slice()) {
        None => { return Err(VersionError::Minor); },
        Some(v) => v,
    };
    let patch = match parse_u64_chars(parts[2].as_slice()) {
        None => { return Err(VersionError::Patch); },
        Some(v) => v,
    };
    Ok((major, minor, patch))
}

/// Whether release `remote` is later than `local`; an error when either
/// version string is refused (the remote one first).
pub fn is_newer(remote: &str, local: &str) -> (r: Result<bool, VersionError>)
    ensures
        match (version_of(remote@), version_of(local@)) {
            (Err(e), _) => r == Err::<bool, VersionError>(e),
            (Ok(_), Err(e)) => r == Err::<bool, VersionError>(e),
            (Ok(a), Ok(b)) => r == Ok::<bool, VersionError>(version_gt(a, b)),
        },
{
    let r = parse_version(remote)?;
    let l = parse_version(local)?;
    Ok(r.0 > l.0 || (r.0 == l.0 && (r.1 > l.1 || (r.1 == l.1 && r.2 > l.2))))
}

/// "Later than" is a strict total order on versions: no version is later
/// than itself, never both ways, transitive, and of two different versions
/// one is later.
pub proof fn law_newer_is_strict_total_order(x: (u64, u64, u64), y: (u64, u64, u64), z: (u64, u64, u64))
    ensures
        !version_gt(x, x),
        version_gt(x, y) ==> !version_gt(y, x),
        version_gt(x, y) && version_gt(y, z) ==> version_gt(x, z),
        x != y ==> version_gt(x, y) || version_gt(y, x),
{
}

/// Why the self-update cannot go on.
#[derive(Debug, Clone, Copy, PartialEq, Eq, Structural)]
pub enum UpdateError {
    /// No release build exists for this operating system and architecture.
    UnsupportedPlatform,
    /// The repository has no published release (HTTP 404).
    NoReleases,
    /// The release query answered with another unexpected HTTP status.
    HttpStatus(u16),
    /// A version string could not be read.
    Version(VersionError),
    /// The release has no archive for this platform.
    NoAsset,
    /// The downloaded archive could not be decompressed or read.
    ArchiveUnreadable,
    /// The archive holds no `melange` binary.
    BinaryMissing,
}

/// The release build name for an operating system and architecture (as
/// `std::env::consts::OS` and `ARCH` name them).
pub open spec fn triple_of(os: Seq<char>, arch: Seq<char>) -> Option<Seq<char>> {
    if os == "macos"@ && arch == "aarch64"@ {
        Some("aarch64-apple-darwin"@)
    } else if os == "macos"@ && arch == "x86_64"@ {
        Some("x86_64-apple-darwin"@)
    } else if os == "linux"@ && arch == "aarch64"@ {
        Some("aarch64-unknown-linux-gnu"@)
    } else if os == "linux"@ && arch == "x86_64"@ {
        Some("x86_64-unknown-linux-gnu"@)
    } else {
        None
    }
}

/// The target triple of the release build for `os` and `arch`.
pub fn target_triple(os: &str, arch: &str) -> (r: Result<String, UpdateError>)
    ensures
        match triple_of(os@, arch@) {
            Some(t) => r matches Ok(s) && s@ == t,
            None => r == Err::<String, UpdateError>(UpdateError::UnsupportedPlatform),
        },
{
    let mac = text::str_eq(os, "macos");
    let linux = text::str_eq(os, "linux");
    let arm = text::str_eq(arch, "aarch64");
    let x86 = text::str_eq(arch, "x86_64");
    if mac && arm {
        Ok(String::from_str("aarch64-apple-darwin"))
    } else if mac && x86 {
        Ok(String::from_str("x86_64-apple-darwin"))
    } else if linux && arm {
        Ok(String::from_str("aarch64-unknown-linux-gnu"))
    } else if linux && x86 {
        Ok(String::from_str("x86_64-unknown-linux-gnu"))
    } else {
        Err(UpdateError::UnsupportedPlatform)
    }
}

/// What the HTTP status of the release query means: 200 goes on, 404 means
/// no release yet, anything else is an error.
pub fn check_release_status(status: u16) -> (r: Result<(), UpdateError>)
    ensures
        status == 200 ==> r is Ok,
        status == 404 ==> r == Err::<(), UpdateError>(UpdateError::NoReleases),
        status != 200 && status != 404 ==> r == Err::<(), UpdateError>(UpdateError::HttpStatus(status)),
{
    if status == 200 {
        Ok(())
    } else if status == 404 {
        Err(UpdateError::NoReleases)
    } else {
        Err(UpdateError::HttpStatus(status))
    }
}

/// Whether the release tagged `tag` is newer than the running `current`
/// version; a version that cannot be read is an error.
pub fn should_update(tag: &str, current: &str) -> (r: Result<bool, UpdateError>)
    ensures
        match (version_of(tag@), version_of(current@)) {
            (Err(e), _) => r == Err::<bool, UpdateError>(UpdateError::Version(e)),
            (Ok(_), Err(e)) => r == Err::<bool, UpdateError>(UpdateError::Version(e)),
            (Ok(a), Ok(b)) => r == Ok::<bool, UpdateError>(version_gt(a, b)),
        },
{
    match is_newer(tag, current) {
        Ok(b) => Ok(b),
        Err(e) => Err(UpdateError::Version(e)),
    }
}

/// The archive name of a release build: `melange-{tag}-{triple}.tar.gz`.
pub fn expected_asset_name(tag: &str, triple: &str) -> (r: String)
    ensures
        r@ == "melange-"@ + tag@ + "-"@ + triple@ + ".tar.gz"@,
{
    let mut s = String::from_str("melange-");
    s.append(tag);
    s.append("-");
    s.append(triple);
    s.append(".tar.gz");
    s
}

/// Index of the first asset named `expected`.
pub fn find_asset(names: &Vec<String>, expected: &str) -> (r: Result<usize, UpdateError>)
    ensures
        match r {
            Ok(i) => i < names.len() && names@[i as int]@ == expected@
                && forall|j: int| 0 <= j < i ==> (#[trigger] names@[j])@ != expected@,
            Err(e) => e == UpdateError::NoAsset
                && forall|j: int| 0 <= j < names.len() ==> (#[trigger] names@[j])@ != expected@,
        },
{
    let mut i: usize = 0;
    while i < names.len()
        invariant
            i <= names.len(),
            forall|j: int| 0 <= j < i ==> (#[trigger] names@[j])@ != expected@,
        decreases names.len() - i,
    {
        if text::str_eq(names[i].as_str(), expected) {
            return Ok(i);
        }
        i += 1;
    }
    Err(UpdateError::NoAsset)
}

// ---------------------------------------------------------------------------
// The release archive
// ---------------------------------------------------------------------------

/// The entry at `index` of a gzip-compressed tar archive, read as a stream
/// from its start: `Err` when the stream cannot be read up to that entry's
/// header, `Ok(None)` when the archive ends before it, and
/// `Ok(Some(name))` with the entry's file name (`None` when the path has no
/// file name or it is not UTF-8).
pub uninterp spec fn tgz_entry_at(archive: Seq<u8>, index: int) -> Result<Option<Option<Seq<char>>>, ()>;

/// The contents of the entry at `index` of a gzip-compressed tar archive,
/// read as a stream up to the end of that entry (`None` when they cannot be read).
pub uninterp spec fn tgz_data_at(archive: Seq<u8>, index: int) -> Option<Seq<u8>>;

/// The file name of the entry at `index` of a `.tar.gz` archive: tar's
/// `Archive::entries` over flate2's `GzDecoder`, `Iterator::nth` and
/// `Entry::path`. The stream is read no further than that entry's header.
#[verifier::external_body]
fn tgz_entry_name(archive: &[u8], index: usize) -> (r: Result<Option<Option<String>>, ()>)
    ensures
        match tgz_entry_at(archive@, index as int) {
            Err(_) => r is Err,
            Ok(None) => r matches Ok(None),
            Ok(Some(None)) => r matches Ok(Some(None)),
            Ok(Some(Some(n))) => r matches Ok(Some(Some(s))) && s@ == n,
        },
{
    let mut ar = tar::Archive::new(flate2::read::GzDecoder::new(archive));
    let mut entries = ar.entries().map_err(|_| ())?;
    match entries.nth(index) {
        None => Ok(None),
        Some(Err(_)) => Err(()),
        Some(Ok(entry)) => match entry.path() {
            Err(_) => Err(()),
            Ok(p) => Ok(Some(p.file_name().and_then(|n| n.to_str()).map(|n| n.to_string()))),
        },
    }
}

/// The contents of the entry at `index` of a `.tar.gz` archive: tar's
/// `Archive::entries` over flate2's `GzDecoder`, `Iterator::nth` and
/// `Read::read_to_end` on the entry.
#[verifier::external_body]
fn tgz_entry_data(archive: &[u8], index: usize) -> (r: Result<Vec<u8>, ()>)
    ensures
        match tgz_data_at(archive@, index as int) {
            Some(b) => r matches Ok(v) && v@ == b,
            None => r is Err,
        },
{
    let mut ar = tar::Archive::new(flate2::read::GzDecoder::new(archive));
    let mut entries = ar.entries().map_err(|_| ())?;
    let mut entry = entries.nth(index).ok_or(())?.map_err(|_| ())?;
    let mut out = Vec::new();
    std::io::Read::read_to_end(&mut entry, &mut out).map_err(|_| ())?;
    Ok(out)
}

/// The name of the binary inside a release archive.
pub open spec fn binary_name() -> Seq<char> {
    "melange"@
}

/// Looks for the binary among the entries of `archive` from `index` on.
/// The count of entries looked at is bounded by `usize::MAX`, the most an
/// index can reach.
pub open spec fn find_binary_from(archive: Seq<u8>, index: nat) -> Result<Seq<u8>, UpdateError>
    decreases usize::MAX - index,
{
    if index >= usize::MAX {
        Err(UpdateError::BinaryMissing)
    } else {
        match tgz_entry_at(archive, index as int) {
            Err(_) => Err(UpdateError::ArchiveUnreadable),
            Ok(None) => Err(UpdateError::BinaryMissing),
            Ok(Some(name)) => if name == Some(binary_name()) {
                match tgz_data_at(archive, index as int) {
                    Some(b) => Ok(b),
                    None => Err(UpdateError::ArchiveUnreadable),
                }
            } else {
                find_binary_from(archive, index + 1)
            },
        }
    }
}

/// The `melange` binary inside a downloaded `.tar.gz` release archive: the
/// first entry whose file name is `melange`. The archive is read as a
/// stream, entry by entry, and nothing after that entry is decompressed.
pub fn extract_binary(archive: &[u8]) -> (r: Result<Vec<u8>, UpdateError>)
    ensures
        match find_binary_from(archive@, 0) {
            Ok(b) => r matches Ok(v) && v@ == b,
            Err(e) => r matches Err(e2) && e2 == e,
        },
{
    let ghost whole = find_binary_from(archive@, 0);
    let mut index: usize = 0;
    while index < usize::MAX
        invariant
            whole == find_binary_from(archive@, 0),
            whole == find_binary_from(archive@, index as nat),
        decreases usize::MAX - index,
    {
        match tgz_entry_name(archive, index) {
            Err(_) => { return Err(UpdateError::ArchiveUnreadable); },
            Ok(None) => { return Err(UpdateError::BinaryMissing); },
            Ok(Some(name)) => {
                let is_binary = match &name {
                    Some(n) => text::str_eq(n.as_str(), "melange"),
                    None => false,
                };
                if is_binary {
                    return match tgz_entry_data(archive, index) {
                        Ok(b) => Ok(b),
                        Err(_) => Err(UpdateError::ArchiveUnreadable),
                    };
                }
            },
        }
        index += 1;
    }
    Err(UpdateError::BinaryMissing)
}

} // verus!
