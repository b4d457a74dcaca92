//! Reading the metadata header of a GGUF model file.
//!
//! The parser works on the leading bytes of a file together with the file's
//! length. It reads only the header: the key/value metadata, skipping array
//! values (tokenizer tables and the like) without decoding them. When it
//! needs bytes beyond the ones it was given, but inside the file, it answers
//! `NeedMoreBytes`, so that a caller can hand it a longer prefix.
use vstd::prelude::*;
use crate::text;
use crate::text::utf8_lossy;

verus! {

/// "GGUF" read as a little-endian `u32`.
pub const GGUF_MAGIC: u32 = 0x46554747;

/// Largest number of metadata entries a header may announce.
pub const MAX_METADATA_ENTRIES: u64 = 10000;

/// Longest string, in bytes, that the header may hold.
pub const MAX_STRING_LEN: u64 = 1000000;

/// Largest offset a position may reach (a file offset is a signed 64-bit number).
pub const MAX_OFFSET: u64 = 0x7fff_ffff_ffff_ffff;

/// Why a header could not be read.
#[derive(Debug, Clone, Copy, PartialEq, Eq, Structural)]
pub enum GgufError {
    /// The file ends before the header does.
    UnexpectedEof,
    /// The bytes given end before the header does, but the file goes on.
    NeedMoreBytes,
    /// The first four bytes are not "GGUF".
    BadMagic(u32),
    /// Only versions 2 and 3 are read.
    UnsupportedVersion(u32),
    /// The header announces more metadata entries than `MAX_METADATA_ENTRIES`.
    TooManyEntries(u64),
    /// A string longer than `MAX_STRING_LEN` bytes.
    StringTooLong(u64),
    /// A value type code outside 0..=12.
    UnknownValueType(u32),
    /// An array whose elements are of an unknown type.
    CannotSkipArray(u32),
    /// Skipping an array would move past the largest file offset.
    SeekOutOfRange,
}

/// One metadata value. Floating-point values are kept as their IEEE-754 bits.
#[derive(Debug)]
pub enum GgufValue {
    U8(u8),
    I8(i8),
    U16(u16),
    I16(i16),
    U32(u32),
    I32(i32),
    /// The bits of an `f32`.
    F32(u32),
    Bool(bool),
    Str(String),
    U64(u64),
    I64(i64),
    /// The bits of an `f64`.
    F64(u64),
}

/// A metadata value as the contracts see it: a string is its chars.
pub enum GgufValueView {
    U8(u8),
    I8(i8),
    U16(u16),
    I16(i16),
    U32(u32),
    I32(i32),
    F32(u32),
    Bool(bool),
    Str(Seq<char>),
    U64(u64),
    I64(i64),
    F64(u64),
}

impl View for GgufValue {
    type V = GgufValueView;

    open spec fn view(&self) -> GgufValueView {
        match self {
            GgufValue::U8(v) => GgufValueView::U8(*v),
            GgufValue::I8(v) => GgufValueView::I8(*v),
            GgufValue::U16(v) => GgufValueView::U16(*v),
            GgufValue::I16(v) => GgufValueView::I16(*v),
            GgufValue::U32(v) => GgufValueView::U32(*v),
            GgufValue::I32(v) => GgufValueView::I32(*v),
            GgufValue::F32(v) => GgufValueView::F32(*v),
            GgufValue::Bool(v) => GgufValueView::Bool(*v),
            GgufValue::Str(s) => GgufValueView::Str(s@),
            GgufValue::U64(v) => GgufValueView::U64(*v),
            GgufValue::I64(v) => GgufValueView::I64(*v),
            GgufValue::F64(v) => GgufValueView::F64(*v),
        }
    }
}

/// The header's metadata: its entries (later entries with a key replace
/// earlier ones) and the number of tensors the file announces.
pub struct GgufMetadata {
    /// Entries in the order they were read; for a repeated key the last one counts.
    pub entries: Vec<(String, GgufValue)>,
    pub tensor_count: u64,
}

/// The metadata as the contracts see it.
pub struct GgufMetadataView {
    pub entries: Map<Seq<char>, GgufValueView>,
    pub tensor_count: u64,
}

/// The map that a log of entries stands for: each key has its last value.
pub open spec fn entry_map(s: Seq<(String, GgufValue)>) -> Map<Seq<char>, GgufValueView>
    decreases s.len(),
{
    if s.len() == 0 {
        Map::empty()
    } else {
        entry_map(s.drop_last()).insert(s.last().0@, s.last().1@)
    }
}

impl View for GgufMetadata {
    type V = GgufMetadataView;

    open spec fn view(&self) -> GgufMetadataView {
        GgufMetadataView { entries: entry_map(self.entries@), tensor_count: self.tensor_count }
    }
}

// ---------------------------------------------------------------------------
// The format, as spec functions over (bytes given, file length, position)
// ---------------------------------------------------------------------------

/// `n` bytes at `pos`, or why they cannot be had.
pub open spec fn read_at(d: Seq<u8>, fl: int, pos: int, n: int) -> Result<Seq<u8>, GgufError> {
    if pos + n <= d.len() {
        Ok(d.subrange(pos, pos + n))
    } else if pos + n <= fl {
        Err(GgufError::NeedMoreBytes)
    } else {
        Err(GgufError::UnexpectedEof)
    }
}

pub open spec fn le16(b: Seq<u8>) -> int {
    b[0] + 256 * b[1]
}

pub open spec fn le32(b: Seq<u8>) -> int {
    le16(b) + 65536 * b[2] + 16777216 * b[3]
}

pub open spec fn le64(b: Seq<u8>) -> int {
    le32(b) + 0x1_0000_0000 * b[4] + 0x100_0000_0000 * b[5] + 0x1_0000_0000_0000 * b[6]
        + 0x100_0000_0000_0000 * b[7]
}

pub open spec fn read_u8_at(d: Seq<u8>, fl: int, pos: int) -> Result<(u8, int), GgufError> {
    match read_at(d, fl, pos, 1) {
        Ok(b) => Ok((b[0], pos + 1)),
        Err(e) => Err(e),
    }
}

pub open spec fn read_u16_at(d: Seq<u8>, fl: int, pos: int) -> Result<(u16, int), GgufError> {
    match read_at(d, fl, pos, 2) {
        Ok(b) => Ok((le16(b) as u16, pos + 2)),
        Err(e) => Err(e),
    }
}

pub open spec fn read_u32_at(d: Seq<u8>, fl: int, pos: int) -> Result<(u32, int), GgufError> {
    match read_at(d, fl, pos, 4) {
        Ok(b) => Ok((le32(b) as u32, pos + 4)),
        Err(e) => Err(e),
    }
}

pub open spec fn read_u64_at(d: Seq<u8>, fl: int, pos: int) -> Result<(u64, int), GgufError> {
    match read_at(d, fl, pos, 8) {
        Ok(b) => Ok((le64(b) as u64, pos + 8)),
        Err(e) => Err(e),
    }
}

/// A string: a `u64` byte length, then that many bytes, decoded lossily.
pub open spec fn read_string_at(d: Seq<u8>, fl: int, pos: int) -> Result<(Seq<char>, int), GgufError> {
    match read_u64_at(d, fl, pos) {
        Err(e) => Err(e),
        Ok((len, p)) => if len > MAX_STRING_LEN {
            Err(GgufError::StringTooLong(len))
        } else {
            match read_at(d, fl, p, len as int) {
                Err(e) => Err(e),
                Ok(b) => Ok((utf8_lossy(b), p + len)),
            }
        },
    }
}

/// A value of type code `t` (array values, code 9, are not read this way).
pub open spec fn read_value_at(d: Seq<u8>, fl: int, pos: int, t: u32) -> Result<(GgufValueView, int), GgufError> {
    if t == 0 || t == 1 || t == 7 {
        match read_u8_at(d, fl, pos) {
            Err(e) => Err(e),
            Ok((v, p)) => Ok((
                if t == 0 { GgufValueView::U8(v) } else if t == 1 { GgufValueView::I8(v as i8) } else { GgufValueView::Bool(v != 0) },
                p,
            )),
        }
    } else if t == 2 || t == 3 {
        match read_u16_at(d, fl, pos) {
            Err(e) => Err(e),
            Ok((v, p)) => Ok((if t == 2 { GgufValueView::U16(v) } else { GgufValueView::I16(v as i16) }, p)),
        }
    } else if t == 4 || t == 5 || t == 6 {
        match read_u32_at(d, fl, pos) {
            Err(e) => Err(e),
            Ok((v, p)) => Ok((
                if t == 4 { GgufValueView::U32(v) } else if t == 5 { GgufValueView::I32(v as i32) } else { GgufValueView::F32(v) },
                p,
            )),
        }
    } else if t == 10 || t == 11 || t == 12 {
        match read_u64_at(d, fl, pos) {
            Err(e) => Err(e),
            Ok((v, p)) => Ok((
                if t == 10 { GgufValueView::U64(v) } else if t == 11 { GgufValueView::I64(v as i64) } else { GgufValueView::F64(v) },
                p,
            )),
        }
    } else if t == 8 {
        match read_string_at(d, fl, pos) {
            Err(e) => Err(e),
            Ok((s, p)) => Ok((GgufValueView::Str(s), p)),
        }
    } else {
        Err(GgufError::UnknownValueType(t))
    }
}

/// Byte size of one array element of a fixed-size type.
pub open spec fn element_size(t: u32) -> Option<int> {
    if t == 0 || t == 1 || t == 7 {
        Some(1)
    } else if t == 2 || t == 3 {
        Some(2)
    } else if t == 4 || t == 5 || t == 6 {
        Some(4)
    } else if t == 10 || t == 11 || t == 12 {
        Some(8)
    } else {
        None
    }
}

/// The largest position the reader can be at.
pub open spec fn pos_bound(d: Seq<u8>) -> int {
    if d.len() > MAX_OFFSET { d.len() as int } else { MAX_OFFSET as int }
}

/// Skips an array value: element type, element count, then the elements.
/// Fixed-size elements are skipped by seeking; strings and nested arrays are
/// read through.
pub open spec fn skip_array_at(d: Seq<u8>, fl: int, pos: int) -> Result<int, GgufError>
    decreases pos_bound(d) - pos, 0int,
{
    match read_u32_at(d, fl, pos) {
        Err(e) => Err(e),
        Ok((et, p1)) => match read_u64_at(d, fl, p1) {
            Err(e) => Err(e),
            Ok((count, p2)) => match element_size(et) {
                Some(sz) => if count * sz > MAX_OFFSET || p2 + count * sz > MAX_OFFSET {
                    Err(GgufError::SeekOutOfRange)
                } else {
                    Ok(p2 + count * sz)
                },
                None => skip_elements_at(d, fl, et, count as int, p2),
            },
        },
    }
}

/// Skips `count` variable-size array elements of type `et` starting at `pos`.
pub open spec fn skip_elements_at(d: Seq<u8>, fl: int, et: u32, count: int, pos: int) -> Result<int, GgufError>
    decreases pos_bound(d) - pos, count,
{
    if count <= 0 {
        Ok(pos)
    } else if et == 8 {
        match read_string_at(d, fl, pos) {
            Err(e) => Err(e),
            Ok((_, p)) => if pos <= p <= pos_bound(d) {
                skip_elements_at(d, fl, et, count - 1, p)
            } else {
                Err(GgufError::SeekOutOfRange)
            },
        }
    } else if et == 9 {
        match skip_array_at(d, fl, pos) {
            Err(e) => Err(e),
            Ok(p) => if pos <= p <= pos_bound(d) {
                skip_elements_at(d, fl, et, count - 1, p)
            } else {
                Err(GgufError::SeekOutOfRange)
            },
        }
    } else {
        Err(GgufError::CannotSkipArray(et))
    }
}

/// What reading one key/value entry at `pos` does.
pub enum EntryStep {
    /// An array value was skipped; reading goes on at the position given.
    Skipped(int),
    /// A value was read for the key; reading goes on at the position given.
    Stored(Seq<char>, GgufValueView, int),
    /// The value could not be read: the metadata ends here.
    Stopped,
}

/// One key/value entry: errors while reading the key, the type code or an
/// array propagate; an error while reading a value ends the metadata there,
/// except running out of the bytes given.
pub open spec fn entry_at(d: Seq<u8>, fl: int, pos: int) -> Result<EntryStep, GgufError> {
    match read_string_at(d, fl, pos) {
        Err(e) => Err(e),
        Ok((key, p1)) => match read_u32_at(d, fl, p1) {
            Err(e) => Err(e),
            Ok((vt, p2)) => if vt == 9 {
                match skip_array_at(d, fl, p2) {
                    Err(e) => Err(e),
                    Ok(p3) => Ok(EntryStep::Skipped(p3)),
                }
            } else {
                match read_value_at(d, fl, p2, vt) {
                    Err(GgufError::NeedMoreBytes) => Err(GgufError::NeedMoreBytes),
                    Err(_) => Ok(EntryStep::Stopped),
                    Ok((v, p3)) => Ok(EntryStep::Stored(key, v, p3)),
                }
            },
        },
    }
}

/// Reads `remaining` key/value entries into `acc`.
pub open spec fn parse_entries_at(
    d: Seq<u8>,
    fl: int,
    pos: int,
    remaining: nat,
    acc: Map<Seq<char>, GgufValueView>,
) -> Result<Map<Seq<char>, GgufValueView>, GgufError>
    decreases remaining,
{
    if remaining == 0 {
        Ok(acc)
    } else {
        match entry_at(d, fl, pos) {
            Err(e) => Err(e),
            Ok(EntryStep::Skipped(p)) => parse_entries_at(d, fl, p, (remaining - 1) as nat, acc),
            Ok(EntryStep::Stopped) => Ok(acc),
            Ok(EntryStep::Stored(k, v, p)) => parse_entries_at(d, fl, p, (remaining - 1) as nat, acc.insert(k, v)),
        }
    }
}

/// The metadata of a GGUF file of length `fl` whose leading bytes are `d`.
pub open spec fn gguf_metadata_of(d: Seq<u8>, fl: int) -> Result<GgufMetadataView, GgufError> {
    match read_u32_at(d, fl, 0) {
        Err(e) => Err(e),
        Ok((magic, p1)) => if magic != GGUF_MAGIC {
            Err(GgufError::BadMagic(magic))
        } else {
            match read_u32_at(d, fl, p1) {
                Err(e) => Err(e),
                Ok((version, p2)) => if version < 2 || version > 3 {
                    Err(GgufError::UnsupportedVersion(version))
                } else {
                    match read_u64_at(d, fl, p2) {
                        Err(e) => Err(e),
                        Ok((tensor_count, p3)) => match read_u64_at(d, fl, p3) {
                            Err(e) => Err(e),
                            Ok((kv_count, p4)) => if kv_count > MAX_METADATA_ENTRIES {
                                Err(GgufError::TooManyEntries(kv_count))
                            } else {
                                match parse_entries_at(d, fl, p4, kv_count as nat, Map::empty()) {
                                    Err(e) => Err(e),
                                    Ok(m) => Ok(GgufMetadataView { entries: m, tensor_count }),
                                }
                            },
                        },
                    }
                }
            }
        },
    }
}

// ---------------------------------------------------------------------------
// Executable reader
// ---------------------------------------------------------------------------

/// Checks that `n` bytes at `pos` are available; gives the position after them.
fn take_bytes(d: &[u8], fl: u64, pos: u64, n: u64) -> (r: Result<u64, GgufError>)
    ensures
        match read_at(d@, fl as int, pos as int, n as int) {
            Ok(_) => r == Ok::<u64, GgufError>((pos + n) as u64),
            Err(e) => r == Err::<u64, GgufError>(e),
        },
{
    if pos <= d.len() as u64 && n <= d.len() as u64 - pos {
        Ok(pos + n)
    } else {
        match pos.checked_add(n) {
            Some(end) => if end <= fl { Err(GgufError::NeedMoreBytes) } else { Err(GgufError::UnexpectedEof) },
            None => Err(GgufError::UnexpectedEof),
        }
    }
}

fn read_u8(d: &[u8], fl: u64, pos: u64) -> (r: Result<(u8, u64), GgufError>)
    ensures
        match read_u8_at(d@, fl as int, pos as int) {
            Ok((v, p)) => r == Ok::<(u8, u64), GgufError>((v, p as u64)) && p <= d.len(),
            Err(e) => r == Err::<(u8, u64), GgufError>(e),
        },
{
    let p = take_bytes(d, fl, pos, 1)?;
    let v = d[pos as usize];
    Ok((v, p))
}

fn read_u16(d: &[u8], fl: u64, pos: u64) -> (r: Result<(u16, u64), GgufError>)
    ensures
        match read_u16_at(d@, fl as int, pos as int) {
            Ok((v, p)) => r == Ok::<(u16, u64), GgufError>((v, p as u64)) && p <= d.len(),
            Err(e) => r == Err::<(u16, u64), GgufError>(e),
        },
{
    let p = take_bytes(d, fl, pos, 2)?;
    let i = pos as usize;
    let v: u16 = d[i] as u16 + 256 * (d[i + 1] as u16);
    assert(d@.subrange(pos as int, pos + 2)[1] == d@[i + 1]);
    Ok((v, p))
}

fn read_u32(d: &[u8], fl: u64, pos: u64) -> (r: Result<(u32, u64), GgufError>)
    ensures
        match read_u32_at(d@, fl as int, pos as int) {
            Ok((v, p)) => r == Ok::<(u32, u64), GgufError>((v, p as u64)) && p <= d.len(),
            Err(e) => r == Err::<(u32, u64), GgufError>(e),
        },
{
    let p = take_bytes(d, fl, pos, 4)?;
    let i = pos as usize;
    let v: u32 = d[i] as u32 + 256 * (d[i + 1] as u32) + 65536 * (d[i + 2] as u32)
        + 16777216 * (d[i + 3] as u32);
    proof {
        let b = d@.subrange(pos as int, pos + 4);
        assert(b[0] == d@[i as int] && b[1] == d@[i + 1] && b[2] == d@[i + 2] && b[3] == d@[i + 3]);
    }
    Ok((v, p))
}

fn read_u64(d: &[u8], fl: u64, pos: u64) -> (r: Result<(u64, u64), GgufError>)
    ensures
        match read_u64_at(d@, fl as int, pos as int) {
            Ok((v, p)) => r == Ok::<(u64, u64), GgufError>((v, p as u64)) && p <= d.len(),
            Err(e) => r == Err::<(u64, u64), GgufError>(e),
        },
{
    let p = take_bytes(d, fl, pos, 8)?;
    let i = pos as usize;
    let v: u64 = d[i] as u64 + 256 * (d[i + 1] as u64) + 65536 * (d[i + 2] as u64)
        + 16777216 * (d[i + 3] as u64) + 0x1_0000_0000 * (d[i + 4] as u64)
        + 0x100_0000_0000 * (d[i + 5] as u64) + 0x1_0000_0000_0000 * (d[i + 6] as u64)
        + 0x100_0000_0000_0000 * (d[i + 7] as u64);
    proof {
        let b = d@.subrange(pos as int, pos + 8);
        assert(b[0] == d@[i as int] && b[1] == d@[i + 1] && b[2] == d@[i + 2] && b[3] == d@[i + 3]);
        assert(b[4] == d@[i + 4] && b[5] == d@[i + 5] && b[6] == d@[i + 6] && b[7] == d@[i + 7]);
    }
    Ok((v, p))
}

fn read_string(d: &[u8], fl: u64, pos: u64) -> (r: Result<(String, u64), GgufError>)
    ensures
        match read_string_at(d@, fl as int, pos as int) {
            Ok((s, p)) => r matches Ok((x, q)) && x@ == s && q == p && pos + 8 <= p <= d.len(),
            Err(e) => r == Err::<(String, u64), GgufError>(e),
        },
{
    let (len, p) = read_u64(d, fl, pos)?;
    if len > MAX_STRING_LEN {
        return Err(GgufError::StringTooLong(len));
    }
    let q = take_bytes(d, fl, p, len)?;
    let bytes = d.split_at(p as usize).1.split_at(len as usize).0;
    assert(bytes@ == d@.subrange(p as int, p + len));
    Ok((text::lossy_string(bytes), q))
}

fn read_value(d: &[u8], fl: u64, pos: u64, t: u32) -> (r: Result<(GgufValue, u64), GgufError>)
    ensures
        match read_value_at(d@, fl as int, pos as int, t) {
            Ok((v, p)) => r matches Ok((x, q)) && x@ == v && q == p && p <= d.len(),
            Err(e) => r matches Err(e2) && e2 == e,
        },
{
    if t == 0 || t == 1 || t == 7 {
        let (v, p) = read_u8(d, fl, pos)?;
        let x = if t == 0 { GgufValue::U8(v) } else if t == 1 { GgufValue::I8(v as i8) } else { GgufValue::Bool(v != 0) };
        Ok((x, p))
    } else if t == 2 || t == 3 {
        let (v, p) = read_u16(d, fl, pos)?;
        let x = if t == 2 { GgufValue::U16(v) } else { GgufValue::I16(v as i16) };
        Ok((x, p))
    } else if t == 4 || t == 5 || t == 6 {
        let (v, p) = read_u32(d, fl, pos)?;
        let x = if t == 4 { GgufValue::U32(v) } else if t == 5 { GgufValue::I32(v as i32) } else { GgufValue::F32(v) };
        Ok((x, p))
    } else if t == 10 || t == 11 || t == 12 {
        let (v, p) = read_u64(d, fl, pos)?;
        let x = if t == 10 { GgufValue::U64(v) } else if t == 11 { GgufValue::I64(v as i64) } else { GgufValue::F64(v) };
        Ok((x, p))
    } else if t == 8 {
        let (s, p) = read_string(d, fl, pos)?;
        Ok((GgufValue::Str(s), p))
    } else {
        Err(GgufError::UnknownValueType(t))
    }
}

fn fixed_element_size(t: u32) -> (r: Option<u64>)
    ensures
        match element_size(t) {
            Some(sz) => r == Some(sz as u64),
            None => r is None,
        },
{
    if t == 0 || t == 1 || t == 7 {
        Some(1)
    } else if t == 2 || t == 3 {
        Some(2)
    } else if t == 4 || t == 5 || t == 6 {
        Some(4)
    } else if t == 10 || t == 11 || t == 12 {
        Some(8)
    } else {
        None
    }
}

proof fn lemma_pos_bound_fits(d: &[u8])
    ensures
        d@.len() <= pos_bound(d@) <= u64::MAX,
{
    assert(d@.len() == d.len() as int);
}

fn skip_array(d: &[u8], fl: u64, pos: u64) -> (r: Result<u64, GgufError>)
    requires
        pos <= pos_bound(d@),
    ensures
        match skip_array_at(d@, fl as int, pos as int) {
            Ok(p) => r == Ok::<u64, GgufError>(p as u64) && pos < p <= pos_bound(d@),
            Err(e) => r == Err::<u64, GgufError>(e),
        },
    decreases pos_bound(d@) - pos, 0int,
{
    let (et, p1) = read_u32(d, fl, pos)?;
    let (count, p2) = read_u64(d, fl, p1)?;
    match fixed_element_size(et) {
        Some(sz) => {
            match count.checked_mul(sz) {
                None => Err(GgufError::SeekOutOfRange),
                Some(off) => if off > MAX_OFFSET || p2 > MAX_OFFSET - off {
                    Err(GgufError::SeekOutOfRange)
                } else {
                    Ok(p2 + off)
                },
            }
        },
        None => skip_elements(d, fl, et, count, p2),
    }
}

fn skip_elements(d: &[u8], fl: u64, et: u32, count: u64, pos: u64) -> (r: Result<u64, GgufError>)
    requires
        pos <= pos_bound(d@),
    ensures
        match skip_elements_at(d@, fl as int, et, count as int, pos as int) {
            Ok(p) => r == Ok::<u64, GgufError>(p as u64) && pos <= p <= pos_bound(d@),
            Err(e) => r == Err::<u64, GgufError>(e),
        },
    decreases pos_bound(d@) - pos, count,
{
    let mut k: u64 = 0;
    let mut q: u64 = pos;
    while k < count
        invariant
            k <= count,
            pos <= q <= pos_bound(d@),
            skip_elements_at(d@, fl as int, et, count as int, pos as int)
                == skip_elements_at(d@, fl as int, et, (count - k) as int, q as int),
        decreases count - k,
    {
        if et == 8 {
            let (_, p) = read_string(d, fl, q)?;
            assert(skip_elements_at(d@, fl as int, et, (count - k) as int, q as int)
                == skip_elements_at(d@, fl as int, et, (count - k - 1) as int, p as int));
            q = p;
        } else if et == 9 {
            let p = skip_array(d, fl, q)?;
            proof { lemma_pos_bound_fits(d); }
            assert(skip_elements_at(d@, fl as int, et, (count - k) as int, q as int)
                == skip_elements_at(d@, fl as int, et, (count - k - 1) as int, p as int));
            q = p;
        } else {
            return Err(GgufError::CannotSkipArray(et));
        }
        k += 1;
    }
    Ok(q)
}

/// The outcome of reading one entry.
enum Entry {
    Skipped(u64),
    Stored(String, GgufValue, u64),
    Stopped,
}

fn read_entry(d: &[u8], fl: u64, pos: u64) -> (r: Result<Entry, GgufError>)
    requires
        pos <= pos_bound(d@),
    ensures
        match entry_at(d@, fl as int, pos as int) {
            Err(e) => r matches Err(e2) && e2 == e,
            Ok(EntryStep::Skipped(p)) => r matches Ok(Entry::Skipped(q)) && q == p && q <= pos_bound(d@),
            Ok(EntryStep::Stopped) => r matches Ok(Entry::Stopped),
            Ok(EntryStep::Stored(k, v, p)) => r matches Ok(Entry::Stored(kk, vv, q))
                && kk@ == k && vv@ == v && q == p && q <= pos_bound(d@),
        },
{
    proof { lemma_pos_bound_fits(d); }
    let (key, q1) = read_string(d, fl, pos)?;
    let (vt, q2) = read_u32(d, fl, q1)?;
    if vt == 9 {
        let q3 = skip_array(d, fl, q2)?;
        Ok(Entry::Skipped(q3))
    } else {
        match read_value(d, fl, q2, vt) {
            Err(GgufError::NeedMoreBytes) => Err(GgufError::NeedMoreBytes),
            Err(_) => Ok(Entry::Stopped),
            Ok((v, q3)) => Ok(Entry::Stored(key, v, q3)),
        }
    }
}

/// Reads `count` entries starting at `start`.
fn parse_entries(data: &[u8], file_len: u64, start: u64, count: u64) -> (r: Result<Vec<(String, GgufValue)>, GgufError>)
    requires
        start <= pos_bound(data@),
    ensures
        match parse_entries_at(data@, file_len as int, start as int, count as nat, Map::empty()) {
            Ok(m) => r matches Ok(v) && entry_map(v@) == m,
            Err(e) => r matches Err(e2) && e2 == e,
        },
{
    let ghost d = data@;
    let ghost fl = file_len as int;
    let ghost whole = parse_entries_at(d, fl, start as int, count as nat, Map::empty());
    let mut entries: Vec<(String, GgufValue)> = Vec::new();
    let mut k: u64 = 0;
    let mut pos: u64 = start;
    let mut stopped = false;
    while k < count && !stopped
        invariant
            k <= count,
            d == data@,
            fl == file_len as int,
            pos <= pos_bound(d),
            whole == parse_entries_at(d, fl, start as int, count as nat, Map::empty()),
            stopped ==> whole == Ok::<Map<Seq<char>, GgufValueView>, GgufError>(entry_map(entries@)),
            !stopped ==> whole == parse_entries_at(d, fl, pos as int, (count - k) as nat, entry_map(entries@)),
        decreases count - k,
    {
        match read_entry(data, file_len, pos) {
            Err(e) => {
                return Err(e);
            },
            Ok(Entry::Skipped(q)) => {
                pos = q;
            },
            Ok(Entry::Stopped) => {
                stopped = true;
            },
            Ok(Entry::Stored(key, v, q)) => {
                let ghost before = entries@;
                entries.push((key, v));
                assert(entries@.drop_last() == before);
                pos = q;
            },
        }
        k += 1;
    }
    Ok(entries)
}

/// Parses the metadata header of a GGUF file of length `file_len` whose
/// leading bytes are `data`.
pub fn parse_gguf_metadata(data: &[u8], file_len: u64) -> (r: Result<GgufMetadata, GgufError>)
    ensures
        match gguf_metadata_of(data@, file_len as int) {
            Ok(m) => r matches Ok(x) && x@ == m,
            Err(e) => r matches Err(e2) && e2 == e,
        },
{
    let (magic, p1) = read_u32(data, file_len, 0)?;
    if magic != GGUF_MAGIC {
        return Err(GgufError::BadMagic(magic));
    }
    let (version, p2) = read_u32(data, file_len, p1)?;
    if version < 2 || version > 3 {
        return Err(GgufError::UnsupportedVersion(version));
    }
    let (tensor_count, p3) = read_u64(data, file_len, p2)?;
    let (kv_count, p4) = read_u64(data, file_len, p3)?;
    if kv_count > MAX_METADATA_ENTRIES {
        return Err(GgufError::TooManyEntries(kv_count));
    }
    let entries = parse_entries(data, file_len, p4, kv_count)?;
    Ok(GgufMetadata { entries, tensor_count })
}

/// With no later entry for `k`, the entry at `i` gives `k`'s value.
proof fn lemma_entry_map_last(s: Seq<(String, GgufValue)>, k: Seq<char>, i: int)
    requires
        0 <= i < s.len(),
        s[i].0@ == k,
        forall|j: int| i < j < s.len() ==> (#[trigger] s[j]).0@ != k,
    ensures
        entry_map(s).dom().contains(k),
        entry_map(s)[k] == s[i].1@,
    decreases s.len(),
{
    if i < s.len() - 1 {
        lemma_entry_map_last(s.drop_last(), k, i);
        assert(s[s.len() - 1].0@ != k);
    }
}

/// A key that no entry has is not in the map.
proof fn lemma_entry_map_absent(s: Seq<(String, GgufValue)>, k: Seq<char>)
    requires
        forall|j: int| 0 <= j < s.len() ==> (#[trigger] s[j]).0@ != k,
    ensures
        !entry_map(s).dom().contains(k),
    decreases s.len(),
{
    if s.len() > 0 {
        lemma_entry_map_absent(s.drop_last(), k);
        assert(s[s.len() - 1].0@ != k);
    }
}

impl GgufMetadataView {
    /// The value of `key`, if the header has one.
    pub open spec fn lookup(self, key: Seq<char>) -> Option<GgufValueView> {
        if self.entries.dom().contains(key) { Some(self.entries[key]) } else { None }
    }
}

/// An integer value read as `u32`: wider and signed values are truncated as `as` does.
pub open spec fn as_u32(v: Option<GgufValueView>) -> Option<u32> {
    match v {
        Some(GgufValueView::U32(x)) => Some(x),
        Some(GgufValueView::I32(x)) => Some(x as u32),
        Some(GgufValueView::U64(x)) => Some(x as u32),
        Some(GgufValueView::I64(x)) => Some(x as u32),
        _ => None,
    }
}

/// An integer value read as `u64`: signed values are converted as `as` does.
pub open spec fn as_u64(v: Option<GgufValueView>) -> Option<u64> {
    match v {
        Some(GgufValueView::U64(x)) => Some(x),
        Some(GgufValueView::I64(x)) => Some(x as u64),
        Some(GgufValueView::U32(x)) => Some(x as u64),
        Some(GgufValueView::I32(x)) => Some(x as u64),
        _ => None,
    }
}

impl GgufMetadata {
    /// Index of the entry that holds `key`'s value (the last entry with that key).
    fn find(&self, key: &str) -> (r: Option<usize>)
        ensures
            match r {
                Some(i) => i < self.entries.len() && self@.lookup(key@) == Some(self.entries@[i as int].1@),
                None => self@.lookup(key@) is None,
            },
    {
        let mut j: usize = self.entries.len();
        while j > 0
            invariant
                j <= self.entries.len(),
                forall|m: int| j <= m < self.entries.len() ==> (#[trigger] self.entries@[m]).0@ != key@,
            decreases j,
        {
            j -= 1;
            if text::str_eq(self.entries[j].0.as_str(), key) {
                proof { lemma_entry_map_last(self.entries@, key@, j as int); }
                return Some(j);
            }
        }
        proof { lemma_entry_map_absent(self.entries@, key@); }
        None
    }

    /// The string value of `key`.
    pub fn get_str(&self, key: &str) -> (r: Option<&str>)
        ensures
            match self@.lookup(key@) {
                Some(GgufValueView::Str(s)) => r matches Some(x) && x@ == s,
                _ => r is None,
            },
    {
        match self.find(key) {
            None => None,
            Some(i) => match &self.entries[i].1 {
                GgufValue::Str(s) => Some(s.as_str()),
                _ => None,
            },
        }
    }

    /// The value of `key` as a `u32`, for the integer types that carry one.
    pub fn get_u32(&self, key: &str) -> (r: Option<u32>)
        ensures
            r == as_u32(self@.lookup(key@)),
    {
        match self.find(key) {
            None => None,
            Some(i) => match &self.entries[i].1 {
                GgufValue::U32(v) => Some(*v),
                GgufValue::I32(v) => Some(*v as u32),
                GgufValue::U64(v) => Some(*v as u32),
                GgufValue::I64(v) => Some(*v as u32),
                _ => None,
            },
        }
    }

    /// The value of `key` as a `u64`, for the integer types that carry one.
    pub fn get_u64(&self, key: &str) -> (r: Option<u64>)
        ensures
            r == as_u64(self@.lookup(key@)),
    {
        match self.find(key) {
            None => None,
            Some(i) => match &self.entries[i].1 {
                GgufValue::U64(v) => Some(*v),
                GgufValue::I64(v) => Some(*v as u64),
                GgufValue::U32(v) => Some(*v as u64),
                GgufValue::I32(v) => Some(*v as u64),
                _ => None,
            },
        }
    }

    /// The bits of the `f32` value of `key`.
    pub fn get_f32(&self, key: &str) -> (r: Option<u32>)
        ensures
            match self@.lookup(key@) {
                Some(GgufValueView::F32(b)) => r == Some(b),
                _ => r is None,
            },
    {
        match self.find(key) {
            None => None,
            Some(i) => match &self.entries[i].1 {
                GgufValue::F32(v) => Some(*v),
                _ => None,
            },
        }
    }
}

// ---------------------------------------------------------------------------
// Longer prefixes of a file
// ---------------------------------------------------------------------------

/// `e` is `d` followed by more bytes of the same file of length `fl`.
pub open spec fn extends(d: Seq<u8>, e: Seq<u8>, fl: int) -> bool {
    &&& d.len() <= e.len() <= fl
    &&& e.len() <= MAX_OFFSET
    &&& e.take(d.len() as int) == d
}

proof fn lemma_read_at_prefix(d: Seq<u8>, e: Seq<u8>, fl: int, pos: int, n: int)
    requires
        extends(d, e, fl),
        pos >= 0,
        n >= 0,
    ensures
        read_at(d, fl, pos, n) != Err::<Seq<u8>, GgufError>(GgufError::NeedMoreBytes)
            ==> read_at(e, fl, pos, n) == read_at(d, fl, pos, n),
        d.len() == fl ==> read_at(d, fl, pos, n) != Err::<Seq<u8>, GgufError>(GgufError::NeedMoreBytes),
{
    if pos + n <= d.len() {
        assert forall|i: int| 0 <= i < n implies #[trigger] e.subrange(pos, pos + n)[i] == d.subrange(pos, pos + n)[i] by {
            assert(e.take(d.len() as int)[pos + i] == e[pos + i]);
        }
        assert(e.subrange(pos, pos + n) =~= d.subrange(pos, pos + n));
    }
}

proof fn lemma_uints_prefix(d: Seq<u8>, e: Seq<u8>, fl: int, pos: int)
    requires
        extends(d, e, fl),
        pos >= 0,
    ensures
        read_u8_at(d, fl, pos) != Err::<(u8, int), GgufError>(GgufError::NeedMoreBytes)
            ==> read_u8_at(e, fl, pos) == read_u8_at(d, fl, pos),
        read_u16_at(d, fl, pos) != Err::<(u16, int), GgufError>(GgufError::NeedMoreBytes)
            ==> read_u16_at(e, fl, pos) == read_u16_at(d, fl, pos),
        read_u32_at(d, fl, pos) != Err::<(u32, int), GgufError>(GgufError::NeedMoreBytes)
            ==> read_u32_at(e, fl, pos) == read_u32_at(d, fl, pos),
        read_u64_at(d, fl, pos) != Err::<(u64, int), GgufError>(GgufError::NeedMoreBytes)
            ==> read_u64_at(e, fl, pos) == read_u64_at(d, fl, pos),
        d.len() == fl ==> read_u8_at(d, fl, pos) != Err::<(u8, int), GgufError>(GgufError::NeedMoreBytes),
        d.len() == fl ==> read_u16_at(d, fl, pos) != Err::<(u16, int), GgufError>(GgufError::NeedMoreBytes),
        d.len() == fl ==> read_u32_at(d, fl, pos) != Err::<(u32, int), GgufError>(GgufError::NeedMoreBytes),
        d.len() == fl ==> read_u64_at(d, fl, pos) != Err::<(u64, int), GgufError>(GgufError::NeedMoreBytes),
{
    lemma_read_at_prefix(d, e, fl, pos, 1);
    lemma_read_at_prefix(d, e, fl, pos, 2);
    lemma_read_at_prefix(d, e, fl, pos, 4);
    lemma_read_at_prefix(d, e, fl, pos, 8);
}

proof fn lemma_string_prefix(d: Seq<u8>, e: Seq<u8>, fl: int, pos: int)
    requires
        extends(d, e, fl),
        pos >= 0,
    ensures
        read_string_at(d, fl, pos) != Err::<(Seq<char>, int), GgufError>(GgufError::NeedMoreBytes)
            ==> read_string_at(e, fl, pos) == read_string_at(d, fl, pos),
        d.len() == fl ==> read_string_at(d, fl, pos) != Err::<(Seq<char>, int), GgufError>(GgufError::NeedMoreBytes),
        read_string_at(d, fl, pos) matches Ok((_, p)) ==> p >= pos,
{
    lemma_uints_prefix(d, e, fl, pos);
    if let Ok((len, p)) = read_u64_at(d, fl, pos) {
        lemma_read_at_prefix(d, e, fl, p, len as int);
    }
}

proof fn lemma_value_prefix(d: Seq<u8>, e: Seq<u8>, fl: int, pos: int, t: u32)
    requires
        extends(d, e, fl),
        pos >= 0,
    ensures
        read_value_at(d, fl, pos, t) != Err::<(GgufValueView, int), GgufError>(GgufError::NeedMoreBytes)
            ==> read_value_at(e, fl, pos, t) == read_value_at(d, fl, pos, t),
        d.len() == fl ==> read_value_at(d, fl, pos, t) != Err::<(GgufValueView, int), GgufError>(GgufError::NeedMoreBytes),
        read_value_at(d, fl, pos, t) matches Ok((_, p)) ==> p >= pos,
{
    lemma_uints_prefix(d, e, fl, pos);
    lemma_string_prefix(d, e, fl, pos);
}

proof fn lemma_skip_array_prefix(d: Seq<u8>, e: Seq<u8>, fl: int, pos: int)
    requires
        extends(d, e, fl),
        pos >= 0,
    ensures
        skip_array_at(d, fl, pos) != Err::<int, GgufError>(GgufError::NeedMoreBytes)
            ==> skip_array_at(e, fl, pos) == skip_array_at(d, fl, pos),
        d.len() == fl ==> skip_array_at(d, fl, pos) != Err::<int, GgufError>(GgufError::NeedMoreBytes),
        skip_array_at(d, fl, pos) matches Ok(p) ==> p >= pos,
    decreases pos_bound(d) - pos, 0int,
{
    lemma_uints_prefix(d, e, fl, pos);
    if let Ok((et, p1)) = read_u32_at(d, fl, pos) {
        lemma_uints_prefix(d, e, fl, p1);
        if let Ok((count, p2)) = read_u64_at(d, fl, p1) {
            if element_size(et) is None {
                lemma_skip_elements_prefix(d, e, fl, et, count as int, p2);
            }
        }
    }
}

proof fn lemma_skip_elements_prefix(d: Seq<u8>, e: Seq<u8>, fl: int, et: u32, count: int, pos: int)
    requires
        extends(d, e, fl),
        pos >= 0,
    ensures
        skip_elements_at(d, fl, et, count, pos) != Err::<int, GgufError>(GgufError::NeedMoreBytes)
            ==> skip_elements_at(e, fl, et, count, pos) == skip_elements_at(d, fl, et, count, pos),
        d.len() == fl ==> skip_elements_at(d, fl, et, count, pos) != Err::<int, GgufError>(GgufError::NeedMoreBytes),
        skip_elements_at(d, fl, et, count, pos) matches Ok(p) ==> p >= pos,
    decreases pos_bound(d) - pos, count,
{
    assert(pos_bound(d) == pos_bound(e));
    if count > 0 {
        if et == 8 {
            lemma_string_prefix(d, e, fl, pos);
            if let Ok((_, p)) = read_string_at(d, fl, pos) {
                if pos <= p <= pos_bound(d) {
                    lemma_skip_elements_prefix(d, e, fl, et, count - 1, p);
                }
            }
        } else if et == 9 {
            lemma_skip_array_prefix(d, e, fl, pos);
            if let Ok(p) = skip_array_at(d, fl, pos) {
                if pos <= p <= pos_bound(d) {
                    lemma_skip_elements_prefix(d, e, fl, et, count - 1, p);
                }
            }
        }
    }
}

proof fn lemma_entry_prefix(d: Seq<u8>, e: Seq<u8>, fl: int, pos: int)
    requires
        extends(d, e, fl),
        pos >= 0,
    ensures
        entry_at(d, fl, pos) != Err::<EntryStep, GgufError>(GgufError::NeedMoreBytes)
            ==> entry_at(e, fl, pos) == entry_at(d, fl, pos),
        d.len() == fl ==> entry_at(d, fl, pos) != Err::<EntryStep, GgufError>(GgufError::NeedMoreBytes),
        entry_at(d, fl, pos) matches Ok(EntryStep::Skipped(p)) ==> p >= 0,
        entry_at(d, fl, pos) matches Ok(EntryStep::Stored(_, _, p)) ==> p >= 0,
{
    lemma_string_prefix(d, e, fl, pos);
    if let Ok((key, p1)) = read_string_at(d, fl, pos) {
        lemma_uints_prefix(d, e, fl, p1);
        if let Ok((vt, p2)) = read_u32_at(d, fl, p1) {
            lemma_skip_array_prefix(d, e, fl, p2);
            lemma_value_prefix(d, e, fl, p2, vt);
        }
    }
}

proof fn lemma_entries_prefix(
    d: Seq<u8>,
    e: Seq<u8>,
    fl: int,
    pos: int,
    remaining: nat,
    acc: Map<Seq<char>, GgufValueView>,
)
    requires
        extends(d, e, fl),
        pos >= 0,
    ensures
        parse_entries_at(d, fl, pos, remaining, acc) != Err::<Map<Seq<char>, GgufValueView>, GgufError>(GgufError::NeedMoreBytes)
            ==> parse_entries_at(e, fl, pos, remaining, acc) == parse_entries_at(d, fl, pos, remaining, acc),
        d.len() == fl ==> parse_entries_at(d, fl, pos, remaining, acc)
            != Err::<Map<Seq<char>, GgufValueView>, GgufError>(GgufError::NeedMoreBytes),
    decreases remaining,
{
    if remaining > 0 {
        lemma_entry_prefix(d, e, fl, pos);
        match entry_at(d, fl, pos) {
            Ok(EntryStep::Skipped(p)) => {
                lemma_entries_prefix(d, e, fl, p, (remaining - 1) as nat, acc);
            },
            Ok(EntryStep::Stored(k, v, p)) => {
                lemma_entries_prefix(d, e, fl, p, (remaining - 1) as nat, acc.insert(k, v));
            },
            _ => {},
        }
    }
}

/// Reading a header from more leading bytes of the same file gives the
/// same answer, unless the fewer bytes ended too early (`NeedMoreBytes`):
/// so a caller may start with a short prefix and grow it only when asked.
pub proof fn law_longer_prefix_agrees(d: Seq<u8>, e: Seq<u8>, fl: int)
    requires
        d.len() <= e.len() <= fl,
        e.len() <= MAX_OFFSET,
        e.take(d.len() as int) == d,
        gguf_metadata_of(d, fl) != Err::<GgufMetadataView, GgufError>(GgufError::NeedMoreBytes),
    ensures
        gguf_metadata_of(e, fl) == gguf_metadata_of(d, fl),
{
    lemma_uints_prefix(d, e, fl, 0);
    if let Ok((_, p1)) = read_u32_at(d, fl, 0) {
        lemma_uints_prefix(d, e, fl, p1);
        if let Ok((_, p2)) = read_u32_at(d, fl, p1) {
            lemma_uints_prefix(d, e, fl, p2);
            if let Ok((_, p3)) = read_u64_at(d, fl, p2) {
                lemma_uints_prefix(d, e, fl, p3);
                if let Ok((kv, p4)) = read_u64_at(d, fl, p3) {
                    lemma_entries_prefix(d, e, fl, p4, kv as nat, Map::empty());
                }
            }
        }
    }
}

/// Given the whole file, the reader never asks for more bytes.
pub proof fn law_whole_file_is_enough(d: Seq<u8>)
    requires
        d.len() <= MAX_OFFSET,
    ensures
        gguf_metadata_of(d, d.len() as int) != Err::<GgufMetadataView, GgufError>(GgufError::NeedMoreBytes),
{
    let fl = d.len() as int;
    assert(d.take(d.len() as int) == d);
    lemma_uints_prefix(d, d, fl, 0);
    if let Ok((_, p1)) = read_u32_at(d, fl, 0) {
        lemma_uints_prefix(d, d, fl, p1);
        if let Ok((_, p2)) = read_u32_at(d, fl, p1) {
            lemma_uints_prefix(d, d, fl, p2);
            if let Ok((_, p3)) = read_u64_at(d, fl, p2) {
                lemma_uints_prefix(d, d, fl, p3);
                if let Ok((kv, p4)) = read_u64_at(d, fl, p3) {
                    lemma_entries_prefix(d, d, fl, p4, kv as nat, Map::empty());
                }
            }
        }
    }
}

/// How many bytes a value of this kind takes in a GGUF file (`None` for
/// strings, whose length is stored with them).
pub open spec fn encoded_width(v: GgufValueView) -> Option<int> {
    match v {
        GgufValueView::U8(_) | GgufValueView::I8(_) | GgufValueView::Bool(_) => Some(1),
        GgufValueView::U16(_) | GgufValueView::I16(_) => Some(2),
        GgufValueView::U32(_) | GgufValueView::I32(_) | GgufValueView::F32(_) => Some(4),
        GgufValueView::U64(_) | GgufValueView::I64(_) | GgufValueView::F64(_) => Some(8),
        GgufValueView::Str(_) => None,
    }
}

/// Skipping an array element moves exactly as far as reading one value of
/// the element type does. Every type code but strings (8) and arrays (9)
/// has a fixed element size; for those, reading a value succeeds exactly
/// when that many bytes are there, moves the position by that many bytes,
/// and gives a value of that width.
pub proof fn law_array_skip_matches_value_size(d: Seq<u8>, fl: int, pos: int, t: u32)
    ensures
        element_size(t) is Some <==> (t <= 12 && t != 8 && t != 9),
        element_size(t) matches Some(n) ==> {
            &&& (read_value_at(d, fl, pos, t) is Ok <==> pos + n <= d.len())
            &&& (read_value_at(d, fl, pos, t) matches Ok((v, p)) ==> p == pos + n && encoded_width(v) == Some(n))
        },
{
}

} // verus!
