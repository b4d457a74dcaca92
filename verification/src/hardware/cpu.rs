//! The CPU: brand, core counts and the Apple chip variant.
use vstd::prelude::*;
use crate::text;
use crate::text::{seq_contains, str_lower, trim_ws, utf8_lossy, parse_u32_spec};

verus! {

/// The CPU as the dashboard shows it.
pub struct CpuInfo {
    pub brand: String,
    pub total_cores: u32,
    pub performance_cores: u32,
    pub efficiency_cores: u32,
    pub chip_variant: String,
}

/// The raw output of the `sysctl -n` queries for the CPU; `None` where the
/// command could not be run.
pub struct CpuReadings {
    /// `machdep.cpu.brand_string`
    pub brand: Option<Vec<u8>>,
    /// `hw.ncpu`
    pub ncpu: Option<Vec<u8>>,
    /// `hw.perflevel0.logicalcpu`
    pub perf_cores: Option<Vec<u8>>,
    /// `hw.perflevel1.logicalcpu`
    pub eff_cores: Option<Vec<u8>>,
}

/// The text of a query's output: decoded, then trimmed.
pub open spec fn reading_text(out: Seq<u8>) -> Seq<char> {
    trim_ws(utf8_lossy(out))
}

/// A numeric query: its trimmed output parsed as a `u32`, else 0.
pub open spec fn reading_u32(out: Option<Seq<u8>>) -> u32 {
    match out {
        Some(b) => match parse_u32_spec(reading_text(b)) {
            Some(n) => n,
            None => 0,
        },
        None => 0,
    }
}

/// The view of an optional byte buffer.
pub open spec fn opt_bytes(o: Option<Vec<u8>>) -> Option<Seq<u8>> {
    match o {
        Some(v) => Some(v@),
        None => None,
    }
}

/// " Ultra", " Max" or " Pro" for a lowercased brand naming that variant, else "".
pub open spec fn variant_suffix(b: Seq<char>) -> Seq<char> {
    if seq_contains(b, "ultra"@) { " Ultra"@ }
    else if seq_contains(b, "max"@) { " Max"@ }
    else if seq_contains(b, "pro"@) { " Pro"@ }
    else { Seq::empty() }
}

/// The chip variant named in a lowercased brand: the newest generation it
/// mentions (M4 down to M1) with its variant, or "Unknown".
pub open spec fn chip_variant_spec(b: Seq<char>) -> Seq<char> {
    if seq_contains(b, "m4"@) { "M4"@ + variant_suffix(b) }
    else if seq_contains(b, "m3"@) { "M3"@ + variant_suffix(b) }
    else if seq_contains(b, "m2"@) { "M2"@ + variant_suffix(b) }
    else if seq_contains(b, "m1"@) { "M1"@ + variant_suffix(b) }
    else { "Unknown"@ }
}

/// Appends the variant suffix of a lowercased brand.
fn append_variant(s: &mut String, b: &[char])
    ensures
        final(s)@ == old(s)@ + variant_suffix(b@),
{
    if text::chars_contain_str(b, "ultra") {
        s.append(" Ultra");
    } else if text::chars_contain_str(b, "max") {
        s.append(" Max");
    } else if text::chars_contain_str(b, "pro") {
        s.append(" Pro");
    } else {
        assert(old(s)@ + Seq::<char>::empty() == old(s)@);
    }
}

/// The Apple chip variant of a CPU brand string, such as "M3 Max".
pub fn parse_chip_variant(brand: &str) -> (r: String)
    ensures
        r@ == chip_variant_spec(str_lower(brand@)),
{
    let lower = text::to_lower(brand);
    let bv = text::chars_of(lower.as_str());
    let b = bv.as_slice();
    let mut s = if text::chars_contain_str(b, "m4") {
        String::from_str("M4")
    } else if text::chars_contain_str(b, "m3") {
        String::from_str("M3")
    } else if text::chars_contain_str(b, "m2") {
        String::from_str("M2")
    } else if text::chars_contain_str(b, "m1") {
        String::from_str("M1")
    } else {
        return String::from_str("Unknown");
    };
    append_variant(&mut s, b);
    s
}

/// The text of a query's output.
fn query_text(out: &[u8]) -> (r: Vec<char>)
    ensures
        r@ == reading_text(out@),
{
    let s = text::lossy_string(out);
    text::trim_str(s.as_str())
}

/// A numeric query's value, 0 when it failed or did not parse.
fn query_u32(out: &Option<Vec<u8>>) -> (r: u32)
    ensures
        r == reading_u32(opt_bytes(*out)),
{
    match out {
        Some(b) => {
            let t = query_text(b.as_slice());
            match text::parse_u32_chars(t.as_slice()) {
                Some(n) => n,
                None => 0,
            }
        },
        None => 0,
    }
}

/// The CPU described by the sysctl readings. The brand is "Unknown CPU" when
/// its query failed. Performance and efficiency cores come from the two
/// perf levels when both are positive; otherwise the cores are split in half,
/// the odd one counted as an efficiency core.
pub fn detect(readings: &CpuReadings) -> (r: CpuInfo)
    ensures
        r.brand@ == (match readings.brand {
            Some(b) => reading_text(b@),
            None => "Unknown CPU"@,
        }),
        r.total_cores == reading_u32(opt_bytes(readings.ncpu)),
        ({
            let p = reading_u32(opt_bytes(readings.perf_cores));
            let e = reading_u32(opt_bytes(readings.eff_cores));
            let t = r.total_cores;
            if p > 0 && e > 0 {
                r.performance_cores == p && r.efficiency_cores == e
            } else {
                r.performance_cores == t / 2 && r.efficiency_cores == t - t / 2
            }
        }),
        r.chip_variant@ == chip_variant_spec(str_lower(r.brand@)),
{
    let brand = match &readings.brand {
        Some(b) => {
            let t = query_text(b.as_slice());
            text::string_of(t.as_slice())
        },
        None => String::from_str("Unknown CPU"),
    };
    let total_cores = query_u32(&readings.ncpu);
    let p_cores = query_u32(&readings.perf_cores);
    let e_cores = query_u32(&readings.eff_cores);
    let (performance_cores, efficiency_cores) = if p_cores > 0 && e_cores > 0 {
        (p_cores, e_cores)
    } else {
        (total_cores / 2, total_cores - total_cores / 2)
    };
    let chip_variant = parse_chip_variant(brand.as_str());
    CpuInfo { brand, total_cores, performance_cores, efficiency_cores, chip_variant }
}

/// The label of Apple Silicon generation `g` (1 to 4).
pub open spec fn generation_label(g: int) -> Seq<char> {
    if g == 1 { "M1"@ } else if g == 2 { "M2"@ } else if g == 3 { "M3"@ } else { "M4"@ }
}

/// A brand that names only generation `g` is labelled with that generation,
/// followed by the variant it names.
pub proof fn law_variant_names_the_generation(b: Seq<char>, g: int)
    requires
        crate::hardware::bandwidth::names_only_generation(b, g),
    ensures
        chip_variant_spec(b) == generation_label(g) + variant_suffix(b),
{
    crate::hardware::bandwidth::lemma_no_other_generation(b, g);
}

} // verus!
