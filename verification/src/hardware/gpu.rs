//! The GPU, from the system profiler's display report.
use vstd::prelude::*;
use crate::text;
use crate::text::{seq_contains, str_lower, lines_of, trim_ws, seq_starts_with, strip_all_prefix, parse_u32_spec};
use crate::hardware::bandwidth::{names_only_generation, tier_of, lemma_no_other_generation};

verus! {

/// The GPU's name, core count and Metal support.
pub struct GpuInfo {
    pub name: String,
    pub metal_cores: u32,
    pub metal_version: String,
}

/// GPU cores of an Apple chip, from a lowercased chip name (0 when unknown).
pub open spec fn gpu_cores_spec(c: Seq<char>) -> u32 {
    if seq_contains(c, "m4 ultra"@) { 80 }
    else if seq_contains(c, "m4 max"@) { 40 }
    else if seq_contains(c, "m4 pro"@) { 20 }
    else if seq_contains(c, "m4"@) { 10 }
    else if seq_contains(c, "m3 ultra"@) { 76 }
    else if seq_contains(c, "m3 max"@) { 40 }
    else if seq_contains(c, "m3 pro"@) { 18 }
    else if seq_contains(c, "m3"@) { 10 }
    else if seq_contains(c, "m2 ultra"@) { 76 }
    else if seq_contains(c, "m2 max"@) { 38 }
    else if seq_contains(c, "m2 pro"@) { 19 }
    else if seq_contains(c, "m2"@) { 10 }
    else if seq_contains(c, "m1 ultra"@) { 64 }
    else if seq_contains(c, "m1 max"@) { 32 }
    else if seq_contains(c, "m1 pro"@) { 16 }
    else if seq_contains(c, "m1"@) { 8 }
    else { 0 }
}

/// GPU cores of an Apple chip named in a lowercased string.
pub fn infer_gpu_cores_from_chip(chip: &str) -> (r: u32)
    ensures
        r == gpu_cores_spec(chip@),
{
    let cv = text::chars_of(chip);
    let c = cv.as_slice();
    if text::chars_contain_str(c, "m4 ultra") { return 80; }
    if text::chars_contain_str(c, "m4 max") { return 40; }
    if text::chars_contain_str(c, "m4 pro") { return 20; }
    if text::chars_contain_str(c, "m4") { return 10; }
    if text::chars_contain_str(c, "m3 ultra") { return 76; }
    if text::chars_contain_str(c, "m3 max") { return 40; }
    if text::chars_contain_str(c, "m3 pro") { return 18; }
    if text::chars_contain_str(c, "m3") { return 10; }
    if text::chars_contain_str(c, "m2 ultra") { return 76; }
    if text::chars_contain_str(c, "m2 max") { return 38; }
    if text::chars_contain_str(c, "m2 pro") { return 19; }
    if text::chars_contain_str(c, "m2") { return 10; }
    if text::chars_contain_str(c, "m1 ultra") { return 64; }
    if text::chars_contain_str(c, "m1 max") { return 32; }
    if text::chars_contain_str(c, "m1 pro") { return 16; }
    if text::chars_contain_str(c, "m1") { return 8; }
    0
}

/// The value after `label` on the first line that starts with it (lines
/// trimmed; every leading copy of the label removed, then trimmed).
pub open spec fn field_from(ls: Seq<Seq<char>>, label: Seq<char>) -> Option<Seq<char>>
    decreases ls.len(),
{
    if ls.len() == 0 {
        None
    } else if seq_starts_with(trim_ws(ls[0]), label) {
        Some(trim_ws(strip_all_prefix(trim_ws(ls[0]), label)))
    } else {
        field_from(ls.drop_first(), label)
    }
}

/// The value of the field `label` in a report.
pub fn extract_field(text: &str, label: &str) -> (r: Option<String>)
    ensures
        match field_from(lines_of(text@), label@) {
            Some(v) => r matches Some(x) && x@ == v,
            None => r is None,
        },
{
    let tv = text::chars_of(text);
    let lv = text::chars_of(label);
    let ls = text::lines(tv.as_slice());
    let ghost all = lines_of(text@);
    let mut i: usize = 0;
    assert(all.skip(0) == all);
    while i < ls.len()
        invariant
            i <= ls.len(),
            all == lines_of(text@),
            ls.len() == all.len(),
            forall|k: int| 0 <= k < ls.len() ==> #[trigger] ls[k]@ == all[k],
            lv@ == label@,
            field_from(all, label@) == field_from(all.skip(i as int), label@),
        decreases ls.len() - i,
    {
        assert(all.skip(i as int)[0] == all[i as int]);
        assert(all.skip(i as int).drop_first() == all.skip(i + 1));
        assert(ls[i as int]@ == all[i as int]);
        let t = text::trim_chars(ls[i].as_slice());
        if text::chars_start_with(t.as_slice(), lv.as_slice()) {
            let rest = text::strip_all_prefix_chars(t.as_slice(), lv.as_slice());
            let v = text::trim_chars(rest.as_slice());
            return Some(text::string_of(v.as_slice()));
        }
        i += 1;
    }
    None
}

/// Core count: the "Total Number of Cores:" field when it is a number, else
/// inferred from the first line naming an Apple M chip, else 0.
pub open spec fn gpu_cores_from(text: Seq<char>) -> u32 {
    match field_from(lines_of(text), "Total Number of Cores:"@) {
        Some(v) if parse_u32_spec(v) is Some => parse_u32_spec(v)->0,
        _ => chip_line_cores(lines_of(text)),
    }
}

/// Cores of the chip on the first line whose lowercase form names an Apple M chip.
pub open spec fn chip_line_cores(ls: Seq<Seq<char>>) -> u32
    decreases ls.len(),
{
    if ls.len() == 0 {
        0
    } else if seq_contains(str_lower(ls[0]), "apple m"@) {
        gpu_cores_spec(str_lower(ls[0]))
    } else {
        chip_line_cores(ls.drop_first())
    }
}

/// The GPU core count from a display report.
pub fn extract_gpu_cores(text: &str) -> (r: u32)
    ensures
        r == gpu_cores_from(text@),
{
    if let Some(val) = extract_field(text, "Total Number of Cores:") {
        let vv = text::chars_of(val.as_str());
        if let Some(n) = text::parse_u32_chars(vv.as_slice()) {
            return n;
        }
    }
    let tv = text::chars_of(text);
    let ls = text::lines(tv.as_slice());
    let ghost all = lines_of(text@);
    let mut i: usize = 0;
    assert(all.skip(0) == all);
    while i < ls.len()
        invariant
            i <= ls.len(),
            all == lines_of(text@),
            ls.len() == all.len(),
            forall|k: int| 0 <= k < ls.len() ==> #[trigger] ls[k]@ == all[k],
            gpu_cores_from(text@) == chip_line_cores(all),
            chip_line_cores(all) == chip_line_cores(all.skip(i as int)),
        decreases ls.len() - i,
    {
        assert(all.skip(i as int)[0] == all[i as int]);
        assert(all.skip(i as int).drop_first() == all.skip(i + 1));
        assert(ls[i as int]@ == all[i as int]);
        let line = text::string_of(ls[i].as_slice());
        let lower = text::to_lower(line.as_str());
        let lc = text::chars_of(lower.as_str());
        if text::chars_contain_str(lc.as_slice(), "apple m") {
            return infer_gpu_cores_from_chip(lower.as_str());
        }
        i += 1;
    }
    0
}

/// The GPU described by a display report: chipset model ("Unknown GPU"
/// when absent), core count, and Metal support or family ("Unknown").
pub fn detect(text: &str) -> (r: GpuInfo)
    ensures
        r.name@ == (match field_from(lines_of(text@), "Chipset Model:"@) {
            Some(v) => v,
            None => "Unknown GPU"@,
        }),
        r.metal_cores == gpu_cores_from(text@),
        r.metal_version@ == (match field_from(lines_of(text@), "Metal Support:"@) {
            Some(v) => v,
            None => match field_from(lines_of(text@), "Metal Family:"@) {
                Some(v) => v,
                None => "Unknown"@,
            },
        }),
{
    let name = match extract_field(text, "Chipset Model:") {
        Some(n) => n,
        None => String::from_str("Unknown GPU"),
    };
    let metal_cores = extract_gpu_cores(text);
    let metal_version = match extract_field(text, "Metal Support:") {
        Some(v) => v,
        None => match extract_field(text, "Metal Family:") {
            Some(v) => v,
            None => String::from_str("Unknown"),
        },
    };
    GpuInfo { name, metal_cores, metal_version }
}

/// GPU core count of tier `t` (0 base, 1 Pro, 2 Max, 3 Ultra) of Apple
/// Silicon generation `g`, at its largest configuration.
pub open spec fn chip_gpu_cores(g: int, t: int) -> u32 {
    let by_tier = |base: u32, pro: u32, max: u32, ultra: u32|
        if t == 0 { base } else if t == 1 { pro } else if t == 2 { max } else { ultra };
    if g == 1 { by_tier(8, 16, 32, 64) }
    else if g == 2 { by_tier(10, 19, 38, 76) }
    else if g == 3 { by_tier(10, 18, 40, 76) }
    else { by_tier(10, 20, 40, 80) }
}

/// A chip name that names only generation `g` gets the core count of the
/// highest tier it names: an M1 Max 32 cores, an M1 Pro 16, a plain M1 8,
/// and so on for each generation.
pub proof fn law_named_chip_gpu_cores(c: Seq<char>, g: int)
    requires
        names_only_generation(c, g),
    ensures
        gpu_cores_spec(c) == chip_gpu_cores(g, tier_of(c, g)),
{
    lemma_no_other_generation(c, g);
}

/// Within one generation, a higher tier has more GPU cores.
pub proof fn law_higher_tier_more_gpu_cores(c1: Seq<char>, c2: Seq<char>, g: int)
    requires
        names_only_generation(c1, g),
        names_only_generation(c2, g),
        tier_of(c1, g) < tier_of(c2, g),
    ensures
        gpu_cores_spec(c1) < gpu_cores_spec(c2),
{
    law_named_chip_gpu_cores(c1, g);
    law_named_chip_gpu_cores(c2, g);
}

} // verus!
