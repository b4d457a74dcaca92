//! Memory bandwidth of Apple Silicon chips, the main factor in token speed.
use vstd::prelude::*;
use crate::text;
use crate::text::{seq_contains, str_lower};

verus! {

/// Bandwidth in GB/s of the chip named by a lowercased CPU brand string
/// (100 for unknown chips, a conservative estimate).
pub open spec fn bandwidth_spec(b: Seq<char>) -> u32 {
    if seq_contains(b, "m4 ultra"@) { 800 }
    else if seq_contains(b, "m4 max"@) { 546 }
    else if seq_contains(b, "m4 pro"@) { 273 }
    else if seq_contains(b, "m4"@) { 120 }
    else if seq_contains(b, "m3 ultra"@) { 800 }
    else if seq_contains(b, "m3 max"@) { 300 }
    else if seq_contains(b, "m3 pro"@) { 150 }
    else if seq_contains(b, "m3"@) { 100 }
    else if seq_contains(b, "m2 ultra"@) { 800 }
    else if seq_contains(b, "m2 max"@) { 400 }
    else if seq_contains(b, "m2 pro"@) { 200 }
    else if seq_contains(b, "m2"@) { 100 }
    else if seq_contains(b, "m1 ultra"@) { 800 }
    else if seq_contains(b, "m1 max"@) { 400 }
    else if seq_contains(b, "m1 pro"@) { 200 }
    else if seq_contains(b, "m1"@) { 68 }
    else { 100 }
}

/// Memory bandwidth in GB/s for a CPU brand string.
pub fn lookup(cpu_brand: &str) -> (r: u32)
    ensures
        r == bandwidth_spec(str_lower(cpu_brand@)),
{
    let lower = text::to_lower(cpu_brand);
    let b = text::chars_of(lower.as_str());
    let b = b.as_slice();
    if text::chars_contain_str(b, "m4 ultra") { return 800; }
    if text::chars_contain_str(b, "m4 max") { return 546; }
    if text::chars_contain_str(b, "m4 pro") { return 273; }
    if text::chars_contain_str(b, "m4") { return 120; }
    if text::chars_contain_str(b, "m3 ultra") { return 800; }
    if text::chars_contain_str(b, "m3 max") { return 300; }
    if text::chars_contain_str(b, "m3 pro") { return 150; }
    if text::chars_contain_str(b, "m3") { return 100; }
    if text::chars_contain_str(b, "m2 ultra") { return 800; }
    if text::chars_contain_str(b, "m2 max") { return 400; }
    if text::chars_contain_str(b, "m2 pro") { return 200; }
    if text::chars_contain_str(b, "m2") { return 100; }
    if text::chars_contain_str(b, "m1 ultra") { return 800; }
    if text::chars_contain_str(b, "m1 max") { return 400; }
    if text::chars_contain_str(b, "m1 pro") { return 200; }
    if text::chars_contain_str(b, "m1") { return 68; }
    100
}

/// The name of Apple Silicon generation `g` (1 to 4) in a lowercased brand.
pub open spec fn generation_name(g: int) -> Seq<char> {
    if g == 1 { "m1"@ } else if g == 2 { "m2"@ } else if g == 3 { "m3"@ } else { "m4"@ }
}

/// The name of tier `t` (1 Pro, 2 Max, 3 Ultra) of generation `g`.
pub open spec fn tier_name(g: int, t: int) -> Seq<char> {
    if g == 1 && t == 1 { "m1 pro"@ }
    else if g == 1 && t == 2 { "m1 max"@ }
    else if g == 1 && t == 3 { "m1 ultra"@ }
    else if g == 2 && t == 1 { "m2 pro"@ }
    else if g == 2 && t == 2 { "m2 max"@ }
    else if g == 2 && t == 3 { "m2 ultra"@ }
    else if g == 3 && t == 1 { "m3 pro"@ }
    else if g == 3 && t == 2 { "m3 max"@ }
    else if g == 3 && t == 3 { "m3 ultra"@ }
    else if g == 4 && t == 1 { "m4 pro"@ }
    else if g == 4 && t == 2 { "m4 max"@ }
    else if g == 4 && t == 3 { "m4 ultra"@ }
    else { generation_name(g) }
}

/// The brand names generation `g` and no other generation.
pub open spec fn names_only_generation(b: Seq<char>, g: int) -> bool {
    &&& 1 <= g <= 4
    &&& seq_contains(b, generation_name(g))
    &&& forall|h: int| 1 <= h <= 4 && h != g ==> !seq_contains(b, #[trigger] generation_name(h))
}

/// The highest tier the brand names within generation `g` (0: the base chip).
pub open spec fn tier_of(b: Seq<char>, g: int) -> int {
    if seq_contains(b, tier_name(g, 3)) { 3 }
    else if seq_contains(b, tier_name(g, 2)) { 2 }
    else if seq_contains(b, tier_name(g, 1)) { 1 }
    else { 0 }
}

/// Published memory bandwidth (GB/s) of tier `t` of generation `g`.
pub open spec fn chip_bandwidth(g: int, t: int) -> u32 {
    let by_tier = |base: u32, pro: u32, max: u32, ultra: u32|
        if t == 0 { base } else if t == 1 { pro } else if t == 2 { max } else { ultra };
    if g == 1 { by_tier(68, 200, 400, 800) }
    else if g == 2 { by_tier(100, 200, 400, 800) }
    else if g == 3 { by_tier(100, 150, 300, 800) }
    else { by_tier(120, 273, 546, 800) }
}

/// A brand that contains a longer name also contains each of its prefixes.
pub(crate) proof fn lemma_contains_prefix(b: Seq<char>, long: Seq<char>, short: Seq<char>)
    requires
        seq_contains(b, long),
        short.len() <= long.len(),
        long.take(short.len() as int) == short,
    ensures
        seq_contains(b, short),
{
    let i = choose|i: int| 0 <= i && i + long.len() <= b.len() && #[trigger] b.subrange(i, i + long.len()) == long;
    assert(b.subrange(i, i + short.len()) == long.take(short.len() as int));
}

/// Every tier's name begins with its generation's name.
pub(crate) proof fn lemma_tier_names_extend_generation(g: int, t: int)
    requires
        1 <= g <= 4,
        1 <= t <= 3,
    ensures
        generation_name(g).len() == 2,
        tier_name(g, t).len() >= 2,
        tier_name(g, t).take(2) == generation_name(g),
{
    reveal_strlit("m1");
    reveal_strlit("m2");
    reveal_strlit("m3");
    reveal_strlit("m4");
    reveal_strlit("m1 pro");
    reveal_strlit("m1 max");
    reveal_strlit("m1 ultra");
    reveal_strlit("m2 pro");
    reveal_strlit("m2 max");
    reveal_strlit("m2 ultra");
    reveal_strlit("m3 pro");
    reveal_strlit("m3 max");
    reveal_strlit("m3 ultra");
    reveal_strlit("m4 pro");
    reveal_strlit("m4 max");
    reveal_strlit("m4 ultra");
}

/// A brand that names only generation `g` names no chip of another generation.
pub(crate) proof fn lemma_no_other_generation(b: Seq<char>, g: int)
    requires
        names_only_generation(b, g),
    ensures
        !seq_contains(b, tier_name(1, 1)) || g == 1,
        !seq_contains(b, tier_name(1, 2)) || g == 1,
        !seq_contains(b, tier_name(1, 3)) || g == 1,
        !seq_contains(b, tier_name(2, 1)) || g == 2,
        !seq_contains(b, tier_name(2, 2)) || g == 2,
        !seq_contains(b, tier_name(2, 3)) || g == 2,
        !seq_contains(b, tier_name(3, 1)) || g == 3,
        !seq_contains(b, tier_name(3, 2)) || g == 3,
        !seq_contains(b, tier_name(3, 3)) || g == 3,
        !seq_contains(b, tier_name(4, 1)) || g == 4,
        !seq_contains(b, tier_name(4, 2)) || g == 4,
        !seq_contains(b, tier_name(4, 3)) || g == 4,
        !seq_contains(b, generation_name(1)) || g == 1,
        !seq_contains(b, generation_name(2)) || g == 2,
        !seq_contains(b, generation_name(3)) || g == 3,
        !seq_contains(b, generation_name(4)) || g == 4,
{
    assert forall|h: int, t: int| 1 <= h <= 4 && h != g && 1 <= t <= 3
        implies !seq_contains(b, #[trigger] tier_name(h, t)) by {
        lemma_tier_names_extend_generation(h, t);
        assert(!seq_contains(b, generation_name(h)));
        if seq_contains(b, tier_name(h, t)) {
            lemma_contains_prefix(b, tier_name(h, t), generation_name(h));
        }
    }
    assert forall|h: int| 1 <= h <= 4 && h != g implies !seq_contains(b, #[trigger] generation_name(h)) by {}
}

/// A brand that names only generation `g` gets the published bandwidth of
/// the highest tier it names: an M1 Max 400 GB/s, an M1 Pro 200, a plain
/// M1 68, and so on for each generation.
pub proof fn law_named_chip_bandwidth(b: Seq<char>, g: int)
    requires
        names_only_generation(b, g),
    ensures
        bandwidth_spec(b) == chip_bandwidth(g, tier_of(b, g)),
{
    lemma_no_other_generation(b, g);
}

/// Within one generation, a higher tier never gets less bandwidth: an
/// Ultra gets more than a Max, a Max more than a Pro, and a Pro more than
/// the base chip.
pub proof fn law_higher_tier_more_bandwidth(b1: Seq<char>, b2: Seq<char>, g: int)
    requires
        names_only_generation(b1, g),
        names_only_generation(b2, g),
        tier_of(b1, g) < tier_of(b2, g),
    ensures
        bandwidth_spec(b1) < bandwidth_spec(b2),
{
    law_named_chip_bandwidth(b1, g);
    law_named_chip_bandwidth(b2, g);
}

} // verus!
