//! Models installed by Ollama: manifest layers, blob names, and the mapping
//! from GGUF metadata to a model description.
use vstd::prelude::*;
use crate::text;
use super::ModelInfo;
use super::gguf_parser::{GgufMetadata, GgufMetadataView, GgufValueView, as_u32, as_u64};

verus! {

// ---------------------------------------------------------------------------
// Manifests and blobs
// ---------------------------------------------------------------------------

/// One layer of an Ollama manifest, as far as the scan reads it: each field
/// is `None` when absent or not a string.
pub struct ManifestLayer {
    pub media_type: Option<String>,
    pub digest: Option<String>,
}

/// The media type of the layer that holds the model weights.
pub open spec fn model_media_type() -> Seq<char> {
    "application/vnd.ollama.image.model"@
}

/// The digest of the first model layer; `None` when the manifest has no
/// layer list, when a layer before it has no media type, or when the model
/// layer has no digest.
pub open spec fn model_digest_spec(layers: Seq<ManifestLayer>) -> Option<Seq<char>>
    decreases layers.len(),
{
    if layers.len() == 0 {
        None
    } else {
        match layers[0].media_type {
            None => None,
            Some(m) => if m@ == model_media_type() {
                match layers[0].digest {
                    Some(d) => Some(d@),
                    None => None,
                }
            } else {
                model_digest_spec(layers.drop_first())
            },
        }
    }
}

/// Picks the model layer's digest out of a manifest's layers.
pub fn parse_manifest_digest(layers: Option<&Vec<ManifestLayer>>) -> (r: Option<String>)
    ensures
        match layers {
            None => r is None,
            Some(ls) => match model_digest_spec(ls@) {
                Some(d) => r matches Some(x) && x@ == d,
                None => r is None,
            },
        },
{
    let ls: &Vec<ManifestLayer> = match layers {
        None => { return None; },
        Some(ls) => ls,
    };
    let mut i: usize = 0;
    assert(ls@.skip(0) == ls@);
    while i < ls.len()
        invariant
            i <= ls.len(),
            layers == Some(ls),
            model_digest_spec(ls@) == model_digest_spec(ls@.skip(i as int)),
        decreases ls.len() - i,
    {
        assert(ls@.skip(i as int)[0] == ls@[i as int]);
        assert(ls@.skip(i as int).drop_first() == ls@.skip(i + 1));
        match &ls[i].media_type {
            None => { return None; },
            Some(m) => {
                if text::str_eq(m.as_str(), "application/vnd.ollama.image.model") {
                    return match &ls[i].digest {
                        Some(d) => Some(d.clone()),
                        None => None,
                    };
                }
            },
        }
        i += 1;
    }
    None
}

/// `s` with every `from` char replaced by `to`.
pub open spec fn replace_char(s: Seq<char>, from: char, to: char) -> Seq<char> {
    Seq::new(s.len(), |i: int| if s[i] == from { to } else { s[i] })
}

/// Appends `p` to `base` as a path: an absolute `p` replaces `base`,
/// otherwise a `/` separates them unless `base` is empty or ends with one.
pub open spec fn join_path(base: Seq<char>, p: Seq<char>) -> Seq<char> {
    if p.len() > 0 && p[0] == '/' {
        p
    } else if base.len() == 0 || base.last() == '/' {
        base + p
    } else {
        base + "/"@ + p
    }
}

/// Joins two paths as `Path::join` does on Unix.
pub fn join_path_str(base: &str, p: &str) -> (r: String)
    ensures
        r@ == join_path(base@, p@),
{
    let pc = text::chars_of(p);
    if pc.len() > 0 && pc[0] == '/' {
        return String::from_str(p);
    }
    let bc = text::chars_of(base);
    let mut out = String::from_str(base);
    if !(bc.len() == 0 || bc[bc.len() - 1] == '/') {
        out.append("/");
    }
    out.append(p);
    out
}

/// The blob file for a digest: `sha256:abc…` is stored as `blobs/sha256-abc…`.
pub fn resolve_blob_path(models_dir: &str, digest: &str) -> (r: String)
    ensures
        r@ == join_path(join_path(models_dir@, "blobs"@), replace_char(digest@, ':', '-')),
{
    let dc = text::chars_of(digest);
    let mut name: Vec<char> = Vec::new();
    let mut i: usize = 0;
    while i < dc.len()
        invariant
            i <= dc.len(),
            name@ == replace_char(dc@, ':', '-').take(i as int),
        decreases dc.len() - i,
    {
        name.push(if dc[i] == ':' { '-' } else { dc[i] });
        assert(replace_char(dc@, ':', '-').take(i + 1) == replace_char(dc@, ':', '-').take(i as int).push(if dc@[i as int] == ':' { '-' } else { dc@[i as int] }));
        i += 1;
    }
    assert(replace_char(dc@, ':', '-').take(dc@.len() as int) == replace_char(dc@, ':', '-'));
    let name_s = text::string_of(name.as_slice());
    let blobs = join_path_str(models_dir, "blobs");
    join_path_str(blobs.as_str(), name_s.as_str())
}

/// `model:tag`, the name Ollama shows for an installed model.
pub fn display_name(model: &str, tag: &str) -> (r: String)
    ensures
        r@ == model@ + ":"@ + tag@,
{
    let mut s = String::from_str(model);
    s.append(":");
    s.append(tag);
    s
}

/// Entries `(name, digest)` keeping only the first one for each digest.
pub open spec fn first_per_digest(s: Seq<(Seq<char>, Seq<char>)>) -> Seq<(Seq<char>, Seq<char>)>
    decreases s.len(),
{
    if s.len() == 0 {
        Seq::empty()
    } else {
        let front = first_per_digest(s.drop_last());
        if (exists|j: int| 0 <= j < s.len() - 1 && (#[trigger] s[j]).1 == s.last().1) {
            front
        } else {
            front.push(s.last())
        }
    }
}

/// The views of a list of name/digest pairs.
pub open spec fn pair_views(s: Seq<(String, String)>) -> Seq<(Seq<char>, Seq<char>)> {
    Seq::new(s.len(), |i: int| (s[i].0@, s[i].1@))
}

/// Drops the entries whose digest an earlier entry already has, so that a
/// blob shared by several tags is analyzed once, under its first name.
pub fn dedup_by_digest(entries: &Vec<(String, String)>) -> (r: Vec<(String, String)>)
    ensures
        pair_views(r@) == first_per_digest(pair_views(entries@)),
{
    let ghost src = pair_views(entries@);
    let mut out: Vec<(String, String)> = Vec::new();
    let mut i: usize = 0;
    while i < entries.len()
        invariant
            i <= entries.len(),
            src == pair_views(entries@),
            pair_views(out@) == first_per_digest(src.take(i as int)),
        decreases entries.len() - i,
    {
        let mut seen = false;
        let mut j: usize = 0;
        while j < i
            invariant
                j <= i < entries.len(),
                src == pair_views(entries@),
                seen <==> exists|k: int| 0 <= k < j && (#[trigger] src[k]).1 == src[i as int].1,
            decreases i - j,
        {
            assert(src[j as int].1 == entries@[j as int].1@ && src[i as int].1 == entries@[i as int].1@);
            if text::str_eq(entries[j].1.as_str(), entries[i].1.as_str()) {
                seen = true;
            }
            j += 1;
        }
        let ghost t = src.take(i + 1);
        assert(t.drop_last() == src.take(i as int));
        assert(t.last() == src[i as int]);
        assert(seen <==> exists|k: int| 0 <= k < t.len() - 1 && (#[trigger] t[k]).1 == t.last().1) by {
            if seen {
                let k = choose|k: int| 0 <= k < i && (#[trigger] src[k]).1 == src[i as int].1;
                assert(t[k] == src[k]);
            }
            if exists|k: int| 0 <= k < t.len() - 1 && (#[trigger] t[k]).1 == t.last().1 {
                let k = choose|k: int| 0 <= k < t.len() - 1 && (#[trigger] t[k]).1 == t.last().1;
                assert(t[k] == src[k]);
            }
        }
        if !seen {
            let ghost before = out@;
            out.push((entries[i].0.clone(), entries[i].1.clone()));
            assert(pair_views(out@) == pair_views(before).push(src[i as int]));
        }
        i += 1;
    }
    assert(src.take(entries.len() as int) == src);
    out
}

// ---------------------------------------------------------------------------
// GGUF metadata to model description
// ---------------------------------------------------------------------------

/// Approximate bits per weight of a GGUF `general.file_type` code.
pub open spec fn file_type_bits_spec(t: u32) -> u32 {
    if t == 0 { 32 }
    else if t == 1 { 16 }
    else if t == 2 || t == 3 { 4 }
    else if t == 7 { 8 }
    else if t == 8 || t == 9 { 5 }
    else if t == 10 { 2 }
    else if 11 <= t <= 13 { 3 }
    else if t == 14 || t == 15 { 4 }
    else if t == 16 || t == 17 { 5 }
    else if t == 18 { 6 }
    else if t == 19 || t == 20 { 2 }
    else if t == 21 { 3 }
    else if t == 22 { 1 }
    else if t == 23 { 4 }
    else if t == 24 { 3 }
    else if t == 25 { 4 }
    else if t == 26 || t == 27 { 2 }
    else if t == 28 { 3 }
    else { 4 }
}

/// Bits per weight for a GGUF file type (4 for unknown codes).
pub fn file_type_to_bits(file_type: u32) -> (r: u32)
    ensures
        r == file_type_bits_spec(file_type),
{
    match file_type {
        0 => 32,
        1 => 16,
        2 => 4,
        3 => 4,
        7 => 8,
        8 => 5,
        9 => 5,
        10 => 2,
        11 => 3,
        12 => 3,
        13 => 3,
        14 => 4,
        15 => 4,
        16 => 5,
        17 => 5,
        18 => 6,
        19 => 2,
        20 => 2,
        21 => 3,
        22 => 1,
        23 => 4,
        24 => 3,
        25 => 4,
        26 => 2,
        27 => 2,
        28 => 3,
        _ => 4,
    }
}

/// Vocabulary size assumed when estimating embedding parameters.
pub const ASSUMED_VOCAB: u64 = 32000;

/// Feed-forward width used when the file gives none: 8/3 of the hidden
/// size, rounded up to a multiple of 256.
pub open spec fn default_ff(h: int) -> int {
    (h * 8 / 3 + 255) / 256 * 256
}

/// The parts of the parameter estimate, in the order they are computed.
pub open spec fn estimate_parts(h: int, layers: int, ff: int, experts: int) -> Seq<int> {
    let f = if ff > 0 { ff } else { default_ff(h) };
    let ex = if experts > 0 { experts } else { 1 };
    let attn = 4 * h * h;
    let ffn_expert = 3 * h * f;
    let ffn_layer = ffn_expert * ex;
    let per_layer = attn + ffn_layer + 2 * h;
    let transformer = per_layer * layers;
    let embedding = ASSUMED_VOCAB * h * 2;
    let router = if experts > 0 { layers * h * ex } else { 0 };
    seq![4 * h, attn, 3 * h, ffn_expert, ffn_layer, attn + ffn_layer, per_layer, transformer,
        ASSUMED_VOCAB * h, embedding, layers * h, router, transformer + embedding,
        transformer + embedding + router]
}

/// The estimated parameter count when every step fits in 64 bits; `None`
/// when some step does not.
pub open spec fn estimate_parameters_spec(h: u32, layers: u32, ff: u32, experts: u32) -> Option<u64> {
    if h == 0 || layers == 0 {
        Some(0)
    } else {
        let parts = estimate_parts(h as int, layers as int, ff as int, experts as int);
        if forall|i: int| 0 <= i < parts.len() ==> #[trigger] parts[i] <= u64::MAX {
            Some(parts.last() as u64)
        } else {
            None
        }
    }
}

/// Estimates the parameter count from the architecture when the file does
/// not state it: attention, feed-forward (per expert), norms, embeddings
/// for an assumed 32K vocabulary, and the expert router.
pub fn estimate_parameters(hidden_size: u32, num_layers: u32, num_heads: u32, ff_length: u32, num_experts: u32, tensor_count: u64) -> (r: Option<u64>)
    ensures
        r == estimate_parameters_spec(hidden_size, num_layers, ff_length, num_experts),
{
    if hidden_size == 0 || num_layers == 0 {
        return Some(0);
    }
    let ghost parts = estimate_parts(hidden_size as int, num_layers as int, ff_length as int, num_experts as int);
    let h = hidden_size as u64;
    let l = num_layers as u64;
    let f: u64 = if ff_length > 0 { ff_length as u64 } else { (h * 8 / 3 + 255) / 256 * 256 };
    let ex: u64 = if num_experts > 0 { num_experts as u64 } else { 1 };
    proof { super::lemma_mul_bound(4 * h, h as int, 4 * 0xffff_ffff_int, 0xffff_ffff); }
    let attn = (4 * h) as u128 * h as u128;
    proof { super::lemma_mul_bound(3 * h, f as int, 3 * 0xffff_ffff_int, 0xffff_ffff_ffff); }
    let ffn_expert = (3 * h) as u128 * f as u128;
    if attn > u64::MAX as u128 || ffn_expert > u64::MAX as u128 {
        proof { assert(parts[1] == attn && parts[3] == ffn_expert); }
        return None;
    }
    proof { super::lemma_mul_bound(ffn_expert as int, ex as int, u64::MAX as int, 0xffff_ffff); }
    let ffn_layer = ffn_expert * ex as u128;
    if ffn_layer > u64::MAX as u128 {
        proof { assert(parts[4] == ffn_layer); }
        return None;
    }
    let sum1 = attn + ffn_layer;
    let per_layer = sum1 + 2 * h as u128;
    if sum1 > u64::MAX as u128 || per_layer > u64::MAX as u128 {
        proof { assert(parts[5] == sum1 && parts[6] == per_layer); }
        return None;
    }
    proof { super::lemma_mul_bound(per_layer as int, l as int, u64::MAX as int, 0xffff_ffff); }
    let transformer = per_layer * l as u128;
    if transformer > u64::MAX as u128 {
        proof { assert(parts[7] == transformer); }
        return None;
    }
    let vocab_h = ASSUMED_VOCAB as u128 * h as u128;
    let embedding = vocab_h * 2;
    if embedding > u64::MAX as u128 {
        proof { assert(parts[9] == embedding); }
        return None;
    }
    proof { super::lemma_mul_bound(l as int, h as int, 0xffff_ffff, 0xffff_ffff); }
    let lh = l as u128 * h as u128;
    proof { super::lemma_mul_bound(lh as int, ex as int, 0xffff_ffff_int * 0xffff_ffff_int, 0xffff_ffff); }
    let router: u128 = if num_experts > 0 { lh * ex as u128 } else { 0 };
    if router > u64::MAX as u128 {
        proof { assert(parts[11] == router); }
        return None;
    }
    let sum2 = transformer + embedding;
    let total = sum2 + router;
    if sum2 > u64::MAX as u128 || total > u64::MAX as u128 {
        proof { assert(parts[12] == sum2 && parts[13] == total); }
        return None;
    }
    proof {
        assert(parts[0] == 4 * h && parts[2] == 3 * h && parts[8] == vocab_h && parts[10] == lh);
        assert forall|i: int| 0 <= i < parts.len() implies #[trigger] parts[i] <= u64::MAX by {
            assert(parts[1] == attn && parts[3] == ffn_expert && parts[4] == ffn_layer && parts[5] == sum1);
            assert(parts[6] == per_layer && parts[7] == transformer && parts[9] == embedding);
            assert(parts[11] == router && parts[12] == sum2 && parts[13] == total);
        }
    }
    Some(total as u64)
}

/// The architecture named by the metadata ("unknown" when absent).
pub open spec fn arch_spec(m: GgufMetadataView) -> Seq<char> {
    match m.lookup("general.architecture"@) {
        Some(GgufValueView::Str(s)) => s,
        _ => "unknown"@,
    }
}

/// The `u32` under `key`, or `default`.
pub open spec fn u32_or(m: GgufMetadataView, key: Seq<char>, default: u32) -> u32 {
    match as_u32(m.lookup(key)) {
        Some(v) => v,
        None => default,
    }
}

/// The `u32` under the architecture's key `suffix`, or `default`.
pub open spec fn arch_u32(m: GgufMetadataView, suffix: Seq<char>, default: u32) -> u32 {
    u32_or(m, arch_spec(m) + suffix, default)
}

/// The parameter count: stated in the file, or estimated from the architecture.
pub open spec fn gguf_params_spec(m: GgufMetadataView) -> Option<u64> {
    match as_u64(m.lookup("general.parameter_count"@)) {
        Some(p) => Some(p),
        None => estimate_parameters_spec(
            arch_u32(m, ".embedding_length"@, 0),
            arch_u32(m, ".block_count"@, 0),
            arch_u32(m, ".feed_forward_length"@, 0),
            arch_u32(m, ".expert_count"@, 0),
        ),
    }
}

/// Head width: the rope dimension when given, else embedding width over
/// head count, else 128.
pub open spec fn gguf_head_dim(m: GgufMetadataView) -> u32 {
    match as_u32(m.lookup(arch_spec(m) + ".rope.dimension_count"@)) {
        Some(v) => v,
        None => {
            let heads = arch_u32(m, ".attention.head_count"@, 0);
            if heads > 0 { (arch_u32(m, ".embedding_length"@, 0) / heads) as u32 } else { 128 }
        },
    }
}

/// What a model description built from GGUF metadata holds.
pub open spec fn gguf_model_matches(info: ModelInfo, name: Seq<char>, path: Seq<char>, m: GgufMetadataView, size: u64) -> bool {
    let a = arch_spec(m);
    let heads = arch_u32(m, ".attention.head_count"@, 0);
    let experts = arch_u32(m, ".expert_count"@, 0);
    &&& info.name@ == name
    &&& info.path@ == path
    &&& info.model_type@ == (match m.lookup("general.name"@) {
        Some(GgufValueView::Str(s)) => s,
        _ => a,
    })
    &&& info.architecture@ == a
    &&& info.hidden_size == arch_u32(m, ".embedding_length"@, 0)
    &&& info.num_hidden_layers == arch_u32(m, ".block_count"@, 0)
    &&& info.num_attention_heads == heads
    &&& info.num_key_value_heads == arch_u32(m, ".attention.head_count_kv"@, heads)
    &&& info.head_dim == gguf_head_dim(m)
    &&& info.max_position_embeddings == (match as_u64(m.lookup(a + ".context_length"@)) {
        Some(v) => v,
        None => 4096,
    })
    &&& info.num_experts == experts
    &&& info.num_experts_per_tok == arch_u32(m, ".expert_used_count"@, 0)
    &&& info.moe_intermediate_size == (if experts > 0 { arch_u32(m, ".feed_forward_length"@, 0) } else { 0 })
    &&& info.v_head_dim == as_u32(m.lookup(a + ".attention.value_length"@))
    &&& info.qk_nope_head_dim == as_u32(m.lookup(a + ".attention.key_length_nope"@))
    &&& info.qk_rope_head_dim == as_u32(m.lookup(a + ".attention.key_length_rope"@))
    &&& info.quant_bits == (match as_u32(m.lookup("general.file_type"@)) {
        Some(t) => file_type_bits_spec(t),
        None => 4,
    })
    &&& info.quant_group_size == 128
    &&& info.total_size_bytes == size
    &&& info.total_parameters == gguf_params_spec(m)->0
    &&& info.is_moe == (experts > 0)
}

/// The architecture's key with the given suffix.
fn arch_key(arch: &String, suffix: &str) -> (k: String)
    ensures
        k@ == arch@ + suffix@,
{
    let mut k = arch.clone();
    k.append(suffix);
    k
}

/// Builds the description of an Ollama model from its GGUF metadata and
/// blob size. `None` exactly when the file states no parameter count and the
/// estimate does not fit in 64 bits.
pub fn gguf_to_model_info(name: &str, blob_path: &str, meta: &GgufMetadata, file_size: u64) -> (r: Option<ModelInfo>)
    ensures
        r is None <==> gguf_params_spec(meta@) is None,
        r matches Some(info) ==> gguf_model_matches(info, name@, blob_path@, meta@, file_size),
{
    let arch = match meta.get_str("general.architecture") {
        Some(s) => String::from_str(s),
        None => String::from_str("unknown"),
    };
    let ghost m = meta@;
    assert(arch@ == arch_spec(m));
    let block_count = match meta.get_u32(arch_key(&arch, ".block_count").as_str()) { Some(v) => v, None => 0 };
    let embedding_length = match meta.get_u32(arch_key(&arch, ".embedding_length").as_str()) { Some(v) => v, None => 0 };
    let head_count = match meta.get_u32(arch_key(&arch, ".attention.head_count").as_str()) { Some(v) => v, None => 0 };
    let head_count_kv = match meta.get_u32(arch_key(&arch, ".attention.head_count_kv").as_str()) { Some(v) => v, None => head_count };
    let context_length = match meta.get_u64(arch_key(&arch, ".context_length").as_str()) { Some(v) => v, None => 4096 };
    let expert_count = match meta.get_u32(arch_key(&arch, ".expert_count").as_str()) { Some(v) => v, None => 0 };
    let expert_used_count = match meta.get_u32(arch_key(&arch, ".expert_used_count").as_str()) { Some(v) => v, None => 0 };
    let ff_length = match meta.get_u32(arch_key(&arch, ".feed_forward_length").as_str()) { Some(v) => v, None => 0 };
    let is_moe = expert_count > 0;
    let head_dim = match meta.get_u32(arch_key(&arch, ".rope.dimension_count").as_str()) {
        Some(v) => v,
        None => if head_count > 0 { embedding_length / head_count } else { 128 },
    };
    let v_head_dim = meta.get_u32(arch_key(&arch, ".attention.value_length").as_str());
    let qk_nope_head_dim = meta.get_u32(arch_key(&arch, ".attention.key_length_nope").as_str());
    let qk_rope_head_dim = meta.get_u32(arch_key(&arch, ".attention.key_length_rope").as_str());
    let quant_bits = match meta.get_u32("general.file_type") {
        Some(t) => file_type_to_bits(t),
        None => 4,
    };
    let total_parameters = match meta.get_u64("general.parameter_count") {
        Some(p) => p,
        None => match estimate_parameters(embedding_length, block_count, head_count, ff_length, expert_count, meta.tensor_count) {
            Some(p) => p,
            None => { return None; },
        },
    };
    let model_type = match meta.get_str("general.name") {
        Some(s) => String::from_str(s),
        None => arch.clone(),
    };
    Some(ModelInfo {
        name: String::from_str(name),
        path: String::from_str(blob_path),
        model_type,
        architecture: arch,
        hidden_size: embedding_length,
        num_hidden_layers: block_count,
        num_attention_heads: head_count,
        num_key_value_heads: head_count_kv,
        head_dim,
        max_position_embeddings: context_length,
        num_experts: expert_count,
        num_experts_per_tok: expert_used_count,
        moe_intermediate_size: if is_moe { ff_length } else { 0 },
        v_head_dim,
        qk_nope_head_dim,
        qk_rope_head_dim,
        quant_bits,
        quant_group_size: 128,
        total_size_bytes: file_size,
        total_parameters,
        is_moe,
    })
}

/// A key that ends in `suffix` (whose last char is not the last char of
/// "general.architecture") is not the architecture's key, so setting it
/// leaves the architecture as it was.
proof fn lemma_arch_unchanged(m: GgufMetadataView, suffix: Seq<char>, v: GgufValueView)
    requires
        suffix.len() > 0,
        suffix.last() != 'e',
    ensures
        arch_spec(GgufMetadataView { entries: m.entries.insert(arch_spec(m) + suffix, v), ..m }) == arch_spec(m),
{
    reveal_strlit("general.architecture");
    let k = arch_spec(m) + suffix;
    assert(k.last() == suffix.last());
    assert("general.architecture"@.last() == 'e');
    assert(k != "general.architecture"@);
}

/// The experts used per token come from `<arch>.expert_used_count`, and
/// only from it: setting that entry to `c` gives a description with `c`
/// experts per token, while setting `<arch>.expert_count` to `c` changes
/// the expert count to `c` and leaves the experts per token as they were.
pub proof fn law_experts_per_token_is_expert_used_count(
    name: Seq<char>,
    path: Seq<char>,
    m: GgufMetadataView,
    size: u64,
    c: u32,
    info: ModelInfo,
    used_set: ModelInfo,
    count_set: ModelInfo,
)
    requires
        gguf_model_matches(info, name, path, m, size),
        gguf_model_matches(used_set, name, path,
            GgufMetadataView { entries: m.entries.insert(arch_spec(m) + ".expert_used_count"@, GgufValueView::U32(c)), ..m }, size),
        gguf_model_matches(count_set, name, path,
            GgufMetadataView { entries: m.entries.insert(arch_spec(m) + ".expert_count"@, GgufValueView::U32(c)), ..m }, size),
    ensures
        used_set.num_experts_per_tok == c,
        count_set.num_experts == c,
        count_set.num_experts_per_tok == info.num_experts_per_tok,
{
    reveal_strlit(".expert_used_count");
    reveal_strlit(".expert_count");
    let a = arch_spec(m);
    let mu = GgufMetadataView { entries: m.entries.insert(a + ".expert_used_count"@, GgufValueView::U32(c)), ..m };
    let mc = GgufMetadataView { entries: m.entries.insert(a + ".expert_count"@, GgufValueView::U32(c)), ..m };
    lemma_arch_unchanged(m, ".expert_used_count"@, GgufValueView::U32(c));
    lemma_arch_unchanged(m, ".expert_count"@, GgufValueView::U32(c));
    assert(arch_spec(mu) == a);
    assert(arch_spec(mc) == a);
    assert((a + ".expert_count"@).len() != (a + ".expert_used_count"@).len());
    assert(mu.lookup(a + ".expert_used_count"@) == Some(GgufValueView::U32(c)));
    assert(mc.lookup(a + ".expert_count"@) == Some(GgufValueView::U32(c)));
    assert(mc.lookup(a + ".expert_used_count"@) == m.lookup(a + ".expert_used_count"@));
}

/// Each architecture field of the description is read from its own key:
/// setting `<arch>.block_count`, `<arch>.embedding_length`,
/// `<arch>.attention.head_count` or `<arch>.attention.head_count_kv` to `c`
/// makes the layer count, the hidden size, the attention head count or the
/// key/value head count `c`; setting `<arch>.rope.dimension_count` to `c`
/// makes the head width `c` whatever the width and head count; setting
/// `<arch>.context_length` to `p` makes the context limit `p`; setting
/// `general.parameter_count` to `p` makes the parameter count `p`.
pub proof fn law_architecture_keys_set_fields(
    name: Seq<char>,
    path: Seq<char>,
    m: GgufMetadataView,
    size: u64,
    c: u32,
    p: u64,
    layers: ModelInfo,
    width: ModelInfo,
    heads: ModelInfo,
    kv_heads: ModelInfo,
    rope: ModelInfo,
    context: ModelInfo,
    params: ModelInfo,
)
    requires
        gguf_model_matches(layers, name, path, GgufMetadataView { entries: m.entries.insert(arch_spec(m) + ".block_count"@, GgufValueView::U32(c)), ..m }, size),
        gguf_model_matches(width, name, path, GgufMetadataView { entries: m.entries.insert(arch_spec(m) + ".embedding_length"@, GgufValueView::U32(c)), ..m }, size),
        gguf_model_matches(heads, name, path, GgufMetadataView { entries: m.entries.insert(arch_spec(m) + ".attention.head_count"@, GgufValueView::U32(c)), ..m }, size),
        gguf_model_matches(kv_heads, name, path, GgufMetadataView { entries: m.entries.insert(arch_spec(m) + ".attention.head_count_kv"@, GgufValueView::U32(c)), ..m }, size),
        gguf_model_matches(rope, name, path, GgufMetadataView { entries: m.entries.insert(arch_spec(m) + ".rope.dimension_count"@, GgufValueView::U32(c)), ..m }, size),
        gguf_model_matches(context, name, path, GgufMetadataView { entries: m.entries.insert(arch_spec(m) + ".context_length"@, GgufValueView::U64(p)), ..m }, size),
        gguf_model_matches(params, name, path,
            GgufMetadataView { entries: m.entries.insert("general.parameter_count"@, GgufValueView::U64(p)), ..m }, size),
    ensures
        layers.num_hidden_layers == c,
        width.hidden_size == c,
        heads.num_attention_heads == c,
        kv_heads.num_key_value_heads == c,
        rope.head_dim == c,
        context.max_position_embeddings == p,
        params.total_parameters == p,
{
    reveal_strlit(".block_count");
    reveal_strlit(".embedding_length");
    reveal_strlit(".attention.head_count");
    reveal_strlit(".attention.head_count_kv");
    reveal_strlit("general.parameter_count");
    reveal_strlit("general.architecture");
    let a = arch_spec(m);
    lemma_arch_unchanged(m, ".block_count"@, GgufValueView::U32(c));
    lemma_arch_unchanged(m, ".embedding_length"@, GgufValueView::U32(c));
    lemma_arch_unchanged(m, ".attention.head_count"@, GgufValueView::U32(c));
    lemma_arch_unchanged(m, ".attention.head_count_kv"@, GgufValueView::U32(c));
    reveal_strlit(".rope.dimension_count");
    reveal_strlit(".context_length");
    lemma_arch_unchanged(m, ".rope.dimension_count"@, GgufValueView::U32(c));
    lemma_arch_unchanged(m, ".context_length"@, GgufValueView::U64(p));
    let mp = GgufMetadataView { entries: m.entries.insert("general.parameter_count"@, GgufValueView::U64(p)), ..m };
    assert("general.parameter_count"@.len() != "general.architecture"@.len());
    assert(arch_spec(mp) == a);
    assert(mp.lookup("general.parameter_count"@) == Some(GgufValueView::U64(p)));
}

} // verus!
