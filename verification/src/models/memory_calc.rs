//! Memory estimates for a model on given hardware: KV cache growth with the
//! context length, the largest context that stays in memory, and the fit status.
use vstd::prelude::*;
use super::{ModelInfo, lemma_mul_bound};

verus! {

/// Memory the operating system keeps for itself (3.5 GiB).
pub const OS_RESERVED_BYTES: u64 = 3_758_096_384;

/// Safety margin kept free when computing the largest safe context (1 GiB).
pub const BUFFER_BYTES: u64 = 1_073_741_824;

/// One GiB.
pub const GIB: u64 = 1_073_741_824;

/// Context lengths the analysis reports, shortest first.
pub open spec fn report_contexts() -> Seq<u64> {
    seq![4096u64, 8192, 16384, 32768, 65536, 131072]
}

/// Memory needed by a model at one context length.
#[derive(Debug, Clone, Copy, PartialEq, Eq, Structural)]
pub struct MemoryEstimate {
    pub weight_bytes: u64,
    pub kv_cache_bytes: u64,
    pub overhead_bytes: u64,
    pub os_reserved_bytes: u64,
    pub total_bytes: u64,
    pub context_length: u64,
}

/// How well a model fits.
#[derive(Debug, Clone, Copy, PartialEq, Eq, Structural)]
pub enum SpiceStatus {
    /// More than 4 GiB of headroom.
    AbundantSpice,
    /// 1 to 4 GiB of headroom.
    SpiceThinning,
    /// Under 1 GiB of headroom, or a short safe context.
    SpiceScarcity,
    /// No headroom at all: the model would swap.
    DesertDrought,
}

impl SpiceStatus {
    /// The status's name.
    pub fn label(&self) -> (r: &'static str)
        ensures
            r@ == match *self {
                SpiceStatus::AbundantSpice => "Abundant Spice"@,
                SpiceStatus::SpiceThinning => "Spice Thinning"@,
                SpiceStatus::SpiceScarcity => "Spice Scarcity"@,
                SpiceStatus::DesertDrought => "Desert Drought"@,
            },
    {
        match self {
            SpiceStatus::AbundantSpice => "Abundant Spice",
            SpiceStatus::SpiceThinning => "Spice Thinning",
            SpiceStatus::SpiceScarcity => "Spice Scarcity",
            SpiceStatus::DesertDrought => "Desert Drought",
        }
    }

    /// The fit status shown in the model tables: Fits, Tight, Limited or OOM.
    pub fn icon(&self) -> (r: &'static str)
        ensures
            r@ == match *self {
                SpiceStatus::AbundantSpice => "✓ Fits"@,
                SpiceStatus::SpiceThinning => "△ Tight"@,
                SpiceStatus::SpiceScarcity => "△ Limited"@,
                SpiceStatus::DesertDrought => "✗ OOM"@,
            },
    {
        match self {
            SpiceStatus::AbundantSpice => "✓ Fits",
            SpiceStatus::SpiceThinning => "△ Tight",
            SpiceStatus::SpiceScarcity => "△ Limited",
            SpiceStatus::DesertDrought => "✗ OOM",
        }
    }
}

/// Whether the model uses multi-head latent attention (all three MLA sizes known).
pub open spec fn is_mla(m: ModelInfo) -> bool {
    m.v_head_dim is Some && m.qk_nope_head_dim is Some && m.qk_rope_head_dim is Some
}

/// KV cache bytes per token, in FP16 (2 bytes per element). With latent
/// attention the key width is `qk_nope + qk_rope` and the value width
/// `v_head_dim`; otherwise keys and values are both `head_dim` wide.
pub open spec fn kv_per_token_spec(m: ModelInfo) -> int {
    if is_mla(m) {
        m.num_hidden_layers * m.num_key_value_heads
            * ((m.qk_nope_head_dim->0 + m.qk_rope_head_dim->0) + m.v_head_dim->0) * 2
    } else {
        2 * m.num_hidden_layers * m.num_key_value_heads * m.head_dim * 2
    }
}

/// The per-token size can be computed in 64 bits, each partial product included.
pub open spec fn kv_in_range(m: ModelInfo) -> bool {
    if is_mla(m) {
        &&& m.qk_nope_head_dim->0 + m.qk_rope_head_dim->0 <= u32::MAX
        &&& m.num_hidden_layers * m.num_key_value_heads
            * ((m.qk_nope_head_dim->0 + m.qk_rope_head_dim->0) + m.v_head_dim->0) <= u64::MAX
        &&& kv_per_token_spec(m) <= u64::MAX
    } else {
        &&& 2 * m.num_hidden_layers * m.num_key_value_heads <= u64::MAX
        &&& 2 * m.num_hidden_layers * m.num_key_value_heads * m.head_dim <= u64::MAX
        &&& kv_per_token_spec(m) <= u64::MAX
    }
}

/// Runtime overhead: a tenth of the weights (rounded down).
pub open spec fn overhead_of(weight_bytes: u64) -> int {
    (weight_bytes / 10) as int
}

/// Total memory at a context length.
pub open spec fn estimate_total(m: ModelInfo, ctx: u64) -> int {
    m.total_size_bytes + kv_per_token_spec(m) * ctx + overhead_of(m.total_size_bytes) + OS_RESERVED_BYTES
}

/// The estimate at `ctx` can be computed without overflow.
pub open spec fn estimate_in_range(m: ModelInfo, ctx: u64) -> bool {
    &&& kv_in_range(m)
    &&& estimate_total(m, ctx) <= u64::MAX
}

/// Bytes left for the KV cache: RAM less the OS share, the weights, the
/// overhead and the safety buffer (never below zero).
pub open spec fn kv_budget(m: ModelInfo, total_ram: u64) -> int {
    let r = total_ram - OS_RESERVED_BYTES - m.total_size_bytes - overhead_of(m.total_size_bytes) - BUFFER_BYTES;
    if r > 0 { r } else { 0 }
}

/// The largest context whose KV cache fits in the budget (0 when a token needs no cache).
pub open spec fn max_safe_context_spec(m: ModelInfo, total_ram: u64) -> int {
    if kv_per_token_spec(m) == 0 { 0 } else { kv_budget(m, total_ram) / kv_per_token_spec(m) }
}

/// KV cache bytes per token.
pub fn kv_per_token(model: &ModelInfo) -> (r: u64)
    requires
        kv_in_range(*model),
    ensures
        r == kv_per_token_spec(*model),
{
    if let (Some(v_dim), Some(nope_dim), Some(rope_dim)) =
        (model.v_head_dim, model.qk_nope_head_dim, model.qk_rope_head_dim)
    {
        let k_dim = (nope_dim + rope_dim) as u64;
        let v_dim = v_dim as u64;
        let layers = model.num_hidden_layers as u64;
        let kv_heads = model.num_key_value_heads as u64;
        proof { lemma_mul_bound(layers as int, kv_heads as int, 0xffff_ffff, 0xffff_ffff); }
        return layers * kv_heads * (k_dim + v_dim) * 2;
    }
    2 * model.num_hidden_layers as u64 * model.num_key_value_heads as u64 * model.head_dim as u64 * 2
}

/// The estimate at one context length, field by field.
pub open spec fn estimate_spec(m: ModelInfo, ctx: u64) -> MemoryEstimate {
    MemoryEstimate {
        weight_bytes: m.total_size_bytes,
        kv_cache_bytes: (kv_per_token_spec(m) * ctx) as u64,
        overhead_bytes: overhead_of(m.total_size_bytes) as u64,
        os_reserved_bytes: OS_RESERVED_BYTES,
        total_bytes: estimate_total(m, ctx) as u64,
        context_length: ctx,
    }
}

/// Memory needed at context length `context_len`: weights, KV cache, runtime
/// overhead and the OS reservation.
pub fn estimate_at_context(model: &ModelInfo, context_len: u64) -> (r: MemoryEstimate)
    requires
        estimate_in_range(*model, context_len),
    ensures
        r == estimate_spec(*model, context_len),
        r.total_bytes == r.weight_bytes + r.kv_cache_bytes + r.overhead_bytes + r.os_reserved_bytes,
{
    let weight_bytes = model.total_size_bytes;
    let per_token = kv_per_token(model);
    let kv_bytes = per_token * context_len;
    let overhead_bytes = weight_bytes / 10;
    MemoryEstimate {
        weight_bytes,
        kv_cache_bytes: kv_bytes,
        overhead_bytes,
        os_reserved_bytes: OS_RESERVED_BYTES,
        total_bytes: weight_bytes + kv_bytes + overhead_bytes + OS_RESERVED_BYTES,
        context_length: context_len,
    }
}

/// Whether `estimate_at_context` can be computed for this model and context.
pub fn estimate_fits(model: &ModelInfo, context_len: u64) -> (r: bool)
    ensures
        r == estimate_in_range(*model, context_len),
{
    if !kv_fits(model) {
        return false;
    }
    let per_token = kv_per_token(model) as u128;
    proof { lemma_mul_bound(per_token as int, context_len as int, u64::MAX as int, u64::MAX as int); }
    let total = model.total_size_bytes as u128 + per_token * (context_len as u128)
        + (model.total_size_bytes / 10) as u128 + OS_RESERVED_BYTES as u128;
    total <= u64::MAX as u128
}

/// Whether `kv_per_token` can be computed for this model.
pub fn kv_fits(model: &ModelInfo) -> (r: bool)
    ensures
        r == kv_in_range(*model),
{
    let layers = model.num_hidden_layers as u128;
    let heads = model.num_key_value_heads as u128;
    proof { lemma_mul_bound(layers as int, heads as int, 0xffff_ffff, 0xffff_ffff); }
    if let (Some(v_dim), Some(nope_dim), Some(rope_dim)) =
        (model.v_head_dim, model.qk_nope_head_dim, model.qk_rope_head_dim)
    {
        let k = nope_dim as u128 + rope_dim as u128;
        if k > u32::MAX as u128 {
            return false;
        }
        let width = k + v_dim as u128;
        proof { lemma_mul_bound(layers * heads, width as int, 0xffff_ffff_int * 0xffff_ffff_int, 0x1_ffff_fffe); }
        let p = layers * heads * width;
        if p > u64::MAX as u128 {
            return false;
        }
        p * 2 <= u64::MAX as u128
    } else {
        proof { lemma_mul_bound(2 * layers, heads as int, 0x1_ffff_fffe, 0xffff_ffff); }
        let p = 2 * layers * heads;
        if p > u64::MAX as u128 {
            return false;
        }
        proof { lemma_mul_bound(p as int, model.head_dim as int, u64::MAX as int, 0xffff_ffff); }
        let q = p * model.head_dim as u128;
        if q > u64::MAX as u128 {
            return false;
        }
        q * 2 <= u64::MAX as u128
    }
}

/// Largest context length whose KV cache fits in RAM after the OS share,
/// the weights, the overhead and a 1 GiB safety buffer.
pub fn max_safe_context(model: &ModelInfo, total_ram_bytes: u64) -> (r: u64)
    requires
        kv_in_range(*model),
    ensures
        r == max_safe_context_spec(*model, total_ram_bytes),
{
    let available = total_ram_bytes.saturating_sub(OS_RESERVED_BYTES);
    let weight_bytes = model.total_size_bytes;
    let overhead = weight_bytes / 10;
    let remaining = available.saturating_sub(weight_bytes).saturating_sub(overhead).saturating_sub(BUFFER_BYTES);
    let kv_per_tok = kv_per_token(model);
    if kv_per_tok == 0 {
        return 0;
    }
    remaining / kv_per_tok
}

/// The fit status from the headroom at 4K context and the largest safe context.
pub open spec fn classify_spec(headroom_bytes: i64, max_safe_ctx: u64) -> SpiceStatus {
    if headroom_bytes < 0 || max_safe_ctx < 8192 {
        SpiceStatus::DesertDrought
    } else if max_safe_ctx < 16384 {
        SpiceStatus::SpiceScarcity
    } else if headroom_bytes > 4 * GIB {
        SpiceStatus::AbundantSpice
    } else if headroom_bytes > GIB {
        SpiceStatus::SpiceThinning
    } else {
        SpiceStatus::SpiceScarcity
    }
}

/// Classifies a model by its headroom (bytes; negative means it does not
/// fit at 4K context) and its largest safe context.
pub fn classify_status(headroom_bytes: i64, max_safe_ctx: u64) -> (r: SpiceStatus)
    ensures
        r == classify_spec(headroom_bytes, max_safe_ctx),
{
    if headroom_bytes < 0 || max_safe_ctx < 8192 {
        return SpiceStatus::DesertDrought;
    }
    if max_safe_ctx < 16384 {
        return SpiceStatus::SpiceScarcity;
    }
    if headroom_bytes > 4 * GIB as i64 {
        SpiceStatus::AbundantSpice
    } else if headroom_bytes > GIB as i64 {
        SpiceStatus::SpiceThinning
    } else {
        SpiceStatus::SpiceScarcity
    }
}

/// The memory analysis of a model on given hardware.
#[derive(Debug)]
pub struct ModelAnalysis {
    /// Estimates at the reported context lengths the model supports.
    pub estimates: Vec<MemoryEstimate>,
    pub max_safe_context: u64,
    /// RAM left at 4K context (negative: the model does not fit).
    pub headroom_bytes: i64,
    pub status: SpiceStatus,
    pub kv_per_token_bytes: u64,
}

/// Estimates for those of `ctxs` that are at most `limit`, in order.
pub open spec fn estimates_for(m: ModelInfo, ctxs: Seq<u64>, limit: u64) -> Seq<MemoryEstimate>
    decreases ctxs.len(),
{
    if ctxs.len() == 0 {
        Seq::empty()
    } else {
        let rest = estimates_for(m, ctxs.drop_last(), limit);
        if ctxs.last() <= limit { rest.push(estimate_spec(m, ctxs.last())) } else { rest }
    }
}

/// RAM left at 4K context, computed as signed 64-bit numbers.
pub open spec fn headroom_spec(m: ModelInfo, total_ram: u64) -> int {
    (total_ram as i64) - ((estimate_total(m, 4096) as u64) as i64)
}

/// The analysis can be computed without overflow.
pub open spec fn analysis_in_range(m: ModelInfo, total_ram: u64) -> bool {
    &&& estimate_in_range(m, 4096)
    &&& forall|i: int| 0 <= i < 6 && report_contexts()[i] <= m.max_position_embeddings
            ==> estimate_in_range(m, #[trigger] report_contexts()[i])
    &&& i64::MIN <= headroom_spec(m, total_ram) <= i64::MAX
}

/// Analyzes `model` on a machine with `total_ram_bytes` of memory.
pub fn analyze(model: &ModelInfo, total_ram_bytes: u64) -> (r: ModelAnalysis)
    requires
        analysis_in_range(*model, total_ram_bytes),
    ensures
        r.estimates@ == estimates_for(*model, report_contexts(), model.max_position_embeddings),
        r.max_safe_context == max_safe_context_spec(*model, total_ram_bytes),
        r.headroom_bytes == headroom_spec(*model, total_ram_bytes),
        r.status == classify_spec(r.headroom_bytes, r.max_safe_context),
        r.kv_per_token_bytes == kv_per_token_spec(*model),
        is_analysis_of(r, *model, total_ram_bytes),
{
    let contexts: [u64; 6] = [4096, 8192, 16384, 32768, 65536, 131072];
    assert(contexts@ == report_contexts());
    let mut estimates: Vec<MemoryEstimate> = Vec::new();
    let mut i: usize = 0;
    while i < 6
        invariant
            i <= 6,
            contexts@ == report_contexts(),
            analysis_in_range(*model, total_ram_bytes),
            estimates@ == estimates_for(*model, report_contexts().take(i as int), model.max_position_embeddings),
        decreases 6 - i,
    {
        let ctx = contexts[i];
        assert(report_contexts().take(i + 1).drop_last() == report_contexts().take(i as int));
        if ctx <= model.max_position_embeddings {
            assert(report_contexts()[i as int] == ctx);
            estimates.push(estimate_at_context(model, ctx));
        }
        i += 1;
    }
    assert(report_contexts().take(6) == report_contexts());
    let max_ctx = max_safe_context(model, total_ram_bytes);
    let est_4k = estimate_at_context(model, 4096);
    let headroom = total_ram_bytes as i64 - est_4k.total_bytes as i64;
    let status = classify_status(headroom, max_ctx);
    let kv_per_tok = kv_per_token(model);
    ModelAnalysis {
        estimates,
        max_safe_context: max_ctx,
        headroom_bytes: headroom,
        status,
        kv_per_token_bytes: kv_per_tok,
    }
}

/// What `analyze` gives for `m` on a machine with `total_ram` bytes of memory.
pub open spec fn is_analysis_of(a: ModelAnalysis, m: ModelInfo, total_ram: u64) -> bool {
    &&& a.estimates@ == estimates_for(m, report_contexts(), m.max_position_embeddings)
    &&& a.max_safe_context == max_safe_context_spec(m, total_ram)
    &&& a.headroom_bytes == headroom_spec(m, total_ram)
    &&& a.status == classify_spec(a.headroom_bytes, a.max_safe_context)
    &&& a.kv_per_token_bytes == kv_per_token_spec(m)
}

/// The analysis of each model, in the models' order; `None` when some
/// model's figures do not fit in 64 bits.
pub fn analyze_models(models: &Vec<ModelInfo>, total_ram_bytes: u64) -> (r: Option<Vec<ModelAnalysis>>)
    ensures
        r is Some <==> forall|i: int| 0 <= i < models.len() ==> analysis_in_range(#[trigger] models[i], total_ram_bytes),
        r matches Some(v) ==> v.len() == models.len()
            && forall|i: int| 0 <= i < models.len() ==> is_analysis_of(#[trigger] v[i], models[i], total_ram_bytes),
{
    let mut out: Vec<ModelAnalysis> = Vec::new();
    let mut i: usize = 0;
    while i < models.len()
        invariant
            i <= models.len(),
            out.len() == i,
            forall|j: int| 0 <= j < i ==> analysis_in_range(#[trigger] models[j], total_ram_bytes),
            forall|j: int| 0 <= j < i ==> is_analysis_of(#[trigger] out[j], models[j], total_ram_bytes),
        decreases models.len() - i,
    {
        if !analysis_fits(&models[i], total_ram_bytes) {
            return None;
        }
        let a = analyze(&models[i], total_ram_bytes);
        out.push(a);
        i += 1;
    }
    Some(out)
}

/// Whether `analyze` can be computed for this model and amount of RAM.
pub fn analysis_fits(model: &ModelInfo, total_ram_bytes: u64) -> (r: bool)
    ensures
        r == analysis_in_range(*model, total_ram_bytes),
{
    if !estimate_fits(model, 4096) {
        return false;
    }
    let contexts: [u64; 6] = [4096, 8192, 16384, 32768, 65536, 131072];
    assert(contexts@ == report_contexts());
    let mut i: usize = 0;
    while i < 6
        invariant
            i <= 6,
            contexts@ == report_contexts(),
            forall|j: int| 0 <= j < i && report_contexts()[j] <= model.max_position_embeddings
                ==> estimate_in_range(*model, #[trigger] report_contexts()[j]),
        decreases 6 - i,
    {
        if contexts[i] <= model.max_position_embeddings && !estimate_fits(model, contexts[i]) {
            return false;
        }
        i += 1;
    }
    let total = estimate_at_context(model, 4096).total_bytes;
    let h = (total_ram_bytes as i64) as i128 - (total as i64) as i128;
    i64::MIN as i128 <= h && h <= i64::MAX as i128
}

/// The KV cache per token is never negative.
pub proof fn lemma_kv_nonneg(m: ModelInfo)
    ensures
        kv_per_token_spec(m) >= 0,
{
    if is_mla(m) {
        let w = (m.qk_nope_head_dim->0 + m.qk_rope_head_dim->0) + m.v_head_dim->0;
        assert(m.num_hidden_layers * m.num_key_value_heads * w * 2 >= 0) by (nonlinear_arith)
            requires w >= 0, m.num_hidden_layers >= 0, m.num_key_value_heads >= 0;
    } else {
        assert(2 * m.num_hidden_layers * m.num_key_value_heads * m.head_dim * 2 >= 0) by (nonlinear_arith)
            requires m.num_hidden_layers >= 0, m.num_key_value_heads >= 0, m.head_dim >= 0;
    }
}

/// A longer context never needs less memory.
pub proof fn law_estimate_grows_with_context(m: ModelInfo, c1: u64, c2: u64)
    requires
        c1 <= c2,
    ensures
        estimate_total(m, c1) <= estimate_total(m, c2),
        estimate_spec(m, c1).weight_bytes == estimate_spec(m, c2).weight_bytes,
{
    lemma_kv_nonneg(m);
    let k = kv_per_token_spec(m);
    assert(k * c1 <= k * c2) by (nonlinear_arith)
        requires k >= 0, c1 <= c2;
}

/// The largest safe context is exactly the longest context whose KV cache
/// fits in what RAM leaves after the OS share, the weights, the overhead and
/// the safety buffer: every context up to it fits, every longer one does not.
pub proof fn law_max_safe_context_is_largest_fit(m: ModelInfo, total_ram: u64, ctx: nat)
    requires
        kv_per_token_spec(m) > 0,
    ensures
        ctx <= max_safe_context_spec(m, total_ram) <==> kv_per_token_spec(m) * ctx <= kv_budget(m, total_ram),
{
    let k = kv_per_token_spec(m);
    let b = kv_budget(m, total_ram);
    assert(b >= 0);
    vstd::arithmetic::div_mod::lemma_fundamental_div_mod(b, k);
    let q = b / k;
    let r = b % k;
    assert(0 <= r < k) by {
        vstd::arithmetic::div_mod::lemma_mod_bound(b, k);
    }
    assert(b == k * q + r);
    if ctx <= q {
        assert(k * ctx <= k * q) by (nonlinear_arith)
            requires k > 0, ctx <= q;
    } else {
        assert(k * ctx >= k * (q + 1)) by (nonlinear_arith)
            requires k > 0, ctx >= q + 1;
        assert(k * (q + 1) == k * q + k) by (nonlinear_arith);
    }
}

/// A model is in drought exactly when it does not fit at 4K context or its
/// safe context is under 8K; abundant spice means over 4 GiB of headroom and
/// at least a 16K safe context.
pub proof fn law_status_thresholds(headroom_bytes: i64, max_safe_ctx: u64)
    ensures
        (classify_spec(headroom_bytes, max_safe_ctx) == SpiceStatus::DesertDrought)
            <==> (headroom_bytes < 0 || max_safe_ctx < 8192),
        classify_spec(headroom_bytes, max_safe_ctx) == SpiceStatus::AbundantSpice
            ==> headroom_bytes > 4 * GIB && max_safe_ctx >= 16384,
        classify_spec(headroom_bytes, max_safe_ctx) == SpiceStatus::SpiceThinning
            ==> GIB < headroom_bytes <= 4 * GIB && max_safe_ctx >= 16384,
{
}

/// Every reported estimate is for a context the model supports, and the
/// contexts strictly increase.
pub proof fn law_estimates_within_context(m: ModelInfo, ctxs: Seq<u64>, limit: u64)
    requires
        forall|i: int, j: int| 0 <= i < j < ctxs.len() ==> ctxs[i] < ctxs[j],
    ensures
        forall|i: int| 0 <= i < estimates_for(m, ctxs, limit).len()
            ==> (#[trigger] estimates_for(m, ctxs, limit)[i]).context_length <= limit,
        forall|i: int, j: int| 0 <= i < j < estimates_for(m, ctxs, limit).len()
            ==> estimates_for(m, ctxs, limit)[i].context_length < estimates_for(m, ctxs, limit)[j].context_length,
        forall|i: int| 0 <= i < estimates_for(m, ctxs, limit).len()
            ==> ctxs.contains(#[trigger] estimates_for(m, ctxs, limit)[i].context_length),
    decreases ctxs.len(),
{
    if ctxs.len() > 0 {
        let front = ctxs.drop_last();
        law_estimates_within_context(m, front, limit);
        let rest = estimates_for(m, front, limit);
        let all = estimates_for(m, ctxs, limit);
        assert forall|i: int| 0 <= i < rest.len() implies ctxs.contains(#[trigger] rest[i].context_length)
            && rest[i].context_length < ctxs.last() by {
            assert(front.contains(rest[i].context_length));
            let k = choose|k: int| 0 <= k < front.len() && front[k] == rest[i].context_length;
            assert(ctxs[k] == front[k]);
        }
        if ctxs.last() <= limit {
            assert(all == rest.push(estimate_spec(m, ctxs.last())));
            assert(ctxs.contains(ctxs.last())) by { assert(ctxs[ctxs.len() - 1] == ctxs.last()); }
        }
    }
}

} // verus!
