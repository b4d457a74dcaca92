//! Display names for technical terms.
use vstd::prelude::*;
use crate::text;

verus! {

/// The display name of a technical term; unknown terms are shown as they are.
pub open spec fn term_spec(name: Seq<char>) -> Seq<char> {
    if name == "available_ram"@ { "Memory Reserves"@ } else
    if name == "compatibility"@ { "Fit Status"@ } else
    if name == "gpu_cores"@ { "GPU Cores"@ } else
    if name == "context_window"@ { "Context Window"@ } else
    if name == "tok_s"@ { "Token Rate"@ } else
    if name == "swap_danger"@ { "OOM"@ } else
    if name == "safe_to_run"@ { "Fits"@ } else
    if name == "max_safe_context"@ { "Horizon Limit"@ } else
    if name == "os_reserved"@ { "OS Reserved"@ } else
    if name == "weight_memory"@ { "Weight Memory"@ } else
    if name == "kv_cache"@ { "KV Cache"@ } else
    if name == "overhead"@ { "Overhead"@ } else
    if name == "total_memory"@ { "Total Memory"@ } else
    { name }
}

/// The display name of `tech_name`.
pub fn term<'a>(tech_name: &'a str) -> (r: &'a str)
    ensures
        r@ == term_spec(tech_name@),
{
    if text::str_eq(tech_name, "available_ram") { return "Memory Reserves"; }
    if text::str_eq(tech_name, "compatibility") { return "Fit Status"; }
    if text::str_eq(tech_name, "gpu_cores") { return "GPU Cores"; }
    if text::str_eq(tech_name, "context_window") { return "Context Window"; }
    if text::str_eq(tech_name, "tok_s") { return "Token Rate"; }
    if text::str_eq(tech_name, "swap_danger") { return "OOM"; }
    if text::str_eq(tech_name, "safe_to_run") { return "Fits"; }
    if text::str_eq(tech_name, "max_safe_context") { return "Horizon Limit"; }
    if text::str_eq(tech_name, "os_reserved") { return "OS Reserved"; }
    if text::str_eq(tech_name, "weight_memory") { return "Weight Memory"; }
    if text::str_eq(tech_name, "kv_cache") { return "KV Cache"; }
    if text::str_eq(tech_name, "overhead") { return "Overhead"; }
    if text::str_eq(tech_name, "total_memory") { return "Total Memory"; }
    tech_name
}

} // verus!
