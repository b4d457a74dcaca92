//! Local inference engines.
use vstd::prelude::*;
use crate::text;
use crate::text::{trim_ws, utf8_lossy};

verus! {

/// One inference engine and whether it is installed.
pub struct EngineInfo {
    pub name: String,
    pub version: Option<String>,
    pub found: bool,
}

/// The engines the dashboard looks for, in a fixed order.
pub struct InferenceEngines {
    pub engines: Vec<EngineInfo>,
}

/// Names of the installed engines, in order.
pub open spec fn found_names(es: Seq<EngineInfo>) -> Seq<Seq<char>>
    decreases es.len(),
{
    if es.len() == 0 {
        Seq::empty()
    } else {
        let front = found_names(es.drop_last());
        if es.last().found { front.push(es.last().name@) } else { front }
    }
}

/// What the system checks found: which commands and Python packages exist.
pub struct EngineProbes {
    pub llama_server: bool,
    pub llama_cli: bool,
    pub llama_bench: bool,
    pub mlx_lm: bool,
    /// The installed `mlx_lm` version, when it could be read.
    pub mlx_version: Option<String>,
    pub ollama: bool,
    pub vllm_command: bool,
    pub vllm_package: bool,
    pub exllamav2: bool,
}

impl InferenceEngines {
    /// The installed engines' names joined by ", ", or "None detected".
    pub fn display(&self) -> (r: String)
        ensures
            r@ == (if found_names(self.engines@).len() == 0 {
                "None detected"@
            } else {
                text::join_seq(found_names(self.engines@), ", "@)
            }),
    {
        let mut out = String::new();
        let mut count: usize = 0;
        let mut i: usize = 0;
        while i < self.engines.len()
            invariant
                i <= self.engines.len(),
                count == found_names(self.engines@.take(i as int)).len(),
                count <= i,
                out@ == text::join_seq(found_names(self.engines@.take(i as int)), ", "@),
            decreases self.engines.len() - i,
        {
            let ghost names = found_names(self.engines@.take(i as int));
            assert(self.engines@.take(i + 1).drop_last() == self.engines@.take(i as int));
            if self.engines[i].found {
                if count > 0 {
                    out.append(", ");
                }
                out.append(self.engines[i].name.as_str());
                count += 1;
                proof {
                    let grown = names.push(self.engines@[i as int].name@);
                    assert(grown.drop_last() == names);
                    if count == 0 {
                        assert(names.len() == 0);
                        assert(out@ == grown[0]);
                    }
                }
            }
            i += 1;
        }
        assert(self.engines@.take(self.engines@.len() as int) == self.engines@);
        if count == 0 {
            return String::from_str("None detected");
        }
        out
    }
}

/// A package version from the raw output of the version query: trimmed,
/// `None` when blank.
pub fn package_version(out: &[u8]) -> (r: Option<String>)
    ensures
        trim_ws(utf8_lossy(out@)).len() == 0 ==> r is None,
        trim_ws(utf8_lossy(out@)).len() > 0 ==> (r matches Some(v) && v@ == trim_ws(utf8_lossy(out@))),
{
    let s = text::lossy_string(out);
    let t = text::trim_str(s.as_str());
    if t.len() == 0 {
        None
    } else {
        Some(text::string_of(t.as_slice()))
    }
}

/// The five engines from the checks' results: llama.cpp (any of its three
/// commands), MLX (the `mlx_lm` package, with its version), Ollama, vLLM
/// (command or package) and ExLlamaV2.
pub fn detect(p: EngineProbes) -> (r: InferenceEngines)
    ensures
        r.engines.len() == 5,
        r.engines[0].name@ == "llama.cpp"@ && r.engines[0].version is None
            && r.engines[0].found == (p.llama_server || p.llama_cli || p.llama_bench),
        r.engines[1].name@ == "MLX"@ && r.engines[1].found == p.mlx_lm
            && r.engines[1].version == (if p.mlx_lm { p.mlx_version } else { None }),
        r.engines[2].name@ == "Ollama"@ && r.engines[2].version is None && r.engines[2].found == p.ollama,
        r.engines[3].name@ == "vLLM"@ && r.engines[3].version is None
            && r.engines[3].found == (p.vllm_command || p.vllm_package),
        r.engines[4].name@ == "ExLlamaV2"@ && r.engines[4].version is None && r.engines[4].found == p.exllamav2,
{
    let mut engines: Vec<EngineInfo> = Vec::new();
    engines.push(EngineInfo {
        name: String::from_str("llama.cpp"),
        version: None,
        found: p.llama_server || p.llama_cli || p.llama_bench,
    });
    engines.push(EngineInfo {
        name: String::from_str("MLX"),
        version: if p.mlx_lm { p.mlx_version } else { None },
        found: p.mlx_lm,
    });
    engines.push(EngineInfo { name: String::from_str("Ollama"), version: None, found: p.ollama });
    engines.push(EngineInfo {
        name: String::from_str("vLLM"),
        version: None,
        found: p.vllm_command || p.vllm_package,
    });
    engines.push(EngineInfo { name: String::from_str("ExLlamaV2"), version: None, found: p.exllamav2 });
    InferenceEngines { engines }
}

} // verus!
