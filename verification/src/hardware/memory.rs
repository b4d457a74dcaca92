//! Memory: totals, wired memory, and the processes that hold the most.
use vstd::prelude::*;
use crate::text;
use crate::text::{lines_of, seq_contains, seq_starts_with, second_piece, split_char, trim_end_char,
    trim_ws, utf8_lossy, parse_u64_spec, replace_all};

verus! {

/// One application and the memory its processes hold.
pub struct ProcessMemory {
    pub name: String,
    pub memory_bytes: u64,
}

/// Memory as the dashboard shows it.
pub struct MemoryInfo {
    pub total_bytes: u64,
    pub used_bytes: u64,
    pub available_bytes: u64,
    pub wired_bytes: u64,
    pub swap_total_bytes: u64,
    pub swap_used_bytes: u64,
    pub is_unified: bool,
    pub top_processes: Vec<ProcessMemory>,
}

/// Page size assumed when `vm_stat` does not state one (Apple Silicon's).
pub const DEFAULT_PAGE_SIZE: u64 = 16384;
/// Wired memory assumed when it cannot be read: 4 GiB.
pub const WIRED_FALLBACK_BYTES: u64 = 4294967296;
/// Processes holding less than this are left out of the top list.
pub const MIN_PROCESS_BYTES: u64 = 50000000;
/// How many applications the top list holds at most.
pub const TOP_PROCESS_COUNT: usize = 4;

/// Processes the user cannot or should not close (a process whose name
/// starts with one of these is one of them).
pub open spec fn system_procs() -> Seq<Seq<char>> {
    seq![
        "kernel_task"@, "launchd"@, "loginwindow"@, "WindowServer"@, "mds"@, "mds_stores"@,
        "mdworker"@, "mdworker_shared"@, "opendirectoryd"@, "fseventsd"@, "distnoted"@,
        "cfprefsd"@, "syslogd"@, "UserEventAgent"@, "trustd"@, "securityd"@, "coreduetd"@,
        "sharingd"@, "diagnosticd"@, "logd"@, "watchdogd"@, "powerd"@, "airportd"@,
        "bluetoothd"@, "containermanagerd"@, "symptomsd"@, "dasd"@, "remoted"@, "notifyd"@,
        "lsd"@, "cloudd"@, "nsurlsessiond"@, "sandboxd"@, "diskarbitrationd"@,
        "coreservicesd"@, "iconservicesagent"@, "coreauthd"@, "contextstored"@,
        "endpointsecurityd"@, "syspolicyd"@, "kernelmanagerd"@, "systemsoundserverd"@,
        "audiomxd"@, "corebrightnessd"@, "hidd"@, "mediaremoted"@, "CommCenter"@, "wifid"@,
        "thermald"@, "timed"@, "apsd"@, "biomed"@, "smd"@, "runningboardd"@, "revisiond"@,
        "corespotlightd"@, "Spotlight"@, "photolibraryd"@, "mediaanalysisd"@,
        "AMPDeviceDiscoveryAgent"@, "rapportd"@, "usermanagerd"@, "ctkd"@,
        "SoftwareUpdateNotificationManager"@, "ControlCenter"@, "Dock"@, "Finder"@,
        "SystemUIServer"@, "AirPlayUIAgent"@, "pboard"@, "universalaccessd"@, "melange"@,
    ]
}

/// The names of `system_procs`.
fn system_proc_names() -> (r: [&'static str; 72])
    ensures
        r@.map_values(|s: &str| s@) == system_procs(),
{
    let r = [
        "kernel_task", "launchd", "loginwindow", "WindowServer", "mds", "mds_stores",
        "mdworker", "mdworker_shared", "opendirectoryd", "fseventsd", "distnoted", "cfprefsd",
        "syslogd", "UserEventAgent", "trustd", "securityd", "coreduetd", "sharingd",
        "diagnosticd", "logd", "watchdogd", "powerd", "airportd", "bluetoothd",
        "containermanagerd", "symptomsd", "dasd", "remoted", "notifyd", "lsd", "cloudd",
        "nsurlsessiond", "sandboxd", "diskarbitrationd", "coreservicesd", "iconservicesagent",
        "coreauthd", "contextstored", "endpointsecurityd", "syspolicyd", "kernelmanagerd",
        "systemsoundserverd", "audiomxd", "corebrightnessd", "hidd", "mediaremoted",
        "CommCenter", "wifid", "thermald", "timed", "apsd", "biomed", "smd", "runningboardd",
        "revisiond", "corespotlightd", "Spotlight", "photolibraryd", "mediaanalysisd",
        "AMPDeviceDiscoveryAgent", "rapportd", "usermanagerd", "ctkd",
        "SoftwareUpdateNotificationManager", "ControlCenter", "Dock", "Finder",
        "SystemUIServer", "AirPlayUIAgent", "pboard", "universalaccessd", "melange",
    ];
    assert(r@.map_values(|s: &str| s@) =~= system_procs());
    r
}

/// A process left out of the top list: a system process, or an Apple framework.
pub open spec fn is_system_process(name: Seq<char>) -> bool {
    (exists|k: int| 0 <= k < system_procs().len() && #[trigger] seq_starts_with(name, system_procs()[k]))
        || seq_starts_with(name, "com.apple."@)
}

/// A process that counts toward the top list: not a system process, and
/// holding at least `MIN_PROCESS_BYTES`.
pub open spec fn kept(p: ProcessMemory) -> bool {
    !is_system_process(p.name@) && p.memory_bytes >= MIN_PROCESS_BYTES
}

/// The helper suffixes and ".app" removed, in this order.
pub open spec fn strip_helpers(name: Seq<char>) -> Seq<char> {
    replace_all(
        replace_all(
            replace_all(
                replace_all(replace_all(name, " Helper (Renderer)"@, Seq::empty()), " Helper (GPU)"@, Seq::empty()),
                " Helper (Plugin)"@,
                Seq::empty(),
            ),
            " Helper"@,
            Seq::empty(),
        ),
        ".app"@,
        Seq::empty(),
    )
}

/// Readable names for well-known applications.
pub open spec fn rename_app(n: Seq<char>) -> Seq<char> {
    if n == "Google Chrome"@ { "Chrome"@ }
    else if n == "Firefox"@ || n == "firefox"@ { "Firefox"@ }
    else if n == "Microsoft Edge"@ { "Edge"@ }
    else if n == "com.docker.vmnetd"@ || n == "com.docker.hyperkit"@ || n == "Docker Desktop"@
        || n == "com.docker.backend"@ { "Docker"@ }
    else if n == "com.apple.Safari"@ || n == "Safari"@ { "Safari"@ }
    else if n == "Code Helper"@ || n == "Electron"@ { "VS Code"@ }
    else if n == "Cursor"@ || n == "Cursor Helper"@ { "Cursor"@ }
    else if n == "node"@ { "Node.js"@ }
    else if n == "python3"@ || n == "python"@ || n == "Python"@ { "Python"@ }
    else if n == "ollama_llama_server"@ || n == "ollama"@ { "Ollama"@ }
    else { n }
}

/// The application a process belongs to.
pub open spec fn app_name(name: Seq<char>) -> Seq<char> {
    rename_app(strip_helpers(name))
}

/// Whether a process name marks a system process.
fn is_system_name(name: &[char]) -> (r: bool)
    ensures
        r == is_system_process(name@),
{
    let list = system_proc_names();
    let mut k: usize = 0;
    while k < 72
        invariant
            k <= 72,
            list@.map_values(|s: &str| s@) == system_procs(),
            forall|j: int| 0 <= j < k ==> !seq_starts_with(name@, #[trigger] system_procs()[j]),
        decreases 72 - k,
    {
        let pv = text::chars_of(list[k]);
        assert(pv@ == system_procs()[k as int]);
        if text::chars_start_with(name, pv.as_slice()) {
            return true;
        }
        k += 1;
    }
    let apple = text::chars_of("com.apple.");
    text::chars_start_with(name, apple.as_slice())
}

/// `v` with every `p` removed.
fn remove_all(v: &[char], p: &str) -> (r: Vec<char>)
    ensures
        r@ == replace_all(v@, p@, Seq::empty()),
{
    let pv = text::chars_of(p);
    let empty: Vec<char> = Vec::new();
    text::replace_chars(v, pv.as_slice(), empty.as_slice())
}

/// Whether `v` reads `lit`.
fn is_lit(v: &[char], lit: &str) -> (r: bool)
    ensures
        r == (v@ == lit@),
{
    let lv = text::chars_of(lit);
    text::chars_eq(v, lv.as_slice())
}

/// The application a process belongs to: "Google Chrome Helper" is
/// "Chrome", "Slack Helper (Renderer)" is "Slack".
pub fn normalize_process_name(name: &str) -> (r: String)
    ensures
        r@ == app_name(name@),
{
    let v = text::chars_of(name);
    let a = remove_all(v.as_slice(), " Helper (Renderer)");
    let b = remove_all(a.as_slice(), " Helper (GPU)");
    let c = remove_all(b.as_slice(), " Helper (Plugin)");
    let d = remove_all(c.as_slice(), " Helper");
    let n = remove_all(d.as_slice(), ".app");
    let n = n.as_slice();
    if is_lit(n, "Google Chrome") {
        String::from_str("Chrome")
    } else if is_lit(n, "Firefox") || is_lit(n, "firefox") {
        String::from_str("Firefox")
    } else if is_lit(n, "Microsoft Edge") {
        String::from_str("Edge")
    } else if is_lit(n, "com.docker.vmnetd") || is_lit(n, "com.docker.hyperkit") || is_lit(n, "Docker Desktop")
        || is_lit(n, "com.docker.backend") {
        String::from_str("Docker")
    } else if is_lit(n, "com.apple.Safari") || is_lit(n, "Safari") {
        String::from_str("Safari")
    } else if is_lit(n, "Code Helper") || is_lit(n, "Electron") {
        String::from_str("VS Code")
    } else if is_lit(n, "Cursor") || is_lit(n, "Cursor Helper") {
        String::from_str("Cursor")
    } else if is_lit(n, "node") {
        String::from_str("Node.js")
    } else if is_lit(n, "python3") || is_lit(n, "python") || is_lit(n, "Python") {
        String::from_str("Python")
    } else if is_lit(n, "ollama_llama_server") || is_lit(n, "ollama") {
        String::from_str("Ollama")
    } else {
        text::string_of(n)
    }
}

// ---------------------------------------------------------------------------
// Readings from sysctl and vm_stat
// ---------------------------------------------------------------------------

/// The total from `sysctl -n hw.memsize`: its trimmed output as a `u64`.
pub fn parse_memsize(out: &[u8]) -> (r: Option<u64>)
    ensures
        r == parse_u64_spec(trim_ws(utf8_lossy(out@))),
{
    let s = text::lossy_string(out);
    let t = text::trim_str(s.as_str());
    text::parse_u64_chars(t.as_slice())
}

/// Whether the CPU brand query names an Apple chip (false when it failed).
pub fn is_apple_silicon(brand_out: &Option<Vec<u8>>) -> (r: bool)
    ensures
        r == (match *brand_out {
            Some(b) => seq_contains(utf8_lossy(b@), "Apple"@),
            None => false,
        }),
{
    match brand_out {
        Some(b) => {
            let s = text::lossy_string(b.as_slice());
            let v = text::chars_of(s.as_str());
            text::chars_contain_str(v.as_slice(), "Apple")
        },
        None => false,
    }
}

/// The page size stated on the first line of `vm_stat`'s output ("... (page
/// size of 16384 bytes)"), else `DEFAULT_PAGE_SIZE`.
pub open spec fn page_size_spec(ls: Seq<Seq<char>>) -> u64 {
    if ls.len() == 0 {
        DEFAULT_PAGE_SIZE
    } else {
        match second_piece(ls[0], "page size of "@) {
            Some(piece) => match parse_u64_spec(split_char(piece, ' ')[0]) {
                Some(n) => n,
                None => DEFAULT_PAGE_SIZE,
            },
            None => DEFAULT_PAGE_SIZE,
        }
    }
}

/// The first line mentioning "Pages wired down".
pub open spec fn wired_line(ls: Seq<Seq<char>>) -> Option<Seq<char>>
    decreases ls.len(),
{
    if ls.len() == 0 {
        None
    } else if seq_contains(ls[0], "Pages wired down"@) {
        Some(ls[0])
    } else {
        wired_line(ls.drop_first())
    }
}

/// Wired memory in bytes from `vm_stat`'s output: the page count after the
/// first ':' of the "Pages wired down" line (trimmed, trailing dots removed)
/// times the page size; `None` when that line is missing, the count does not
/// parse, or the product does not fit in a `u64`.
pub open spec fn wired_spec(t: Seq<char>) -> Option<u64> {
    let ls = lines_of(t);
    match wired_line(ls) {
        Some(l) => {
            let parts = split_char(l, ':');
            if parts.len() < 2 {
                None
            } else {
                match parse_u64_spec(trim_end_char(trim_ws(parts[1]), '.')) {
                    Some(pages) => if pages * page_size_spec(ls) <= u64::MAX {
                        Some((pages * page_size_spec(ls)) as u64)
                    } else {
                        None
                    },
                    None => None,
                }
            }
        },
        None => None,
    }
}

/// The page size from the lines of `vm_stat`'s output.
fn page_size(ls: &Vec<Vec<char>>, Ghost(all): Ghost<Seq<Seq<char>>>) -> (r: u64)
    requires
        ls.len() == all.len(),
        forall|k: int| 0 <= k < ls.len() ==> #[trigger] ls[k]@ == all[k],
    ensures
        r == page_size_spec(all),
{
    if ls.len() == 0 {
        return DEFAULT_PAGE_SIZE;
    }
    let pat = text::chars_of("page size of ");
    match text::second_piece_chars(ls[0].as_slice(), pat.as_slice()) {
        Some(piece) => {
            let words = text::split_chars(piece.as_slice(), ' ');
            proof { text::lemma_split_nonempty(piece@, ' '); }
            match text::parse_u64_chars(words[0].as_slice()) {
                Some(n) => n,
                None => DEFAULT_PAGE_SIZE,
            }
        },
        None => DEFAULT_PAGE_SIZE,
    }
}

/// Wired memory from `vm_stat`'s raw output.
pub fn detect_wired_memory(out: &[u8]) -> (r: Option<u64>)
    ensures
        r == wired_spec(utf8_lossy(out@)),
{
    let s = text::lossy_string(out);
    let tv = text::chars_of(s.as_str());
    let ls = text::lines(tv.as_slice());
    let ghost all = lines_of(s@);
    let page = page_size(&ls, Ghost(all));
    let mut i: usize = 0;
    assert(all.skip(0) == all);
    while i < ls.len()
        invariant
            i <= ls.len(),
            all == lines_of(s@),
            s@ == utf8_lossy(out@),
            page == page_size_spec(all),
            ls.len() == all.len(),
            forall|k: int| 0 <= k < ls.len() ==> #[trigger] ls[k]@ == all[k],
            wired_line(all) == wired_line(all.skip(i as int)),
        decreases ls.len() - i,
    {
        assert(all.skip(i as int)[0] == all[i as int]);
        assert(all.skip(i as int).drop_first() == all.skip(i + 1));
        let line = ls[i].as_slice();
        if text::chars_contain_str(line, "Pages wired down") {
            let parts = text::split_chars(line, ':');
            if parts.len() < 2 {
                return None;
            }
            let t = text::trim_chars(parts[1].as_slice());
            let t = text::trim_end_char_chars(t.as_slice(), '.');
            return match text::parse_u64_chars(t.as_slice()) {
                Some(pages) => pages.checked_mul(page),
                None => None,
            };
        }
        i += 1;
    }
    None
}

// ---------------------------------------------------------------------------
// The applications that hold the most memory
// ---------------------------------------------------------------------------

/// All the memory in a process list.
pub open spec fn total_memory(ps: Seq<ProcessMemory>) -> int
    decreases ps.len(),
{
    if ps.len() == 0 { 0 } else { total_memory(ps.drop_last()) + ps.last().memory_bytes }
}

/// The memory of the kept processes of application `n`.
pub open spec fn app_memory(ps: Seq<ProcessMemory>, n: Seq<char>) -> int
    decreases ps.len(),
{
    if ps.len() == 0 {
        0
    } else {
        app_memory(ps.drop_last(), n) + (if kept(ps.last()) && app_name(ps.last().name@) == n {
            ps.last().memory_bytes as int
        } else {
            0
        })
    }
}

/// Whether some kept process belongs to application `n`.
pub open spec fn is_app(ps: Seq<ProcessMemory>, n: Seq<char>) -> bool {
    exists|i: int| #![trigger ps[i]] 0 <= i < ps.len() && kept(ps[i]) && app_name(ps[i].name@) == n
}

proof fn lemma_app_le_total(ps: Seq<ProcessMemory>, n: Seq<char>)
    ensures
        0 <= app_memory(ps, n) <= total_memory(ps),
    decreases ps.len(),
{
    if ps.len() > 0 {
        lemma_app_le_total(ps.drop_last(), n);
    }
}

proof fn lemma_total_prefix(ps: Seq<ProcessMemory>, i: int)
    requires
        0 <= i <= ps.len(),
    ensures
        total_memory(ps.take(i)) <= total_memory(ps),
    decreases ps.len(),
{
    if i < ps.len() {
        assert(ps.drop_last().take(i) == ps.take(i));
        lemma_total_prefix(ps.drop_last(), i);
    } else {
        assert(ps.take(i) == ps);
    }
}

proof fn lemma_app_absent(ps: Seq<ProcessMemory>, n: Seq<char>)
    requires
        !is_app(ps, n),
    ensures
        app_memory(ps, n) == 0,
    decreases ps.len(),
{
    if ps.len() > 0 {
        let q = ps.drop_last();
        if is_app(q, n) {
            let j = choose|j: int| #![trigger q[j]] 0 <= j < q.len() && kept(q[j]) && app_name(q[j].name@) == n;
            assert(ps[j] == q[j]);
        }
        lemma_app_absent(q, n);
        assert(ps[ps.len() - 1] == ps.last());
    }
}

/// What one more process adds to an application's memory and to the set of
/// applications.
proof fn lemma_app_step(ps: Seq<ProcessMemory>, i: int, n: Seq<char>)
    requires
        0 <= i < ps.len(),
    ensures
        app_memory(ps.take(i + 1), n) == app_memory(ps.take(i), n)
            + (if kept(ps[i]) && app_name(ps[i].name@) == n { ps[i].memory_bytes as int } else { 0 }),
        is_app(ps.take(i + 1), n) == (is_app(ps.take(i), n) || (kept(ps[i]) && app_name(ps[i].name@) == n)),
{
    let a = ps.take(i + 1);
    let b = ps.take(i);
    assert(a.drop_last() == b);
    assert(a.last() == ps[i]);
    if is_app(a, n) {
        let j = choose|j: int| #![trigger a[j]] 0 <= j < a.len() && kept(a[j]) && app_name(a[j].name@) == n;
        if j < i {
            assert(b[j] == a[j]);
        }
    }
    if is_app(b, n) {
        let j = choose|j: int| #![trigger b[j]] 0 <= j < b.len() && kept(b[j]) && app_name(b[j].name@) == n;
        assert(a[j] == b[j]);
    }
    if kept(ps[i]) && app_name(ps[i].name@) == n {
        assert(a[i] == ps[i]);
    }
}

/// Whether a process counts toward the top list.
fn is_kept(p: &ProcessMemory) -> (r: bool)
    ensures
        r == kept(*p),
{
    if p.memory_bytes < MIN_PROCESS_BYTES {
        return false;
    }
    let nv = text::chars_of(p.name.as_str());
    !is_system_name(nv.as_slice())
}

/// Where `n` stands in `names`, if it does.
fn position_of(names: &Vec<Vec<char>>, n: &[char]) -> (r: Option<usize>)
    ensures
        match r {
            Some(k) => k < names.len() && names[k as int]@ == n@,
            None => forall|k: int| 0 <= k < names.len() ==> #[trigger] names[k]@ != n@,
        },
{
    let mut k: usize = 0;
    while k < names.len()
        invariant
            k <= names.len(),
            forall|j: int| 0 <= j < k ==> #[trigger] names[j]@ != n@,
        decreases names.len() - k,
    {
        if text::chars_eq(names[k].as_slice(), n) {
            return Some(k);
        }
        k += 1;
    }
    None
}

/// The applications of the kept processes, each once, with their memory.
fn group_by_app(procs: &Vec<ProcessMemory>) -> (r: (Vec<Vec<char>>, Vec<u64>))
    requires
        total_memory(procs@) <= u64::MAX,
    ensures
        r.0.len() == r.1.len(),
        forall|k: int| 0 <= k < r.0.len() ==> is_app(procs@, #[trigger] r.0[k]@)
            && r.1[k] == app_memory(procs@, r.0[k]@),
        forall|k: int, l: int| 0 <= k < l < r.0.len() ==> r.0[k]@ != r.0[l]@,
        forall|n: Seq<char>| is_app(procs@, n) ==> exists|k: int| 0 <= k < r.0.len() && #[trigger] r.0[k]@ == n,
{
    let mut names: Vec<Vec<char>> = Vec::new();
    let mut mem: Vec<u64> = Vec::new();
    let mut i: usize = 0;
    while i < procs.len()
        invariant
            i <= procs.len(),
            total_memory(procs@) <= u64::MAX,
            names.len() == mem.len(),
            forall|k: int| 0 <= k < names.len() ==> is_app(procs@.take(i as int), #[trigger] names[k]@)
                && mem[k] == app_memory(procs@.take(i as int), names[k]@),
            forall|k: int, l: int| 0 <= k < l < names.len() ==> names[k]@ != names[l]@,
            forall|n: Seq<char>| is_app(procs@.take(i as int), n)
                ==> exists|k: int| 0 <= k < names.len() && #[trigger] names[k]@ == n,
        decreases procs.len() - i,
    {
        let p = &procs[i];
        proof {
            lemma_total_prefix(procs@, i + 1);
        }
        if is_kept(p) {
            let dn = normalize_process_name(p.name.as_str());
            let dv = text::chars_of(dn.as_str());
            proof {
                lemma_app_step(procs@, i as int, dv@);
                lemma_app_le_total(procs@.take(i + 1), dv@);
            }
            let ghost old_names = names@;
            let ghost old_mem = mem@;
            let ghost mut at: int = 0;
            match position_of(&names, dv.as_slice()) {
                Some(k) => {
                    let total = mem[k] + p.memory_bytes;
                    mem.set(k, total);
                    proof {
                        at = k as int;
                        assert forall|kk: int| 0 <= kk < names.len() implies is_app(procs@.take(i + 1), #[trigger] names[kk]@)
                            && mem[kk] == app_memory(procs@.take(i + 1), names[kk]@) by {
                            lemma_app_step(procs@, i as int, names[kk]@);
                        }
                    }
                },
                None => {
                    proof {
                        if is_app(procs@.take(i as int), dv@) {
                            let k = choose|k: int| 0 <= k < names.len() && #[trigger] names[k]@ == dv@;
                        }
                        lemma_app_absent(procs@.take(i as int), dv@);
                    }
                    names.push(dv);
                    mem.push(p.memory_bytes);
                    proof {
                        at = names.len() - 1;
                        assert(names[at]@ == dv@);
                        assert forall|kk: int| 0 <= kk < names.len() implies is_app(procs@.take(i + 1), #[trigger] names[kk]@)
                            && mem[kk] == app_memory(procs@.take(i + 1), names[kk]@) by {
                            lemma_app_step(procs@, i as int, names[kk]@);
                            if kk < old_names.len() {
                                assert(names[kk] == old_names[kk]);
                                assert(mem[kk] == old_mem[kk]);
                            }
                        }
                    }
                },
            }
            proof {
                assert(0 <= at < names.len() && names[at]@ == dv@);
                assert(forall|k: int| 0 <= k < old_names.len() ==> names[k] == old_names[k]);
                assert forall|n: Seq<char>| #[trigger] is_app(procs@.take(i + 1), n)
                    implies exists|k: int| 0 <= k < names.len() && #[trigger] names[k]@ == n by {
                    lemma_app_step(procs@, i as int, n);
                    if is_app(procs@.take(i as int), n) {
                        let k = choose|k: int| 0 <= k < old_names.len() && #[trigger] old_names[k]@ == n;
                        assert(names[k] == old_names[k]);
                    } else {
                        assert(names[at]@ == n);
                    }
                }
            }
        } else {
            proof {
                assert forall|k: int| 0 <= k < names.len() implies is_app(procs@.take(i + 1), #[trigger] names[k]@)
                    && mem[k] == app_memory(procs@.take(i + 1), names[k]@) by {
                    lemma_app_step(procs@, i as int, names[k]@);
                }
                assert forall|n: Seq<char>| #[trigger] is_app(procs@.take(i + 1), n)
                    implies exists|k: int| 0 <= k < names.len() && #[trigger] names[k]@ == n by {
                    lemma_app_step(procs@, i as int, n);
                }
            }
        }
        i += 1;
    }
    assert(procs@.take(procs.len() as int) == procs@);
    (names, mem)
}

/// Whether `n` names an entry of `r`.
pub open spec fn listed(r: Seq<ProcessMemory>, n: Seq<char>) -> bool {
    exists|j: int| 0 <= j < r.len() && r[j].name@ == n
}

/// The groups with the most memory, most first, at most `TOP_PROCESS_COUNT`
/// of them; a group left out holds no more than the last one taken.
fn top_of(names: &Vec<Vec<char>>, mem: &Vec<u64>) -> (r: Vec<ProcessMemory>)
    requires
        names.len() == mem.len(),
        forall|k: int, l: int| 0 <= k < l < names.len() ==> names[k]@ != names[l]@,
    ensures
        r.len() <= TOP_PROCESS_COUNT,
        forall|j: int| #![trigger r[j]] 0 <= j < r.len() ==> exists|k: int| 0 <= k < names.len()
            && #[trigger] names[k]@ =~= r[j].name@ && mem[k] == r[j].memory_bytes,
        forall|j: int, l: int| 0 <= j < l < r.len() ==> r[j].name@ != r[l].name@,
        forall|j: int, l: int| 0 <= j < l < r.len() ==> r[j].memory_bytes >= r[l].memory_bytes,
        forall|k: int| 0 <= k < names.len() ==> listed(r@, #[trigger] names[k]@)
            || (r.len() == TOP_PROCESS_COUNT && mem[k] <= r[r.len() - 1].memory_bytes),
{
    let n = names.len();
    let mut used: Vec<bool> = Vec::new();
    let mut i: usize = 0;
    while i < n
        invariant
            i <= n,
            used.len() == i,
            forall|k: int| 0 <= k < i ==> !#[trigger] used[k],
        decreases n - i,
    {
        used.push(false);
        i += 1;
    }
    let mut out: Vec<ProcessMemory> = Vec::new();
    let ghost mut sel: Seq<int> = Seq::empty();
    let mut done = false;
    while out.len() < TOP_PROCESS_COUNT && !done
        invariant
            n == names.len() == mem.len() == used.len(),
            forall|k: int, l: int| 0 <= k < l < names.len() ==> names[k]@ != names[l]@,
            out.len() == sel.len() <= TOP_PROCESS_COUNT,
            forall|j: int| 0 <= j < sel.len() ==> 0 <= #[trigger] sel[j] < n && used[sel[j]]
                && out[j].name@ == names[sel[j]]@ && out[j].memory_bytes == mem[sel[j]],
            forall|k: int| 0 <= k < n && #[trigger] used[k] ==> exists|j: int| 0 <= j < sel.len() && sel[j] == k,
            forall|j: int, l: int| 0 <= j < l < sel.len() ==> sel[j] != sel[l],
            forall|j: int, l: int| 0 <= j < l < out.len() ==> out[j].memory_bytes >= out[l].memory_bytes,
            forall|k: int| 0 <= k < n && !#[trigger] used[k] && out.len() > 0 ==> mem[k] <= out[out.len() - 1].memory_bytes,
            done ==> forall|k: int| 0 <= k < n ==> #[trigger] used[k],
        decreases TOP_PROCESS_COUNT - out.len(), if done { 0int } else { 1int },
    {
        let mut best: Option<usize> = None;
        let mut k: usize = 0;
        while k < n
            invariant
                k <= n,
                n == mem.len() == used.len(),
                match best {
                    Some(b) => b < k && !used[b as int]
                        && forall|kk: int| 0 <= kk < k && !#[trigger] used[kk] ==> mem[kk] <= mem[b as int],
                    None => forall|kk: int| 0 <= kk < k ==> #[trigger] used[kk],
                },
            decreases n - k,
        {
            if !used[k] {
                match best {
                    Some(b) => {
                        if mem[k] > mem[b] {
                            best = Some(k);
                        }
                    },
                    None => {
                        best = Some(k);
                    },
                }
            }
            k += 1;
        }
        match best {
            None => {
                done = true;
            },
            Some(b) => {
                proof {
                    if exists|j: int| 0 <= j < sel.len() && sel[j] == b {
                        let j = choose|j: int| 0 <= j < sel.len() && sel[j] == b;
                        assert(used[sel[j]]);
                    }
                }
                let ghost old_used = used@;
                let ghost old_out = out@;
                let ghost old_sel = sel;
                out.push(ProcessMemory { name: text::string_of(names[b].as_slice()), memory_bytes: mem[b] });
                used.set(b, true);
                proof {
                    sel = sel.push(b as int);
                    assert forall|kk: int| 0 <= kk < n && #[trigger] used[kk]
                        implies exists|j: int| 0 <= j < sel.len() && sel[j] == kk by {
                        if kk == b {
                            assert(sel[sel.len() - 1] == kk);
                        } else {
                            assert(old_used[kk]);
                            let j = choose|j: int| 0 <= j < old_sel.len() && old_sel[j] == kk;
                            assert(sel[j] == old_sel[j]);
                        }
                    }
                    assert forall|j: int| 0 <= j < sel.len() implies 0 <= #[trigger] sel[j] < n && used[sel[j]]
                        && out[j].name@ == names[sel[j]]@ && out[j].memory_bytes == mem[sel[j]] by {
                        if j < sel.len() - 1 {
                            assert(out[j] == old_out[j]);
                        }
                    }
                }
            },
        }
    }
    proof {
        assert forall|j: int| #![trigger out[j]] 0 <= j < out.len() implies exists|k: int| 0 <= k < names.len()
            && #[trigger] names[k]@ =~= out[j].name@ && mem[k] == out[j].memory_bytes by {
            assert(names[sel[j]]@ == out[j].name@);
        }
        assert forall|j: int, l: int| 0 <= j < l < out.len() implies out[j].name@ != out[l].name@ by {
            assert(sel[j] != sel[l]);
            if sel[j] < sel[l] {
                assert(names[sel[j]]@ != names[sel[l]]@);
            } else {
                assert(names[sel[l]]@ != names[sel[j]]@);
            }
        }
        assert forall|k: int| 0 <= k < names.len() implies listed(out@, #[trigger] names[k]@)
            || (out.len() == TOP_PROCESS_COUNT && mem[k] <= out[out.len() - 1].memory_bytes) by {
            if used[k] {
                let j = choose|j: int| 0 <= j < sel.len() && sel[j] == k;
                assert(out@[j].name@ == names[k]@);
            } else {
                assert(!done);
                assert(out.len() == TOP_PROCESS_COUNT);
                assert(mem[k] <= out[out.len() - 1].memory_bytes);
            }
        }
    }
    out
}

/// `r` lists the applications of `ps` holding the most memory, each once,
/// most first, at most `TOP_PROCESS_COUNT` of them, each with all the memory
/// of its kept processes; an application left out holds no more than the
/// last one listed.
pub open spec fn is_top_list(ps: Seq<ProcessMemory>, r: Seq<ProcessMemory>) -> bool {
    &&& r.len() <= TOP_PROCESS_COUNT
    &&& forall|j: int| 0 <= j < r.len() ==> is_app(ps, #[trigger] r[j].name@)
            && r[j].memory_bytes == app_memory(ps, r[j].name@)
    &&& forall|j: int, l: int| 0 <= j < l < r.len() ==> r[j].name@ != r[l].name@
    &&& forall|j: int, l: int| 0 <= j < l < r.len() ==> r[j].memory_bytes >= r[l].memory_bytes
    &&& forall|n: Seq<char>| #[trigger] is_app(ps, n) && !listed(r, n)
            ==> r.len() == TOP_PROCESS_COUNT && app_memory(ps, n) <= r[r.len() - 1].memory_bytes
}

/// The applications holding the most memory, most first, at most
/// `TOP_PROCESS_COUNT` of them: system processes and processes under
/// `MIN_PROCESS_BYTES` are left out, and helper processes count toward the
/// application they serve. An application left out holds no more than the
/// last one listed; which of two equal ones is listed is left open.
pub fn detect_top_processes(procs: &Vec<ProcessMemory>) -> (r: Vec<ProcessMemory>)
    requires
        total_memory(procs@) <= u64::MAX,
    ensures
        is_top_list(procs@, r@),
{
    let (names, mem) = group_by_app(procs);
    let r = top_of(&names, &mem);
    proof {
        assert forall|j: int| 0 <= j < r.len() implies is_app(procs@, #[trigger] r[j].name@)
            && r[j].memory_bytes == app_memory(procs@, r[j].name@) by {
            let k = choose|k: int| 0 <= k < names.len() && #[trigger] names[k]@ =~= r[j].name@ && mem[k] == r[j].memory_bytes;
            assert(is_app(procs@, names[k]@));
        }
        assert forall|n: Seq<char>| #[trigger] is_app(procs@, n) && !listed(r@, n)
            implies r.len() == TOP_PROCESS_COUNT && app_memory(procs@, n) <= r[r.len() - 1].memory_bytes by {
            let k = choose|k: int| 0 <= k < names.len() && #[trigger] names[k]@ == n;
            assert(mem[k] == app_memory(procs@, names[k]@));

        }
    }
    r
}

/// What the system offered about its memory; `None` where a command could
/// not be run.
pub struct MemoryReadings {
    /// Output of `sysctl -n hw.memsize`.
    pub memsize: Option<Vec<u8>>,
    /// Total memory as the system library counts it.
    pub system_total: u64,
    /// Memory in use.
    pub used: u64,
    pub swap_total: u64,
    pub swap_used: u64,
    /// Output of `sysctl -n machdep.cpu.brand_string`.
    pub cpu_brand: Option<Vec<u8>>,
    /// Output of `vm_stat`.
    pub vm_stat: Option<Vec<u8>>,
    /// Every process, with the memory it holds.
    pub processes: Vec<ProcessMemory>,
}

/// The total: `hw.memsize` when it reads as a number, else the library's count.
pub open spec fn total_spec(m: MemoryReadings) -> u64 {
    match m.memsize {
        Some(b) => match parse_u64_spec(trim_ws(utf8_lossy(b@))) {
            Some(t) => t,
            None => m.system_total,
        },
        None => m.system_total,
    }
}

/// Memory from the readings: the total from `hw.memsize` (else the library's
/// count); what is available is the total less what is used, never below 0;
/// wired memory from `vm_stat`, else `WIRED_FALLBACK_BYTES`; unified memory
/// on Apple chips; and the applications holding the most memory.
pub fn detect(readings: &MemoryReadings) -> (r: MemoryInfo)
    requires
        total_memory(readings.processes@) <= u64::MAX,
    ensures
        r.total_bytes == total_spec(*readings),
        r.used_bytes == readings.used,
        r.available_bytes == (if total_spec(*readings) >= readings.used {
            total_spec(*readings) - readings.used
        } else {
            0
        }),
        r.wired_bytes == (match readings.vm_stat {
            Some(b) => match wired_spec(utf8_lossy(b@)) {
                Some(w) => w,
                None => WIRED_FALLBACK_BYTES,
            },
            None => WIRED_FALLBACK_BYTES,
        }),
        r.swap_total_bytes == readings.swap_total,
        r.swap_used_bytes == readings.swap_used,
        r.is_unified == (match readings.cpu_brand {
            Some(b) => seq_contains(utf8_lossy(b@), "Apple"@),
            None => false,
        }),
        is_top_list(readings.processes@, r.top_processes@),
{
    let total_bytes = match &readings.memsize {
        Some(b) => match parse_memsize(b.as_slice()) {
            Some(t) => t,
            None => readings.system_total,
        },
        None => readings.system_total,
    };
    let used_bytes = readings.used;
    let available_bytes = total_bytes.saturating_sub(used_bytes);
    let wired_bytes = match &readings.vm_stat {
        Some(b) => match detect_wired_memory(b.as_slice()) {
            Some(w) => w,
            None => WIRED_FALLBACK_BYTES,
        },
        None => WIRED_FALLBACK_BYTES,
    };
    MemoryInfo {
        total_bytes,
        used_bytes,
        available_bytes,
        wired_bytes,
        swap_total_bytes: readings.swap_total,
        swap_used_bytes: readings.swap_used,
        is_unified: is_apple_silicon(&readings.cpu_brand),
        top_processes: detect_top_processes(&readings.processes),
    }
}

} // verus!
