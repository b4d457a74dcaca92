//! Mesh VPNs: which one is up, and the address it gave this machine.
use vstd::prelude::*;
use crate::text;
use crate::text::{first_word, lines_of, parse_u64_spec, seq_starts_with, split_char, trim_ws, utf8_lossy};

verus! {

/// A VPN connection as the dashboard shows it.
pub struct VpnInfo {
    pub name: String,
    pub active: bool,
    pub ip: Option<String>,
}

/// The VPNs looked for, most used for AI clusters first, then any tunnel.
pub enum VpnProvider {
    Tailscale,
    ZeroTier,
    Nebula,
    WireGuard,
    /// Any tunnel interface with an overlay address.
    Tunnel,
}

/// The view of an optional string.
pub open spec fn opt_view(o: Option<String>) -> Option<Seq<char>> {
    match o {
        Some(s) => Some(s@),
        None => None,
    }
}

/// The line shown for a connection: "Not connected" when it is down; else
/// the name, two spaces and the address; a hidden address keeps only its
/// first octet ("100.••.••.••").
pub open spec fn display_spec(name: Seq<char>, active: bool, ip: Option<Seq<char>>, visible: bool) -> Seq<char> {
    if !active {
        "Not connected"@
    } else {
        match ip {
            Some(a) => if visible {
                name + "  "@ + a
            } else {
                name + "  "@ + split_char(a, '.')[0] + ".••.••.••"@
            },
            None => name,
        }
    }
}

/// The connection reported when no VPN is up.
pub open spec fn is_not_connected(v: VpnInfo) -> bool {
    v.name@ == "None"@ && !v.active && v.ip is None
}

impl VpnInfo {
    /// The line shown for this connection; `visible` shows the whole address.
    pub fn display(&self, visible: bool) -> (r: String)
        ensures
            r@ == display_spec(self.name@, self.active, opt_view(self.ip), visible),
    {
        if !self.active {
            return String::from_str("Not connected");
        }
        match &self.ip {
            Some(ip) => {
                let mut out = text::string_of(text::chars_of(self.name.as_str()).as_slice());
                out.append("  ");
                if visible {
                    out.append(ip.as_str());
                } else {
                    let iv = text::chars_of(ip.as_str());
                    let parts = text::split_chars(iv.as_slice(), '.');
                    proof { text::lemma_split_nonempty(ip@, '.'); }
                    let first = text::string_of(parts[0].as_slice());
                    out.append(first.as_str());
                    out.append(".••.••.••");
                }
                out
            },
            None => text::string_of(text::chars_of(self.name.as_str()).as_slice()),
        }
    }
}

/// The connection reported when no VPN is up.
pub fn not_connected() -> (r: VpnInfo)
    ensures
        is_not_connected(r),
{
    VpnInfo { name: String::from_str("None"), active: false, ip: None }
}

/// The name shown for a provider's connection.
pub open spec fn provider_name(p: VpnProvider) -> Seq<char> {
    match p {
        VpnProvider::Tailscale => "Tailscale"@,
        VpnProvider::ZeroTier => "ZeroTier"@,
        VpnProvider::Nebula => "Nebula"@,
        VpnProvider::WireGuard => "WireGuard"@,
        VpnProvider::Tunnel => "VPN"@,
    }
}

/// The provider a configured (lowercased) name asks for.
pub open spec fn provider_named(n: Seq<char>) -> Option<VpnProvider> {
    if n == "tailscale"@ { Some(VpnProvider::Tailscale) }
    else if n == "zerotier"@ { Some(VpnProvider::ZeroTier) }
    else if n == "nebula"@ { Some(VpnProvider::Nebula) }
    else if n == "wireguard"@ { Some(VpnProvider::WireGuard) }
    else { None }
}

/// The providers to look for, in order: only the configured one when one is
/// configured (none for an unknown name); else all four and then any tunnel.
pub open spec fn order_spec(preferred: Option<Seq<char>>) -> Seq<VpnProvider> {
    match preferred {
        Some(p) => match provider_named(text::str_lower(p)) {
            Some(v) => seq![v],
            None => Seq::empty(),
        },
        None => seq![VpnProvider::Tailscale, VpnProvider::ZeroTier, VpnProvider::Nebula,
            VpnProvider::WireGuard, VpnProvider::Tunnel],
    }
}

/// The view of an optional `&str`.
pub open spec fn opt_str(o: Option<&str>) -> Option<Seq<char>> {
    match o {
        Some(s) => Some(s@),
        None => None,
    }
}

/// Which provider a configured name asks for.
fn named_provider(p: &str) -> (r: Option<VpnProvider>)
    ensures
        r == provider_named(text::str_lower(p@)),
{
    let l = text::to_lower(p);
    let s = l.as_str();
    if text::str_eq(s, "tailscale") {
        Some(VpnProvider::Tailscale)
    } else if text::str_eq(s, "zerotier") {
        Some(VpnProvider::ZeroTier)
    } else if text::str_eq(s, "nebula") {
        Some(VpnProvider::Nebula)
    } else if text::str_eq(s, "wireguard") {
        Some(VpnProvider::WireGuard)
    } else {
        None
    }
}

/// The providers to look for, in order.
pub fn detection_order(preferred: Option<&str>) -> (r: Vec<VpnProvider>)
    ensures
        r@ == order_spec(opt_str(preferred)),
{
    match preferred {
        Some(p) => match named_provider(p) {
            Some(v) => {
                let r = vec![v];
                assert(r@ == seq![v]);
                r
            },
            None => Vec::new(),
        },
        None => {
            let r = vec![VpnProvider::Tailscale, VpnProvider::ZeroTier, VpnProvider::Nebula,
                VpnProvider::WireGuard, VpnProvider::Tunnel];
            assert(r@ == order_spec(None));
            r
        },
    }
}

/// What each provider's check found (`None` where it found nothing or was
/// not run).
pub struct VpnFindings {
    pub tailscale: Option<VpnInfo>,
    pub zerotier: Option<VpnInfo>,
    pub nebula: Option<VpnInfo>,
    pub wireguard: Option<VpnInfo>,
    pub tunnel: Option<VpnInfo>,
}

/// What the check of provider `p` found.
pub open spec fn finding(f: VpnFindings, p: VpnProvider) -> Option<VpnInfo> {
    match p {
        VpnProvider::Tailscale => f.tailscale,
        VpnProvider::ZeroTier => f.zerotier,
        VpnProvider::Nebula => f.nebula,
        VpnProvider::WireGuard => f.wireguard,
        VpnProvider::Tunnel => f.tunnel,
    }
}

/// The first finding along `order`.
pub open spec fn first_found(f: VpnFindings, order: Seq<VpnProvider>) -> Option<VpnInfo>
    decreases order.len(),
{
    if order.len() == 0 {
        None
    } else {
        match finding(f, order[0]) {
            Some(v) => Some(v),
            None => first_found(f, order.drop_first()),
        }
    }
}

/// The active VPN: the first provider, in `detection_order`, whose check
/// found a connection; else not connected.
pub fn detect(preferred: Option<&str>, found: VpnFindings) -> (r: VpnInfo)
    ensures
        match first_found(found, order_spec(opt_str(preferred))) {
            Some(v) => r == v,
            None => is_not_connected(r),
        },
{
    let ghost order = order_spec(opt_str(preferred));
    match preferred {
        Some(p) => {
            let pick = match named_provider(p) {
                Some(VpnProvider::Tailscale) => found.tailscale,
                Some(VpnProvider::ZeroTier) => found.zerotier,
                Some(VpnProvider::Nebula) => found.nebula,
                Some(VpnProvider::WireGuard) => found.wireguard,
                _ => None,
            };
            proof {
                if order.len() > 0 {
                    assert(order.drop_first().len() == 0);
                }
            }
            match pick {
                Some(v) => v,
                None => not_connected(),
            }
        },
        None => {
            proof {
                reveal_with_fuel(first_found, 6);
            }
            if let Some(v) = found.tailscale {
                v
            } else if let Some(v) = found.zerotier {
                v
            } else if let Some(v) = found.nebula {
                v
            } else if let Some(v) = found.wireguard {
                v
            } else if let Some(v) = found.tunnel {
                v
            } else {
                not_connected()
            }
        },
    }
}

// ---------------------------------------------------------------------------
// What each provider's tools report
// ---------------------------------------------------------------------------

/// The fields read from `tailscale status --json`.
pub struct TailscaleStatus {
    /// `BackendState`, when it is a string.
    pub backend_state: Option<String>,
    /// The first of `Self.TailscaleIPs`, when it is a string.
    pub first_ip: Option<String>,
}

/// The Tailscale connection: none without a backend state; up when the
/// backend is "Running".
pub fn tailscale_info(status: TailscaleStatus) -> (r: Option<VpnInfo>)
    ensures
        match status.backend_state {
            Some(b) => r matches Some(v) && v.name@ == "Tailscale"@ && v.active == (b@ == "Running"@)
                && v.ip == status.first_ip,
            None => r is None,
        },
{
    match status.backend_state {
        Some(b) => Some(VpnInfo {
            name: String::from_str("Tailscale"),
            active: text::str_eq(b.as_str(), "Running"),
            ip: status.first_ip,
        }),
        None => None,
    }
}

/// The fields read from `zerotier-cli info -j` and `listnetworks -j`.
pub struct ZeroTierStatus {
    /// Whether the `online` field is present.
    pub has_online: bool,
    /// Its value, when it is a boolean.
    pub online: Option<bool>,
    /// The first assigned address of the first network, when it is a string.
    pub first_address: Option<String>,
}

/// An address without its prefix length ("10.147.17.5/24" is "10.147.17.5").
pub fn strip_cidr(addr: &str) -> (r: String)
    ensures
        r@ == split_char(addr@, '/')[0],
{
    let v = text::chars_of(addr);
    let parts = text::split_chars(v.as_slice(), '/');
    proof { text::lemma_split_nonempty(addr@, '/'); }
    text::string_of(parts[0].as_slice())
}

/// The ZeroTier connection: none without an `online` field; up when it is
/// true; the address without its prefix length.
pub fn zerotier_info(status: ZeroTierStatus) -> (r: Option<VpnInfo>)
    ensures
        !status.has_online ==> r is None,
        status.has_online ==> (r matches Some(v) && v.name@ == "ZeroTier"@
            && v.active == (status.online == Some(true))
            && opt_view(v.ip) == (match status.first_address {
                Some(a) => Some(split_char(a@, '/')[0]),
                None => None,
            })),
{
    if !status.has_online {
        return None;
    }
    let active = match status.online {
        Some(b) => b,
        None => false,
    };
    let ip = match &status.first_address {
        Some(a) => Some(strip_cidr(a.as_str())),
        None => None,
    };
    Some(VpnInfo { name: String::from_str("ZeroTier"), active, ip })
}

/// A connection found up by a provider without a status query (Nebula,
/// WireGuard, a tunnel), with the address read for it.
pub fn active_info(p: VpnProvider, ip: Option<String>) -> (r: VpnInfo)
    ensures
        r.name@ == provider_name(p),
        r.active,
        r.ip == ip,
{
    let name = match p {
        VpnProvider::Tailscale => String::from_str("Tailscale"),
        VpnProvider::ZeroTier => String::from_str("ZeroTier"),
        VpnProvider::Nebula => String::from_str("Nebula"),
        VpnProvider::WireGuard => String::from_str("WireGuard"),
        VpnProvider::Tunnel => String::from_str("VPN"),
    };
    VpnInfo { name, active: true, ip }
}

/// The first line whose trimmed form starts with "inet ".
pub open spec fn inet_line(ls: Seq<Seq<char>>) -> Option<Seq<char>>
    decreases ls.len(),
{
    if ls.len() == 0 {
        None
    } else if seq_starts_with(trim_ws(ls[0]), "inet "@) {
        Some(trim_ws(ls[0]))
    } else {
        inet_line(ls.drop_first())
    }
}

/// The address of an interface from `ifconfig <iface>`: the first word
/// after "inet " on the first such line.
pub open spec fn interface_ip_spec(t: Seq<char>) -> Option<Seq<char>> {
    match inet_line(lines_of(t)) {
        Some(l) => first_word(l.skip("inet "@.len() as int)),
        None => None,
    }
}

/// The address of an interface from the raw output of `ifconfig <iface>`.
pub fn interface_ip(out: &[u8]) -> (r: Option<String>)
    ensures
        opt_view(r) == interface_ip_spec(utf8_lossy(out@)),
{
    let s = text::lossy_string(out);
    let tv = text::chars_of(s.as_str());
    let ls = text::lines(tv.as_slice());
    let ghost all = lines_of(s@);
    let inet = text::chars_of("inet ");
    let mut i: usize = 0;
    assert(all.skip(0) == all);
    while i < ls.len()
        invariant
            i <= ls.len(),
            all == lines_of(s@),
            s@ == utf8_lossy(out@),
            inet@ == "inet "@,
            ls.len() == all.len(),
            forall|k: int| 0 <= k < ls.len() ==> #[trigger] ls[k]@ == all[k],
            inet_line(all) == inet_line(all.skip(i as int)),
        decreases ls.len() - i,
    {
        assert(all.skip(i as int)[0] == all[i as int]);
        assert(all.skip(i as int).drop_first() == all.skip(i + 1));
        let t = text::trim_chars(ls[i].as_slice());
        if text::chars_start_with(t.as_slice(), inet.as_slice()) {
            let rest = text::sub_chars(t.as_slice(), inet.len(), t.len());
            assert(rest@ == t@.skip(inet@.len() as int));
            return match text::first_word_chars(rest.as_slice()) {
                Some(w) => Some(text::string_of(w.as_slice())),
                None => None,
            };
        }
        i += 1;
    }
    None
}

/// What `wg show` reports: `None` when its output is blank (no WireGuard
/// interface); else the interface named on its first line
/// ("interface: wg0"), trimmed, if that line names one.
pub open spec fn wireguard_spec(t: Seq<char>) -> Option<Option<Seq<char>>> {
    if trim_ws(t).len() == 0 {
        None
    } else {
        let ls = lines_of(t);
        Some(if ls.len() > 0 && seq_starts_with(ls[0], "interface: "@) {
            Some(trim_ws(ls[0].skip("interface: "@.len() as int)))
        } else {
            None
        })
    }
}

/// The WireGuard interface from the raw output of `wg show`.
pub fn wireguard_interface(out: &[u8]) -> (r: Option<Option<String>>)
    ensures
        match wireguard_spec(utf8_lossy(out@)) {
            Some(i) => r matches Some(x) && opt_view(x) == i,
            None => r is None,
        },
{
    let s = text::lossy_string(out);
    let t = text::trim_str(s.as_str());
    if t.len() == 0 {
        return None;
    }
    let tv = text::chars_of(s.as_str());
    let ls = text::lines(tv.as_slice());
    let prefix = text::chars_of("interface: ");
    if ls.len() > 0 && text::chars_start_with(ls[0].as_slice(), prefix.as_slice()) {
        let rest = text::sub_chars(ls[0].as_slice(), prefix.len(), ls[0].len());
        assert(rest@ == ls[0]@.skip(prefix@.len() as int));
        let name = text::trim_chars(rest.as_slice());
        Some(Some(text::string_of(name.as_slice())))
    } else {
        Some(None)
    }
}

/// What `str::parse::<u8>` gives.
pub open spec fn parse_u8_spec(s: Seq<char>) -> Option<u8> {
    match parse_u64_spec(s) {
        Some(v) => if v <= 255 { Some(v as u8) } else { None },
        None => None,
    }
}

/// The pieces that read as octets, in order; the others are skipped.
pub open spec fn octets(pieces: Seq<Seq<char>>) -> Seq<u8>
    decreases pieces.len(),
{
    if pieces.len() == 0 {
        Seq::empty()
    } else {
        let front = octets(pieces.drop_last());
        match parse_u8_spec(pieces.last()) {
            Some(o) => front.push(o),
            None => front,
        }
    }
}

/// An address in an overlay range: four octets read from its dot-separated
/// pieces, in 100.64.0.0/10, 10.0.0.0/8 or 172.16.0.0/12.
pub open spec fn is_vpn_ip_spec(ip: Seq<char>) -> bool {
    let o = octets(split_char(ip, '.'));
    o.len() == 4 && (
        (o[0] == 100 && 64 <= o[1] <= 127)
        || o[0] == 10
        || (o[0] == 172 && 16 <= o[1] <= 31)
    )
}

/// Whether an address looks like a VPN or overlay address.
pub fn is_vpn_ip(ip: &[char]) -> (r: bool)
    ensures
        r == is_vpn_ip_spec(ip@),
{
    let parts = text::split_chars(ip, '.');
    let ghost pieces = split_char(ip@, '.');
    let mut o: Vec<u8> = Vec::new();
    let mut i: usize = 0;
    while i < parts.len()
        invariant
            i <= parts.len(),
            parts.len() == pieces.len(),
            pieces == split_char(ip@, '.'),
            forall|k: int| 0 <= k < parts.len() ==> #[trigger] parts[k]@ == pieces[k],
            o@ == octets(pieces.take(i as int)),
        decreases parts.len() - i,
    {
        assert(pieces.take(i + 1).drop_last() == pieces.take(i as int));
        match text::parse_u64_chars(parts[i].as_slice()) {
            Some(v) => {
                if v <= 255 {
                    o.push(v as u8);
                }
            },
            None => {},
        }
        i += 1;
    }
    assert(pieces.take(parts.len() as int) == pieces);
    if o.len() != 4 {
        return false;
    }
    if o[0] == 100 {
        64 <= o[1] && o[1] <= 127
    } else if o[0] == 10 {
        true
    } else if o[0] == 172 {
        16 <= o[1] && o[1] <= 31
    } else {
        false
    }
}

/// An interface header line of `ifconfig`: not indented.
pub open spec fn is_header(l: Seq<char>) -> bool {
    !(l.len() > 0 && (l[0] == '\t' || l[0] == ' '))
}

/// A tunnel interface's name: utun*, tun* or wg*.
pub open spec fn is_tunnel_iface(n: Seq<char>) -> bool {
    seq_starts_with(n, "utun"@) || seq_starts_with(n, "tun"@) || seq_starts_with(n, "wg"@)
}

/// The address on an "inet " line (trimmed), "" when none follows.
pub open spec fn inet_word(l: Seq<char>) -> Option<Seq<char>> {
    let t = trim_ws(l);
    if seq_starts_with(t, "inet "@) {
        Some(match first_word(t.skip("inet "@.len() as int)) {
            Some(w) => w,
            None => Seq::empty(),
        })
    } else {
        None
    }
}

/// The first overlay address on a tunnel interface, reading `ls` with `cur`
/// the interface of the lines before.
pub open spec fn tunnel_scan(ls: Seq<Seq<char>>, cur: Seq<char>) -> Option<Seq<char>>
    decreases ls.len(),
{
    if ls.len() == 0 {
        None
    } else {
        let l = ls[0];
        let c = if is_header(l) { split_char(l, ':')[0] } else { cur };
        if is_tunnel_iface(c) && inet_word(l) is Some && is_vpn_ip_spec(inet_word(l)->0) {
            Some(inet_word(l)->0)
        } else {
            tunnel_scan(ls.drop_first(), c)
        }
    }
}

/// The address on an "inet " line.
fn inet_word_chars(l: &[char]) -> (r: Option<Vec<char>>)
    ensures
        match inet_word(l@) {
            Some(w) => r matches Some(x) && x@ == w,
            None => r is None,
        },
{
    let t = text::trim_chars(l);
    let inet = text::chars_of("inet ");
    if !text::chars_start_with(t.as_slice(), inet.as_slice()) {
        return None;
    }
    let rest = text::sub_chars(t.as_slice(), inet.len(), t.len());
    assert(rest@ == t@.skip(inet@.len() as int));
    match text::first_word_chars(rest.as_slice()) {
        Some(w) => Some(w),
        None => Some(Vec::new()),
    }
}

/// Any tunnel interface with an overlay address, from the raw output of
/// `ifconfig`: the first address found on a utun, tun or wg interface.
pub fn detect_tunnel_interface(out: &[u8]) -> (r: Option<VpnInfo>)
    ensures
        match tunnel_scan(lines_of(utf8_lossy(out@)), Seq::empty()) {
            Some(w) => r matches Some(v) && v.name@ == "VPN"@ && v.active && opt_view(v.ip) == Some(w),
            None => r is None,
        },
{
    let s = text::lossy_string(out);
    let tv = text::chars_of(s.as_str());
    let ls = text::lines(tv.as_slice());
    let ghost all = lines_of(s@);
    let mut cur: Vec<char> = Vec::new();
    let mut i: usize = 0;
    assert(all.skip(0) == all);
    while i < ls.len()
        invariant
            i <= ls.len(),
            all == lines_of(s@),
            s@ == utf8_lossy(out@),
            ls.len() == all.len(),
            forall|k: int| 0 <= k < ls.len() ==> #[trigger] ls[k]@ == all[k],
            tunnel_scan(all, Seq::empty()) == tunnel_scan(all.skip(i as int), cur@),
        decreases ls.len() - i,
    {
        assert(all.skip(i as int)[0] == all[i as int]);
        assert(all.skip(i as int).drop_first() == all.skip(i + 1));
        let line = ls[i].as_slice();
        if !(line.len() > 0 && (line[0] == '\t' || line[0] == ' ')) {
            let parts = text::split_chars(line, ':');
            proof { text::lemma_split_nonempty(line@, ':'); }
            cur = text::sub_chars(parts[0].as_slice(), 0, parts[0].len());
            assert(parts[0]@.subrange(0, parts[0]@.len() as int) == parts[0]@);
        }
        let utun = text::chars_of("utun");
        let tun = text::chars_of("tun");
        let wg = text::chars_of("wg");
        let c = cur.as_slice();
        let is_tunnel = text::chars_start_with(c, utun.as_slice()) || text::chars_start_with(c, tun.as_slice())
            || text::chars_start_with(c, wg.as_slice());
        if is_tunnel {
            if let Some(w) = inet_word_chars(line) {
                if is_vpn_ip(w.as_slice()) {
                    let ip = text::string_of(w.as_slice());
                    return Some(active_info(VpnProvider::Tunnel, Some(ip)));
                }
            }
        }
        i += 1;
    }
    None
}

} // verus!
