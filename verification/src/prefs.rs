//! Stored client preferences and profile records.
//!
//! The client keeps its preferences as text values under fixed keys. Each
//! `get_*` function here turns the stored value (if any) into what the client
//! uses, and each `set_*` function gives the value to store; reading back what
//! was stored gives the same choice again.
use vstd::prelude::*;
use crate::num::{dec, dec_signed, parse_i64, parse_i64_range, push_dec, push_i64};
use crate::text::{chars_of, owned, push_str, string_from_chars};

verus! {

/// Preference key of the selected OpenVPN profile.
pub const SELECTED_OVPN_ID_KEY: &'static str = "selected_ovpn_id";

/// Preference key of the selected WireGuard profile.
pub const SELECTED_WG_ID_KEY: &'static str = "selected_wg_id";

/// Preference key of the selected PPTP profile.
pub const SELECTED_PPTP_ID_KEY: &'static str = "selected_pptp_id";

/// Preference key of the selected Outline profile.
pub const SELECTED_OUTLINE_ID_KEY: &'static str = "selected_outline_id";

/// Preference key of the Tor isolation mode.
pub const TOR_ISOLATION_MODE_KEY: &'static str = "tor_isolation_mode";

pub open spec fn opt_str_view(o: Option<&str>) -> Option<Seq<char>> {
    match o {
        Some(s) => Some(s@),
        None => None,
    }
}

/// The profile id a stored selection denotes: the stored text parsed as an
/// `i64`; nothing when there is no value or it does not parse (an empty value
/// means "no selection").
pub open spec fn spec_selected_id(stored: Option<Seq<char>>) -> Option<i64> {
    match stored {
        Some(s) => parse_i64(s),
        None => None,
    }
}

/// The text stored for a selection: the id in decimal, or empty for none.
pub open spec fn spec_selected_id_pref(id: Option<i64>) -> Seq<char> {
    match id {
        Some(i) => dec_signed(i as int),
        None => Seq::empty(),
    }
}

fn selected_id_from_pref(stored: Option<&str>) -> (r: Option<i64>)
    ensures
        r == spec_selected_id(opt_str_view(stored)),
{
    match stored {
        Some(s) => {
            let v = chars_of(s);
            let n = v.len();
            assert(v@.subrange(0, n as int) =~= v@);
            parse_i64_range(&v, 0, n)
        },
        None => None,
    }
}

fn selected_id_to_pref(id: Option<i64>) -> (r: String)
    ensures
        r@ == spec_selected_id_pref(id),
{
    let mut v: Vec<char> = Vec::new();
    match id {
        Some(i) => push_i64(&mut v, i),
        None => {},
    }
    assert(v@ =~= spec_selected_id_pref(id));
    string_from_chars(v.as_slice())
}

/// The selected OpenVPN profile, from the stored preference value.
pub fn get_selected_ovpn_id(stored: Option<&str>) -> (r: Option<i64>)
    ensures
        r == spec_selected_id(opt_str_view(stored)),
{
    selected_id_from_pref(stored)
}

/// The preference value that records `id` as the selected OpenVPN profile.
pub fn set_selected_ovpn_id(id: Option<i64>) -> (r: String)
    ensures
        r@ == spec_selected_id_pref(id),
{
    selected_id_to_pref(id)
}

/// The selected WireGuard profile, from the stored preference value.
pub fn get_selected_wg_id(stored: Option<&str>) -> (r: Option<i64>)
    ensures
        r == spec_selected_id(opt_str_view(stored)),
{
    selected_id_from_pref(stored)
}

/// The preference value that records `id` as the selected WireGuard profile.
pub fn set_selected_wg_id(id: Option<i64>) -> (r: String)
    ensures
        r@ == spec_selected_id_pref(id),
{
    selected_id_to_pref(id)
}

/// The selected PPTP profile, from the stored preference value.
pub fn get_selected_pptp_id(stored: Option<&str>) -> (r: Option<i64>)
    ensures
        r == spec_selected_id(opt_str_view(stored)),
{
    selected_id_from_pref(stored)
}

/// The preference value that records `id` as the selected PPTP profile.
pub fn set_selected_pptp_id(id: Option<i64>) -> (r: String)
    ensures
        r@ == spec_selected_id_pref(id),
{
    selected_id_to_pref(id)
}

/// The selected Outline profile, from the stored preference value.
pub fn get_selected_outline_id(stored: Option<&str>) -> (r: Option<i64>)
    ensures
        r == spec_selected_id(opt_str_view(stored)),
{
    selected_id_from_pref(stored)
}

/// The preference value that records `id` as the selected Outline profile.
pub fn set_selected_outline_id(id: Option<i64>) -> (r: String)
    ensures
        r@ == spec_selected_id_pref(id),
{
    selected_id_to_pref(id)
}

/// Reading back a stored selection gives the selection that was stored.
pub proof fn law_selected_id_roundtrip(id: Option<i64>)
    ensures
        spec_selected_id(Some(spec_selected_id_pref(id))) == id,
{
    match id {
        Some(i) => {
            crate::num::lemma_parse_dec_signed(i as int, i64::MIN as int, i64::MAX as int);
        },
        None => {},
    }
}

/// The Tor isolation mode: the stored value, or `system` (route the whole
/// machine) when nothing is stored.
pub open spec fn spec_tor_isolation_mode(stored: Option<Seq<char>>) -> Seq<char> {
    match stored {
        Some(m) => m,
        None => "system"@,
    }
}

/// The Tor isolation mode from its stored preference value.
pub fn get_tor_isolation_mode(stored: Option<&str>) -> (r: String)
    ensures
        r@ == spec_tor_isolation_mode(opt_str_view(stored)),
{
    match stored {
        Some(m) => owned(m),
        None => owned("system"),
    }
}

/// The preference value that records `mode`: the mode itself.
pub fn set_tor_isolation_mode(mode: &str) -> (r: String)
    ensures
        r@ == mode@,
{
    owned(mode)
}

/// Reading back a stored isolation mode gives the mode that was stored.
pub proof fn law_tor_isolation_roundtrip(mode: Seq<char>)
    ensures
        spec_tor_isolation_mode(Some(mode)) == mode,
{
}

/// The value stored under `key`, if any, in a store of text preferences.
pub open spec fn pref_value(store: Map<Seq<char>, Seq<char>>, key: Seq<char>) -> Option<Seq<char>> {
    if store.dom().contains(key) {
        Some(store[key])
    } else {
        None
    }
}

/// The keys of the client's own preferences: the selected OpenVPN,
/// WireGuard, PPTP and Outline profiles, and the Tor isolation mode.
pub open spec fn pref_keys() -> Seq<Seq<char>> {
    seq![
        SELECTED_OVPN_ID_KEY@,
        SELECTED_WG_ID_KEY@,
        SELECTED_PPTP_ID_KEY@,
        SELECTED_OUTLINE_ID_KEY@,
        TOR_ISOLATION_MODE_KEY@,
    ]
}

/// Saving one preference leaves the others as they were: the preference
/// keys are pairwise distinct, so storing any value under the key of
/// preference `i` leaves what is read under the key of another preference
/// `j` (and so the selection read from it) unchanged.
pub proof fn law_saving_one_pref_keeps_others(
    store: Map<Seq<char>, Seq<char>>,
    i: int,
    j: int,
    value: Seq<char>,
)
    requires
        0 <= i < 5,
        0 <= j < 5,
        i != j,
    ensures
        pref_keys()[i] != pref_keys()[j],
        pref_value(store.insert(pref_keys()[i], value), pref_keys()[j]) == pref_value(store, pref_keys()[j]),
        spec_selected_id(pref_value(store.insert(pref_keys()[i], value), pref_keys()[j]))
            == spec_selected_id(pref_value(store, pref_keys()[j])),
{
    reveal_strlit("selected_ovpn_id");
    reveal_strlit("selected_wg_id");
    reveal_strlit("selected_pptp_id");
    reveal_strlit("selected_outline_id");
    reveal_strlit("tor_isolation_mode");
    let k = pref_keys();
    assert(k[0] == "selected_ovpn_id"@);
    assert(k[1] == "selected_wg_id"@);
    assert(k[2] == "selected_pptp_id"@);
    assert(k[3] == "selected_outline_id"@);
    assert(k[4] == "tor_isolation_mode"@);
    assert(k[0][10] != k[1][10] && k[0][10] != k[2][10] && k[0][10] != k[3][10]);
    assert(k[1][10] != k[2][10] && k[1][10] != k[3][10] && k[2][10] != k[3][10]);
    assert(k[4][0] != k[0][0] && k[4][0] != k[1][0] && k[4][0] != k[2][0] && k[4][0] != k[3][0]);
    assert(k[i] != k[j]);
}

/// An application launched through Tor's SOCKS5 proxy.
#[derive(Clone, Debug)]
pub struct TorIsolatedApp {
    pub id: i64,
    pub name: String,
    pub path: String,
    pub enabled: bool,
}

/// The integer column that stores an `enabled` flag.
pub fn enabled_column(enabled: bool) -> (r: i64)
    ensures
        r == (if enabled {
            1i64
        } else {
            0i64
        }),
{
    if enabled {
        1
    } else {
        0
    }
}

/// The `enabled` flag an integer column denotes: any non-zero value.
pub fn enabled_from_column(v: i64) -> (r: bool)
    ensures
        r == (v != 0),
{
    v != 0
}

/// A stored flag reads back as the flag that was stored.
pub proof fn law_enabled_roundtrip(enabled: bool)
    ensures
        (if enabled {
            1i64
        } else {
            0i64
        }) != 0 == enabled,
{
}

/// How many failed connects an OpenVPN profile may have before it is dropped.
pub open spec fn max_ovpn_failures() -> i32 {
    5
}

/// Whether a profile with this many failures is to be deleted.
pub fn fail_limit_exceeded(fail_count: i32) -> (r: bool)
    ensures
        r == (fail_count > max_ovpn_failures()),
{
    fail_count > 5
}

/// An optional text column: `None` for an empty value.
pub fn non_empty(s: &str) -> (r: Option<&str>)
    ensures
        s@.len() == 0 ==> r is None,
        s@.len() > 0 ==> r == Some(s),
{
    if s.is_empty() {
        None
    } else {
        Some(s)
    }
}

/// `host:port`, `host`, or `fallback` when there is no host.
pub open spec fn spec_host_port_label(host: Option<Seq<char>>, port: Option<u16>, fallback: Seq<
    char,
>) -> Seq<char> {
    match host {
        Some(h) => match port {
            Some(p) => h + seq![':'] + dec(p as nat),
            None => h,
        },
        None => fallback,
    }
}

fn host_port_label(host: Option<&str>, port: Option<u16>, fallback: &str) -> (r: String)
    ensures
        r@ == spec_host_port_label(opt_str_view(host), port, fallback@),
{
    match host {
        Some(h) => match port {
            Some(p) => {
                let mut v: Vec<char> = Vec::new();
                push_str(&mut v, h);
                v.push(':');
                push_dec(&mut v, p as u64);
                assert(v@ =~= spec_host_port_label(opt_str_view(host), port, fallback@));
                string_from_chars(v.as_slice())
            },
            None => owned(h),
        },
        None => owned(fallback),
    }
}

/// The endpoint label of an OpenVPN profile.
pub fn ovpn_endpoint_label(remote_host: Option<&str>, remote_port: Option<u16>) -> (r: String)
    ensures
        r@ == spec_host_port_label(opt_str_view(remote_host), remote_port, "OpenVPN profile"@),
{
    host_port_label(remote_host, remote_port, "OpenVPN profile")
}

/// The endpoint label of an Outline profile.
pub fn outline_endpoint_label(host: Option<&str>, port: Option<u16>) -> (r: String)
    ensures
        r@ == spec_host_port_label(opt_str_view(host), port, "Outline access key"@),
{
    host_port_label(host, port, "Outline access key")
}

/// The endpoint label of a WireGuard profile: its endpoint, if known.
pub fn wg_endpoint_label(endpoint: Option<&str>) -> (r: String)
    ensures
        r@ == spec_host_port_label(opt_str_view(endpoint), None, "WireGuard profile"@),
{
    host_port_label(endpoint, None, "WireGuard profile")
}

/// The default PPTP port, left out of labels.
pub open spec fn pptp_default_port() -> u16 {
    1723
}

/// The endpoint label of a PPTP profile: the host, with the port unless it is 1723.
pub fn pptp_endpoint_label(host: &str, port: u16) -> (r: String)
    ensures
        r@ == spec_host_port_label(
            Some(host@),
            if port == pptp_default_port() {
                None
            } else {
                Some(port)
            },
            Seq::empty(),
        ),
{
    if port == 1723 {
        host_port_label(Some(host), None, "")
    } else {
        host_port_label(Some(host), Some(port), "")
    }
}

/// The IP on a profile's location card: the resolved IP, else the fallback,
/// else empty.
pub open spec fn spec_location_ip(resolved_ip: Option<Seq<char>>, fallback: Option<Seq<char>>) -> Seq<
    char,
> {
    match resolved_ip {
        Some(ip) => ip,
        None => match fallback {
            Some(f) => f,
            None => Seq::empty(),
        },
    }
}

/// The IP shown for an OpenVPN, PPTP or Outline profile (the fallback being
/// its remote host).
pub fn location_ip(resolved_ip: Option<&str>, fallback: Option<&str>) -> (r: String)
    ensures
        r@ == spec_location_ip(opt_str_view(resolved_ip), opt_str_view(fallback)),
{
    match resolved_ip {
        Some(ip) => owned(ip),
        None => match fallback {
            Some(f) => owned(f),
            None => {
                let v: Vec<char> = Vec::new();
                string_from_chars(v.as_slice())
            },
        },
    }
}

} // verus!
