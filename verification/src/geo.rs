//! Where an IP address is: the text fields of the two GeoIP services'
//! answers (ip-api.com first, then ipwho.is).
use vstd::prelude::*;
use crate::json::{
    json_bool, json_bool_at, json_error_of, json_number_text, json_number_text_at,
    json_parse_error, json_str, json_str_at, opt_string_view,
};
use crate::ovpn::{ipwho_as_name, spec_as_name};
use crate::text::owned;

verus! {

/// The text fields of a GeoIP answer (coordinates are read by the caller).
#[derive(Debug)]
pub struct GeoText {
    pub ip: String,
    pub country_code: String,
    pub country: String,
    pub region_code: String,
    pub region: String,
    pub city: String,
    pub zip: String,
    pub timezone: String,
    pub isp: String,
    pub org: String,
    pub as_name: String,
}

/// The value of a [`GeoText`].
pub struct GeoTextView {
    pub ip: Seq<char>,
    pub country_code: Seq<char>,
    pub country: Seq<char>,
    pub region_code: Seq<char>,
    pub region: Seq<char>,
    pub city: Seq<char>,
    pub zip: Seq<char>,
    pub timezone: Seq<char>,
    pub isp: Seq<char>,
    pub org: Seq<char>,
    pub as_name: Seq<char>,
}

impl View for GeoText {
    type V = GeoTextView;

    open spec fn view(&self) -> GeoTextView {
        GeoTextView {
            ip: self.ip@,
            country_code: self.country_code@,
            country: self.country@,
            region_code: self.region_code@,
            region: self.region@,
            city: self.city@,
            zip: self.zip@,
            timezone: self.timezone@,
            isp: self.isp@,
            org: self.org@,
            as_name: self.as_name@,
        }
    }
}

/// `o`, or `d` when absent.
pub open spec fn or_else(o: Option<Seq<char>>, d: Seq<char>) -> Seq<char> {
    match o {
        Some(s) => s,
        None => d,
    }
}

fn or_else_str(o: Option<String>, d: &str) -> (r: String)
    ensures
        r@ == or_else(opt_string_view(o), d@),
{
    match o {
        Some(s) => s,
        None => owned(d),
    }
}

/// An ip-api.com answer about `ip`: nothing unless its `status` is
/// `success`; else its fields, the address defaulting to `ip`.
pub open spec fn spec_ip_api_geo(body: Seq<char>, ip: Seq<char>) -> Option<GeoTextView> {
    if json_parse_error(body) is Some || json_str_at(body, "/status"@) != Some("success"@) {
        None
    } else {
        Some(
            GeoTextView {
                ip: or_else(json_str_at(body, "/query"@), ip),
                country_code: or_else(json_str_at(body, "/countryCode"@), Seq::empty()),
                country: or_else(json_str_at(body, "/country"@), Seq::empty()),
                region_code: or_else(json_str_at(body, "/region"@), Seq::empty()),
                region: or_else(json_str_at(body, "/regionName"@), Seq::empty()),
                city: or_else(json_str_at(body, "/city"@), Seq::empty()),
                zip: or_else(json_str_at(body, "/zip"@), Seq::empty()),
                timezone: or_else(json_str_at(body, "/timezone"@), Seq::empty()),
                isp: or_else(json_str_at(body, "/isp"@), Seq::empty()),
                org: or_else(json_str_at(body, "/org"@), Seq::empty()),
                as_name: or_else(json_str_at(body, "/as"@), Seq::empty()),
            },
        )
    }
}

fn str_eq(s: &str, lit: &str) -> (r: bool)
    ensures
        r == (s@ == lit@),
{
    let v = crate::text::chars_of(s);
    let n = v.len();
    assert(v@.subrange(0, n as int) =~= v@);
    crate::text::range_eq(&v, 0, n, lit)
}

/// Read an ip-api.com answer (`body`) about `ip`.
pub fn ip_api_geo(body: &str, ip: &str) -> (r: Option<GeoText>)
    ensures
        match spec_ip_api_geo(body@, ip@) {
            Some(g) => r matches Some(x) && x@ == g,
            None => r is None,
        },
{
    proof {
        reveal_strlit("");
    }
    if json_error_of(body).is_some() {
        return None;
    }
    let success = match json_str(body, "/status") {
        Some(s) => str_eq(s.as_str(), "success"),
        None => false,
    };
    if !success {
        return None;
    }
    let g = GeoText {
        ip: or_else_str(json_str(body, "/query"), ip),
        country_code: or_else_str(json_str(body, "/countryCode"), ""),
        country: or_else_str(json_str(body, "/country"), ""),
        region_code: or_else_str(json_str(body, "/region"), ""),
        region: or_else_str(json_str(body, "/regionName"), ""),
        city: or_else_str(json_str(body, "/city"), ""),
        zip: or_else_str(json_str(body, "/zip"), ""),
        timezone: or_else_str(json_str(body, "/timezone"), ""),
        isp: or_else_str(json_str(body, "/isp"), ""),
        org: or_else_str(json_str(body, "/org"), ""),
        as_name: or_else_str(json_str(body, "/as"), ""),
    };
    let ghost want = spec_ip_api_geo(body@, ip@)->0;
    assert(g@.ip == want.ip);
    assert(g@.country_code == want.country_code);
    assert(g@.country == want.country);
    assert(g@.region_code == want.region_code);
    assert(g@.region == want.region);
    assert(g@.city == want.city);
    assert(g@.zip == want.zip);
    assert(g@.timezone == want.timezone);
    assert(g@.isp == want.isp);
    assert(g@.org == want.org);
    assert(g@.as_name == want.as_name);
    Some(g)
}

/// The ASN of an ipwho.is answer as text: the number as written, or the
/// string; empty when it is neither.
pub open spec fn ipwho_asn(body: Seq<char>) -> Seq<char> {
    match json_number_text_at(body, "/connection/asn"@) {
        Some(n) => n,
        None => or_else(json_str_at(body, "/connection/asn"@), Seq::empty()),
    }
}

/// An ipwho.is answer about `ip`: nothing when it says `success: false`;
/// else its fields, the ISP from `connection` (else the top-level one), the
/// "AS…" label from the connection's ASN and organisation.
pub open spec fn spec_ipwho_geo(body: Seq<char>, ip: Seq<char>) -> Option<GeoTextView> {
    if json_parse_error(body) is Some || json_bool_at(body, "/success"@) == Some(false) {
        None
    } else {
        let org = or_else(json_str_at(body, "/connection/org"@), Seq::empty());
        Some(
            GeoTextView {
                ip: or_else(json_str_at(body, "/ip"@), ip),
                country_code: or_else(json_str_at(body, "/country_code"@), Seq::empty()),
                country: or_else(json_str_at(body, "/country"@), Seq::empty()),
                region_code: or_else(json_str_at(body, "/region_code"@), Seq::empty()),
                region: or_else(json_str_at(body, "/region"@), Seq::empty()),
                city: or_else(json_str_at(body, "/city"@), Seq::empty()),
                zip: or_else(json_str_at(body, "/postal"@), Seq::empty()),
                timezone: or_else(json_str_at(body, "/timezone/id"@), Seq::empty()),
                isp: match json_str_at(body, "/connection/isp"@) {
                    Some(s) => s,
                    None => or_else(json_str_at(body, "/isp"@), Seq::empty()),
                },
                org,
                as_name: spec_as_name(ipwho_asn(body), org),
            },
        )
    }
}

/// Read an ipwho.is answer (`body`) about `ip`.
pub fn ipwho_geo(body: &str, ip: &str) -> (r: Option<GeoText>)
    ensures
        match spec_ipwho_geo(body@, ip@) {
            Some(g) => r matches Some(x) && x@ == g,
            None => r is None,
        },
{
    proof {
        reveal_strlit("");
    }
    if json_error_of(body).is_some() {
        return None;
    }
    match json_bool(body, "/success") {
        Some(false) => {
            return None;
        },
        _ => {},
    }
    let isp = match json_str(body, "/connection/isp") {
        Some(s) => s,
        None => or_else_str(json_str(body, "/isp"), ""),
    };
    let org = or_else_str(json_str(body, "/connection/org"), "");
    let asn = match json_number_text(body, "/connection/asn") {
        Some(n) => n,
        None => or_else_str(json_str(body, "/connection/asn"), ""),
    };
    let as_name = ipwho_as_name(asn.as_str(), org.as_str());
    let g = GeoText {
        ip: or_else_str(json_str(body, "/ip"), ip),
        country_code: or_else_str(json_str(body, "/country_code"), ""),
        country: or_else_str(json_str(body, "/country"), ""),
        region_code: or_else_str(json_str(body, "/region_code"), ""),
        region: or_else_str(json_str(body, "/region"), ""),
        city: or_else_str(json_str(body, "/city"), ""),
        zip: or_else_str(json_str(body, "/postal"), ""),
        timezone: or_else_str(json_str(body, "/timezone/id"), ""),
        isp,
        org,
        as_name,
    };
    let ghost want = spec_ipwho_geo(body@, ip@)->0;
    assert(g@.ip == want.ip);
    assert(g@.country_code == want.country_code);
    assert(g@.country == want.country);
    assert(g@.region_code == want.region_code);
    assert(g@.region == want.region);
    assert(g@.city == want.city);
    assert(g@.zip == want.zip);
    assert(g@.timezone == want.timezone);
    assert(g@.isp == want.isp);
    assert(g@.org == want.org);
    assert(g@.as_name == want.as_name);
    Some(g)
}

/// What is shown for `ip` when neither service answered: the address and
/// country `Unknown`, every other field empty.
pub fn unknown_geo(ip: &str) -> (r: GeoText)
    ensures
        r@ == (GeoTextView {
            ip: ip@,
            country_code: Seq::empty(),
            country: "Unknown"@,
            region_code: Seq::empty(),
            region: Seq::empty(),
            city: Seq::empty(),
            zip: Seq::empty(),
            timezone: Seq::empty(),
            isp: Seq::empty(),
            org: Seq::empty(),
            as_name: Seq::empty(),
        }),
{
    GeoText {
        ip: owned(ip),
        country_code: String::new(),
        country: owned("Unknown"),
        region_code: String::new(),
        region: String::new(),
        city: String::new(),
        zip: String::new(),
        timezone: String::new(),
        isp: String::new(),
        org: String::new(),
        as_name: String::new(),
    }
}

} // verus!
