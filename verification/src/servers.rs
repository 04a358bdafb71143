//! Server lists: ordering, hosting-address selection, manual hosts.
use vstd::prelude::*;
use crate::num::{dec, push_dec};
use crate::text::{owned, push_str, string_from_chars};
use crate::wireguard::{looks_like_wireguard_public_key, spec_looks_like_wg_key};

verus! {

// ---------------------------------------------------------------------------
// String order
// ---------------------------------------------------------------------------

/// std's order on strings: lexicographic by character (which is the byte
/// order of their UTF-8 encodings).
pub open spec fn lex_lt(a: Seq<char>, b: Seq<char>) -> bool
    decreases a.len(),
{
    if a.len() == 0 {
        b.len() > 0
    } else if b.len() == 0 {
        false
    } else if a[0] != b[0] {
        a[0] < b[0]
    } else {
        lex_lt(a.drop_first(), b.drop_first())
    }
}

pub proof fn lemma_lex_irreflexive(a: Seq<char>)
    ensures
        !lex_lt(a, a),
    decreases a.len(),
{
    if a.len() > 0 {
        lemma_lex_irreflexive(a.drop_first());
    }
}

pub proof fn lemma_lex_trichotomy(a: Seq<char>, b: Seq<char>)
    ensures
        lex_lt(a, b) || a == b || lex_lt(b, a),
        !(lex_lt(a, b) && lex_lt(b, a)),
    decreases a.len(),
{
    if a.len() > 0 && b.len() > 0 {
        if a[0] == b[0] {
            lemma_lex_trichotomy(a.drop_first(), b.drop_first());
            if a.drop_first() == b.drop_first() {
                assert forall|k: int| 0 <= k < a.len() implies a[k] == b[k] by {
                    if k > 0 {
                        assert(a[k] == a.drop_first()[k - 1]);
                        assert(b[k] == b.drop_first()[k - 1]);
                    }
                }
                assert(a =~= b);
            }
        }
    } else if a.len() == 0 && b.len() == 0 {
        assert(a =~= b);
    }
}

pub proof fn lemma_lex_transitive(a: Seq<char>, b: Seq<char>, c: Seq<char>)
    requires
        lex_lt(a, b),
        lex_lt(b, c),
    ensures
        lex_lt(a, c),
    decreases a.len(),
{
    if a.len() > 0 && b.len() > 0 && c.len() > 0 {
        if a[0] == b[0] && b[0] == c[0] {
            lemma_lex_transitive(a.drop_first(), b.drop_first(), c.drop_first());
        }
    }
}

/// `a < b` on strings.
pub fn str_lt(a: &str, b: &str) -> (r: bool)
    ensures
        r == lex_lt(a@, b@),
{
    let av = crate::text::chars_of(a);
    let bv = crate::text::chars_of(b);
    let mut i: usize = 0;
    assert(a@.skip(0) =~= a@);
    assert(b@.skip(0) =~= b@);
    while i < av.len() && i < bv.len() && av[i] == bv[i]
        invariant
            i <= av@.len(),
            i <= bv@.len(),
            av@ == a@,
            bv@ == b@,
            lex_lt(a@, b@) == lex_lt(a@.skip(i as int), b@.skip(i as int)),
        decreases av@.len() - i,
    {
        assert(a@.skip(i as int).drop_first() =~= a@.skip(i + 1));
        assert(b@.skip(i as int).drop_first() =~= b@.skip(i + 1));
        i += 1;
    }
    if i == av.len() {
        i < bv.len()
    } else if i == bv.len() {
        false
    } else {
        av[i] < bv[i]
    }
}

pub open spec fn strings_view(v: Seq<String>) -> Seq<Seq<char>> {
    v.map_values(|s: String| s@)
}

/// Strictly increasing in string order (so without duplicates).
pub open spec fn sorted_strict(s: Seq<Seq<char>>) -> bool {
    forall|i: int, j: int| 0 <= i < j < s.len() ==> lex_lt(#[trigger] s[i], #[trigger] s[j])
}

/// Whether `v` holds `x`.
pub fn contains_string(v: &Vec<String>, x: &str) -> (r: bool)
    ensures
        r == strings_view(v@).contains(x@),
{
    let mut i: usize = 0;
    while i < v.len()
        invariant
            i <= v@.len(),
            forall|j: int| 0 <= j < i ==> strings_view(v@)[j] != x@,
        decreases v@.len() - i,
    {
        if owned(v[i].as_str()) == owned(x) {
            assert(strings_view(v@)[i as int] == x@);
            return true;
        }
        i += 1;
    }
    false
}

/// Insert `x` into a strictly sorted list unless it is there already.
fn insert_sorted(out: &mut Vec<String>, x: &str)
    requires
        sorted_strict(strings_view(old(out)@)),
    ensures
        sorted_strict(strings_view(final(out)@)),
        strings_view(final(out)@).to_set() == strings_view(old(out)@).to_set().insert(x@),
{
    let ghost s = strings_view(out@);
    let mut p: usize = 0;
    while p < out.len() && str_lt(out[p].as_str(), x)
        invariant
            p <= out@.len(),
            s == strings_view(out@),
            forall|j: int| 0 <= j < p ==> lex_lt(#[trigger] s[j], x@),
        decreases out@.len() - p,
    {
        p += 1;
    }
    if p < out.len() && owned(out[p].as_str()) == owned(x) {
        assert(s[p as int] == x@);
        assert(s.to_set().insert(x@) =~= s.to_set());
        return;
    }
    // every later element is greater than `x`
    proof {
        if p < s.len() {
            lemma_lex_trichotomy(s[p as int], x@);
            assert(lex_lt(x@, s[p as int]));
            assert forall|j: int| p <= j < s.len() implies lex_lt(x@, #[trigger] s[j]) by {
                if j > p {
                    lemma_lex_transitive(x@, s[p as int], s[j]);
                }
            }
        }
    }
    out.insert(p, owned(x));
    let ghost t = strings_view(out@);
    assert(t =~= s.insert(p as int, x@));
    assert(sorted_strict(t)) by {
        assert forall|i: int, j: int| 0 <= i < j < t.len() implies lex_lt(#[trigger] t[i], #[trigger] t[j]) by {
            if j < p {
            } else if j == p {
            } else if i < p {
                assert(t[j] == s[j - 1]);
                assert(lex_lt(s[i], x@));
                lemma_lex_transitive(s[i], x@, s[j - 1]);
            } else if i == p {
                assert(t[j] == s[j - 1]);
            } else {
                assert(t[i] == s[i - 1] && t[j] == s[j - 1]);
            }
        }
    }
    assert(t.to_set() =~= s.to_set().insert(x@)) by {
        assert forall|y: Seq<char>| t.to_set().contains(y) <==> s.to_set().insert(x@).contains(y) by {
            if t.to_set().contains(y) {
                let k = choose|k: int| 0 <= k < t.len() && t[k] == y;
                if k < p {
                    assert(s[k] == y);
                } else if k > p {
                    assert(s[k - 1] == y);
                }
            }
            if s.to_set().contains(y) {
                let k = choose|k: int| 0 <= k < s.len() && s[k] == y;
                if k < p {
                    assert(t[k] == y);
                } else {
                    assert(t[k + 1] == y);
                }
            }
            if y == x@ {
                assert(t[p as int] == y);
            }
        }
    }
}

/// The addresses kept from a selection: those offered, sorted, each once.
pub open spec fn spec_filter_selection(selected: Seq<Seq<char>>, available: Seq<Seq<char>>) -> Set<
    Seq<char>,
> {
    selected.to_set().filter(|x: Seq<char>| available.contains(x))
}

/// Keep the selected addresses that are available, sorted and without repeats.
pub fn filter_selection(selected: &Vec<String>, available: &Vec<String>) -> (r: Vec<String>)
    ensures
        sorted_strict(strings_view(r@)),
        strings_view(r@).to_set() == spec_filter_selection(strings_view(selected@), strings_view(
            available@,
        )),
{
    let ghost sel = strings_view(selected@);
    let ghost av = strings_view(available@);
    let mut out: Vec<String> = Vec::new();
    assert(strings_view(out@).to_set() =~= sel.take(0).to_set().filter(
        |x: Seq<char>| av.contains(x),
    ));
    let mut i: usize = 0;
    while i < selected.len()
        invariant
            i <= selected@.len(),
            sel == strings_view(selected@),
            av == strings_view(available@),
            sorted_strict(strings_view(out@)),
            strings_view(out@).to_set() == sel.take(i as int).to_set().filter(
                |x: Seq<char>| av.contains(x),
            ),
        decreases selected@.len() - i,
    {
        let x = selected[i].as_str();
        let ghost before = strings_view(out@);
        let keep = contains_string(available, x);
        if keep {
            insert_sorted(&mut out, x);
        }
        assert(sel.take(i + 1) =~= sel.take(i as int).push(x@));
        assert(strings_view(out@).to_set() =~= sel.take(i + 1).to_set().filter(
            |y: Seq<char>| av.contains(y),
        )) by {
            assert forall|y: Seq<char>|
                strings_view(out@).to_set().contains(y) <==> sel.take(i + 1).to_set().filter(
                    |z: Seq<char>| av.contains(z),
                ).contains(y) by {
                let t1 = sel.take(i + 1);
                let t0 = sel.take(i as int);
                assert(t1.to_set().contains(y) <==> (t0.to_set().contains(y) || y == x@)) by {
                    if t1.to_set().contains(y) {
                        let k = choose|k: int| 0 <= k < t1.len() && #[trigger] t1[k] == y;
                        if k < i {
                            assert(t0[k] == y);
                        }
                    }
                    if t0.to_set().contains(y) {
                        let k = choose|k: int| 0 <= k < t0.len() && #[trigger] t0[k] == y;
                        assert(t1[k] == y);
                    }
                    if y == x@ {
                        assert(t1[i as int] == y);
                    }
                }
            }
        }
        i += 1;
    }
    assert(sel.take(i as int) =~= sel);
    out
}

/// The notice after saving the hosting-address selection.
pub fn selection_saved_notice(ipv4_count: usize, ipv6_count: usize) -> (r: String)
    ensures
        r@ == "Saved server address selection: "@ + dec(ipv4_count as nat) + " IPv4 / "@ + dec(
            ipv6_count as nat,
        ) + " IPv6 selected."@,
{
    let mut v: Vec<char> = Vec::new();
    push_str(&mut v, "Saved server address selection: ");
    push_dec(&mut v, ipv4_count as u64);
    push_str(&mut v, " IPv4 / ");
    push_dec(&mut v, ipv6_count as u64);
    push_str(&mut v, " IPv6 selected.");
    string_from_chars(v.as_slice())
}

/// Whether this machine may start hosting: it needs a global address, and at
/// least one selected; otherwise the notice that says what is missing.
pub open spec fn spec_hosting_start_check(has_global: bool, ipv4_selected: nat, ipv6_selected: nat) -> Result<
    (),
    Seq<char>,
> {
    if !has_global {
        Err(
            "No global/public IPv4 or IPv6 address was detected on this machine. Local/LAN addresses are not allowed for server hosting."@,
        )
    } else if ipv4_selected == 0 && ipv6_selected == 0 {
        Err(
            "No public IPv4 or IPv6 address is selected for hosting. Open Settings on the hosting card and select at least one global address."@,
        )
    } else {
        Ok(())
    }
}

/// Check the conditions for starting the local server.
pub fn hosting_start_check(has_global: bool, ipv4_selected: usize, ipv6_selected: usize) -> (r: Result<(), String>)
    ensures
        match spec_hosting_start_check(has_global, ipv4_selected as nat, ipv6_selected as nat) {
            Ok(()) => r is Ok,
            Err(e) => r matches Err(m) && m@ == e,
        },
{
    if !has_global {
        return Err(
            owned(
                "No global/public IPv4 or IPv6 address was detected on this machine. Local/LAN addresses are not allowed for server hosting.",
            ),
        );
    }
    if ipv4_selected == 0 && ipv6_selected == 0 {
        return Err(
            owned(
                "No public IPv4 or IPv6 address is selected for hosting. Open Settings on the hosting card and select at least one global address.",
            ),
        );
    }
    Ok(())
}

// ---------------------------------------------------------------------------
// Manual hosts
// ---------------------------------------------------------------------------

/// What adding a manual host did.
#[derive(Clone, Copy, Debug, PartialEq, Eq, Structural)]
pub enum AddHostOutcome {
    /// The value is a WireGuard public key, not a host: nothing was saved.
    LooksLikeKey,
    /// The host was new and has been appended.
    Added,
    /// The host was known already.
    AlreadyKnown,
}

/// Add a manual host to the known hosts unless it looks like a WireGuard key
/// or is known already.
pub fn add_known_host(known: &mut Vec<String>, host: &str) -> (r: AddHostOutcome)
    ensures
        spec_looks_like_wg_key(host@) ==> r == AddHostOutcome::LooksLikeKey && final(known)@
            == old(known)@,
        !spec_looks_like_wg_key(host@) && strings_view(old(known)@).contains(host@) ==> r
            == AddHostOutcome::AlreadyKnown && final(known)@ == old(known)@,
        !spec_looks_like_wg_key(host@) && !strings_view(old(known)@).contains(host@) ==> r
            == AddHostOutcome::Added && strings_view(final(known)@) == strings_view(old(known)@).push(
            host@,
        ),
{
    if looks_like_wireguard_public_key(host) {
        return AddHostOutcome::LooksLikeKey;
    }
    if contains_string(known, host) {
        return AddHostOutcome::AlreadyKnown;
    }
    known.push(owned(host));
    assert(strings_view(known@) =~= strings_view(old(known)@).push(host@));
    AddHostOutcome::Added
}

/// After a manual host is added it is known, and adding it again changes nothing.
pub proof fn law_added_host_is_known(known: Seq<Seq<char>>, host: Seq<char>)
    requires
        !spec_looks_like_wg_key(host),
    ensures
        (if known.contains(host) {
            known
        } else {
            known.push(host)
        }).contains(host),
{
    if !known.contains(host) {
        assert(known.push(host)[known.len() as int] == host);
    }
}

/// The notice after adding a manual host.
pub open spec fn spec_add_host_notice(outcome: AddHostOutcome, host: Seq<char>) -> Option<Seq<char>> {
    match outcome {
        AddHostOutcome::LooksLikeKey => Some(
            "That looks like a WireGuard public key, not a host or IP address. Use one of the server endpoint addresses shown on the hosting panel instead."@,
        ),
        AddHostOutcome::Added => Some("Saved manual host "@ + host + "."@),
        AddHostOutcome::AlreadyKnown => None,
    }
}

/// The notice after adding a manual host, if any.
pub fn add_host_notice(outcome: AddHostOutcome, host: &str) -> (r: Option<String>)
    ensures
        match spec_add_host_notice(outcome, host@) {
            Some(n) => r matches Some(m) && m@ == n,
            None => r is None,
        },
{
    match outcome {
        AddHostOutcome::LooksLikeKey => Some(
            owned(
                "That looks like a WireGuard public key, not a host or IP address. Use one of the server endpoint addresses shown on the hosting panel instead.",
            ),
        ),
        AddHostOutcome::Added => {
            let mut v: Vec<char> = Vec::new();
            push_str(&mut v, "Saved manual host ");
            push_str(&mut v, host);
            push_str(&mut v, ".");
            Some(string_from_chars(v.as_slice()))
        },
        AddHostOutcome::AlreadyKnown => None,
    }
}

/// What the add-host command leads to: what happened to the list, the
/// notice to show (if any), whether the client configuration is saved, and
/// whether a discovery refresh follows.
pub struct AddHostStep {
    pub outcome: AddHostOutcome,
    pub notice: Option<String>,
    pub save_config: bool,
    pub refresh: bool,
}

/// Handle the add-host command: a value shaped like a WireGuard key is
/// refused with a notice and nothing else happens; otherwise the host is
/// added unless known (a new host is saved with a notice), and a discovery
/// refresh follows either way.
pub fn add_host_command(known: &mut Vec<String>, host: &str) -> (r: AddHostStep)
    ensures
        spec_looks_like_wg_key(host@) <==> r.outcome == AddHostOutcome::LooksLikeKey,
        r.outcome == AddHostOutcome::LooksLikeKey ==> final(known)@ == old(known)@,
        r.outcome == AddHostOutcome::AlreadyKnown ==> final(known)@ == old(known)@ && strings_view(
            old(known)@,
        ).contains(host@),
        r.outcome == AddHostOutcome::Added ==> strings_view(final(known)@) == strings_view(
            old(known)@,
        ).push(host@) && !strings_view(old(known)@).contains(host@),
        match spec_add_host_notice(r.outcome, host@) {
            Some(n) => r.notice matches Some(m) && m@ == n,
            None => r.notice is None,
        },
        r.save_config == (r.outcome == AddHostOutcome::Added),
        r.refresh == (r.outcome != AddHostOutcome::LooksLikeKey),
{
    let outcome = add_known_host(known, host);
    let notice = add_host_notice(outcome, host);
    AddHostStep {
        outcome,
        notice,
        save_config: outcome == AddHostOutcome::Added,
        refresh: outcome != AddHostOutcome::LooksLikeKey,
    }
}

/// The notice after a discovery round.
pub fn discovery_notice(online: usize, total: usize) -> (r: String)
    ensures
        r@ == "Discovered "@ + dec(online as nat) + " online node(s); "@ + dec(
            (if total >= online {
                total - online
            } else {
                0
            }) as nat,
        ) + " saved node(s) are currently offline."@,
{
    let mut v: Vec<char> = Vec::new();
    push_str(&mut v, "Discovered ");
    push_dec(&mut v, online as u64);
    push_str(&mut v, " online node(s); ");
    push_dec(&mut v, total.saturating_sub(online) as u64);
    push_str(&mut v, " saved node(s) are currently offline.");
    string_from_chars(v.as_slice())
}

/// The OpenVPN profile "connect selected" uses: the selected one, else the first.
pub fn choose_ovpn_profile(selected: Option<i64>, first: Option<i64>) -> (r: Option<i64>)
    ensures
        r == (match selected {
            Some(id) => Some(id),
            None => first,
        }),
{
    match selected {
        Some(id) => Some(id),
        None => first,
    }
}

// ---------------------------------------------------------------------------
// Display order
// ---------------------------------------------------------------------------

/// Server `a` comes before server `b`: online ones first, then by name, and
/// in list order when both tie (the sort is stable).
pub open spec fn shown_before(keys: Seq<(bool, Seq<char>)>, a: int, b: int) -> bool {
    let ka = keys[a];
    let kb = keys[b];
    (ka.0 && !kb.0) || (ka.0 == kb.0 && (lex_lt(ka.1, kb.1) || (ka.1 == kb.1 && a < b)))
}

pub proof fn lemma_shown_before_total(keys: Seq<(bool, Seq<char>)>, a: int, b: int)
    ensures
        a != b ==> (shown_before(keys, a, b) || shown_before(keys, b, a)),
        !(shown_before(keys, a, b) && shown_before(keys, b, a)),
{
    lemma_lex_trichotomy(keys[a].1, keys[b].1);
}

pub proof fn lemma_shown_before_transitive(keys: Seq<(bool, Seq<char>)>, a: int, b: int, c: int)
    requires
        shown_before(keys, a, b),
        shown_before(keys, b, c),
    ensures
        shown_before(keys, a, c),
{
    lemma_lex_trichotomy(keys[a].1, keys[b].1);
    lemma_lex_trichotomy(keys[b].1, keys[c].1);
    if lex_lt(keys[a].1, keys[b].1) && lex_lt(keys[b].1, keys[c].1) {
        lemma_lex_transitive(keys[a].1, keys[b].1, keys[c].1);
    }
}

/// A server card key: whether the server is online, and its name.
#[derive(Debug)]
pub struct ServerKey {
    pub online: bool,
    pub name: String,
}

pub open spec fn keys_view(v: Seq<ServerKey>) -> Seq<(bool, Seq<char>)> {
    v.map_values(|k: ServerKey| (k.online, k.name@))
}

/// The order in which server cards are shown: a permutation of the positions
/// of `keys`, each shown before the next.
pub fn display_order(keys: &Vec<ServerKey>) -> (r: Vec<usize>)
    ensures
        r@.len() == keys@.len(),
        forall|i: int| 0 <= i < r@.len() ==> (#[trigger] r@[i]) < keys@.len(),
        forall|i: int, j: int|
            0 <= i < j < r@.len() ==> shown_before(
                keys_view(keys@),
                #[trigger] r@[i] as int,
                #[trigger] r@[j] as int,
            ),
{
    let ghost kv = keys_view(keys@);
    let mut out: Vec<usize> = Vec::new();
    let mut i: usize = 0;
    while i < keys.len()
        invariant
            i <= keys@.len(),
            kv == keys_view(keys@),
            out@.len() == i,
            forall|a: int| 0 <= a < out@.len() ==> (#[trigger] out@[a]) < i,
            forall|a: int, b: int|
                0 <= a < b < out@.len() ==> shown_before(kv, #[trigger] out@[a] as int, #[trigger] out@[b] as int),
        decreases keys@.len() - i,
    {
        // position of the first card that `i` goes before
        let mut p: usize = 0;
        while p < out.len() && !before_exec(keys, i, out[p])
            invariant
                p <= out@.len(),
                i < keys@.len(),
                kv == keys_view(keys@),
                forall|a: int| 0 <= a < out@.len() ==> (#[trigger] out@[a]) < i,
                forall|a: int| 0 <= a < p ==> !shown_before(kv, i as int, #[trigger] out@[a] as int),
            decreases out@.len() - p,
        {
            p += 1;
        }
        let ghost s = out@;
        proof {
            assert forall|a: int| 0 <= a < p implies shown_before(kv, #[trigger] s[a] as int, i as int) by {
                lemma_shown_before_total(kv, s[a] as int, i as int);
            }
            if p < s.len() {
                assert forall|a: int| p <= a < s.len() implies shown_before(kv, i as int, #[trigger] s[a] as int) by {
                    if a > p {
                        lemma_shown_before_transitive(kv, i as int, s[p as int] as int, s[a] as int);
                    }
                }
            }
        }
        out.insert(p, i);
        assert forall|a: int, b: int|
            0 <= a < b < out@.len() implies shown_before(kv, #[trigger] out@[a] as int, #[trigger] out@[b] as int) by {
            if b < p {
                assert(out@[a] == s[a] && out@[b] == s[b]);
            } else if b == p {
                assert(out@[a] == s[a]);
            } else if a < p {
                assert(out@[a] == s[a] && out@[b] == s[b - 1]);
                lemma_shown_before_transitive(kv, s[a] as int, i as int, s[b - 1] as int);
            } else if a == p {
                assert(out@[b] == s[b - 1]);
            } else {
                assert(out@[a] == s[a - 1] && out@[b] == s[b - 1]);
            }
        }
        assert forall|a: int| 0 <= a < out@.len() implies (#[trigger] out@[a]) < i + 1 by {
            if a < p {
                assert(out@[a] == s[a]);
            } else if a > p {
                assert(out@[a] == s[a - 1]);
            }
        }
        i += 1;
    }
    out
}

fn before_exec(keys: &Vec<ServerKey>, a: usize, b: usize) -> (r: bool)
    requires
        a < keys@.len(),
        b < keys@.len(),
    ensures
        r == shown_before(keys_view(keys@), a as int, b as int),
{
    let ka = &keys[a];
    let kb = &keys[b];
    if ka.online && !kb.online {
        return true;
    }
    if ka.online != kb.online {
        return false;
    }
    if str_lt(ka.name.as_str(), kb.name.as_str()) {
        return true;
    }
    owned(ka.name.as_str()) == owned(kb.name.as_str()) && a < b
}

} // verus!
