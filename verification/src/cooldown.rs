//! Per-server connection cooldowns.
//!
//! A server that refused or failed a connection is put on cooldown until a
//! given time; the table maps each server id to its one cooldown entry.
use vstd::prelude::*;
use crate::display::{format_remaining, spec_format_remaining};
use crate::session::{
    connecting_session, cooldown_session, spec_connecting_session, spec_cooldown_session,
    ActiveSession,
};
use crate::text::{owned, push_str, string_from_chars};

verus! {

/// A server's cooldown: until when, and why.
#[derive(Debug)]
pub struct CooldownEntry {
    pub server_id: String,
    pub endpoint: String,
    pub until_unix: u64,
    pub reason: String,
}

/// The value of a [`CooldownEntry`].
pub struct CooldownEntryView {
    pub server_id: Seq<char>,
    pub endpoint: Seq<char>,
    pub until_unix: u64,
    pub reason: Seq<char>,
}

impl View for CooldownEntry {
    type V = CooldownEntryView;

    open spec fn view(&self) -> CooldownEntryView {
        CooldownEntryView {
            server_id: self.server_id@,
            endpoint: self.endpoint@,
            until_unix: self.until_unix,
            reason: self.reason@,
        }
    }
}

pub open spec fn entry_view(e: CooldownEntry) -> CooldownEntryView {
    e@
}

/// `s` has an entry for server `k`.
pub open spec fn has_id(s: Seq<CooldownEntryView>, k: Seq<char>) -> bool {
    exists|i: int| 0 <= i < s.len() && (#[trigger] s[i]).server_id == k
}

/// The position of server `k`'s entry in `s`.
pub open spec fn index_of(s: Seq<CooldownEntryView>, k: Seq<char>) -> int {
    choose|i: int| 0 <= i < s.len() && (#[trigger] s[i]).server_id == k
}

/// No server has two entries.
pub open spec fn distinct_ids(s: Seq<CooldownEntryView>) -> bool {
    forall|i: int, j: int|
        0 <= i < s.len() && 0 <= j < s.len() && i != j ==> (#[trigger] s[i]).server_id != (
        #[trigger] s[j]).server_id
}

/// The map from server id to entry that `s` denotes.
pub open spec fn seq_to_map(s: Seq<CooldownEntryView>) -> Map<Seq<char>, CooldownEntryView> {
    Map::new(|k: Seq<char>| has_id(s, k), |k: Seq<char>| s[index_of(s, k)])
}

proof fn lemma_index_of(s: Seq<CooldownEntryView>, i: int)
    requires
        distinct_ids(s),
        0 <= i < s.len(),
    ensures
        has_id(s, s[i].server_id),
        index_of(s, s[i].server_id) == i,
{
    let k = s[i].server_id;
    assert(has_id(s, k));
    let j = index_of(s, k);
    if j != i {
        assert(s[j].server_id == k);
    }
}

/// The cooldowns of `table` still running at `now`: those that end after `now`.
pub open spec fn live_cooldowns(table: Map<Seq<char>, CooldownEntryView>, now: u64) -> Map<
    Seq<char>,
    CooldownEntryView,
> {
    table.restrict(table.dom().filter(|k: Seq<char>| table[k].until_unix > now))
}

/// The cooldown table.
pub struct Cooldowns {
    entries: Vec<CooldownEntry>,
}

impl Cooldowns {
    /// The entries, in storage order.
    pub closed spec fn entries_view(&self) -> Seq<CooldownEntryView> {
        self.entries@.map_values(|e: CooldownEntry| entry_view(e))
    }

    #[verifier::type_invariant]
    spec fn inv(&self) -> bool {
        distinct_ids(self.entries_view())
    }

    /// The table as a map from server id to entry.
    pub closed spec fn view(&self) -> Map<Seq<char>, CooldownEntryView> {
        seq_to_map(self.entries_view())
    }

    /// An empty table.
    pub fn new() -> (r: Self)
        ensures
            r.view() == Map::<Seq<char>, CooldownEntryView>::empty(),
    {
        let r = Cooldowns { entries: Vec::new() };
        assert(r.entries_view() =~= Seq::<CooldownEntryView>::empty());
        assert(r.view() =~= Map::<Seq<char>, CooldownEntryView>::empty());
        r
    }

    /// Number of servers on cooldown.
    pub fn len(&self) -> (r: usize)
        ensures
            r == self.view().dom().len(),
    {
        proof {
            use_type_invariant(self);
            self.lemma_dom_len();
        }
        self.entries.len()
    }

    proof fn lemma_dom_len(&self)
        requires
            distinct_ids(self.entries_view()),
        ensures
            self.view().dom().len() == self.entries@.len(),
            self.view().dom().finite(),
    {
        let s = self.entries_view();
        let ids = Seq::new(s.len(), |i: int| s[i].server_id);
        assert(self.view().dom() =~= ids.to_set()) by {
            assert forall|k: Seq<char>| self.view().dom().contains(k) implies ids.to_set().contains(
                k,
            ) by {
                let i = index_of(s, k);
                assert(ids[i] == k);
            }
            assert forall|k: Seq<char>| ids.to_set().contains(k) implies self.view().dom().contains(
                k,
            ) by {
                let i = choose|i: int| 0 <= i < ids.len() && ids[i] == k;
                assert(s[i].server_id == k);
            }
        }
        assert(ids.no_duplicates()) by {
            assert forall|i: int, j: int| 0 <= i < ids.len() && 0 <= j < ids.len() && i != j implies ids[i]
                != ids[j] by {
                assert(s[i].server_id != s[j].server_id);
            }
        }
        ids.unique_seq_to_set();
    }

    /// The position of `server_id`'s entry, if it has one.
    fn find(&self, server_id: &str) -> (r: Option<usize>)
        ensures
            match r {
                Some(i) => i < self.entries@.len() && self.entries_view()[i as int].server_id
                    == server_id@ && self.view().dom().contains(server_id@),
                None => !self.view().dom().contains(server_id@),
            },
    {
        let mut i: usize = 0;
        while i < self.entries.len()
            invariant
                i <= self.entries@.len(),
                forall|j: int| 0 <= j < i ==> (#[trigger] self.entries_view()[j]).server_id != server_id@,
            decreases self.entries@.len() - i,
        {
            if crate::text::owned(self.entries[i].server_id.as_str()) == owned(server_id) {
                assert(self.entries_view()[i as int].server_id == server_id@);
                assert(has_id(self.entries_view(), server_id@));
                return Some(i);
            }
            i += 1;
        }
        assert(!has_id(self.entries_view(), server_id@));
        None
    }

    /// The entry of `server_id`, if it is on cooldown.
    pub fn get(&self, server_id: &str) -> (r: Option<&CooldownEntry>)
        ensures
            match r {
                Some(e) => self.view().dom().contains(server_id@) && self.view()[server_id@] == e@,
                None => !self.view().dom().contains(server_id@),
            },
    {
        proof {
            use_type_invariant(self);
        }
        match self.find(server_id) {
            Some(i) => {
                proof {
                    lemma_index_of(self.entries_view(), i as int);
                }
                Some(&self.entries[i])
            },
            None => None,
        }
    }

    /// Put `server_id` on cooldown until `until_unix`, replacing any entry it had.
    pub fn set_cooldown(&mut self, server_id: String, endpoint: String, until_unix: u64, reason: String)
        ensures
            final(self).view() == old(self).view().insert(
                server_id@,
                CooldownEntryView {
                    server_id: server_id@,
                    endpoint: endpoint@,
                    until_unix,
                    reason: reason@,
                },
            ),
    {
        proof {
            use_type_invariant(&*self);
        }
        let ghost s = self.entries_view();
        let ghost k = server_id@;
        let entry = CooldownEntry { server_id, endpoint, until_unix, reason };
        let ghost e = entry@;
        let ghost m = old(self).view().insert(k, e);
        match self.find(entry.server_id.as_str()) {
            Some(i) => {
                let mut entries = Vec::new();
                std::mem::swap(&mut entries, &mut self.entries);
                entries.set(i, entry);
                let ghost t = entries@.map_values(|e: CooldownEntry| entry_view(e));
                assert(t =~= s.update(i as int, e));
                assert(distinct_ids(t)) by {
                    assert forall|a: int, b: int|
                        0 <= a < t.len() && 0 <= b < t.len() && a != b implies (#[trigger] t[a]).server_id
                        != (#[trigger] t[b]).server_id by {
                        if a == i {
                            assert(s[i as int].server_id == k);
                            assert(s[b].server_id != s[a].server_id);
                        } else if b == i {
                            assert(s[i as int].server_id == k);
                            assert(s[b].server_id != s[a].server_id);
                        } else {
                            assert(s[b].server_id != s[a].server_id);
                        }
                    }
                }
                self.entries = entries;
                assert(self.entries_view() == t);
                assert(self.view() =~= m) by {
                    assert forall|k2: Seq<char>| #[trigger] has_id(t, k2) == m.dom().contains(k2) by {
                        if has_id(t, k2) {
                            let j = index_of(t, k2);
                            if j != i {
                                assert(s[j].server_id == k2);
                            }
                        }
                        if m.dom().contains(k2) && k2 != k {
                            let j = index_of(s, k2);
                            assert(t[j].server_id == k2);
                        }
                        if k2 == k {
                            assert(t[i as int].server_id == k2);
                        }
                    }
                    assert forall|k2: Seq<char>| #[trigger] m.dom().contains(k2) implies t[index_of(
                        t,
                        k2,
                    )] == m[k2] by {
                        if k2 == k {
                            lemma_index_of(t, i as int);
                        } else {
                            let j = index_of(s, k2);
                            lemma_index_of(s, j);
                            lemma_index_of(t, j);
                        }
                    }
                }
            },
            None => {
                let mut entries = Vec::new();
                std::mem::swap(&mut entries, &mut self.entries);
                entries.push(entry);
                let ghost t = entries@.map_values(|e: CooldownEntry| entry_view(e));
                assert(t =~= s.push(e));
                let ghost n = s.len() as int;
                assert(distinct_ids(t)) by {
                    assert forall|a: int, b: int|
                        0 <= a < t.len() && 0 <= b < t.len() && a != b implies (#[trigger] t[a]).server_id
                        != (#[trigger] t[b]).server_id by {
                        if a == n {
                            assert(!has_id(s, k));
                            assert(s[b].server_id != k);
                        } else if b == n {
                            assert(!has_id(s, k));
                            assert(s[a].server_id != k);
                        } else {
                            assert(s[b].server_id != s[a].server_id);
                        }
                    }
                }
                self.entries = entries;
                assert(self.entries_view() == t);
                assert(self.view() =~= m) by {
                    assert forall|k2: Seq<char>| #[trigger] has_id(t, k2) == m.dom().contains(k2) by {
                        if has_id(t, k2) {
                            let j = index_of(t, k2);
                            if j != n {
                                assert(s[j].server_id == k2);
                            }
                        }
                        if m.dom().contains(k2) && k2 != k {
                            let j = index_of(s, k2);
                            assert(t[j].server_id == k2);
                        }
                        if k2 == k {
                            assert(t[n].server_id == k2);
                        }
                    }
                    assert forall|k2: Seq<char>| #[trigger] m.dom().contains(k2) implies t[index_of(
                        t,
                        k2,
                    )] == m[k2] by {
                        if k2 == k {
                            lemma_index_of(t, n);
                        } else {
                            let j = index_of(s, k2);
                            lemma_index_of(s, j);
                            lemma_index_of(t, j);
                        }
                    }
                }
            },
        }
    }

    /// Take `server_id` off cooldown; whether it was on cooldown.
    pub fn clear_cooldown(&mut self, server_id: &str) -> (r: bool)
        ensures
            r == old(self).view().dom().contains(server_id@),
            final(self).view() == old(self).view().remove(server_id@),
    {
        proof {
            use_type_invariant(&*self);
        }
        let ghost s = self.entries_view();
        let ghost k = server_id@;
        let ghost m = old(self).view().remove(k);
        match self.find(server_id) {
            Some(i) => {
                let mut entries = Vec::new();
                std::mem::swap(&mut entries, &mut self.entries);
                let _ = entries.remove(i);
                let ghost t = entries@.map_values(|e: CooldownEntry| entry_view(e));
                assert(t =~= s.remove(i as int));
                assert(distinct_ids(t)) by {
                    assert forall|a: int, b: int|
                        0 <= a < t.len() && 0 <= b < t.len() && a != b implies (#[trigger] t[a]).server_id
                        != (#[trigger] t[b]).server_id by {
                        let a2 = if a < i { a } else { a + 1 };
                        let b2 = if b < i { b } else { b + 1 };
                        assert(t[a] == s[a2]);
                        assert(t[b] == s[b2]);
                        assert(s[a2].server_id != s[b2].server_id);
                    }
                }
                self.entries = entries;
                assert(self.entries_view() == t);
                assert(self.view() =~= m) by {
                    assert forall|k2: Seq<char>| #[trigger] has_id(t, k2) == m.dom().contains(k2) by {
                        if has_id(t, k2) {
                            let j = index_of(t, k2);
                            let j2 = if j < i { j } else { j + 1 };
                            assert(s[j2].server_id == k2);
                            if k2 == k {
                                lemma_index_of(s, i as int);
                                lemma_index_of(s, j2);
                            }
                        }
                        if m.dom().contains(k2) {
                            let j = index_of(s, k2);
                            lemma_index_of(s, i as int);
                            let j1 = if j < i { j } else { j - 1 };
                            assert(t[j1].server_id == k2);
                        }
                    }
                    assert forall|k2: Seq<char>| #[trigger] m.dom().contains(k2) implies t[index_of(
                        t,
                        k2,
                    )] == m[k2] by {
                        let j = index_of(s, k2);
                        lemma_index_of(s, j);
                        lemma_index_of(s, i as int);
                        let j1 = if j < i { j } else { j - 1 };
                        assert(t[j1] == s[j]);
                        lemma_index_of(t, j1);
                    }
                }
                true
            },
            None => {
                assert(m =~= old(self).view());
                false
            },
        }
    }

    /// Drop every cooldown that has expired at `now` (those until `now` or
    /// earlier); whether anything was dropped.
    pub fn prune(&mut self, now: u64) -> (changed: bool)
        ensures
            final(self).view() == live_cooldowns(old(self).view(), now),
            changed == (final(self).view().dom().len() != old(self).view().dom().len()),
    {
        proof {
            use_type_invariant(&*self);
            self.lemma_dom_len();
        }
        let ghost s = self.entries_view();
        let ghost m = live_cooldowns(old(self).view(), now);
        let mut kept: Vec<CooldownEntry> = Vec::new();
        let mut rest: Vec<CooldownEntry> = Vec::new();
        std::mem::swap(&mut rest, &mut self.entries);
        let n = rest.len();
        let ghost mut src: Seq<int> = Seq::empty();
        let mut i: usize = 0;
        while i < n
            invariant
                n == s.len(),
                i <= n,
                rest@.len() == n - i,
                forall|j: int| 0 <= j < n - i ==> entry_view(#[trigger] rest@[j]) == s[i + j],
                distinct_ids(s),
                kept@.len() == src.len(),
                forall|a: int|
                    0 <= a < src.len() ==> 0 <= #[trigger] src[a] < i && entry_view(kept@[a])
                        == s[src[a]] && s[src[a]].until_unix > now,
                forall|a: int, b: int| 0 <= a < b < src.len() ==> #[trigger] src[a] < #[trigger] src[b],
                forall|j: int|
                    0 <= j < i && (#[trigger] s[j]).until_unix > now ==> exists|a: int|
                        0 <= a < src.len() && src[a] == j,
            decreases n - i,
        {
            let ghost prev = rest@;
            let e = rest.remove(0);
            assert(entry_view(e) == s[i as int]);
            assert forall|j: int| 0 <= j < n - (i + 1) implies entry_view(#[trigger] rest@[j]) == s[i
                + 1 + j] by {
                assert(rest@[j] == prev[j + 1]);
            }
            if e.until_unix > now {
                let ghost before = src;
                kept.push(e);
                proof {
                    src = src.push(i as int);
                    assert forall|j: int|
                        0 <= j < i + 1 && (#[trigger] s[j]).until_unix > now implies exists|a: int|
                        0 <= a < src.len() && src[a] == j by {
                        if j == i {
                            assert(src[before.len() as int] == j);
                        } else {
                            let a = choose|a: int| 0 <= a < before.len() && before[a] == j;
                            assert(src[a] == j);
                        }
                    }
                }
            }
            i += 1;
        }
        let ghost t = kept@.map_values(|e: CooldownEntry| entry_view(e));
        assert forall|a: int| 0 <= a < t.len() implies #[trigger] t[a] == s[src[a]] by {
            assert(t[a] == entry_view(kept@[a]));
        }
        assert(distinct_ids(t)) by {
            assert forall|a: int, b: int|
                0 <= a < t.len() && 0 <= b < t.len() && a != b implies (#[trigger] t[a]).server_id
                != (#[trigger] t[b]).server_id by {
                if a < b {
                    assert(src[a] < src[b]);
                } else {
                    assert(src[b] < src[a]);
                }
                assert(s[src[a]].server_id != s[src[b]].server_id);
            }
        }
        self.entries = kept;
        assert(self.entries_view() == t);
        assert(self.view() =~= m) by {
            assert forall|k2: Seq<char>| #[trigger] has_id(t, k2) == m.dom().contains(k2) by {
                if has_id(t, k2) {
                    let a = index_of(t, k2);
                    let j = src[a];
                    lemma_index_of(s, j);
                }
                if m.dom().contains(k2) {
                    let j = index_of(s, k2);
                    assert(s[j].until_unix > now);
                    let a = choose|a: int| 0 <= a < src.len() && src[a] == j;
                    assert(t[a].server_id == k2);
                }
            }
            assert forall|k2: Seq<char>| #[trigger] m.dom().contains(k2) implies t[index_of(t, k2)]
                == m[k2] by {
                let a = index_of(t, k2);
                assert(has_id(t, k2)) by {
                    let j = index_of(s, k2);
                    assert(s[j].until_unix > now);
                    let a2 = choose|a2: int| 0 <= a2 < src.len() && src[a2] == j;
                    assert(t[a2].server_id == k2);
                }
                lemma_index_of(s, src[a]);
            }
        }
        proof {
            self.lemma_dom_len();
        }
        self.entries.len() != n
    }
}

/// What a server card shows about its cooldown.
#[derive(Debug)]
pub struct ServerCooldown {
    pub server_id: String,
    pub cooldown_until_unix: Option<u64>,
    pub last_message: Option<String>,
}

/// The value of a [`ServerCooldown`].
pub struct ServerCooldownView {
    pub server_id: Seq<char>,
    pub cooldown_until_unix: Option<u64>,
    pub last_message: Option<Seq<char>>,
}

impl View for ServerCooldown {
    type V = ServerCooldownView;

    open spec fn view(&self) -> ServerCooldownView {
        ServerCooldownView {
            server_id: self.server_id@,
            cooldown_until_unix: self.cooldown_until_unix,
            last_message: match self.last_message {
                Some(m) => Some(m@),
                None => None,
            },
        }
    }
}

/// A server card after applying the table at `now`: a live cooldown shows its
/// end and reason; otherwise the end is cleared and the message kept.
pub open spec fn spec_apply_cooldown(
    table: Map<Seq<char>, CooldownEntryView>,
    s: ServerCooldownView,
    now: u64,
) -> ServerCooldownView {
    if table.dom().contains(s.server_id) && table[s.server_id].until_unix > now {
        ServerCooldownView {
            cooldown_until_unix: Some(table[s.server_id].until_unix),
            last_message: Some(table[s.server_id].reason),
            ..s
        }
    } else {
        ServerCooldownView { cooldown_until_unix: None, ..s }
    }
}

impl Cooldowns {
    /// Show the table's cooldowns on the server cards.
    pub fn apply_to_servers(&self, servers: &mut Vec<ServerCooldown>, now: u64)
        ensures
            final(servers)@.len() == old(servers)@.len(),
            forall|i: int|
                0 <= i < old(servers)@.len() ==> (#[trigger] final(servers)@[i])@ == spec_apply_cooldown(
                    self.view(),
                    old(servers)@[i]@,
                    now,
                ),
    {
        let n = servers.len();
        let mut i: usize = 0;
        while i < n
            invariant
                n == old(servers)@.len() == servers@.len(),
                i <= n,
                forall|j: int| 0 <= j < i ==> (#[trigger] servers@[j])@ == spec_apply_cooldown(
                    self.view(),
                    old(servers)@[j]@,
                    now,
                ),
                forall|j: int| i <= j < n ==> #[trigger] servers@[j] == old(servers)@[j],
            decreases n - i,
        {
            let mut s = servers.remove(i);
            match self.get(s.server_id.as_str()) {
                Some(e) => {
                    if e.until_unix > now {
                        s.cooldown_until_unix = Some(e.until_unix);
                        s.last_message = Some(owned(e.reason.as_str()));
                    } else {
                        s.cooldown_until_unix = None;
                    }
                },
                None => {
                    s.cooldown_until_unix = None;
                },
            }
            servers.insert(i, s);
            i += 1;
        }
    }
}

/// The end of `server_id`'s cooldown when one is still running at `now`.
pub open spec fn spec_blocking_cooldown(
    table: Map<Seq<char>, CooldownEntryView>,
    server_id: Seq<char>,
    now: u64,
) -> Option<u64> {
    if table.dom().contains(server_id) && table[server_id].until_unix > now {
        Some(table[server_id].until_unix)
    } else {
        None
    }
}

impl Cooldowns {
    /// Whether a connect to `server_id` at `now` is refused: the end of its
    /// running cooldown, if it has one.
    pub fn blocking_cooldown(&self, server_id: &str, now: u64) -> (r: Option<u64>)
        ensures
            r == spec_blocking_cooldown(self.view(), server_id@, now),
    {
        match self.get(server_id) {
            Some(e) => if e.until_unix > now {
                Some(e.until_unix)
            } else {
                None
            },
            None => None,
        }
    }
}

/// The notice of a connect refused for a cooldown ending at `until`.
pub open spec fn spec_cooldown_notice(until: u64, now: u64) -> Seq<char> {
    "Access Denied — Too many failed attempts. Try again in "@ + spec_format_remaining(
        if until > now {
            (until - now) as u64
        } else {
            0
        },
    ) + "."@
}

/// The notice shown when a connect is refused because of a cooldown.
pub fn cooldown_notice(until: u64, now: u64) -> (r: String)
    ensures
        r@ == spec_cooldown_notice(until, now),
{
    let left = until.saturating_sub(now);
    let mut v: Vec<char> = Vec::new();
    push_str(&mut v, "Access Denied — Too many failed attempts. Try again in ");
    let t = format_remaining(left);
    push_str(&mut v, t.as_str());
    push_str(&mut v, ".");
    assert(v@ =~= spec_cooldown_notice(until, now));
    string_from_chars(v.as_slice())
}

/// How a connect to a server begins.
#[derive(Debug)]
pub enum ConnectStart {
    /// The server is on cooldown: record this session, show the notice, and
    /// send no authentication.
    Refused { session: ActiveSession, notice: String },
    /// Record this session and send the authentication request.
    Authenticate { session: ActiveSession },
}

impl Cooldowns {
    /// How a connect to `server_id` at `now` begins: refused while its
    /// cooldown runs (a cooldown session with no attempt, ending when the
    /// cooldown ends, and the refusal notice), else a connecting session
    /// that goes on to authenticate.
    pub fn connect_start(&self, server_id: &str, server_name: &str, endpoint: &str, now: u64) -> (r: ConnectStart)
        ensures
            match spec_blocking_cooldown(self.view(), server_id@, now) {
                Some(until) => r matches ConnectStart::Refused { session, notice } && session@
                    == spec_cooldown_session(server_id@, server_name@, endpoint@, until) && notice@
                    == spec_cooldown_notice(until, now),
                None => r matches ConnectStart::Authenticate { session } && session@
                    == spec_connecting_session(server_id@, server_name@, endpoint@),
            },
    {
        match self.blocking_cooldown(server_id, now) {
            Some(until) => ConnectStart::Refused {
                session: cooldown_session(server_id, server_name, endpoint, until),
                notice: cooldown_notice(until, now),
            },
            None => ConnectStart::Authenticate { session: connecting_session(server_id, server_name, endpoint) },
        }
    }
}

/// A server whose cooldown was just set to end later than `now` is refused
/// at `now` until that end; a cleared server is never refused.
pub proof fn law_set_cooldown_blocks(
    table: Map<Seq<char>, CooldownEntryView>,
    e: CooldownEntryView,
    now: u64,
)
    requires
        e.until_unix > now,
    ensures
        spec_blocking_cooldown(table.insert(e.server_id, e), e.server_id, now) == Some(e.until_unix),
        spec_blocking_cooldown(table.remove(e.server_id), e.server_id, now) is None,
{
}

/// Pruning keeps exactly the cooldowns that are still running, unchanged.
pub proof fn law_prune_keeps_live(table: Map<Seq<char>, CooldownEntryView>, now: u64, k: Seq<char>)
    ensures
        live_cooldowns(table, now).dom().contains(k) <==> (table.dom().contains(k)
            && table[k].until_unix > now),
        live_cooldowns(table, now).dom().contains(k) ==> live_cooldowns(table, now)[k] == table[k],
{
}

/// Pruning twice at the same time is pruning once.
pub proof fn law_prune_idempotent(table: Map<Seq<char>, CooldownEntryView>, now: u64)
    ensures
        live_cooldowns(live_cooldowns(table, now), now) == live_cooldowns(table, now),
{
    assert(live_cooldowns(live_cooldowns(table, now), now) =~= live_cooldowns(table, now));
}

/// A cooldown just set is what a lookup of that server gives back, and a
/// cleared server has none.
pub proof fn law_set_then_get(
    table: Map<Seq<char>, CooldownEntryView>,
    k: Seq<char>,
    e: CooldownEntryView,
)
    ensures
        table.insert(k, e).dom().contains(k) && table.insert(k, e)[k] == e,
        !table.insert(k, e).remove(k).dom().contains(k),
{
}

/// Pruning changes nothing that the server cards show at the same time.
pub proof fn law_prune_invisible_on_cards(
    table: Map<Seq<char>, CooldownEntryView>,
    card: ServerCooldownView,
    now: u64,
)
    ensures
        spec_apply_cooldown(live_cooldowns(table, now), card, now) == spec_apply_cooldown(
            table,
            card,
            now,
        ),
{
}

} // verus!
