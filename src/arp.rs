use vstd::prelude::*;

verus! {

/// A 48-bit Ethernet address, held in the low bits of a `u64`.
#[derive(Debug, Clone, Copy, PartialEq, Eq, Structural)]
pub struct MacAddress {
    pub value: u64,
}

impl MacAddress {
    pub fn new(value: u64) -> (r: MacAddress)
        requires
            value < 0x1_0000_0000_0000,
        ensures
            r.value == value,
    {
        MacAddress { value }
    }
}

/// A learned mapping from an IPv4 address to a link address; `expires` is
/// `None` for a seeded mapping, which never expires.
#[derive(Debug, Clone, Copy, PartialEq, Eq, Structural)]
pub struct ArpEntry {
    pub ip: u32,
    pub link_addr: MacAddress,
    pub expires: Option<u64>,
}

/// A request on the wire that awaits its reply.
#[derive(Debug, Clone, Copy, PartialEq, Eq, Structural)]
pub struct PendingQuery {
    pub ip: u32,
    /// Requests sent so far.
    pub attempts: usize,
    /// When the current attempt times out, in milliseconds.
    pub deadline: u64,
}

/// The settings of the resolver; times in milliseconds.
#[derive(Debug, Clone, PartialEq, Eq)]
pub struct ArpConfig {
    pub cache_ttl: u64,
    pub request_timeout: u64,
    pub retry_count: usize,
    pub initial_table: Vec<(u32, MacAddress)>,
    pub disable_arp: bool,
}

impl ArpConfig {
    /// Entries live 600 s, a request waits 1 s, two attempts are made, the
    /// table starts empty and ARP is enabled; each `Some` overrides its
    /// default.
    pub fn new(
        cache_ttl: Option<u64>,
        request_timeout: Option<u64>,
        retry_count: Option<usize>,
        initial_table: Option<Vec<(u32, MacAddress)>>,
        disable_arp: Option<bool>,
    ) -> (r: ArpConfig)
        ensures
            r.cache_ttl == match cache_ttl {
                Some(t) => t,
                None => 600_000,
            },
            r.request_timeout == match request_timeout {
                Some(t) => t,
                None => 1000,
            },
            r.retry_count == match retry_count {
                Some(n) => n,
                None => 2,
            },
            r.initial_table@ == match initial_table {
                Some(t) => t@,
                None => Seq::<(u32, MacAddress)>::empty(),
            },
            r.disable_arp == match disable_arp {
                Some(d) => d,
                None => false,
            },
    {
        ArpConfig {
            cache_ttl: match cache_ttl {
                Some(t) => t,
                None => 600_000,
            },
            request_timeout: match request_timeout {
                Some(t) => t,
                None => 1000,
            },
            retry_count: match retry_count {
                Some(n) => n,
                None => 2,
            },
            initial_table: match initial_table {
                Some(t) => t,
                None => Vec::new(),
            },
            disable_arp: match disable_arp {
                Some(d) => d,
                None => false,
            },
        }
    }
}

/// What a query asks of its caller.
#[derive(Debug, Clone, Copy, PartialEq, Eq, Structural)]
pub enum ArpAction {
    /// The address is known.
    Resolved(MacAddress),
    /// Broadcast a request for the address, then wait for the reply.
    SendRequest,
    /// A request for the address is already on the wire: wait for its reply.
    Wait,
    /// ARP is disabled and the seeded table does not know the address.
    Unresolved,
}

/// What a timed-out request asks of its caller.
#[derive(Debug, Clone, Copy, PartialEq, Eq, Structural)]
pub enum TimeoutAction {
    /// Send the request again.
    Retransmit,
    /// Attempts are exhausted: fail the waiters with a timeout.
    GiveUp,
    /// No request for the address is pending.
    NotPending,
}

pub open spec fn entry_fresh(e: ArpEntry, now: u64) -> bool {
    match e.expires {
        None => true,
        Some(t) => now < t,
    }
}

pub open spec fn has_fresh(entries: Seq<ArpEntry>, ip: u32, now: u64) -> bool {
    exists|i: int| 0 <= i < entries.len() && (#[trigger] entries[i]).ip == ip && entry_fresh(entries[i], now)
}

/// The entry for `ip`, where `has_fresh` holds.
pub open spec fn fresh_entry(entries: Seq<ArpEntry>, ip: u32, now: u64) -> ArpEntry {
    entries[choose|i: int| 0 <= i < entries.len() && (#[trigger] entries[i]).ip == ip && entry_fresh(entries[i], now)]
}

pub open spec fn has_entry(entries: Seq<ArpEntry>, ip: u32) -> bool {
    exists|i: int| 0 <= i < entries.len() && (#[trigger] entries[i]).ip == ip
}

pub open spec fn has_pending(pending: Seq<PendingQuery>, ip: u32) -> bool {
    exists|i: int| 0 <= i < pending.len() && (#[trigger] pending[i]).ip == ip
}

pub open spec fn pending_index(pending: Seq<PendingQuery>, ip: u32) -> int {
    choose|i: int| 0 <= i < pending.len() && (#[trigger] pending[i]).ip == ip
}

pub open spec fn sat_add(a: u64, b: u64) -> u64 {
    if a + b > u64::MAX {
        u64::MAX
    } else {
        (a + b) as u64
    }
}

/// What a query for `ip` at time `now` answers.
pub open spec fn query_action(
    entries: Seq<ArpEntry>,
    pending: Seq<PendingQuery>,
    disable_arp: bool,
    ip: u32,
    now: u64,
) -> ArpAction {
    if has_fresh(entries, ip, now) {
        ArpAction::Resolved(fresh_entry(entries, ip, now).link_addr)
    } else if disable_arp {
        ArpAction::Unresolved
    } else if has_pending(pending, ip) {
        ArpAction::Wait
    } else {
        ArpAction::SendRequest
    }
}

/// The pending requests after a query for `ip` at time `now`: a request
/// that goes out is recorded with its first deadline.
pub open spec fn pending_after_query(
    entries: Seq<ArpEntry>,
    pending: Seq<PendingQuery>,
    disable_arp: bool,
    request_timeout: u64,
    ip: u32,
    now: u64,
) -> Seq<PendingQuery> {
    if query_action(entries, pending, disable_arp, ip, now) == ArpAction::SendRequest {
        pending.push(PendingQuery { ip, attempts: 1, deadline: sat_add(now, request_timeout) })
    } else {
        pending
    }
}

pub open spec fn unique_ips(entries: Seq<ArpEntry>) -> bool {
    forall|i: int, j: int| 0 <= i < j < entries.len() ==> (#[trigger] entries[i]).ip != (#[trigger] entries[j]).ip
}

pub open spec fn unique_pending(pending: Seq<PendingQuery>) -> bool {
    forall|i: int, j: int| 0 <= i < j < pending.len() ==> (#[trigger] pending[i]).ip != (#[trigger] pending[j]).ip
}

/// Entry `e` maps an address as one of the first `n` pairs of `table` does.
pub open spec fn seeded(table: Seq<(u32, MacAddress)>, n: int, e: ArpEntry) -> bool {
    exists|j: int| 0 <= j < n && table[j] == (e.ip, e.link_addr)
}

/// The resolver: learned mappings and requests awaiting replies.
pub struct ArpCache {
    pub entries: Vec<ArpEntry>,
    pub pending: Vec<PendingQuery>,
    pub cache_ttl: u64,
    pub request_timeout: u64,
    pub retry_count: usize,
    pub disable_arp: bool,
}

fn find_entry(entries: &Vec<ArpEntry>, ip: u32) -> (r: Option<usize>)
    ensures
        match r {
            Some(i) => i < entries@.len() && entries@[i as int].ip == ip,
            None => !has_entry(entries@, ip),
        },
{
    let mut i: usize = 0;
    while i < entries.len()
        invariant
            i <= entries@.len(),
            forall|j: int| 0 <= j < i ==> entries@[j].ip != ip,
        decreases entries@.len() - i,
    {
        if entries[i].ip == ip {
            return Some(i);
        }
        i = i + 1;
    }
    None
}

fn find_pending(pending: &Vec<PendingQuery>, ip: u32) -> (r: Option<usize>)
    ensures
        match r {
            Some(i) => i < pending@.len() && pending@[i as int].ip == ip,
            None => !has_pending(pending@, ip),
        },
{
    let mut i: usize = 0;
    while i < pending.len()
        invariant
            i <= pending@.len(),
            forall|j: int| 0 <= j < i ==> pending@[j].ip != ip,
        decreases pending@.len() - i,
    {
        if pending[i].ip == ip {
            return Some(i);
        }
        i = i + 1;
    }
    None
}

/// Records `e`, in place of the entry for its address where there is one.
fn upsert(entries: &mut Vec<ArpEntry>, e: ArpEntry)
    requires
        unique_ips(old(entries)@),
    ensures
        unique_ips(final(entries)@),
        has_entry(old(entries)@, e.ip) ==> {
            let i = choose|i: int| 0 <= i < old(entries)@.len() && (#[trigger] old(entries)@[i]).ip == e.ip;
            final(entries)@ == old(entries)@.update(i, e)
        },
        !has_entry(old(entries)@, e.ip) ==> final(entries)@ == old(entries)@.push(e),
{
    match find_entry(entries, e.ip) {
        Some(i) => {
            proof {
                let j = choose|j: int| 0 <= j < entries@.len() && (#[trigger] entries@[j]).ip == e.ip;
                assert(entries@[i as int].ip == e.ip);
                assert(entries@[j].ip == e.ip);
            }
            entries.set(i, e);
            proof {
                let s = entries@;
                assert forall|a: int, b: int| 0 <= a < b < s.len() implies (#[trigger] s[a]).ip != (#[trigger] s[b]).ip by {
                    assert(s[a].ip == old(entries)@[a].ip);
                    assert(s[b].ip == old(entries)@[b].ip);
                }
            }
        },
        None => {
            entries.push(e);
            proof {
                let s = entries@;
                assert forall|a: int, b: int| 0 <= a < b < s.len() implies (#[trigger] s[a]).ip != (#[trigger] s[b]).ip by {
                    assert(s[a] == old(entries)@[a]);
                    if b < s.len() - 1 {
                        assert(s[b] == old(entries)@[b]);
                    }
                }
            }
        },
    }
}

proof fn lemma_remove_keeps_pending_unique(s: Seq<PendingQuery>, i: int)
    requires
        unique_pending(s),
        0 <= i < s.len(),
    ensures
        unique_pending(s.remove(i)),
{
    let t = s.remove(i);
    assert forall|a: int, b: int| 0 <= a < b < t.len() implies (#[trigger] t[a]).ip != (#[trigger] t[b]).ip by {
        let a0 = if a < i { a } else { a + 1 };
        let b0 = if b < i { b } else { b + 1 };
        assert(t[a] == s[a0]);
        assert(t[b] == s[b0]);
    }
}

impl ArpCache {
    pub open spec fn wf(&self) -> bool {
        &&& unique_ips(self.entries@)
        &&& unique_pending(self.pending@)
    }

    /// A resolver with the settings of `config`, whose table holds the
    /// seeded mappings, which never expire.
    pub fn new(config: &ArpConfig) -> (r: ArpCache)
        ensures
            r.wf(),
            r.pending@.len() == 0,
            r.cache_ttl == config.cache_ttl,
            r.request_timeout == config.request_timeout,
            r.retry_count == config.retry_count,
            r.disable_arp == config.disable_arp,
            forall|i: int| 0 <= i < config.initial_table@.len() ==> has_entry(r.entries@, #[trigger] config.initial_table@[i].0),
            forall|i: int| 0 <= i < r.entries@.len() ==> (#[trigger] r.entries@[i]).expires is None,
            forall|i: int|
                0 <= i < r.entries@.len() ==> seeded(
                    config.initial_table@,
                    config.initial_table@.len() as int,
                    #[trigger] r.entries@[i],
                ),
    {
        let mut entries: Vec<ArpEntry> = Vec::new();
        let mut i: usize = 0;
        while i < config.initial_table.len()
            invariant
                i <= config.initial_table@.len(),
                unique_ips(entries@),
                forall|j: int| 0 <= j < i ==> has_entry(entries@, #[trigger] config.initial_table@[j].0),
                forall|j: int| 0 <= j < entries@.len() ==> (#[trigger] entries@[j]).expires is None,
                forall|k: int|
                    0 <= k < entries@.len() ==> seeded(config.initial_table@, i as int, #[trigger] entries@[k]),
            decreases config.initial_table@.len() - i,
        {
            let (ip, link_addr) = config.initial_table[i];
            let ghost before = entries@;
            upsert(&mut entries, ArpEntry { ip, link_addr, expires: None });
            proof {
                assert forall|j: int| 0 <= j < i + 1 implies has_entry(entries@, #[trigger] config.initial_table@[j].0) by {
                    if j < i {
                        let k = choose|k: int| 0 <= k < before.len() && (#[trigger] before[k]).ip == config.initial_table@[j].0;
                        assert(entries@[k].ip == before[k].ip);
                    } else {
                        if has_entry(before, ip) {
                            let k = choose|k: int| 0 <= k < before.len() && (#[trigger] before[k]).ip == ip;
                            assert(entries@[k].ip == ip);
                        } else {
                            assert(entries@[before.len() as int].ip == ip);
                        }
                    }
                }
                assert forall|j: int| 0 <= j < entries@.len() implies (#[trigger] entries@[j]).expires is None by {
                    if j < before.len() && !(has_entry(before, ip) && j == choose|k: int| 0 <= k < before.len() && (#[trigger] before[k]).ip == ip) {
                        assert(entries@[j] == before[j]);
                    }
                }
                assert forall|k: int| 0 <= k < entries@.len() implies seeded(
                    config.initial_table@,
                    i + 1,
                    #[trigger] entries@[k],
                ) by {
                    if entries@[k] == (ArpEntry { ip, link_addr, expires: None }) {
                        assert(config.initial_table@[i as int] == (ip, link_addr));
                    } else {
                        assert(k < before.len() && entries@[k] == before[k]);
                        assert(seeded(config.initial_table@, i as int, before[k]));
                        let j = choose|j: int| 0 <= j < i && config.initial_table@[j] == (
                            before[k].ip,
                            before[k].link_addr,
                        );
                        assert(config.initial_table@[j] == (entries@[k].ip, entries@[k].link_addr));
                    }
                }
            }
            i = i + 1;
        }
        ArpCache {
            entries,
            pending: Vec::new(),
            cache_ttl: config.cache_ttl,
            request_timeout: config.request_timeout,
            retry_count: config.retry_count,
            disable_arp: config.disable_arp,
        }
    }

    /// Resolves `ip` at time `now`: from a fresh entry where there is one;
    /// else, with ARP enabled, by a request, of which only one at a time
    /// is on the wire for an address.
    pub fn query(&mut self, ip: u32, now: u64) -> (r: ArpAction)
        requires
            old(self).wf(),
        ensures
            final(self).wf(),
            r == query_action(old(self).entries@, old(self).pending@, old(self).disable_arp, ip, now),
            final(self).pending@ == pending_after_query(
                old(self).entries@,
                old(self).pending@,
                old(self).disable_arp,
                old(self).request_timeout,
                ip,
                now,
            ),
            final(self).entries@ == old(self).entries@,
            final(self).cache_ttl == old(self).cache_ttl,
            final(self).request_timeout == old(self).request_timeout,
            final(self).retry_count == old(self).retry_count,
            final(self).disable_arp == old(self).disable_arp,
    {
        match find_entry(&self.entries, ip) {
            Some(i) => {
                let e = self.entries[i];
                let fresh: bool = match e.expires {
                    None => true,
                    Some(t) => now < t,
                };
                proof {
                    assert forall|j: int| 0 <= j < self.entries@.len() && (#[trigger] self.entries@[j]).ip == ip implies j == i by {}
                }
                if fresh {
                    return ArpAction::Resolved(e.link_addr);
                }
            },
            None => {},
        }
        if self.disable_arp {
            return ArpAction::Unresolved;
        }
        match find_pending(&self.pending, ip) {
            Some(_) => ArpAction::Wait,
            None => {
                let deadline: u64 = now.saturating_add(self.request_timeout);
                let ghost before = self.pending@;
                self.pending.push(PendingQuery { ip, attempts: 1, deadline });
                proof {
                    let s = self.pending@;
                    assert forall|a: int, b: int| 0 <= a < b < s.len() implies (#[trigger] s[a]).ip != (#[trigger] s[b]).ip by {
                        assert(s[a] == before[a]);
                        if b < s.len() - 1 {
                            assert(s[b] == before[b]);
                        }
                    }
                }
                ArpAction::SendRequest
            },
        }
    }

    /// Learns that `ip` is at `link_addr` from an ARP packet received at
    /// `now`; the mapping stays fresh for the cache's lifetime. A request
    /// pending for `ip` is answered: `true` comes back and its waiters are
    /// to be woken.
    pub fn learn(&mut self, ip: u32, link_addr: MacAddress, now: u64) -> (r: bool)
        requires
            old(self).wf(),
        ensures
            final(self).wf(),
            r == has_pending(old(self).pending@, ip),
            old(self).cache_ttl > 0 && now < u64::MAX ==> has_fresh(final(self).entries@, ip, now),
            has_entry(final(self).entries@, ip),
            forall|other: u32| other != ip ==> (has_entry(final(self).entries@, other) <==> has_entry(old(self).entries@, other)),
            !has_pending(final(self).pending@, ip),
            r ==> final(self).pending@ == old(self).pending@.remove(pending_index(old(self).pending@, ip)),
            !r ==> final(self).pending@ == old(self).pending@,
            final(self).cache_ttl == old(self).cache_ttl,
            final(self).request_timeout == old(self).request_timeout,
            final(self).retry_count == old(self).retry_count,
            final(self).disable_arp == old(self).disable_arp,
    {
        let e = ArpEntry { ip, link_addr, expires: Some(now.saturating_add(self.cache_ttl)) };
        let ghost before = self.entries@;
        upsert(&mut self.entries, e);
        proof {
            let k = if has_entry(before, ip) {
                choose|k: int| 0 <= k < before.len() && (#[trigger] before[k]).ip == ip
            } else {
                before.len() as int
            };
            assert(self.entries@[k] == e);
            assert(has_entry(self.entries@, ip));
            if self.cache_ttl > 0 && now < u64::MAX {
                assert(entry_fresh(self.entries@[k], now));
            }
            assert forall|other: u32| other != ip implies (has_entry(self.entries@, other) <==> has_entry(before, other)) by {
                if has_entry(before, other) {
                    let j = choose|j: int| 0 <= j < before.len() && (#[trigger] before[j]).ip == other;
                    assert(self.entries@[j].ip == other);
                }
                if has_entry(self.entries@, other) {
                    let j = choose|j: int| 0 <= j < self.entries@.len() && (#[trigger] self.entries@[j]).ip == other;
                    assert(before[j].ip == other);
                }
            }
        }
        match find_pending(&self.pending, ip) {
            Some(i) => {
                proof {
                    let j = pending_index(self.pending@, ip);
                    assert(self.pending@[i as int].ip == ip);
                    assert(self.pending@[j].ip == ip);
                    lemma_remove_keeps_pending_unique(self.pending@, i as int);
                }
                let ghost p = self.pending@;
                self.pending.remove(i);
                proof {
                    assert forall|j: int| 0 <= j < self.pending@.len() implies (#[trigger] self.pending@[j]).ip != ip by {
                        let j0 = if j < i { j } else { j + 1 };
                        assert(self.pending@[j] == p[j0]);
                    }
                }
                true
            },
            None => false,
        }
    }

    /// The request for `ip` timed out at `now`. While attempts remain it is
    /// sent again with a new deadline; after the last one it is dropped and
    /// its waiters fail.
    pub fn on_request_timeout(&mut self, ip: u32, now: u64) -> (r: TimeoutAction)
        requires
            old(self).wf(),
        ensures
            final(self).wf(),
            final(self).entries@ == old(self).entries@,
            !has_pending(old(self).pending@, ip) ==> r == TimeoutAction::NotPending
                && final(self).pending@ == old(self).pending@,
            has_pending(old(self).pending@, ip) ==> ({
                let i = pending_index(old(self).pending@, ip);
                let q = old(self).pending@[i];
                if q.attempts < old(self).retry_count {
                    &&& r == TimeoutAction::Retransmit
                    &&& final(self).pending@ == old(self).pending@.update(
                        i,
                        PendingQuery {
                            ip,
                            attempts: (q.attempts + 1) as usize,
                            deadline: sat_add(now, old(self).request_timeout),
                        },
                    )
                } else {
                    &&& r == TimeoutAction::GiveUp
                    &&& final(self).pending@ == old(self).pending@.remove(i)
                }
            }),
            final(self).cache_ttl == old(self).cache_ttl,
            final(self).request_timeout == old(self).request_timeout,
            final(self).retry_count == old(self).retry_count,
            final(self).disable_arp == old(self).disable_arp,
    {
        match find_pending(&self.pending, ip) {
            None => TimeoutAction::NotPending,
            Some(i) => {
                proof {
                    let j = pending_index(self.pending@, ip);
                    assert(self.pending@[i as int].ip == ip);
                    assert(self.pending@[j].ip == ip);
                }
                let q = self.pending[i];
                if q.attempts < self.retry_count {
                    let deadline: u64 = now.saturating_add(self.request_timeout);
                    self.pending.set(i, PendingQuery { ip, attempts: q.attempts + 1, deadline });
                    proof {
                        let s = self.pending@;
                        assert forall|a: int, b: int| 0 <= a < b < s.len() implies (#[trigger] s[a]).ip != (#[trigger] s[b]).ip by {
                            assert(s[a].ip == old(self).pending@[a].ip);
                            assert(s[b].ip == old(self).pending@[b].ip);
                        }
                    }
                    TimeoutAction::Retransmit
                } else {
                    proof {
                        lemma_remove_keeps_pending_unique(self.pending@, i as int);
                    }
                    self.pending.remove(i);
                    TimeoutAction::GiveUp
                }
            },
        }
    }
}

/// How many requests go on the wire for `ip` when it is queried at each of
/// the times `times`, in order, with no reply in between.
pub open spec fn requests_sent(
    entries: Seq<ArpEntry>,
    pending: Seq<PendingQuery>,
    disable_arp: bool,
    request_timeout: u64,
    ip: u32,
    times: Seq<u64>,
) -> nat
    decreases times.len(),
{
    if times.len() == 0 {
        0
    } else {
        let now = times[0];
        (if query_action(entries, pending, disable_arp, ip, now) == ArpAction::SendRequest {
            1nat
        } else {
            0nat
        }) + requests_sent(
            entries,
            pending_after_query(entries, pending, disable_arp, request_timeout, ip, now),
            disable_arp,
            request_timeout,
            ip,
            times.drop_first(),
        )
    }
}

proof fn lemma_pending_sends_nothing(
    entries: Seq<ArpEntry>,
    pending: Seq<PendingQuery>,
    request_timeout: u64,
    ip: u32,
    times: Seq<u64>,
)
    requires
        !has_entry(entries, ip),
        has_pending(pending, ip),
    ensures
        requests_sent(entries, pending, false, request_timeout, ip, times) == 0,
    decreases times.len(),
{
    if times.len() > 0 {
        assert(!has_fresh(entries, ip, times[0]));
        lemma_pending_sends_nothing(entries, pending, request_timeout, ip, times.drop_first());
    }
}

/// ARP coalescing: any number (at least one) of queries for an address that
/// the cache does not know and that no request is pending for, made while
/// no reply comes, put exactly one request on the wire.
pub proof fn lemma_queries_coalesce(
    entries: Seq<ArpEntry>,
    pending: Seq<PendingQuery>,
    request_timeout: u64,
    ip: u32,
    times: Seq<u64>,
)
    requires
        !has_entry(entries, ip),
        !has_pending(pending, ip),
        times.len() > 0,
    ensures
        requests_sent(entries, pending, false, request_timeout, ip, times) == 1,
{
    let now = times[0];
    assert(!has_fresh(entries, ip, now));
    let p2 = pending_after_query(entries, pending, false, request_timeout, ip, now);
    assert(p2[pending.len() as int].ip == ip);
    lemma_pending_sends_nothing(entries, p2, request_timeout, ip, times.drop_first());
}

} // verus!
