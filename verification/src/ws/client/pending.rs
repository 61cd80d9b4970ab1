//! The requests that await a response: what this library relies on from the `dashmap` crate.
use dashmap::DashMap;
use std::collections::hash_map::RandomState;
use vstd::prelude::*;

verus! {

/// A concurrent map.
#[verifier::external_type_specification]
#[verifier::external_body]
#[verifier::reject_recursive_types(K)]
#[verifier::reject_recursive_types(V)]
#[verifier::reject_recursive_types(S)]
pub struct ExDashMap<K, V, S>(DashMap<K, V, S>);

/// The entries of a map of tickets.
pub uninterp spec fn entries(m: DashMap<u32, u64, RandomState>) -> Map<u32, u64>;

/// No entries.
pub open spec fn no_entries() -> Map<u32, u64> {
    Map::empty()
}

/// `DashMap::new`: a map without entries.
#[verifier::external_body]
fn map_new() -> (r: DashMap<u32, u64, RandomState>)
    ensures
        entries(r) == no_entries(),
{
    DashMap::new()
}

/// `DashMap::insert`: sets the value of a key; the value that the key had before is returned.
#[verifier::external_body]
fn map_insert(m: &mut DashMap<u32, u64, RandomState>, key: u32, value: u64) -> (r: Option<u64>)
    ensures
        entries(*final(m)) == entries(*old(m)).insert(key, value),
        r == if entries(*old(m)).contains_key(key) {
            Some(entries(*old(m))[key])
        } else {
            None
        },
{
    m.insert(key, value)
}

/// `DashMap::remove`: takes a key and its value out of the map, if it is there.
#[verifier::external_body]
fn map_remove(m: &mut DashMap<u32, u64, RandomState>, key: u32) -> (r: Option<(u32, u64)>)
    ensures
        entries(*final(m)) == entries(*old(m)).remove(key),
        r == if entries(*old(m)).contains_key(key) {
            Some((key, entries(*old(m))[key]))
        } else {
            None
        },
{
    m.remove(&key)
}

/// `DashMap::retain` with a predicate that keeps nothing: the map is empty then.
#[verifier::external_body]
fn map_retain_none(m: &mut DashMap<u32, u64, RandomState>)
    ensures
        entries(*final(m)) == no_entries(),
{
    m.retain(|id, ticket| keeps(*id, *ticket));
}

/// Which requests outlive the connection: none.
fn keeps(_id: u32, _ticket: u64) -> (r: bool)
    ensures
        !r,
{
    false
}

/// The requests that await a response, each with the ticket by which its caller is found.
pub struct PendingRequests {
    table: DashMap<u32, u64>,
    next_id: u32,
}

/// What is known of the requests.
#[verifier::ext_equal]
pub struct PendingModel {
    /// The tickets of the pending requests by ID.
    pub tickets: Map<u32, u64>,
    /// The ID of the next request.
    pub next_id: u32,
}

impl View for PendingRequests {
    type V = PendingModel;

    closed spec fn view(&self) -> PendingModel {
        PendingModel { tickets: entries(self.table), next_id: self.next_id }
    }
}

impl PendingModel {
    /// No request.
    pub open spec fn none() -> PendingModel {
        PendingModel { tickets: Map::empty(), next_id: 2 }
    }

    /// One more request, and its ID.
    pub open spec fn registered(self, ticket: u64) -> (u32, PendingModel) {
        (
            self.next_id,
            PendingModel {
                tickets: self.tickets.insert(self.next_id, ticket),
                next_id: if self.next_id == u32::MAX {
                    0
                } else {
                    (self.next_id + 1) as u32
                },
            },
        )
    }

    /// Without the request of an ID, and that request's ticket, if it was pending.
    pub open spec fn settled(self, id: u32) -> (Option<u64>, PendingModel) {
        (
            if self.tickets.contains_key(id) {
                Some(self.tickets[id])
            } else {
                None
            },
            PendingModel { tickets: self.tickets.remove(id), ..self },
        )
    }

    /// With no request pending any more.
    pub open spec fn failed(self) -> PendingModel {
        PendingModel { tickets: Map::empty(), ..self }
    }
}

impl PendingRequests {
    /// No request. IDs start at 2: 0 is for events, 1 for authentication.
    pub fn new() -> (r: Self)
        ensures
            r@ == (PendingModel { tickets: Map::empty(), next_id: 2 }),
            r@ == PendingModel::none(),
    {
        PendingRequests { table: map_new(), next_id: 2 }
    }

    /// Registers a request and returns its ID. IDs are counted up, and start over at 0 behind the
    /// largest.
    pub fn register(&mut self, ticket: u64) -> (id: u32)
        ensures
            (id, final(self)@) == old(self)@.registered(ticket),
            id == old(self)@.next_id,
            final(self)@.tickets == old(self)@.tickets.insert(id, ticket),
            final(self)@.next_id == if id == u32::MAX {
                0
            } else {
                (id + 1) as u32
            },
    {
        let id: u32 = self.next_id;
        self.next_id = id.wrapping_add(1);
        map_insert(&mut self.table, id, ticket);
        id
    }

    /// Takes out the request that a response or a timeout settles, if it is pending.
    pub fn settle(&mut self, id: u32) -> (r: Option<u64>)
        ensures
            (r, final(self)@) == old(self)@.settled(id),
            final(self)@ == (PendingModel {
                tickets: old(self)@.tickets.remove(id),
                ..old(self)@
            }),
            r == if old(self)@.tickets.contains_key(id) {
                Some(old(self)@.tickets[id])
            } else {
                None
            },
    {
        match map_remove(&mut self.table, id) {
            Some((_, ticket)) => Some(ticket),
            None => None,
        }
    }

    /// Forgets all pending requests.
    pub fn fail_all(&mut self)
        ensures
            final(self)@ == old(self)@.failed(),
            final(self)@ == (PendingModel { tickets: Map::empty(), ..old(self)@ }),
    {
        map_retain_none(&mut self.table);
    }
}

/// A response reaches its own request and no other: settling one request leaves every other
/// pending, and the same request is not settled twice.
pub proof fn law_settling_is_exact(m: PendingModel, id: u32, other: u32)
    requires
        id != other,
    ensures
        ({
            let after = m.settled(id).1;
            &&& after.settled(id).0 is None
            &&& after.settled(other).0 == m.settled(other).0
            &&& !after.tickets.contains_key(id)
            &&& after.tickets.contains_key(other) <==> m.tickets.contains_key(other)
            &&& m.tickets.contains_key(other) ==> after.tickets[other] == m.tickets[other]
            &&& after.next_id == m.next_id
        }),
{
}

/// The ID of the request that follows `n` others.
pub open spec fn nth_id(n: nat) -> u32 {
    ((2 + n) % 0x1_0000_0000) as u32
}

proof fn lemma_remainders_differ(a: int, b: int)
    requires
        0 <= a < b < a + 0x1_0000_0000,
    ensures
        a % 0x1_0000_0000 != b % 0x1_0000_0000,
{
    let p = a / 0x1_0000_0000;
    let q = b / 0x1_0000_0000;
    assert(a == 0x1_0000_0000 * p + a % 0x1_0000_0000);
    assert(b == 0x1_0000_0000 * q + b % 0x1_0000_0000);
    if a % 0x1_0000_0000 == b % 0x1_0000_0000 {
        assert(b - a == 0x1_0000_0000 * (q - p));
    }
}

proof fn lemma_next_remainder(a: int)
    requires
        0 <= a,
    ensures
        0 <= a % 0x1_0000_0000 < 0x1_0000_0000,
        (a + 1) % 0x1_0000_0000 == if a % 0x1_0000_0000 == 0xffff_ffff {
            0
        } else {
            a % 0x1_0000_0000 + 1
        },
{
    let p = a / 0x1_0000_0000;
    let q = (a + 1) / 0x1_0000_0000;
    assert(a == 0x1_0000_0000 * p + a % 0x1_0000_0000);
    assert(a + 1 == 0x1_0000_0000 * q + (a + 1) % 0x1_0000_0000);
    assert(q == p || q == p + 1);
}

/// Requests that follow each other within 2^32 have different IDs, and the first 2^32 - 2 of them
/// have neither the ID of events nor that of authentication.
pub proof fn law_request_ids_are_distinct(i: nat, j: nat)
    requires
        i < j < i + 0x1_0000_0000,
    ensures
        nth_id(i) != nth_id(j),
        i < 0xffff_fffe ==> nth_id(i) > 1,
        nth_id(i + 1) == if nth_id(i) == u32::MAX {
            0
        } else {
            (nth_id(i) + 1) as u32
        },
        nth_id(0) == 2,
{
    lemma_remainders_differ((2 + i) as int, (2 + j) as int);
    lemma_next_remainder((2 + i) as int);
}

/// A response finds the request that it answers: settling a request that was registered gives its
/// ticket, whatever else was settled before, and settling it again gives nothing.
pub proof fn law_response_finds_its_request(m: PendingModel, ticket: u64, other: u32)
    ensures
        ({
            let (id, asked) = m.registered(ticket);
            let (found, answered) = asked.settled(id);
            &&& found == Some(ticket)
            &&& answered.settled(id).0 is None
            &&& other != id ==> asked.settled(other).1.settled(id).0 == Some(ticket)
            &&& other != id ==> asked.settled(other).0 == m.settled(other).0
            &&& other != id ==> answered.settled(other).0 == m.settled(other).0
        }),
{
}

/// Once the connection is gone, no response finds a request, and the next request still gets an ID
/// that is its own.
pub proof fn law_no_request_outlives_the_connection(m: PendingModel, id: u32, ticket: u64)
    ensures
        m.failed().settled(id).0 is None,
        m.failed().registered(ticket).0 == m.registered(ticket).0,
        m.settled(id).1.registered(ticket).0 == m.registered(ticket).0,
{
}

/// The ID of the request that comes next after some were registered, one after the other.
pub open spec fn next_id_after(m: PendingModel, tickets: Seq<u64>) -> u32
    decreases tickets.len(),
{
    if tickets.len() == 0 {
        m.next_id
    } else {
        next_id_after(m.registered(tickets[0]).1, tickets.skip(1))
    }
}

/// The IDs of a client's requests are counted up from 2, one for each request.
pub proof fn law_ids_are_counted_up(m: PendingModel, n: nat, tickets: Seq<u64>)
    requires
        m.next_id == nth_id(n),
    ensures
        next_id_after(m, tickets) == nth_id(n + tickets.len()),
        PendingModel::none().next_id == nth_id(0),
        PendingModel::none().tickets.len() == 0,
    decreases tickets.len(),
{
    if tickets.len() > 0 {
        lemma_next_remainder((2 + n) as int);
        law_ids_are_counted_up(m.registered(tickets[0]).1, n + 1, tickets.skip(1));
    }
}

} // verus!
