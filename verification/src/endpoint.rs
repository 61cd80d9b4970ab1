//! The endpoints of a client that can choose between several.
use vstd::prelude::*;
use vstd::string::*;

use crate::address;
use crate::address::{parse_url, replace_path};
use crate::error::TransportError;
use crate::ids;
use crate::ids::fresh_id;

verus! {

/// Priority of an endpoint — lower value = tried first.
#[derive(Debug, Clone, Copy, PartialEq, Eq, PartialOrd, Ord, Structural)]
pub enum EndpointPriority {
    /// Local network (LAN, loopback) — highest priority.
    Local,
    /// Remote / internet access — tried if local fails.
    Remote,
    /// Dev / staging — only used for manual override or explicit testing.
    Dev,
}

impl EndpointPriority {
    /// The number of the tier, the first to be tried first.
    pub open spec fn tier(self) -> int {
        match self {
            EndpointPriority::Local => 0,
            EndpointPriority::Remote => 1,
            EndpointPriority::Dev => 2,
        }
    }

    fn rank(self) -> (r: u8)
        ensures
            r == self.tier(),
    {
        match self {
            EndpointPriority::Local => 0,
            EndpointPriority::Remote => 1,
            EndpointPriority::Dev => 2,
        }
    }
}

/// Opaque handle returned by [`EndpointRegistry::add`].
/// Used to switch to, or remove, a specific endpoint later.
#[derive(Debug, Clone, Copy)]
pub struct EndpointHandle {
    id: u128,
}

impl EndpointHandle {
    /// The endpoint's ID.
    pub closed spec fn spec_id(self) -> u128 {
        self.id
    }

    /// The endpoint's ID.
    pub fn id(&self) -> (r: u128)
        ensures
            r == self.spec_id(),
    {
        self.id
    }
}

struct EndpointEntry {
    id: u128,
    url: String,
    priority: EndpointPriority,
}

/// What an entry says.
#[verifier::ext_equal]
pub struct EntryModel {
    pub id: u128,
    pub url: Seq<char>,
    pub priority: EndpointPriority,
}

/// Registry of connection endpoints sorted by priority.
///
/// Handles the logic for choosing which endpoint to try next, including:
/// - Forced manual override (`switch_to`)
/// - Promotion of the last successful endpoint within the same tier
pub struct EndpointRegistry {
    entries: Vec<EndpointEntry>,
    forced: Option<u128>,
    last_connected: Option<u128>,
}

/// What a registry holds.
#[verifier::ext_equal]
pub struct RegistryModel {
    /// The endpoints.
    pub entries: Seq<EntryModel>,
    /// The endpoint that is forced.
    pub forced: Option<u128>,
    /// The endpoint that was connected last.
    pub last: Option<u128>,
}

spec fn entry_model(e: EndpointEntry) -> EntryModel {
    EntryModel { id: e.id, url: e.url@, priority: e.priority }
}

spec fn entry_models(entries: Seq<EndpointEntry>) -> Seq<EntryModel> {
    Seq::new(entries.len(), |i: int| entry_model(entries[i]))
}

impl View for EndpointRegistry {
    type V = RegistryModel;

    closed spec fn view(&self) -> RegistryModel {
        RegistryModel {
            entries: entry_models(self.entries@),
            forced: self.forced,
            last: self.last_connected,
        }
    }
}

/// Whether endpoints stand in the order of their tiers.
pub open spec fn sorted(entries: Seq<EntryModel>) -> bool {
    forall|i: int, j: int|
        0 <= i <= j < entries.len() ==> (#[trigger] entries[i]).priority.tier() <= (
        #[trigger] entries[j]).priority.tier()
}

/// The first place from `i` on whose tier is not below `tier`.
pub open spec fn tier_start(entries: Seq<EntryModel>, tier: int, i: int) -> int
    decreases entries.len() - i,
{
    if i >= entries.len() || entries[i].priority.tier() >= tier {
        i
    } else {
        tier_start(entries, tier, i + 1)
    }
}

/// Endpoints with one more, behind the others of its tier.
pub open spec fn inserted(entries: Seq<EntryModel>, e: EntryModel) -> Seq<EntryModel> {
    entries.insert(tier_start(entries, e.priority.tier() + 1, 0), e)
}

/// The URL that an endpoint gets: its path is `/ws` where none is given.
pub open spec fn endpoint_url(text: Seq<char>) -> Option<Seq<char>> {
    match address::parsed(text) {
        None => None,
        Some(p) => if p.1 == "/"@ || p.1.len() == 0 {
            address::with_path(text, "/ws"@)
        } else {
            Some(p.0)
        },
    }
}

/// The place of the first endpoint from `i` on with an ID, or the number of endpoints.
pub open spec fn place_of(entries: Seq<EntryModel>, id: u128, i: int) -> int
    decreases entries.len() - i,
{
    if i >= entries.len() || entries[i].id == id {
        i
    } else {
        place_of(entries, id, i + 1)
    }
}

/// Endpoints with the one at place `p` moved to the start of its tier.
pub open spec fn promoted(entries: Seq<EntryModel>, p: int) -> Seq<EntryModel> {
    entries.remove(p).insert(tier_start(entries, entries[p].priority.tier(), 0), entries[p])
}

/// All endpoints by tiers, the last successful one first in its tier.
pub open spec fn arranged(r: RegistryModel) -> Seq<EntryModel> {
    match r.last {
        Some(id) if place_of(r.entries, id, 0) < r.entries.len() => promoted(
            r.entries,
            place_of(r.entries, id, 0),
        ),
        _ => r.entries,
    }
}

/// Whether an ID is among those of some endpoints.
pub open spec fn has_id(entries: Seq<EntryModel>, id: u128) -> bool {
    exists|i: int| 0 <= i < entries.len() && (#[trigger] entries[i]).id == id
}

/// Endpoints without those whose ID came before.
pub open spec fn distinct(entries: Seq<EntryModel>) -> Seq<EntryModel>
    decreases entries.len(),
{
    if entries.len() == 0 {
        entries
    } else {
        let before = distinct(entries.drop_last());
        if has_id(before, entries.last().id) {
            before
        } else {
            before.push(entries.last())
        }
    }
}

/// The endpoints with an ID.
pub open spec fn with_id(entries: Seq<EntryModel>, id: u128) -> Seq<EntryModel>
    decreases entries.len(),
{
    if entries.len() == 0 {
        entries
    } else if entries.last().id == id {
        with_id(entries.drop_last(), id).push(entries.last())
    } else {
        with_id(entries.drop_last(), id)
    }
}

/// The endpoints without those of an ID.
pub open spec fn without_id(entries: Seq<EntryModel>, id: u128) -> Seq<EntryModel>
    decreases entries.len(),
{
    if entries.len() == 0 {
        entries
    } else if entries.last().id == id {
        without_id(entries.drop_last(), id)
    } else {
        without_id(entries.drop_last(), id).push(entries.last())
    }
}

/// The endpoints in the order in which they are tried: a forced one alone; else all of them by
/// tiers, the last successful one first in its tier.
pub open spec fn order(r: RegistryModel) -> Seq<EntryModel> {
    match r.forced {
        Some(id) => with_id(r.entries, id),
        None => distinct(arranged(r)),
    }
}

/// Whether `list` holds the IDs and URLs of some endpoints.
pub open spec fn listed(entries: Seq<EntryModel>, list: Seq<(u128, String)>) -> bool {
    &&& list.len() == entries.len()
    &&& forall|i: int|
        0 <= i < list.len() ==> (#[trigger] list[i]).0 == entries[i].id && list[i].1@
            == entries[i].url
}

impl RegistryModel {
    /// The endpoints stand in the order of their tiers.
    pub open spec fn wf(self) -> bool {
        sorted(self.entries)
    }

    /// The registry with an endpoint forced.
    pub open spec fn forcing(self, id: u128) -> RegistryModel {
        RegistryModel { forced: Some(id), ..self }
    }

    /// The registry with nothing forced.
    pub open spec fn unforced(self) -> RegistryModel {
        RegistryModel { forced: None, ..self }
    }

    /// The registry that remembers an endpoint as the one that was connected last.
    pub open spec fn remembering(self, id: u128) -> RegistryModel {
        RegistryModel { last: Some(id), ..self }
    }

    /// The registry without an endpoint; where that one was forced, nothing is forced any more.
    pub open spec fn removing(self, id: u128) -> RegistryModel {
        RegistryModel {
            entries: without_id(self.entries, id),
            forced: if self.forced == Some(id) {
                None
            } else {
                self.forced
            },
            ..self
        }
    }
}

proof fn lemma_tier_start(entries: Seq<EntryModel>, tier: int, i: int)
    requires
        0 <= i <= entries.len(),
    ensures
        i <= tier_start(entries, tier, i) <= entries.len(),
        forall|j: int|
            i <= j < tier_start(entries, tier, i) ==> (#[trigger] entries[j]).priority.tier()
                < tier,
        tier_start(entries, tier, i) < entries.len() ==> entries[tier_start(
            entries,
            tier,
            i,
        )].priority.tier() >= tier,
    decreases entries.len() - i,
{
    if i < entries.len() && entries[i].priority.tier() < tier {
        lemma_tier_start(entries, tier, i + 1);
    }
}

proof fn lemma_place_of(entries: Seq<EntryModel>, id: u128, i: int)
    requires
        0 <= i <= entries.len(),
    ensures
        i <= place_of(entries, id, i) <= entries.len(),
        place_of(entries, id, i) < entries.len() ==> entries[place_of(entries, id, i)].id == id,
        forall|j: int| i <= j < place_of(entries, id, i) ==> (#[trigger] entries[j]).id != id,
    decreases entries.len() - i,
{
    if i < entries.len() && entries[i].id != id {
        lemma_place_of(entries, id, i + 1);
    }
}

/// The order by tiers is kept when an endpoint is added.
pub proof fn law_adding_keeps_the_order(entries: Seq<EntryModel>, e: EntryModel)
    requires
        sorted(entries),
    ensures
        sorted(inserted(entries, e)),
        inserted(entries, e).to_multiset() == entries.to_multiset().insert(e),
{
    let k = tier_start(entries, e.priority.tier() + 1, 0);
    lemma_tier_start(entries, e.priority.tier() + 1, 0);
    let r = inserted(entries, e);
    assert forall|i: int, j: int| 0 <= i <= j < r.len() implies (#[trigger] r[i]).priority.tier()
        <= (#[trigger] r[j]).priority.tier() by {
        if k < entries.len() {
            assert(entries[k].priority.tier() >= e.priority.tier() + 1);
        }
    }
    broadcast use vstd::seq_lib::group_to_multiset_ensures;
}

/// Whether no two endpoints have the same ID.
pub open spec fn unique(entries: Seq<EntryModel>) -> bool {
    forall|i: int, j: int|
        0 <= i < j < entries.len() ==> (#[trigger] entries[i]).id != (#[trigger] entries[j]).id
}

proof fn lemma_unique_is_distinct(entries: Seq<EntryModel>)
    requires
        unique(entries),
    ensures
        distinct(entries) == entries,
    decreases entries.len(),
{
    if entries.len() > 0 {
        let before = entries.drop_last();
        lemma_unique_is_distinct(before);
        if has_id(before, entries.last().id) {
            let i = choose|i: int|
                0 <= i < before.len() && (#[trigger] before[i]).id == entries.last().id;
            assert(entries[i].id != entries[entries.len() - 1].id);
        }
        assert(before.push(entries.last()) =~= entries);
    }
}

/// Where an endpoint of the registry went, seen from its place after a promotion.
spec fn origin(i: int, start: int, place: int) -> int {
    if i < start || i > place {
        i
    } else if i == start {
        place
    } else {
        i - 1
    }
}

proof fn lemma_promoted(entries: Seq<EntryModel>, p: int)
    requires
        sorted(entries),
        0 <= p < entries.len(),
    ensures
        ({
            let k = tier_start(entries, entries[p].priority.tier(), 0);
            &&& 0 <= k <= p
            &&& promoted(entries, p).len() == entries.len()
            &&& forall|i: int|
                0 <= i < entries.len() ==> #[trigger] promoted(entries, p)[i] == entries[origin(
                    i,
                    k,
                    p,
                )]
            &&& forall|j: int|
                0 <= j < k ==> (#[trigger] entries[j]).priority.tier() < entries[p].priority.tier()
            &&& forall|j: int|
                k <= j <= p ==> (#[trigger] entries[j]).priority.tier()
                    == entries[p].priority.tier()
        }),
{
    let tier = entries[p].priority.tier();
    let k = tier_start(entries, tier, 0);
    lemma_tier_start(entries, tier, 0);
    assert(k <= p);
    assert forall|j: int| k <= j <= p implies (#[trigger] entries[j]).priority.tier() == tier by {
        assert(entries[k].priority.tier() <= entries[j].priority.tier());
        assert(entries[j].priority.tier() <= entries[p].priority.tier());
    }
}

proof fn lemma_promoted_is_unique(entries: Seq<EntryModel>, p: int)
    requires
        sorted(entries),
        unique(entries),
        0 <= p < entries.len(),
    ensures
        unique(promoted(entries, p)),
{
    let o = promoted(entries, p);
    let k = tier_start(entries, entries[p].priority.tier(), 0);
    lemma_promoted(entries, p);
    assert forall|i: int, j: int| 0 <= i < j < o.len() implies (#[trigger] o[i]).id != (
    #[trigger] o[j]).id by {
        assert(o[i] == entries[origin(i, k, p)]);
        assert(o[j] == entries[origin(j, k, p)]);
    }
}

proof fn lemma_promoted_is_sorted(entries: Seq<EntryModel>, p: int)
    requires
        sorted(entries),
        0 <= p < entries.len(),
    ensures
        sorted(promoted(entries, p)),
{
    let o = promoted(entries, p);
    let k = tier_start(entries, entries[p].priority.tier(), 0);
    lemma_promoted(entries, p);
    assert forall|i: int, j: int| 0 <= i <= j < o.len() implies (#[trigger] o[i]).priority.tier()
        <= (#[trigger] o[j]).priority.tier() by {
        assert(o[i] == entries[origin(i, k, p)]);
        assert(o[j] == entries[origin(j, k, p)]);
        assert(entries[origin(i, k, p)].priority.tier() == entries[i].priority.tier());
        assert(entries[origin(j, k, p)].priority.tier() == entries[j].priority.tier());
    }
}

proof fn lemma_promoted_keeps_all(entries: Seq<EntryModel>, p: int)
    requires
        sorted(entries),
        0 <= p < entries.len(),
    ensures
        promoted(entries, p).to_multiset() == entries.to_multiset(),
{
    lemma_promoted(entries, p);
    let rest = entries.remove(p);
    let k = tier_start(entries, entries[p].priority.tier(), 0);
    assert(entries =~= rest.insert(p, entries[p]));
    vstd::seq_lib::to_multiset_insert(rest, p, entries[p]);
    vstd::seq_lib::to_multiset_insert(rest, k, entries[p]);
}

/// Whether the endpoint at place `k` is the first of its tier, behind those of the tiers before.
pub open spec fn leads_its_tier(entries: Seq<EntryModel>, k: int) -> bool {
    &&& 0 <= k < entries.len()
    &&& forall|j: int|
        0 <= j < k ==> (#[trigger] entries[j]).priority.tier() < entries[k].priority.tier()
}

/// The endpoints are tried by tiers, and within its tier the last successful one comes first: the
/// order that is tried is sorted by tiers, holds the same endpoints as the registry, and no
/// endpoint of its tier stands before the last successful one.
pub proof fn law_last_success_is_first_in_its_tier(r: RegistryModel, id: u128)
    requires
        r.wf(),
        unique(r.entries),
        r.forced is None,
        r.last == Some(id),
        has_id(r.entries, id),
    ensures
        sorted(order(r)),
        order(r).to_multiset() == r.entries.to_multiset(),
        exists|k: int| #[trigger] leads_its_tier(order(r), k) && order(r)[k].id == id,
{
    let p = place_of(r.entries, id, 0);
    lemma_place_of(r.entries, id, 0);
    assert(p < r.entries.len());
    lemma_promoted_is_unique(r.entries, p);
    lemma_promoted_is_sorted(r.entries, p);
    lemma_promoted_keeps_all(r.entries, p);
    lemma_unique_is_distinct(promoted(r.entries, p));
    lemma_promoted_leads(r.entries, p);
}

proof fn lemma_promoted_leads(entries: Seq<EntryModel>, p: int)
    requires
        sorted(entries),
        0 <= p < entries.len(),
    ensures
        ({
            let k = tier_start(entries, entries[p].priority.tier(), 0);
            leads_its_tier(promoted(entries, p), k) && promoted(entries, p)[k] == entries[p]
        }),
{
    let o = promoted(entries, p);
    let k = tier_start(entries, entries[p].priority.tier(), 0);
    lemma_promoted(entries, p);
    assert(o[k] == entries[origin(k, k, p)]);
    assert forall|j: int| 0 <= j < k implies (#[trigger] o[j]).priority.tier()
        < o[k].priority.tier() by {
        assert(o[j] == entries[origin(j, k, p)]);
    }
}

/// Without a success and an override, the endpoints are tried in the order of the registry.
pub proof fn law_plain_order_is_by_tiers(r: RegistryModel)
    requires
        r.wf(),
        unique(r.entries),
        r.forced is None,
        r.last is None,
    ensures
        order(r) == r.entries,
        sorted(order(r)),
{
    lemma_unique_is_distinct(r.entries);
}

/// Removing an endpoint keeps the order by tiers, and leaves no endpoint of its ID.
pub proof fn law_removing_keeps_the_order(entries: Seq<EntryModel>, id: u128)
    requires
        sorted(entries),
    ensures
        sorted(without_id(entries, id)),
        !has_id(without_id(entries, id), id),
    decreases entries.len(),
{
    lemma_without_id(entries, id, 2);
}

proof fn lemma_without_id(entries: Seq<EntryModel>, id: u128, top: int)
    requires
        sorted(entries),
        entries.len() > 0 ==> entries.last().priority.tier() <= top,
    ensures
        sorted(without_id(entries, id)),
        !has_id(without_id(entries, id), id),
        forall|i: int|
            0 <= i < without_id(entries, id).len() ==> (#[trigger] without_id(
                entries,
                id,
            )[i]).priority.tier() <= top,
    decreases entries.len(),
{
    if entries.len() > 0 {
        let before = entries.drop_last();
        if before.len() > 0 {
            assert(entries[before.len() - 1].priority.tier() <= entries[entries.len()
                - 1].priority.tier());
        }
        lemma_without_id(before, id, entries.last().priority.tier());
    }
}

proof fn lemma_without_none(entries: Seq<EntryModel>, id: u128)
    requires
        !has_id(entries, id),
    ensures
        without_id(entries, id) == entries,
        with_id(entries, id) == Seq::<EntryModel>::empty(),
    decreases entries.len(),
{
    if entries.len() > 0 {
        let before = entries.drop_last();
        assert(entries[entries.len() - 1].id != id);
        assert forall|i: int| 0 <= i < before.len() implies (#[trigger] before[i]).id != id by {
            assert(before[i] == entries[i]);
        }
        lemma_without_none(before, id);
        assert(before.push(entries.last()) =~= entries);
    }
}

proof fn lemma_without_one(entries: Seq<EntryModel>, p: int)
    requires
        unique(entries),
        0 <= p < entries.len(),
    ensures
        without_id(entries, entries[p].id) == entries.remove(p),
        with_id(entries, entries[p].id) == seq![entries[p]],
    decreases entries.len(),
{
    let id = entries[p].id;
    let before = entries.drop_last();
    if p == before.len() {
        assert forall|i: int| 0 <= i < before.len() implies (#[trigger] before[i]).id != id by {
            assert(before[i] == entries[i]);
        }
        lemma_without_none(before, id);
        assert(entries.remove(p) =~= before);
        assert(Seq::<EntryModel>::empty().push(entries[p]) =~= seq![entries[p]]);
    } else {
        assert(entries[p].id != entries[entries.len() - 1].id);
        lemma_without_one(before, p);
        assert(entries.remove(p) =~= before.remove(p).push(entries.last()));
    }
}

/// With nothing forced, the order that is tried holds every endpoint once.
proof fn lemma_order_holds_all(r: RegistryModel)
    requires
        r.wf(),
        unique(r.entries),
        r.forced is None,
    ensures
        sorted(order(r)),
        order(r).to_multiset() == r.entries.to_multiset(),
{
    let a = arranged(r);
    if let Some(id) = r.last {
        let p = place_of(r.entries, id, 0);
        lemma_place_of(r.entries, id, 0);
        if p < r.entries.len() {
            lemma_promoted_is_unique(r.entries, p);
            lemma_promoted_is_sorted(r.entries, p);
            lemma_promoted_keeps_all(r.entries, p);
        }
    }
    lemma_unique_is_distinct(a);
}

/// A manual override and its end. While an endpoint is forced, it alone is tried, whatever its
/// priority. Once the override is cleared, the order is what it was before. Where the endpoint is
/// removed instead, the override goes with it: all the other endpoints are tried by tiers, and that
/// one is not.
pub proof fn law_override_can_be_undone(r: RegistryModel, p: int)
    requires
        r.wf(),
        unique(r.entries),
        r.forced is None,
        0 <= p < r.entries.len(),
    ensures
        ({
            let id = r.entries[p].id;
            let removed = r.forcing(id).removing(id);
            &&& order(r.forcing(id)) == seq![r.entries[p]]
            &&& order(r.forcing(id).unforced()) == order(r)
            &&& removed.forced is None
            &&& sorted(order(removed))
            &&& order(removed).to_multiset() == r.entries.remove(p).to_multiset()
            &&& !has_id(order(removed), id)
        }),
{
    let id = r.entries[p].id;
    let removed = r.forcing(id).removing(id);
    lemma_without_one(r.entries, p);
    law_removing_keeps_the_order(r.entries, id);
    let rest = r.entries.remove(p);
    assert(unique(rest)) by {
        assert forall|i: int, j: int| 0 <= i < j < rest.len() implies (#[trigger] rest[i]).id != (
        #[trigger] rest[j]).id by {
            assert(rest[i] == r.entries[if i < p { i } else { i + 1 }]);
            assert(rest[j] == r.entries[if j < p { j } else { j + 1 }]);
        }
    }
    lemma_order_holds_all(removed);
    if has_id(order(removed), id) {
        broadcast use vstd::seq_lib::group_to_multiset_ensures;
        let i = choose|i: int|
            0 <= i < order(removed).len() && (#[trigger] order(removed)[i]).id == id;
        let e = order(removed)[i];
        assert(order(removed).contains(e));
        assert(order(removed).to_multiset().count(e) > 0);
        assert(rest.to_multiset().count(e) > 0);
        assert(rest.contains(e));
        let k = choose|k: int| 0 <= k < rest.len() && rest[k] == e;
        assert(rest[k].id == id);
    }
}

impl EndpointRegistry {
    /// A registry without endpoints.
    pub fn new() -> (r: Self)
        ensures
            r@.wf(),
            r@ == (RegistryModel { entries: Seq::empty(), forced: None, last: None }),
    {
        let r = EndpointRegistry { entries: Vec::new(), forced: None, last_connected: None };
        assert(r@.entries =~= Seq::empty());
        r
    }

    /// Register a new endpoint. Returns a handle for later reference.
    pub fn add(&mut self, url_str: &str, priority: EndpointPriority) -> (r: Result<
        EndpointHandle,
        TransportError,
    >)
        requires
            old(self)@.wf(),
        ensures
            final(self)@.wf(),
            match endpoint_url(url_str@) {
                Some(url) => {
                    &&& r matches Ok(handle) && ids::is_random_uuid(handle.spec_id())
                    &&& final(self)@ == (RegistryModel {
                        entries: inserted(
                            old(self)@.entries,
                            EntryModel { id: r->Ok_0.spec_id(), url, priority },
                        ),
                        ..old(self)@
                    })
                },
                None => {
                    &&& r matches Err(TransportError::InvalidUrl(text)) && text@ == url_str@
                    &&& final(self)@ == old(self)@
                },
            },
    {
        self.add_with_id(url_str, priority, fresh_id())
    }

    /// Register a new endpoint under a given ID.
    pub fn add_with_id(&mut self, url_str: &str, priority: EndpointPriority, id: u128) -> (r:
        Result<EndpointHandle, TransportError>)
        requires
            old(self)@.wf(),
        ensures
            final(self)@.wf(),
            match endpoint_url(url_str@) {
                Some(url) => {
                    &&& r matches Ok(handle) && handle.spec_id() == id
                    &&& final(self)@ == (RegistryModel {
                        entries: inserted(old(self)@.entries, EntryModel { id, url, priority }),
                        ..old(self)@
                    })
                },
                None => {
                    &&& r matches Err(TransportError::InvalidUrl(text)) && text@ == url_str@
                    &&& final(self)@ == old(self)@
                },
            },
    {
        let (normalised, path) = match parse_url(url_str) {
            None => {
                return Err(TransportError::InvalidUrl(url_str.to_owned()));
            },
            Some(p) => p,
        };
        let url = if path == "/".to_owned() || path.as_str().unicode_len() == 0 {
            match replace_path(url_str, "/ws") {
                None => {
                    return Err(TransportError::InvalidUrl(url_str.to_owned()));
                },
                Some(url) => url,
            }
        } else {
            normalised
        };
        let ghost e = EntryModel { id, url: url@, priority };
        let ghost tier = priority.tier() + 1;
        let rank: u8 = priority.rank();
        let mut k: usize = 0;
        while k < self.entries.len() && self.entries[k].priority.rank() <= rank
            invariant
                k <= self.entries@.len(),
                rank == priority.tier(),
                self@ == old(self)@,
                self@.entries.len() == self.entries@.len(),
                tier_start(self@.entries, priority.tier() + 1, 0) == tier_start(
                    self@.entries,
                    priority.tier() + 1,
                    k as int,
                ),
            decreases self.entries@.len() - k,
        {
            assert(self@.entries[k as int] == entry_model(self.entries@[k as int]));
            k = k + 1;
        }
        proof {
            if k < self.entries@.len() {
                assert(self@.entries[k as int] == entry_model(self.entries@[k as int]));
            }
            law_adding_keeps_the_order(self@.entries, e);
        }
        let entry = EndpointEntry { id, url, priority };
        self.entries.insert(k, entry);
        assert(self@.entries =~= inserted(old(self)@.entries, e));
        Ok(EndpointHandle { id })
    }

    /// Remove a previously registered endpoint.
    pub fn remove(&mut self, handle: &EndpointHandle)
        requires
            old(self)@.wf(),
        ensures
            final(self)@.wf(),
            final(self)@ == old(self)@.removing(handle.spec_id()),
    {
        let id: u128 = handle.id();
        let ghost all = self@.entries;
        let mut kept: Vec<EndpointEntry> = Vec::new();
        let mut i: usize = 0;
        assert(entry_models(kept@) =~= without_id(all.take(0), id));
        while i < self.entries.len()
            invariant
                i <= self.entries@.len(),
                self@ == old(self)@,
                all == self@.entries,
                all.len() == self.entries@.len(),
                entry_models(kept@) == without_id(all.take(i as int), id),
            decreases self.entries@.len() - i,
        {
            let ghost before = kept@;
            assert(all.take(i + 1).drop_last() =~= all.take(i as int));
            assert(all.take(i + 1).last() == entry_model(self.entries@[i as int]));
            if self.entries[i].id != id {
                let entry = EndpointEntry {
                    id: self.entries[i].id,
                    url: self.entries[i].url.clone(),
                    priority: self.entries[i].priority,
                };
                kept.push(entry);
                assert(entry_models(kept@) =~= entry_models(before).push(all[i as int]));
            }
            i = i + 1;
        }
        assert(all.take(i as int) =~= all);
        self.entries = kept;
        if let Some(forced) = self.forced {
            if forced == id {
                self.forced = None;
            }
        }
        proof {
            law_removing_keeps_the_order(all, id);
        }
    }

    /// Force the next connection attempt to use this specific endpoint,
    /// bypassing the normal priority order.
    pub fn switch_to(&mut self, handle: &EndpointHandle)
        ensures
            final(self)@ == old(self)@.forcing(handle.spec_id()),
    {
        self.forced = Some(handle.id());
    }

    /// Clear the forced override and resume automatic priority selection.
    pub fn clear_forced(&mut self)
        ensures
            final(self)@ == old(self)@.unforced(),
    {
        self.forced = None;
    }

    /// Remembers the endpoint that was connected last.
    pub fn connected(&mut self, id: u128)
        ensures
            final(self)@ == old(self)@.remembering(id),
            final(self)@ == (RegistryModel { last: Some(id), ..old(self)@ }),
    {
        self.last_connected = Some(id);
    }

    /// Returns `true` if no endpoints are registered.
    pub fn is_empty(&self) -> (r: bool)
        ensures
            r == (self@.entries.len() == 0),
    {
        self.entries.len() == 0
    }

    fn entry(&self, i: usize) -> (r: (u128, String))
        requires
            i < self@.entries.len(),
        ensures
            r.0 == self@.entries[i as int].id,
            r.1@ == self@.entries[i as int].url,
    {
        (self.entries[i].id, self.entries[i].url.clone())
    }

    /// The place in the registry of the endpoint that comes at place `i` of the arranged ones.
    fn arranged_place(&self, i: usize, start: usize, place: usize) -> (r: usize)
        requires
            start <= place < self@.entries.len(),
            i < self@.entries.len(),
            arranged(self@) == self@.entries.remove(place as int).insert(
                start as int,
                self@.entries[place as int],
            ),
        ensures
            r < self@.entries.len(),
            arranged(self@)[i as int] == self@.entries[r as int],
    {
        if i < start || i > place {
            i
        } else if i == start {
            place
        } else {
            i - 1
        }
    }

    /// Ordered list of (id, url_string) pairs for the connection loop.
    ///
    /// If a forced endpoint is set, only that entry is returned.
    /// Otherwise, entries are sorted by priority. Within the same priority
    /// tier, the last successful endpoint is promoted to the front to avoid
    /// unnecessary re-handshakes after transient drops.
    pub fn ordered(&self) -> (r: Vec<(u128, String)>)
        ensures
            listed(order(self@), r@),
    {
        match self.forced {
            Some(id) => self.forced_list(id),
            None => {
                let (start, place) = self.promotion();
                self.distinct_list(start, place)
            },
        }
    }

    fn forced_list(&self, id: u128) -> (r: Vec<(u128, String)>)
        ensures
            listed(with_id(self@.entries, id), r@),
    {
        let ghost all = self@.entries;
        let mut list: Vec<(u128, String)> = Vec::new();
        let mut i: usize = 0;
        while i < self.entries.len()
            invariant
                i <= self.entries@.len(),
                all == self@.entries,
                all.len() == self.entries@.len(),
                listed(with_id(all.take(i as int), id), list@),
            decreases self.entries@.len() - i,
        {
            assert(all.take(i + 1).drop_last() =~= all.take(i as int));
            if self.entries[i].id == id {
                list.push(self.entry(i));
            }
            i = i + 1;
        }
        assert(all.take(i as int) =~= all);
        list
    }

    /// The start of the tier and the place of the last successful endpoint; both are the number of
    /// endpoints where there is none.
    fn promotion(&self) -> (r: (usize, usize))
        ensures
            r.0 <= r.1 <= self@.entries.len(),
            r.1 < self@.entries.len() ==> arranged(self@) == self@.entries.remove(
                r.1 as int,
            ).insert(r.0 as int, self@.entries[r.1 as int]),
            r.1 == self@.entries.len() ==> arranged(self@) == self@.entries,
    {
        let none: usize = self.entries.len();
        let id: u128 = match self.last_connected {
            None => {
                return (none, none);
            },
            Some(id) => id,
        };
        let mut place: usize = 0;
        while place < self.entries.len() && self.entries[place].id != id
            invariant
                place <= self.entries@.len(),
                self@.entries.len() == self.entries@.len(),
                place_of(self@.entries, id, 0) == place_of(self@.entries, id, place as int),
            decreases self.entries@.len() - place,
        {
            assert(self@.entries[place as int].id == self.entries@[place as int].id);
            place = place + 1;
        }
        if place == self.entries.len() {
            return (none, none);
        }
        assert(self@.entries[place as int] == entry_model(self.entries@[place as int]));
        let rank: u8 = self.entries[place].priority.rank();
        let mut start: usize = 0;
        while start < place && self.entries[start].priority.rank() < rank
            invariant
                start <= place < self.entries@.len(),
                self@.entries.len() == self.entries@.len(),
                rank == self@.entries[place as int].priority.tier(),
                tier_start(self@.entries, rank as int, 0) == tier_start(
                    self@.entries,
                    rank as int,
                    start as int,
                ),
            decreases place - start,
        {
            assert(self@.entries[start as int] == entry_model(self.entries@[start as int]));
            start = start + 1;
        }
        assert(self@.entries[start as int] == entry_model(self.entries@[start as int]));
        (start, place)
    }

    fn distinct_list(&self, start: usize, place: usize) -> (r: Vec<(u128, String)>)
        requires
            start <= place <= self@.entries.len(),
            place < self@.entries.len() ==> arranged(self@) == self@.entries.remove(
                place as int,
            ).insert(start as int, self@.entries[place as int]),
            place == self@.entries.len() ==> arranged(self@) == self@.entries,
        ensures
            listed(distinct(arranged(self@)), r@),
    {
        let ghost all = arranged(self@);
        let mut list: Vec<(u128, String)> = Vec::new();
        let mut i: usize = 0;
        while i < self.entries.len()
            invariant
                i <= self.entries@.len(),
                start <= place <= self@.entries.len(),
                place < self@.entries.len() ==> arranged(self@) == self@.entries.remove(
                    place as int,
                ).insert(start as int, self@.entries[place as int]),
                place == self@.entries.len() ==> arranged(self@) == self@.entries,
                all == arranged(self@),
                all.len() == self.entries@.len(),
                self@.entries.len() == self.entries@.len(),
                listed(distinct(all.take(i as int)), list@),
            decreases self.entries@.len() - i,
        {
            let ghost part = all.take(i + 1);
            assert(part.drop_last() =~= all.take(i as int));
            let at: usize = if place < self.entries.len() {
                self.arranged_place(i, start, place)
            } else {
                i
            };
            let item = self.entry(at);
            let ghost known = distinct(all.take(i as int));
            let mut seen = false;
            let mut j: usize = 0;
            while j < list.len()
                invariant
                    j <= list@.len(),
                    listed(known, list@),
                    seen == exists|x: int| 0 <= x < j && (#[trigger] known[x]).id == item.0,
                decreases list@.len() - j,
            {
                assert(list@[j as int].0 == known[j as int].id);
                if list[j].0 == item.0 {
                    seen = true;
                }
                j = j + 1;
            }
            assert(seen == has_id(known, item.0));
            if !seen {
                list.push(item);
            }
            i = i + 1;
        }
        assert(all.take(i as int) =~= all);
        list
    }
}

impl Default for EndpointRegistry {
    fn default() -> (r: Self)
        ensures
            r@.wf(),
            r@ == (RegistryModel { entries: Seq::empty(), forced: None, last: None }),
    {
        EndpointRegistry::new()
    }
}

/// A new endpoint stands behind those of its tier and of the tiers before it, and before those of
/// the tiers behind it; the others keep their order.
pub proof fn law_new_endpoint_is_last_in_its_tier(entries: Seq<EntryModel>, e: EntryModel)
    requires
        sorted(entries),
    ensures
        exists|k: int|
            {
                &&& 0 <= k <= entries.len()
                &&& inserted(entries, e) == #[trigger] entries.take(k) + seq![e] + entries.skip(k)
                &&& forall|i: int|
                    0 <= i < k ==> (#[trigger] entries[i]).priority.tier() <= e.priority.tier()
                &&& forall|i: int|
                    k <= i < entries.len() ==> (#[trigger] entries[i]).priority.tier()
                        > e.priority.tier()
            },
        EndpointPriority::Local.tier() < EndpointPriority::Remote.tier(),
        EndpointPriority::Remote.tier() < EndpointPriority::Dev.tier(),
{
    let tier = e.priority.tier() + 1;
    let k = tier_start(entries, tier, 0);
    lemma_tier_start(entries, tier, 0);
    assert(inserted(entries, e) =~= entries.take(k) + seq![e] + entries.skip(k));
    assert forall|i: int| k <= i < entries.len() implies (#[trigger] entries[i]).priority.tier()
        > e.priority.tier() by {
        assert(entries[k].priority.tier() <= entries[i].priority.tier());
    }
}

/// A URL that parses keeps its path, or gets the path `/ws` where it has none; a text that is no
/// URL gives no endpoint.
pub proof fn law_missing_path_is_filled_in(text: Seq<char>)
    ensures
        address::parsed(text) is None ==> endpoint_url(text) is None,
        address::parsed(text) matches Some(p) ==> endpoint_url(text) == if p.1.len() == 0
            || p.1 == "/"@ {
            address::with_path(text, "/ws"@)
        } else {
            Some(p.0)
        },
{
}

/// Removing an endpoint takes exactly those of its ID, in whatever tier, and leaves the others in
/// their order; forcing one tries exactly those of its ID.
pub proof fn law_removing_takes_only_its_own(entries: Seq<EntryModel>, id: u128)
    ensures
        without_id(entries, id) == entries.filter(|e: EntryModel| e.id != id),
        with_id(entries, id) == entries.filter(|e: EntryModel| e.id == id),
    decreases entries.len(),
{
    reveal(Seq::filter);
    if entries.len() > 0 {
        law_removing_takes_only_its_own(entries.drop_last(), id);
    }
}

/// What happens to an override and to the memory of the last success when an endpoint is removed:
/// an override for another endpoint stays, one for this endpoint ends, and the memory stays.
pub proof fn law_removing_ends_only_its_own_override(r: RegistryModel, id: u128, other: u128)
    requires
        id != other,
    ensures
        r.forcing(id).removing(id).forced is None,
        r.forcing(other).removing(id).forced == Some(other),
        r.unforced().removing(id).forced is None,
        r.removing(id).last == r.last,
        r.removing(id).entries == r.entries.filter(|e: EntryModel| e.id != id),
{
    law_removing_takes_only_its_own(r.entries, id);
}

/// An override decides alone: where one is set, only endpoints of its ID are tried, and none where
/// the registry has none; the last success does not matter then.
pub proof fn law_override_decides_alone(r: RegistryModel, id: u128, last: Option<u128>)
    ensures
        order(r.forcing(id)) == r.entries.filter(|e: EntryModel| e.id == id),
        !has_id(r.entries, id) ==> order(r.forcing(id)).len() == 0,
        order(RegistryModel { last, ..r.forcing(id) }) == order(r.forcing(id)),
        r.forcing(id).entries == r.entries,
        r.forcing(id).last == r.last,
        r.forcing(id).unforced() == r.unforced(),
{
    law_removing_takes_only_its_own(r.entries, id);
    if !has_id(r.entries, id) {
        lemma_without_none(r.entries, id);
    }
}

/// The last success moves only itself: the other endpoints keep their order, and an endpoint that
/// is not registered any more moves nothing.
pub proof fn law_last_success_moves_only_itself(r: RegistryModel, id: u128)
    requires
        r.wf(),
        unique(r.entries),
        r.forced is None,
        r.last == Some(id),
    ensures
        without_id(order(r), id) == without_id(r.entries, id),
        !has_id(r.entries, id) ==> order(r) == r.entries,
{
    let p = place_of(r.entries, id, 0);
    lemma_place_of(r.entries, id, 0);
    if p < r.entries.len() {
        let o = promoted(r.entries, p);
        let k = tier_start(r.entries, r.entries[p].priority.tier(), 0);
        lemma_promoted(r.entries, p);
        lemma_promoted_is_unique(r.entries, p);
        lemma_unique_is_distinct(o);
        assert(o[k] == r.entries[p]);
        lemma_without_one(o, k);
        lemma_without_one(r.entries, p);
        assert(o.remove(k) =~= r.entries.remove(p));
        assert(has_id(r.entries, id));
    } else {
        lemma_unique_is_distinct(r.entries);
    }
}

/// No endpoint is tried twice in a round, and none is left out: of those with the same ID the first
/// is tried.
pub proof fn law_each_endpoint_is_tried_once(entries: Seq<EntryModel>, id: u128)
    ensures
        unique(distinct(entries)),
        has_id(distinct(entries), id) <==> has_id(entries, id),
        entries.len() > 0 ==> distinct(entries.drop_last()).is_prefix_of(distinct(entries)),
        forall|i: int|
            0 <= i < distinct(entries).len() ==> entries.contains(#[trigger] distinct(entries)[i]),
    decreases entries.len(),
{
    if entries.len() > 0 {
        let init = entries.drop_last();
        let before = distinct(init);
        let after = distinct(entries);
        law_each_endpoint_is_tried_once(init, id);
        assert forall|i: int, j: int| 0 <= i < j < after.len() implies (#[trigger] after[i]).id != (
        #[trigger] after[j]).id by {
            assert(after[i] == before[i]);
        }
        assert forall|i: int| 0 <= i < after.len() implies entries.contains(
            #[trigger] after[i],
        ) by {
            if i < before.len() {
                assert(after[i] == before[i]);
                let k = choose|k: int| 0 <= k < init.len() && init[k] == before[i];
                assert(entries[k] == after[i]);
            } else {
                assert(entries[entries.len() - 1] == after[i]);
            }
        }
        if has_id(after, id) {
            let i = choose|i: int| 0 <= i < after.len() && (#[trigger] after[i]).id == id;
            let k = choose|k: int| 0 <= k < entries.len() && entries[k] == after[i];
            assert(entries[k].id == id);
        }
        if has_id(entries, id) {
            let i = choose|i: int| 0 <= i < entries.len() && (#[trigger] entries[i]).id == id;
            if i < init.len() {
                assert(init[i].id == id);
                let k = choose|k: int| 0 <= k < before.len() && (#[trigger] before[k]).id == id;
                assert(after[k].id == id);
            } else if has_id(before, id) {
                let k = choose|k: int| 0 <= k < before.len() && (#[trigger] before[k]).id == id;
                assert(after[k].id == id);
            } else {
                assert(after[before.len() as int].id == id);
            }
        }
    }
}

/// An endpoint that was connected is tried first in its tier from then on, until another one is
/// connected; the registered endpoints and an override stay as they are.
pub proof fn law_connected_endpoint_leads_its_tier(r: RegistryModel, id: u128)
    requires
        r.wf(),
        unique(r.entries),
        r.forced is None,
        has_id(r.entries, id),
    ensures
        exists|k: int| #[trigger]
            leads_its_tier(order(r.remembering(id)), k) && order(r.remembering(id))[k].id == id,
        r.remembering(id).entries == r.entries,
        r.remembering(id).forced == r.forced,
{
    law_last_success_is_first_in_its_tier(r.remembering(id), id);
}

} // verus!
