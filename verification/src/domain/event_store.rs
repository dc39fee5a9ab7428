//! The event log: an append-only, totally ordered sequence of domain events.
//!
//! Every appended event is given an id greater than the ids of all events
//! appended before it. Events are read back by queries: unions of filters,
//! each of which names a stream and, optionally, the cart, item or product
//! that an event must be indexed by.

use vstd::prelude::*;

use super::cart::{CartId, ItemId, ProductId};
use super::events::{DomainEvent, EventView};

verus! {

/// A named stream.
#[derive(Clone, Copy, Debug, PartialEq, Eq, Structural)]
pub enum StreamName {
    All,
    Cart,
    Empty,
    Inventory,
    Pricing,
    Published,
    Submitted,
}

impl StreamName {
    /// Whether an event belongs to the stream.
    pub open spec fn holds(self, event: EventView) -> bool {
        match self {
            StreamName::All => true,
            StreamName::Cart => event.in_cart_stream(),
            StreamName::Empty => event.in_empty_stream(),
            StreamName::Inventory => event.in_inventory_stream(),
            StreamName::Pricing => event.in_pricing_stream(),
            StreamName::Published => event.in_published_stream(),
            StreamName::Submitted => event.in_submitted_stream(),
        }
    }
}

impl DomainEvent {
    /// The cart the event is indexed by, if any.
    pub fn cart_id(&self) -> (id: Option<CartId>)
        ensures
            id == self@.cart_id(),
    {
        match self {
            DomainEvent::CartCleared { cart_id } => Some(*cart_id),
            DomainEvent::CartCreated { cart_id } => Some(*cart_id),
            DomainEvent::CartItemAdded { cart_id, .. } => Some(*cart_id),
            DomainEvent::CartItemRemoved { cart_id, .. } => Some(*cart_id),
            DomainEvent::CartPublished { cart_id } => Some(*cart_id),
            DomainEvent::CartPublicationFailed { cart_id } => Some(*cart_id),
            DomainEvent::CartSubmitted { cart_id, .. } => Some(*cart_id),
            DomainEvent::ItemArchivedEvent { cart_id, .. } => Some(*cart_id),
            _ => None,
        }
    }

    /// The item the event is indexed by, if any.
    pub fn item_id(&self) -> (id: Option<ItemId>)
        ensures
            id == self@.item_id(),
    {
        match self {
            DomainEvent::CartItemAdded { item_id, .. } => Some(*item_id),
            DomainEvent::CartItemRemoved { item_id, .. } => Some(*item_id),
            DomainEvent::ItemArchivedEvent { item_id, .. } => Some(*item_id),
            _ => None,
        }
    }

    /// The product the event is indexed by, if any.
    pub fn product_id(&self) -> (id: Option<ProductId>)
        ensures
            id == self@.product_id(),
    {
        match self {
            DomainEvent::CartItemAdded { product_id, .. } => Some(*product_id),
            DomainEvent::InventoryChanged { product_id, .. } => Some(*product_id),
            DomainEvent::PriceChanged { product_id, .. } => Some(*product_id),
            _ => None,
        }
    }

    /// Whether the event belongs to a named stream.
    pub fn is_in(&self, stream: StreamName) -> (b: bool)
        ensures
            b == stream.holds(self@),
    {
        match stream {
            StreamName::All => true,
            StreamName::Cart => match self {
                DomainEvent::CartCreated { .. } => true,
                DomainEvent::CartItemAdded { .. } => true,
                DomainEvent::CartItemRemoved { .. } => true,
                DomainEvent::CartCleared { .. } => true,
                DomainEvent::ItemArchivedEvent { .. } => true,
                DomainEvent::CartSubmitted { .. } => true,
                _ => false,
            },
            StreamName::Empty => match self {
                DomainEvent::EmptyEvent => true,
                _ => false,
            },
            StreamName::Inventory => match self {
                DomainEvent::InventoryChanged { .. } => true,
                _ => false,
            },
            StreamName::Pricing => match self {
                DomainEvent::PriceChanged { .. } => true,
                _ => false,
            },
            StreamName::Published => match self {
                DomainEvent::CartPublished { .. } => true,
                DomainEvent::CartPublicationFailed { .. } => true,
                _ => false,
            },
            StreamName::Submitted => match self {
                DomainEvent::CartSubmitted { .. } => true,
                _ => false,
            },
        }
    }
}

/// One filter of a query: a stream and the identifiers that an event of the
/// stream must be indexed by.
#[derive(Clone, Copy, Debug, PartialEq, Eq, Structural)]
pub struct StreamFilter {
    pub stream: StreamName,
    pub cart_id: Option<CartId>,
    pub item_id: Option<ItemId>,
    pub product_id: Option<ProductId>,
}

impl StreamFilter {
    /// Whether the filter lets an event through: the event belongs to the
    /// stream and is indexed by each identifier that the filter names.
    pub open spec fn admits(self, event: EventView) -> bool {
        &&& self.stream.holds(event)
        &&& self.cart_id is Some ==> event.cart_id() == self.cart_id
        &&& self.item_id is Some ==> event.item_id() == self.item_id
        &&& self.product_id is Some ==> event.product_id() == self.product_id
    }

    /// Every event of a stream.
    pub fn of(stream: StreamName) -> (filter: StreamFilter)
        ensures
            filter == (StreamFilter { stream, cart_id: None, item_id: None, product_id: None }),
    {
        StreamFilter { stream, cart_id: None, item_id: None, product_id: None }
    }

    /// The events of a stream that are indexed by a cart.
    pub fn of_cart(stream: StreamName, cart_id: CartId) -> (filter: StreamFilter)
        ensures
            filter == (StreamFilter {
                stream,
                cart_id: Some(cart_id),
                item_id: None,
                product_id: None,
            }),
    {
        StreamFilter { stream, cart_id: Some(cart_id), item_id: None, product_id: None }
    }

    /// Whether the filter lets an event through.
    pub fn lets_through(&self, event: &DomainEvent) -> (b: bool)
        ensures
            b == self.admits(event@),
    {
        if !event.is_in(self.stream) {
            return false;
        }
        if let Some(cart_id) = self.cart_id {
            match event.cart_id() {
                Some(id) => {
                    if id != cart_id {
                        return false;
                    }
                },
                None => {
                    return false;
                },
            }
        }
        if let Some(item_id) = self.item_id {
            match event.item_id() {
                Some(id) => {
                    if id != item_id {
                        return false;
                    }
                },
                None => {
                    return false;
                },
            }
        }
        if let Some(product_id) = self.product_id {
            match event.product_id() {
                Some(id) => {
                    if id != product_id {
                        return false;
                    }
                },
                None => {
                    return false;
                },
            }
        }
        true
    }
}

/// A query: the union of its filters.
#[derive(Clone, Debug, PartialEq, Eq)]
pub struct StreamQuery {
    pub filters: Vec<StreamFilter>,
}

/// Whether one of the filters lets the event through.
pub open spec fn admitted(filters: Seq<StreamFilter>, event: EventView) -> bool {
    exists|i: int| 0 <= i < filters.len() && (#[trigger] filters[i]).admits(event)
}

impl View for StreamQuery {
    type V = Seq<StreamFilter>;

    open spec fn view(&self) -> Seq<StreamFilter> {
        self.filters@
    }
}

impl StreamQuery {
    /// The query of one filter.
    pub fn new(filter: StreamFilter) -> (query: StreamQuery)
        ensures
            query@ == seq![filter],
    {
        let mut filters: Vec<StreamFilter> = Vec::new();
        filters.push(filter);
        StreamQuery { filters }
    }

    /// The query that admits what this query or the other admits.
    pub fn union(&self, other: &StreamQuery) -> (query: StreamQuery)
        ensures
            query@ == self@ + other@,
    {
        let mut filters: Vec<StreamFilter> = Vec::new();
        let mut i: usize = 0;
        while i < self.filters.len()
            invariant
                i <= self.filters@.len(),
                filters@ == self.filters@.take(i as int),
            decreases self.filters@.len() - i,
        {
            filters.push(self.filters[i]);
            assert(self.filters@.take(i + 1) == self.filters@.take(i as int).push(
                self.filters@[i as int],
            ));
            i += 1;
        }
        assert(self.filters@.take(i as int) == self.filters@);
        let mut j: usize = 0;
        while j < other.filters.len()
            invariant
                j <= other.filters@.len(),
                filters@ == self.filters@ + other.filters@.take(j as int),
            decreases other.filters@.len() - j,
        {
            filters.push(other.filters[j]);
            assert(other.filters@.take(j + 1) == other.filters@.take(j as int).push(
                other.filters@[j as int],
            ));
            assert(self.filters@ + other.filters@.take(j + 1) == (self.filters@
                + other.filters@.take(j as int)).push(other.filters@[j as int]));
            j += 1;
        }
        assert(other.filters@.take(j as int) == other.filters@);
        StreamQuery { filters }
    }

    /// Whether the query admits an event.
    pub fn admits(&self, event: &DomainEvent) -> (b: bool)
        ensures
            b == admitted(self@, event@),
    {
        let mut i: usize = 0;
        while i < self.filters.len()
            invariant
                i <= self.filters@.len(),
                forall|j: int| 0 <= j < i ==> !(#[trigger] self.filters@[j]).admits(event@),
            decreases self.filters@.len() - i,
        {
            if self.filters[i].lets_through(event) {
                return true;
            }
            i += 1;
        }
        false
    }
}

/// An event with the id that the log gave it.
#[derive(Debug, PartialEq)]
pub struct PersistedEvent {
    pub id: i64,
    pub event: DomainEvent,
}

/// The model of a persisted event.
pub ghost struct PersistedView {
    pub id: i64,
    pub event: EventView,
}

impl View for PersistedEvent {
    type V = PersistedView;

    open spec fn view(&self) -> PersistedView {
        PersistedView { id: self.id, event: self.event@ }
    }
}

impl Clone for PersistedEvent {
    fn clone(&self) -> (copy: Self)
        ensures
            copy@ == self@,
    {
        PersistedEvent { id: self.id, event: self.event.clone() }
    }
}

impl PersistedEvent {
    /// The id that the log gave the event.
    pub fn id(&self) -> (id: i64)
        ensures
            id == self.id,
    {
        self.id
    }

    /// The event.
    pub fn into_inner(self) -> (event: DomainEvent)
        ensures
            event == self.event,
    {
        self.event
    }
}

/// The models of a list of persisted events, in order.
pub open spec fn persisted_views(events: Seq<PersistedEvent>) -> Seq<PersistedView> {
    events.map_values(|e: PersistedEvent| e@)
}

/// The events of a log, in order, without their ids.
pub open spec fn events_of(log: Seq<PersistedView>) -> Seq<EventView> {
    log.map_values(|p: PersistedView| p.event)
}

/// The ids of a log are positive and strictly increasing.
pub open spec fn ordered(log: Seq<PersistedView>) -> bool {
    &&& forall|i: int| 0 <= i < log.len() ==> (#[trigger] log[i]).id >= 1
    &&& forall|i: int, j: int|
        0 <= i < j < log.len() ==> (#[trigger] log[i]).id < (#[trigger] log[j]).id
}

/// The id of the last event of a log, 0 for the empty log.
pub open spec fn last_id(log: Seq<PersistedView>) -> int {
    if log.len() == 0 {
        0
    } else {
        log.last().id as int
    }
}

/// The events of a log with an id above `after` that a query admits, in log
/// order.
pub open spec fn selected(
    log: Seq<PersistedView>,
    filters: Seq<StreamFilter>,
    after: i64,
) -> Seq<PersistedView>
    decreases log.len(),
{
    if log.len() == 0 {
        Seq::empty()
    } else {
        let front = selected(log.drop_last(), filters, after);
        if log.last().id > after && admitted(filters, log.last().event) {
            front.push(log.last())
        } else {
            front
        }
    }
}

/// What a log is after events were appended to it: each event in the order
/// given, with the ids that follow the last id of the log.
pub open spec fn appended(log: Seq<PersistedView>, events: Seq<EventView>) -> Seq<PersistedView> {
    log + Seq::new(
        events.len(),
        |i: int| PersistedView { id: (last_id(log) + 1 + i) as i64, event: events[i] },
    )
}

/// An append was refused: an event that the conflict query admits was
/// appended after the version that the writer had seen.
#[derive(Clone, Copy, Debug, PartialEq, Eq, Structural)]
pub struct ConflictError {
    /// The id of the conflicting event that was found.
    pub conflicting_id: i64,
}

/// The event log, held in memory.
#[derive(Debug)]
pub struct EventStore {
    events: Vec<PersistedEvent>,
}

impl View for EventStore {
    type V = Seq<PersistedView>;

    closed spec fn view(&self) -> Seq<PersistedView> {
        persisted_views(self.events@)
    }
}

impl EventStore {
    /// The log is well formed: its ids are positive and strictly increasing.
    pub open spec fn wf(&self) -> bool {
        ordered(self@)
    }

    /// Whether the log has ids left for `n` more events.
    pub open spec fn has_room(&self, n: int) -> bool {
        last_id(self@) + n <= i64::MAX
    }

    /// The empty log.
    pub fn new() -> (store: EventStore)
        ensures
            store@ == Seq::<PersistedView>::empty(),
            store.wf(),
    {
        let store = EventStore { events: Vec::new() };
        assert(store@ =~= Seq::<PersistedView>::empty());
        store
    }

    /// The number of events in the log.
    pub fn len(&self) -> (n: usize)
        ensures
            n == self@.len(),
    {
        self.events.len()
    }

    /// The id of the last event of the log, 0 for the empty log.
    pub fn last_event_id(&self) -> (id: i64)
        ensures
            id == last_id(self@),
    {
        let n = self.events.len();
        if n == 0 {
            0
        } else {
            self.events[n - 1].id
        }
    }

    /// Appends the events in the order given, whatever the log holds, and
    /// returns them with their ids.
    pub fn append_without_validation(&mut self, events: Vec<DomainEvent>) -> (persisted: Vec<
        PersistedEvent,
    >)
        requires
            old(self).wf(),
            old(self).has_room(events@.len() as int),
        ensures
            final(self).wf(),
            final(self)@ == appended(old(self)@, events@.map_values(|e: DomainEvent| e@)),
            old(self)@ + persisted_views(persisted@) == final(self)@,
            persisted@.len() == events@.len(),
    {
        let ghost log = self@;
        let ghost models = events@.map_values(|e: DomainEvent| e@);
        let first: i64 = self.last_event_id();
        let mut persisted: Vec<PersistedEvent> = Vec::new();
        let mut i: usize = 0;
        while i < events.len()
            invariant
                i <= events@.len(),
                first == last_id(log),
                first + events@.len() <= i64::MAX,
                models == events@.map_values(|e: DomainEvent| e@),
                ordered(log),
                ordered(self@),
                self@ == log + persisted_views(persisted@),
                persisted@.len() == i,
                forall|k: int|
                    0 <= k < i ==> (#[trigger] persisted@[k])@ == (PersistedView {
                        id: (first + 1 + k) as i64,
                        event: models[k],
                    }),
            decreases events@.len() - i,
        {
            let id: i64 = first + 1 + (i as i64);
            let stored = PersistedEvent { id, event: events[i].clone() };
            let returned = stored.clone();
            proof {
                let before = self@;
                let next = before.push(stored@);
                assert(persisted_views(self.events@.push(stored)) =~= next);
                assert(persisted_views(persisted@.push(returned)) =~= persisted_views(
                    persisted@,
                ).push(stored@));
                assert(next =~= log + persisted_views(persisted@.push(returned)));
                assert(forall|k: int| 0 <= k < before.len() ==> #[trigger] before[k].id < id) by {
                    assert forall|k: int| 0 <= k < before.len() implies #[trigger] before[k].id
                        < id by {
                        if k < log.len() {
                            assert(before[k] == log[k]);
                            if log.len() > 0 {
                                assert(log[k].id <= log.last().id);
                            }
                        } else {
                            assert(before[k] == persisted@[k - log.len()]@);
                        }
                    }
                }
                assert(ordered(next)) by {
                    assert forall|a: int, b: int| 0 <= a < b < next.len() implies (
                    #[trigger] next[a]).id < (#[trigger] next[b]).id by {
                        if b < before.len() {
                            assert(next[a] == before[a] && next[b] == before[b]);
                        } else {
                            assert(next[a] == before[a]);
                        }
                    }
                    assert forall|a: int| 0 <= a < next.len() implies (#[trigger] next[a]).id
                        >= 1 by {
                        if a < before.len() {
                            assert(next[a] == before[a]);
                        }
                    }
                }
            }
            self.events.push(stored);
            persisted.push(returned);
            i += 1;
        }
        assert(self@ =~= appended(log, models));
        persisted
    }

    /// The first event after `version` that the query admits, if there is
    /// one.
    fn conflict(&self, query: &StreamQuery, version: i64) -> (r: Option<i64>)
        ensures
            match r {
                Some(id) => exists|i: int|
                    0 <= i < self@.len() && (#[trigger] self@[i]).id == id && id > version
                        && admitted(query@, self@[i].event),
                None => forall|i: int|
                    0 <= i < self@.len() ==> !((#[trigger] self@[i]).id > version && admitted(
                        query@,
                        self@[i].event,
                    )),
            },
    {
        let mut i: usize = 0;
        while i < self.events.len()
            invariant
                i <= self.events@.len(),
                forall|k: int|
                    0 <= k < i ==> !((#[trigger] self@[k]).id > version && admitted(
                        query@,
                        self@[k].event,
                    )),
            decreases self.events@.len() - i,
        {
            let stored = &self.events[i];
            assert(self@[i as int] == stored@);
            if stored.id > version && query.admits(&stored.event) {
                return Some(stored.id);
            }
            i += 1;
        }
        None
    }

    /// Appends the events unless the log has changed under the writer: the
    /// append is refused where an event that the query admits has an id
    /// above `version`.
    pub fn append(&mut self, events: Vec<DomainEvent>, query: &StreamQuery, version: i64) -> (r:
        Result<Vec<PersistedEvent>, ConflictError>)
        requires
            old(self).wf(),
            old(self).has_room(events@.len() as int),
        ensures
            final(self).wf(),
            match r {
                Ok(persisted) => {
                    &&& selected(old(self)@, query@, version) == Seq::<PersistedView>::empty()
                    &&& final(self)@ == appended(
                        old(self)@,
                        events@.map_values(|e: DomainEvent| e@),
                    )
                    &&& old(self)@ + persisted_views(persisted@) == final(self)@
                },
                Err(conflict) => {
                    &&& selected(old(self)@, query@, version).len() > 0
                    &&& final(self)@ == old(self)@
                },
            },
    {
        proof {
            lemma_selected(self@, query@, version);
        }
        match self.conflict(query, version) {
            Some(conflicting_id) => Err(ConflictError { conflicting_id }),
            None => {
                proof {
                    let found = selected(self@, query@, version);
                    if found.len() > 0 {
                        let p = found[0];
                        let w = choose|w: int| 0 <= w < self@.len() && self@[w] == p;
                        assert(self@[w].id > version);
                    }
                    assert(found =~= Seq::<PersistedView>::empty());
                }
                Ok(self.append_without_validation(events))
            },
        }
    }

    /// The events with an id above `after` that the query admits, in log
    /// order.
    pub fn stream_after(&self, query: &StreamQuery, after: i64) -> (events: Vec<PersistedEvent>)
        ensures
            persisted_views(events@) == selected(self@, query@, after),
    {
        let mut events: Vec<PersistedEvent> = Vec::new();
        let mut i: usize = 0;
        while i < self.events.len()
            invariant
                i <= self.events@.len(),
                persisted_views(events@) == selected(self@.take(i as int), query@, after),
            decreases self.events@.len() - i,
        {
            let stored = &self.events[i];
            proof {
                assert(self@.take(i + 1).drop_last() == self@.take(i as int));
                assert(self@.take(i + 1).last() == stored@);
            }
            if stored.id > after && query.admits(&stored.event) {
                let copy = stored.clone();
                assert(persisted_views(events@.push(copy)) =~= persisted_views(events@).push(
                    stored@,
                ));
                events.push(copy);
            }
            i += 1;
        }
        assert(self@.take(i as int) == self@);
        events
    }

    /// The events that the query admits, in log order.
    pub fn stream(&self, query: &StreamQuery) -> (events: Vec<PersistedEvent>)
        requires
            self.wf(),
        ensures
            persisted_views(events@) == selected(self@, query@, 0),
    {
        self.stream_after(query, 0)
    }
}

/// What `selected` holds: exactly the admitted events above `after`, each of
/// them an event of the log.
pub proof fn lemma_selected(log: Seq<PersistedView>, filters: Seq<StreamFilter>, after: i64)
    ensures
        forall|k: int|
            0 <= k < selected(log, filters, after).len() ==> {
                let p = #[trigger] selected(log, filters, after)[k];
                p.id > after && admitted(filters, p.event) && log.contains(p)
            },
        forall|i: int|
            0 <= i < log.len() && (#[trigger] log[i]).id > after && admitted(
                filters,
                log[i].event,
            ) ==> selected(log, filters, after).contains(log[i]),
    decreases log.len(),
{
    if log.len() > 0 {
        let front_log = log.drop_last();
        lemma_selected(front_log, filters, after);
        let front = selected(front_log, filters, after);
        let all = selected(log, filters, after);
        assert forall|k: int| 0 <= k < all.len() implies {
            let p = #[trigger] all[k];
            p.id > after && admitted(filters, p.event) && log.contains(p)
        } by {
            if k < front.len() {
                assert(all[k] == front[k]);
                let w = choose|w: int| 0 <= w < front_log.len() && front_log[w] == front[k];
                assert(log[w] == front[k]);
            } else {
                assert(all[k] == log.last());
                assert(log[log.len() - 1] == all[k]);
            }
        }
        assert forall|i: int|
            0 <= i < log.len() && (#[trigger] log[i]).id > after && admitted(
                filters,
                log[i].event,
            ) implies all.contains(log[i]) by {
            if i < log.len() - 1 {
                assert(front_log[i] == log[i]);
                let w = choose|w: int| 0 <= w < front.len() && front[w] == log[i];
                assert(all[w] == log[i]);
            } else {
                assert(all[all.len() - 1] == log[i]);
            }
        }
    }
}

/// Log order: in a well-formed log every event that was appended later has
/// a greater id, and appending keeps the log well formed.
pub proof fn lemma_append_orders(log: Seq<PersistedView>, events: Seq<EventView>)
    requires
        ordered(log),
        last_id(log) + events.len() <= i64::MAX,
    ensures
        ordered(appended(log, events)),
        forall|i: int, j: int|
            0 <= i < log.len() && log.len() <= j < appended(log, events).len() ==> (
            #[trigger] appended(log, events)[i]).id < (#[trigger] appended(log, events)[j]).id,
        forall|j: int|
            log.len() <= j < appended(log, events).len() ==> (#[trigger] appended(
                log,
                events,
            )[j]).id == last_id(log) + 1 + (j - log.len()),
{
    let all = appended(log, events);
    assert forall|i: int| 0 <= i < log.len() implies (#[trigger] log[i]).id <= last_id(log) by {
        if i < log.len() - 1 {
            assert(log[i].id < log[log.len() - 1].id);
        }
    }
    assert forall|a: int, b: int| 0 <= a < b < all.len() implies (#[trigger] all[a]).id < (
    #[trigger] all[b]).id by {
        if b < log.len() {
            assert(all[a] == log[a] && all[b] == log[b]);
        } else if a < log.len() {
            assert(all[a] == log[a]);
        }
    }
    assert forall|a: int| 0 <= a < all.len() implies (#[trigger] all[a]).id >= 1 by {
        if a < log.len() {
            assert(all[a] == log[a]);
        }
    }
}

/// The events of a log that was appended to are the events of the log
/// followed by the events appended.
pub proof fn lemma_events_of_appended(log: Seq<PersistedView>, events: Seq<EventView>)
    ensures
        events_of(appended(log, events)) == events_of(log) + events,
        appended(log, Seq::<EventView>::empty()) == log,
{
    assert(events_of(appended(log, events)) =~= events_of(log) + events);
    assert(appended(log, Seq::<EventView>::empty()) =~= log);
}

/// What is selected from a well-formed log is in log order, and no id in it
/// is above the last id of the log.
pub proof fn lemma_selected_ordered(log: Seq<PersistedView>, filters: Seq<StreamFilter>, after: i64)
    requires
        ordered(log),
    ensures
        ordered(selected(log, filters, after)),
        forall|k: int|
            0 <= k < selected(log, filters, after).len() ==> (#[trigger] selected(
                log,
                filters,
                after,
            )[k]).id <= last_id(log),
    decreases log.len(),
{
    if log.len() > 0 {
        let front_log = log.drop_last();
        assert(ordered(front_log)) by {
            assert(forall|i: int| 0 <= i < front_log.len() ==> front_log[i] == log[i]);
        }
        lemma_selected_ordered(front_log, filters, after);
        let front = selected(front_log, filters, after);
        let all = selected(log, filters, after);
        if front_log.len() > 0 {
            assert(front_log.last() == log[log.len() - 2]);
            assert(log[log.len() - 2].id < log[log.len() - 1].id);
        }
        assert forall|k: int| 0 <= k < all.len() implies (#[trigger] all[k]).id <= last_id(
            log,
        ) by {
            if k < front.len() {
                assert(all[k] == front[k]);
            }
        }
        assert forall|a: int, b: int| 0 <= a < b < all.len() implies (#[trigger] all[a]).id < (
        #[trigger] all[b]).id by {
            if b < front.len() {
                assert(all[a] == front[a] && all[b] == front[b]);
            } else {
                assert(all[a] == front[a]);
                assert(all[b] == log.last());
            }
        }
        assert forall|a: int| 0 <= a < all.len() implies (#[trigger] all[a]).id >= 1 by {
            if a < front.len() {
                assert(all[a] == front[a]);
            } else {
                assert(all[a] == log[log.len() - 1]);
            }
        }
    }
}

/// A writer that has read every event that a query admits has seen the
/// last of them: nothing that the query admits lies above the id of the
/// last event read.
pub proof fn lemma_nothing_above_last_read(log: Seq<PersistedView>, filters: Seq<StreamFilter>)
    requires
        ordered(log),
    ensures
        selected(log, filters, last_id(selected(log, filters, 0)) as i64) == Seq::<
            PersistedView,
        >::empty(),
        0 <= last_id(selected(log, filters, 0)) <= i64::MAX,
{
    let read = selected(log, filters, 0);
    lemma_selected_ordered(log, filters, 0);
    let version = last_id(read) as i64;
    if read.len() > 0 {
        assert(read[read.len() - 1].id >= 1);
    }
    let above = selected(log, filters, version);
    lemma_selected(log, filters, version);
    lemma_selected(log, filters, 0);
    if above.len() > 0 {
        let p = above[0];
        let w = choose|w: int| 0 <= w < log.len() && log[w] == p;
        assert(log[w].id > 0);
        assert(read.contains(log[w]));
        let k = choose|k: int| 0 <= k < read.len() && read[k] == p;
        if k < read.len() - 1 {
            assert(read[k].id < read[read.len() - 1].id);
        }
        assert(false);
    }
    assert(above =~= Seq::<PersistedView>::empty());
}

/// The last id of a log that was appended to.
pub proof fn lemma_last_id_appended(log: Seq<PersistedView>, events: Seq<EventView>)
    requires
        last_id(log) + events.len() <= i64::MAX,
        ordered(log),
    ensures
        last_id(appended(log, events)) == last_id(log) + events.len(),
{
    let all = appended(log, events);
    if events.len() == 0 {
        assert(all =~= log);
    } else {
        assert(log.len() == 0 ==> last_id(log) == 0);
        if log.len() > 0 {
            assert(log[log.len() - 1].id >= 1);
        }
        assert(all.last() == all[log.len() + events.len() - 1]);
    }
}

} // verus!
