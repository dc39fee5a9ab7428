//! Making a decision: folding the state that a command asks for from the
//! log, deciding, and appending what was decided unless the log has changed
//! meanwhile.

use vstd::prelude::*;

use super::cart::history::{
    cart_events, consistent, in_order, item_count, lemma_cart_events_concat,
    lemma_empty_consistent, submitted, lemma_add_item_agrees, lemma_add_item_keeps_order,
    lemma_append_keeps_consistent, lemma_append_outside_carts, lemma_archive_item_agrees,
    lemma_archive_item_keeps_order, lemma_clear_cart_agrees, lemma_clear_cart_keeps_order,
    lemma_remove_item_agrees, lemma_remove_item_keeps_order, lemma_submit_cart_keeps_order,
    of_cart,
};
use super::cart::state::{
    can_fold, fold, lemma_fold_concat, mutate_all, FoldState, StateMutate,
};
use super::cart::MAX_ITEMS;
use super::cart::{
    cart_filters, cart_query, AddItemCommand, AddItemState, ArchiveItemCommand, ArchiveItemState,
    CartError, CartId, ChangeInventoryCommand, ChangePriceCommand, ClearCartCommand,
    ClearCartState, RemoveItemCommand, RemoveItemState, SubmitCartCommand, SubmitCartModel,
};
use super::event_store::{
    admitted, appended, events_of, last_id, lemma_events_of_appended,
    lemma_nothing_above_last_read, lemma_selected, ordered, persisted_views, selected, EventStore,
    PersistedEvent, PersistedView, StreamQuery,
};
use super::events::{views, DomainEvent, EventView};
use super::streams::CartStream;

verus! {

/// Why a decision could not be made.
///
/// The first two kinds are faults of the storage and carry a description;
/// the third is the rejection of the command by a business rule.
#[derive(Clone, Debug, PartialEq)]
pub enum DecisionError {
    EventStore(String),
    StateStore(String),
    Domain(CartError),
}

/// A command.
#[derive(Debug, Clone)]
pub enum Command {
    AddItem(AddItemCommand),
    RemoveItem(RemoveItemCommand),
    ClearCart(ClearCartCommand),
    SubmitCart(SubmitCartCommand),
    ArchiveItem(ArchiveItemCommand),
    ChangeInventory(ChangeInventoryCommand),
    ChangePrice(ChangePriceCommand),
}

impl Command {
    /// The cart that the command is about, if it is about one.
    pub open spec fn cart_id(self) -> Option<CartId> {
        match self {
            Command::AddItem(c) => Some(c.cart_id),
            Command::RemoveItem(c) => Some(c.cart_id),
            Command::ClearCart(c) => Some(c.cart_id),
            Command::SubmitCart(c) => Some(c.cart_id),
            Command::ArchiveItem(c) => Some(c.cart_id),
            _ => None,
        }
    }

    /// Whether the state that the command asks for can be folded from the
    /// events of a log.
    pub open spec fn foldable(self, log: Seq<EventView>) -> bool {
        match self {
            Command::AddItem(c) => can_fold(
                AddItemState::initial(c.cart_id),
                cart_events(log, c.cart_id),
            ),
            Command::SubmitCart(c) => can_fold(
                SubmitCartModel::initial(c.cart_id),
                cart_events(log, c.cart_id),
            ),
            _ => true,
        }
    }

    /// Whether the command can be decided on the events of a log: its state
    /// can be folded, and the cart that is to be submitted can be priced.
    pub open spec fn decidable(self, log: Seq<EventView>) -> bool {
        &&& self.foldable(log)
        &&& match self {
            Command::SubmitCart(c) => {
                let state = fold(SubmitCartModel::initial(c.cart_id), cart_events(log, c.cart_id));
                c.rejection(state) is None ==> state.priced()
            },
            _ => true,
        }
    }

    /// The decision on the events of a log: the events to append, or the
    /// rule that rejects the command.
    pub open spec fn decided(self, log: Seq<EventView>) -> Result<Seq<EventView>, CartError> {
        match self {
            Command::AddItem(c) => c.decided(
                fold(AddItemState::initial(c.cart_id), cart_events(log, c.cart_id)),
            ),
            Command::RemoveItem(c) => c.decided(
                fold(RemoveItemState::initial(c.cart_id, c.item_id), cart_events(log, c.cart_id)),
            ),
            Command::ClearCart(c) => c.decided(
                fold(ClearCartState::initial(c.cart_id), cart_events(log, c.cart_id)),
            ),
            Command::SubmitCart(c) => c.decided(
                fold(SubmitCartModel::initial(c.cart_id), cart_events(log, c.cart_id)),
            ),
            Command::ArchiveItem(c) => c.decided(
                fold(ArchiveItemState::initial(c.cart_id, c.item_id), cart_events(log, c.cart_id)),
            ),
            Command::ChangeInventory(c) => Ok(c.decided()),
            Command::ChangePrice(c) => Ok(c.decided()),
        }
    }

    /// The events of a log after the command was made: what was decided is
    /// appended; a command that is rejected or cannot be decided leaves the
    /// log as it is.
    pub open spec fn made(self, log: Seq<EventView>) -> Seq<EventView> {
        if self.decidable(log) && self.decided(log) is Ok {
            log + self.decided(log)->Ok_0
        } else {
            log
        }
    }
}

/// The events of a log after a list of commands was made, in order.
pub open spec fn made_all(log: Seq<EventView>, commands: Seq<Command>) -> Seq<EventView>
    decreases commands.len(),
{
    if commands.len() == 0 {
        log
    } else {
        commands.last().made(made_all(log, commands.drop_last()))
    }
}

/// The number of the commands that could not be made, each on the log as
/// the commands before it left it: those that a rule rejects, and those
/// that cannot be decided.
pub open spec fn failures(log: Seq<EventView>, commands: Seq<Command>) -> nat
    decreases commands.len(),
{
    if commands.len() == 0 {
        0
    } else {
        let before = made_all(log, commands.drop_last());
        let failed: nat = if commands.last().decidable(before) && commands.last().decided(
            before,
        ) is Ok {
            0
        } else {
            1
        };
        failures(log, commands.drop_last()) + failed
    }
}

/// Every decision keeps the histories of all carts in order.
pub proof fn lemma_decision_keeps_consistent(command: Command, log: Seq<EventView>)
    requires
        consistent(log),
    ensures
        consistent(command.made(log)),
        command.foldable(log),
{
    match command {
        Command::AddItem(c) => {
            let history = cart_events(log, c.cart_id);
            assert(in_order(c.cart_id, history));
            lemma_add_item_agrees(c.cart_id, history);
            if command.decided(log) is Ok {
                lemma_add_item_keeps_order(c, history);
                lemma_append_keeps_consistent(log, command.decided(log)->Ok_0, c.cart_id);
            }
        },
        Command::RemoveItem(c) => {
            let history = cart_events(log, c.cart_id);
            assert(in_order(c.cart_id, history));
            if command.decided(log) is Ok {
                lemma_remove_item_keeps_order(c, history);
                lemma_append_keeps_consistent(log, command.decided(log)->Ok_0, c.cart_id);
            }
        },
        Command::ClearCart(c) => {
            let history = cart_events(log, c.cart_id);
            assert(in_order(c.cart_id, history));
            if command.decided(log) is Ok {
                lemma_clear_cart_keeps_order(c, history);
                lemma_append_keeps_consistent(log, command.decided(log)->Ok_0, c.cart_id);
            }
        },
        Command::SubmitCart(c) => {
            let history = cart_events(log, c.cart_id);
            assert(in_order(c.cart_id, history));
            if command.decided(log) is Ok {
                lemma_submit_cart_keeps_order(c, history);
                lemma_append_keeps_consistent(log, command.decided(log)->Ok_0, c.cart_id);
            }
        },
        Command::ArchiveItem(c) => {
            let history = cart_events(log, c.cart_id);
            assert(in_order(c.cart_id, history));
            if command.decided(log) is Ok {
                lemma_archive_item_keeps_order(c, history);
                lemma_append_keeps_consistent(log, command.decided(log)->Ok_0, c.cart_id);
            }
        },
        Command::ChangeInventory(c) => {
            lemma_append_outside_carts(log, c.decided());
        },
        Command::ChangePrice(c) => {
            lemma_append_outside_carts(log, c.decided());
        },
    }
}

/// The events of one cart that a well-formed log holds are what the query
/// for the cart selects from it.
pub proof fn lemma_cart_query_selects(log: Seq<PersistedView>, cart_id: CartId)
    requires
        ordered(log),
    ensures
        events_of(selected(log, cart_filters(cart_id), 0)) == cart_events(events_of(log), cart_id),
    decreases log.len(),
{
    let filters = cart_filters(cart_id);
    if log.len() == 0 {
        assert(events_of(selected(log, filters, 0)) =~= Seq::<EventView>::empty());
        assert(events_of(log) =~= Seq::<EventView>::empty());
    } else {
        let front = log.drop_last();
        assert(ordered(front)) by {
            assert(forall|i: int| 0 <= i < front.len() ==> front[i] == log[i]);
        }
        lemma_cart_query_selects(front, cart_id);
        assert(events_of(log).drop_last() =~= events_of(front));
        assert(events_of(log).last() == log.last().event);
        assert(log[log.len() - 1].id >= 1);
        let event = log.last().event;
        assert(admitted(filters, event) <==> of_cart(event, cart_id)) by {
            if of_cart(event, cart_id) {
                assert(filters[0].admits(event));
            }
        }
        if of_cart(event, cart_id) {
            assert(events_of(selected(front, filters, 0).push(log.last())) =~= events_of(
                selected(front, filters, 0),
            ).push(event));
        }
    }
}

/// The events of a list, as members of the `Cart` stream.
fn cart_stream_events(events: &Vec<PersistedEvent>) -> (r: Vec<CartStream>)
    requires
        forall|i: int| 0 <= i < events@.len() ==> (#[trigger] events@[i])@.event.in_cart_stream(),
    ensures
        r@.map_values(|e: CartStream| e@) == events_of(persisted_views(events@)),
{
    let ghost wanted = events_of(persisted_views(events@));
    let mut r: Vec<CartStream> = Vec::new();
    let mut i: usize = 0;
    while i < events.len()
        invariant
            i <= events@.len(),
            wanted == events_of(persisted_views(events@)),
            forall|i: int|
                0 <= i < events@.len() ==> (#[trigger] events@[i])@.event.in_cart_stream(),
            r@.map_values(|e: CartStream| e@) == wanted.take(i as int),
        decreases events@.len() - i,
    {
        let event = events[i].event.clone();
        assert(events@[i as int]@.event.in_cart_stream());
        assert(wanted[i as int] == events@[i as int]@.event);
        match CartStream::try_from(event) {
            Ok(cart_event) => {
                assert(cart_event@ == wanted[i as int]);
                assert(wanted.take(i + 1) == wanted.take(i as int).push(wanted[i as int]));
                assert(r@.push(cart_event).map_values(|e: CartStream| e@) =~= r@.map_values(
                    |e: CartStream| e@,
                ).push(cart_event@));
                r.push(cart_event);
            },
            Err(_) => {
                assert(false);
            },
        }
        i += 1;
    }
    assert(wanted.take(i as int) == wanted);
    r
}

/// The number of events after which a snapshot is stale and is taken anew.
pub const SNAPSHOT_EVERY: u64 = 100;

/// A snapshot: a state as it was folded from the events of its cart up to
/// the event with id `version`, and the number of events folded into it
/// since it was last saved.
#[derive(Debug, Clone, PartialEq, Eq)]
pub struct Snapshot<S> {
    pub version: i64,
    pub applied_events: u64,
    pub state: S,
}

/// The id of the last of the events, or `version` where there is none.
pub open spec fn version_after(version: i64, events: Seq<PersistedView>) -> i64 {
    if events.len() == 0 {
        version
    } else {
        events.last().id
    }
}

/// Snapshots are advisory: folding the events above the version of a
/// snapshot into its state gives the state that folding the whole history
/// gives. The snapshot is one that was taken when the log held its first
/// `n` events.
pub proof fn lemma_snapshot_resumes<S: FoldState>(
    initial: S,
    log: Seq<PersistedView>,
    cart_id: CartId,
    n: int,
)
    requires
        ordered(log),
        0 <= n <= log.len(),
    ensures
        ({
            let seen = selected(log.take(n), cart_filters(cart_id), 0);
            let version = version_after(0, seen);
            let snapshot = fold(initial, events_of(seen));
            fold(snapshot, events_of(selected(log, cart_filters(cart_id), version))) == fold(
                initial,
                cart_events(events_of(log), cart_id),
            )
        }),
{
    let filters = cart_filters(cart_id);
    let seen = selected(log.take(n), filters, 0);
    let version = version_after(0, seen);
    let tail = selected(log, filters, version);
    crate::subsystems::event_listeners::lemma_selected_resumes(log, filters, n);
    assert(events_of(seen + tail) =~= events_of(seen) + events_of(tail));
    lemma_cart_query_selects(log, cart_id);
    lemma_fold_concat(initial, events_of(seen), events_of(tail));
}

/// Makes decisions against an event log.
#[derive(Debug, Clone, Copy)]
pub struct DecisionMaker;

impl DecisionMaker {
    /// The decision maker.
    pub fn new() -> Self {
        DecisionMaker
    }

    /// Folds the events of a cart into a state and returns the id of the
    /// last event read, or `None` where an event cannot follow.
    fn load<S: StateMutate>(store: &EventStore, cart_id: CartId, state: &mut S) -> (version:
        Option<i64>)
        requires
            store.wf(),
        ensures
            match version {
                Some(v) => {
                    &&& can_fold(old(state).model(), cart_events(events_of(store@), cart_id))
                    &&& final(state).model() == fold(
                        old(state).model(),
                        cart_events(events_of(store@), cart_id),
                    )
                    &&& selected(store@, cart_filters(cart_id), v) == Seq::<PersistedView>::empty()
                },
                None => !can_fold(old(state).model(), cart_events(events_of(store@), cart_id)),
            },
    {
        let query = cart_query(cart_id);
        let read = store.stream(&query);
        proof {
            lemma_cart_query_selects(store@, cart_id);
            lemma_nothing_above_last_read(store@, cart_filters(cart_id));
            lemma_selected(store@, cart_filters(cart_id), 0);
            assert forall|i: int| 0 <= i < read@.len() implies (
            #[trigger] read@[i])@.event.in_cart_stream() by {
                let p = selected(store@, cart_filters(cart_id), 0)[i];
                assert(p == read@[i]@);
                assert(admitted(cart_filters(cart_id), p.event));
            }
        }
        let n = read.len();
        let version: i64 = if n == 0 {
            0
        } else {
            assert(persisted_views(read@).last() == read@[n - 1]@);
            read[n - 1].id
        };
        let events = cart_stream_events(&read);
        if mutate_all(state, events) {
            Some(version)
        } else {
            None
        }
    }

    /// Whether a snapshot is stale: as many events as a snapshot is taken
    /// every were folded into it since it was saved.
    pub fn is_stale<S>(snapshot: &Snapshot<S>) -> (stale: bool)
        ensures
            stale == (snapshot.applied_events >= SNAPSHOT_EVERY),
    {
        snapshot.applied_events >= SNAPSHOT_EVERY
    }

    /// Brings a snapshot of a cart up to the log: the events of the cart
    /// above the version of the snapshot are folded into its state, in log
    /// order. Returns whether every event could follow; if not, the
    /// snapshot is to be thrown away and the history folded from its start.
    pub fn resume<S: StateMutate>(store: &EventStore, cart_id: CartId, snapshot: &mut Snapshot<S>)
        -> (resumed: bool)
        ensures
            resumed == can_fold(
                old(snapshot).state.model(),
                events_of(selected(store@, cart_filters(cart_id), old(snapshot).version)),
            ),
            resumed ==> {
                &&& final(snapshot).state.model() == fold(
                    old(snapshot).state.model(),
                    events_of(selected(store@, cart_filters(cart_id), old(snapshot).version)),
                )
                &&& final(snapshot).version == version_after(
                    old(snapshot).version,
                    selected(store@, cart_filters(cart_id), old(snapshot).version),
                )
            },
    {
        let query = cart_query(cart_id);
        let read = store.stream_after(&query, snapshot.version);
        proof {
            lemma_selected(store@, cart_filters(cart_id), snapshot.version);
            assert forall|i: int| 0 <= i < read@.len() implies (
            #[trigger] read@[i])@.event.in_cart_stream() by {
                let p = selected(store@, cart_filters(cart_id), snapshot.version)[i];
                assert(p == read@[i]@);
                assert(admitted(cart_filters(cart_id), p.event));
            }
        }
        let n = read.len();
        let version: i64 = if n == 0 {
            snapshot.version
        } else {
            assert(persisted_views(read@).last() == read@[n - 1]@);
            read[n - 1].id
        };
        let events = cart_stream_events(&read);
        if mutate_all(&mut snapshot.state, events) {
            snapshot.version = version;
            snapshot.applied_events = snapshot.applied_events.saturating_add(n as u64);
            true
        } else {
            false
        }
    }

    /// Appends what was decided, unless nothing was.
    fn commit(store: &mut EventStore, events: Vec<DomainEvent>, query: &StreamQuery, version: i64)
        -> (r: Result<Vec<PersistedEvent>, DecisionError>)
        requires
            old(store).wf(),
            selected(old(store)@, query@, version) == Seq::<PersistedView>::empty(),
        ensures
            final(store).wf(),
            match r {
                Ok(persisted) => {
                    &&& old(store).has_room(events@.len() as int)
                    &&& final(store)@ == appended(old(store)@, views(events@))
                    &&& old(store)@ + persisted_views(persisted@) == final(store)@
                },
                Err(error) => {
                    &&& error is EventStore
                    &&& !old(store).has_room(events@.len() as int)
                    &&& final(store)@ == old(store)@
                },
            },
    {
        if events.len() == 0 {
            proof {
                lemma_events_of_appended(store@, views(events@));
                assert(views(events@) =~= Seq::<EventView>::empty());
                assert(store@ + persisted_views(Seq::<PersistedEvent>::empty()) =~= store@);
            }
            return Ok(Vec::new());
        }
        let last = store.last_event_id();
        if (last as i128) + (events.len() as i128) > i64::MAX as i128 {
            return Err(DecisionError::EventStore("The event log is full.".to_owned()));
        }
        match store.append(events, query, version) {
            Ok(persisted) => Ok(persisted),
            Err(_) => {
                assert(false);
                Err(DecisionError::EventStore("The event log has changed.".to_owned()))
            },
        }
    }

    /// Appends what a command that reads no state decided.
    fn record(store: &mut EventStore, events: Vec<DomainEvent>) -> (r: Result<
        Vec<PersistedEvent>,
        DecisionError,
    >)
        requires
            old(store).wf(),
        ensures
            final(store).wf(),
            match r {
                Ok(persisted) => {
                    &&& old(store).has_room(events@.len() as int)
                    &&& final(store)@ == appended(old(store)@, views(events@))
                    &&& old(store)@ + persisted_views(persisted@) == final(store)@
                },
                Err(error) => {
                    &&& error is EventStore
                    &&& !old(store).has_room(events@.len() as int)
                    &&& final(store)@ == old(store)@
                },
            },
    {
        let last = store.last_event_id();
        if (last as i128) + (events.len() as i128) > i64::MAX as i128 {
            return Err(DecisionError::EventStore("The event log is full.".to_owned()));
        }
        Ok(store.append_without_validation(events))
    }

    /// Makes a command: folds the state it asks for from the log, decides,
    /// and appends what was decided. A command that a rule rejects, or that
    /// cannot be decided, leaves the log as it is.
    pub fn make(&self, store: &mut EventStore, command: Command) -> (r: Result<
        Vec<PersistedEvent>,
        DecisionError,
    >)
        requires
            old(store).wf(),
        ensures
            final(store).wf(),
            consistent(events_of(old(store)@)) ==> consistent(events_of(final(store)@)),
            match r {
                Ok(persisted) => {
                    &&& command.decidable(events_of(old(store)@))
                    &&& command.decided(events_of(old(store)@)) matches Ok(events)
                    &&& old(store).has_room(events.len() as int)
                    &&& final(store)@ == appended(old(store)@, events)
                    &&& old(store)@ + persisted_views(persisted@) == final(store)@
                    &&& events_of(final(store)@) == command.made(events_of(old(store)@))
                },
                Err(DecisionError::Domain(error)) => {
                    &&& command.foldable(events_of(old(store)@))
                    &&& command.decided(events_of(old(store)@)) == Err::<
                        Seq<EventView>,
                        CartError,
                    >(error)
                    &&& final(store)@ == old(store)@
                },
                Err(DecisionError::StateStore(_)) => {
                    &&& !command.decidable(events_of(old(store)@))
                    &&& final(store)@ == old(store)@
                },
                Err(DecisionError::EventStore(_)) => {
                    &&& command.decidable(events_of(old(store)@))
                    &&& command.decided(events_of(old(store)@)) matches Ok(events)
                    &&& !old(store).has_room(events.len() as int)
                    &&& final(store)@ == old(store)@
                },
            },
    {
        let ghost log = events_of(store@);
        proof {
            if consistent(log) {
                lemma_decision_keeps_consistent(command, log);
            }
            if let Some(cart_id) = command.cart_id() {
                let history = cart_events(log, cart_id);
                match command {
                    Command::RemoveItem(c) => {
                        lemma_remove_item_always_folds(c.cart_id, c.item_id, history);
                    },
                    Command::ClearCart(c) => {
                        lemma_clear_cart_agrees(c.cart_id, history);
                    },
                    Command::ArchiveItem(c) => {
                        lemma_archive_item_always_folds(c.cart_id, c.item_id, history);
                    },
                    _ => {},
                }
            }
        }
        let r = match command {
            Command::AddItem(c) => {
                let mut state = c.state_query();
                match Self::load(store, c.cart_id, &mut state) {
                    None => Err(
                        DecisionError::StateStore("The cart cannot be folded.".to_owned()),
                    ),
                    Some(version) => match c.process(&state) {
                        Err(error) => Err(DecisionError::Domain(error)),
                        Ok(events) => Self::commit(store, events, &cart_query(c.cart_id), version),
                    },
                }
            },
            Command::RemoveItem(c) => {
                let mut state = c.state_query();
                match Self::load(store, c.cart_id, &mut state) {
                    None => Err(
                        DecisionError::StateStore("The cart cannot be folded.".to_owned()),
                    ),
                    Some(version) => match c.process(&state) {
                        Err(error) => Err(DecisionError::Domain(error)),
                        Ok(events) => Self::commit(store, events, &cart_query(c.cart_id), version),
                    },
                }
            },
            Command::ClearCart(c) => {
                let mut state = c.state_query();
                match Self::load(store, c.cart_id, &mut state) {
                    None => Err(
                        DecisionError::StateStore("The cart cannot be folded.".to_owned()),
                    ),
                    Some(version) => match c.process(&state) {
                        Err(error) => Err(DecisionError::Domain(error)),
                        Ok(events) => Self::commit(store, events, &cart_query(c.cart_id), version),
                    },
                }
            },
            Command::SubmitCart(c) => {
                let mut state = c.state_query();
                match Self::load(store, c.cart_id, &mut state) {
                    None => Err(
                        DecisionError::StateStore("The cart cannot be folded.".to_owned()),
                    ),
                    Some(version) => match c.try_process(&state) {
                        None => Err(
                            DecisionError::StateStore("The cart cannot be priced.".to_owned()),
                        ),
                        Some(Err(error)) => Err(DecisionError::Domain(error)),
                        Some(Ok(events)) => Self::commit(
                            store,
                            events,
                            &cart_query(c.cart_id),
                            version,
                        ),
                    },
                }
            },
            Command::ArchiveItem(c) => {
                let mut state = c.state_query();
                match Self::load(store, c.cart_id, &mut state) {
                    None => Err(
                        DecisionError::StateStore("The cart cannot be folded.".to_owned()),
                    ),
                    Some(version) => match c.process(&state) {
                        Err(error) => Err(DecisionError::Domain(error)),
                        Ok(events) => Self::commit(store, events, &cart_query(c.cart_id), version),
                    },
                }
            },
            Command::ChangeInventory(c) => {
                let state = c.state_query();
                match c.process(&state) {
                    Err(error) => Err(DecisionError::Domain(error)),
                    Ok(events) => Self::record(store, events),
                }
            },
            Command::ChangePrice(c) => {
                let state = c.state_query();
                match c.process(&state) {
                    Err(error) => Err(DecisionError::Domain(error)),
                    Ok(events) => Self::record(store, events),
                }
            },
        };
        proof {
            if r is Ok {
                lemma_events_of_appended(old(store)@, command.decided(log)->Ok_0);
            }
        }
        r
    }
}

/// The state that the decision to remove an item reads can be folded from
/// any history.
pub proof fn lemma_remove_item_always_folds(
    cart_id: CartId,
    item_id: super::cart::ItemId,
    history: Seq<EventView>,
)
    ensures
        can_fold(RemoveItemState::initial(cart_id, item_id), history),
    decreases history.len(),
{
    if history.len() > 0 {
        lemma_remove_item_always_folds(cart_id, item_id, history.drop_last());
    }
}

/// The state that the decision to archive an item reads can be folded from
/// any history.
pub proof fn lemma_archive_item_always_folds(
    cart_id: CartId,
    item_id: super::cart::ItemId,
    history: Seq<EventView>,
)
    ensures
        can_fold(ArchiveItemState::initial(cart_id, item_id), history),
    decreases history.len(),
{
    if history.len() > 0 {
        lemma_archive_item_always_folds(cart_id, item_id, history.drop_last());
    }
}

/// Whatever commands are made, from the empty log on, the histories of all
/// carts stay in order.
pub proof fn lemma_reachable_is_consistent(commands: Seq<Command>)
    ensures
        consistent(made_all(Seq::empty(), commands)),
    decreases commands.len(),
{
    if commands.len() == 0 {
        lemma_empty_consistent();
    } else {
        lemma_reachable_is_consistent(commands.drop_last());
        lemma_decision_keeps_consistent(
            commands.last(),
            made_all(Seq::empty(), commands.drop_last()),
        );
    }
}

/// A cart never holds more than three items: whatever commands are made,
/// from the empty log on, the fold of the history of any cart counts at
/// most three items, and the history can be folded without a count passing
/// below zero.
pub proof fn lemma_item_count_never_exceeds_limit(commands: Seq<Command>, cart_id: CartId)
    ensures
        0 <= item_count(made_all(Seq::empty(), commands), cart_id) <= MAX_ITEMS,
        can_fold(
            AddItemState::initial(cart_id),
            cart_events(made_all(Seq::empty(), commands), cart_id),
        ),
        fold(
            AddItemState::initial(cart_id),
            cart_events(made_all(Seq::empty(), commands), cart_id),
        ).item_count == item_count(made_all(Seq::empty(), commands), cart_id),
{
    lemma_reachable_is_consistent(commands);
    let log = made_all(Seq::empty(), commands);
    assert(in_order(cart_id, cart_events(log, cart_id)));
    lemma_add_item_agrees(cart_id, cart_events(log, cart_id));
}

/// Once a cart is submitted, every command on the cart is rejected by a
/// rule, and so appends nothing.
pub proof fn lemma_submitted_cart_rejects(command: Command, log: Seq<EventView>)
    requires
        consistent(log),
        command.cart_id() matches Some(cart_id) && submitted(log, cart_id),
    ensures
        command.decided(log) is Err,
        command.made(log) == log,
{
    let cart_id = command.cart_id()->Some_0;
    let history = cart_events(log, cart_id);
    assert(in_order(cart_id, history));
    match command {
        Command::AddItem(c) => {
            lemma_add_item_agrees(cart_id, history);
        },
        Command::RemoveItem(c) => {
            lemma_remove_item_agrees(cart_id, c.item_id, history);
        },
        Command::ClearCart(c) => {
            lemma_clear_cart_agrees(cart_id, history);
        },
        Command::SubmitCart(c) => {},
        Command::ArchiveItem(c) => {
            lemma_archive_item_agrees(cart_id, c.item_id, history);
        },
        _ => {},
    }
}

/// After a command was accepted, folding the whole history of a cart anew
/// gives the state that folding what was appended into the state in hand
/// gives.
pub proof fn lemma_refold_agrees<S: FoldState>(
    state: S,
    command: Command,
    log: Seq<EventView>,
    cart_id: CartId,
)
    requires
        command.decidable(log),
        command.decided(log) is Ok,
    ensures
        fold(state, cart_events(command.made(log), cart_id)) == fold(
            fold(state, cart_events(log, cart_id)),
            cart_events(command.decided(log)->Ok_0, cart_id),
        ),
{
    let tail = command.decided(log)->Ok_0;
    lemma_cart_events_concat(log, tail, cart_id);
    lemma_fold_concat(state, cart_events(log, cart_id), cart_events(tail, cart_id));
}

} // verus!
