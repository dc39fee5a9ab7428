//! Archiving an item whose product changed its price.

use vstd::prelude::*;

use super::carts_with_products::{CartsWithProductsReadModel, CartsWithProductsReadModelProjection};
use super::history::{cart_events, consistent, lemma_fold_push, of_cart};
use super::state::fold;
use super::ids::ProductId;
use crate::domain::decision::{failures, made_all, Command, DecisionMaker};
use crate::domain::event_store::{events_of, last_id, EventStore};
use super::errors::CartError;
use super::ids::{CartId, ItemId};
use super::state::{FoldState, StateMutate};
use crate::domain::events::{views, DomainEvent, EventView};
use crate::domain::streams::CartStream;

verus! {

/// The command to archive an item of a cart. It names the price change that
/// caused it by that event's place in the log.
#[derive(Debug, Clone, Copy, PartialEq, Eq, Structural)]
pub struct ArchiveItemCommand {
    pub cart_id: CartId,
    pub item_id: ItemId,
    pub price_changed_event_id: i64,
}

/// What the decision to archive an item reads of a cart.
#[derive(Clone, Copy, Debug, PartialEq, Eq, Structural)]
pub struct ArchiveItemState {
    pub cart_id: CartId,
    pub item_id: ItemId,
    pub cart_exists: bool,
    pub item_exists: bool,
    pub submitted: bool,
}

impl ArchiveItemState {
    /// The state of a cart of which no event is known.
    pub open spec fn initial(cart_id: CartId, item_id: ItemId) -> ArchiveItemState {
        ArchiveItemState {
            cart_id,
            item_id,
            cart_exists: false,
            item_exists: false,
            submitted: false,
        }
    }
}

impl FoldState for ArchiveItemState {
    open spec fn can_apply(self, event: EventView) -> bool {
        true
    }

    open spec fn apply(self, event: EventView) -> ArchiveItemState {
        match event {
            EventView::CartCreated { .. } => ArchiveItemState { cart_exists: true, ..self },
            EventView::CartItemAdded { item_id, .. } => if item_id == self.item_id {
                ArchiveItemState { item_exists: true, ..self }
            } else {
                self
            },
            EventView::CartItemRemoved { item_id, .. } => if item_id == self.item_id {
                ArchiveItemState { item_exists: false, ..self }
            } else {
                self
            },
            EventView::CartCleared { .. } => ArchiveItemState { item_exists: false, ..self },
            EventView::ItemArchivedEvent { item_id, .. } => if item_id == self.item_id {
                ArchiveItemState { item_exists: false, ..self }
            } else {
                self
            },
            EventView::CartSubmitted { .. } => ArchiveItemState { submitted: true, ..self },
            _ => self,
        }
    }

}

impl StateMutate for ArchiveItemState {
    type Model = ArchiveItemState;

    open spec fn model(&self) -> ArchiveItemState {
        *self
    }

    fn can_mutate(&self, event: &CartStream) -> (b: bool) {
        true
    }

    fn mutate(&mut self, event: CartStream) {
        match event {
            CartStream::CartCreated { .. } => {
                self.cart_exists = true;
            },
            CartStream::CartItemAdded { item_id, .. } => {
                if item_id == self.item_id {
                    self.item_exists = true;
                }
            },
            CartStream::CartItemRemoved { item_id, .. } => {
                if item_id == self.item_id {
                    self.item_exists = false;
                }
            },
            CartStream::CartCleared { .. } => {
                self.item_exists = false;
            },
            CartStream::ItemArchivedEvent { item_id, .. } => {
                if item_id == self.item_id {
                    self.item_exists = false;
                }
            },
            CartStream::CartSubmitted { .. } => {
                self.submitted = true;
            },
        }
    }
}

impl ArchiveItemCommand {
    /// The decision: a submitted cart cannot be altered; an item that is in
    /// its cart is archived; otherwise nothing happens, so that the command
    /// can be repeated.
    pub open spec fn decided(self, state: ArchiveItemState) -> Result<Seq<EventView>, CartError> {
        if state.submitted {
            Err(CartError::CartCannotBeAltered)
        } else if state.cart_exists && state.item_exists {
            Ok(
                seq![
                    EventView::ItemArchivedEvent {
                        cart_id: self.cart_id,
                        item_id: self.item_id,
                        price_changed_event_id: self.price_changed_event_id,
                    },
                ],
            )
        } else {
            Ok(Seq::<EventView>::empty())
        }
    }

    /// The state that the decision reads, before any event.
    pub fn state_query(&self) -> (state: ArchiveItemState)
        ensures
            state == ArchiveItemState::initial(self.cart_id, self.item_id),
    {
        ArchiveItemState {
            cart_id: self.cart_id,
            item_id: self.item_id,
            cart_exists: false,
            item_exists: false,
            submitted: false,
        }
    }

    /// Decides the command against the state of its cart.
    pub fn process(&self, state: &ArchiveItemState) -> (r: Result<Vec<DomainEvent>, CartError>)
        ensures
            match r {
                Ok(events) => self.decided(*state) == Ok::<Seq<EventView>, CartError>(
                    views(events@),
                ),
                Err(error) => self.decided(*state) == Err::<Seq<EventView>, CartError>(error),
            },
    {
        if state.submitted {
            return Err(CartError::CartCannotBeAltered);
        }
        let mut events: Vec<DomainEvent> = Vec::new();
        if state.cart_exists && state.item_exists {
            events.push(
                DomainEvent::ItemArchivedEvent {
                    cart_id: self.cart_id,
                    item_id: self.item_id,
                    price_changed_event_id: self.price_changed_event_id,
                },
            );
            assert(views(events@) =~= seq![
                EventView::ItemArchivedEvent {
                    cart_id: self.cart_id,
                    item_id: self.item_id,
                    price_changed_event_id: self.price_changed_event_id,
                },
            ]);
        } else {
            assert(views(events@) =~= Seq::<EventView>::empty());
        }
        Ok(events)
    }
}

/// The commands that archive a product after its price changed: one for
/// each cart item that holds the product, in the order of the rows, each
/// naming the price change by its place in the log.
pub open spec fn archive_commands(
    rows: Seq<CartsWithProductsReadModel>,
    triggering_event_id: i64,
) -> Seq<ArchiveItemCommand> {
    rows.map_values(
        |row: CartsWithProductsReadModel|
            ArchiveItemCommand {
                cart_id: row.cart_id,
                item_id: row.item_id,
                price_changed_event_id: triggering_event_id,
            },
    )
}

/// The commands to issue when the price of a product has changed, given the
/// cart items that hold the product.
pub fn archive_product_commands(
    rows: &Vec<CartsWithProductsReadModel>,
    triggering_event_id: i64,
) -> (commands: Vec<ArchiveItemCommand>)
    ensures
        commands@ == archive_commands(rows@, triggering_event_id),
{
    let mut commands: Vec<ArchiveItemCommand> = Vec::new();
    let mut i: usize = 0;
    while i < rows.len()
        invariant
            i <= rows.len(),
            commands@ == archive_commands(rows@.take(i as int), triggering_event_id),
        decreases rows.len() - i,
    {
        let row = &rows[i];
        commands.push(
            ArchiveItemCommand {
                cart_id: row.cart_id,
                item_id: row.item_id,
                price_changed_event_id: triggering_event_id,
            },
        );
        assert(rows@.take(i + 1) == rows@.take(i as int).push(rows@[i as int]));
        assert(commands@ =~= archive_commands(rows@.take(i + 1), triggering_event_id));
        i += 1;
    }
    assert(rows@.take(rows.len() as int) == rows@);
    commands
}

/// The commands of a list, as commands to make.
pub open spec fn as_commands(commands: Seq<ArchiveItemCommand>) -> Seq<Command> {
    commands.map_values(|c: ArchiveItemCommand| Command::ArchiveItem(c))
}

/// Makes the given commands in order and returns how many could not be
/// made. A command that fails does not keep the others from being made.
pub fn archive_items(decider: &DecisionMaker, store: &mut EventStore, commands: &Vec<
    ArchiveItemCommand,
>) -> (error_count: usize)
    requires
        old(store).wf(),
    ensures
        final(store).wf(),
        error_count <= commands@.len(),
        last_id(final(store)@) <= last_id(old(store)@) + commands@.len(),
        consistent(events_of(old(store)@)) ==> consistent(events_of(final(store)@)),
        consistent(events_of(old(store)@)) && old(store).has_room(commands@.len() as int) ==> {
            &&& events_of(final(store)@) == made_all(
                events_of(old(store)@),
                as_commands(commands@),
            )
            &&& error_count == failures(events_of(old(store)@), as_commands(commands@))
        },
{
    let ghost start = events_of(store@);
    let ghost first = last_id(store@);
    let ghost all = as_commands(commands@);
    let mut error_count: usize = 0;
    let mut i: usize = 0;
    while i < commands.len()
        invariant
            i <= commands@.len(),
            error_count <= i,
            store.wf(),
            start == events_of(old(store)@),
            first == last_id(old(store)@),
            all == as_commands(commands@),
            consistent(start) ==> consistent(events_of(store@)),
            last_id(store@) <= first + i,
            consistent(start) && first + commands@.len() <= i64::MAX ==> {
                &&& events_of(store@) == made_all(start, all.take(i as int))
                &&& error_count == failures(start, all.take(i as int))
            },
        decreases commands@.len() - i,
    {
        let command = commands[i];
        let ghost before = store@;
        proof {
            assert(all.take(i + 1).drop_last() == all.take(i as int));
            assert(all.take(i + 1).last() == Command::ArchiveItem(command));
        }
        if decider.make(store, Command::ArchiveItem(command)).is_err() {
            proof {
                if consistent(events_of(before)) {
                    crate::domain::decision::lemma_decision_keeps_consistent(
                        Command::ArchiveItem(command),
                        events_of(before),
                    );
                    crate::domain::event_store::lemma_events_of_appended(
                        before,
                        Seq::<crate::domain::events::EventView>::empty(),
                    );
                }
            }
            error_count += 1;
        } else {
            proof {
                let decided = Command::ArchiveItem(command).decided(events_of(before))->Ok_0;
                assert(decided.len() <= 1);
                crate::domain::event_store::lemma_last_id_appended(before, decided);
            }
        }
        i += 1;
    }
    assert(all.take(i as int) == all);
    error_count
}

/// Archives a product after its price changed: every cart item that holds
/// the product, as the index tells, is archived, in the order of the index.
/// Returns how many items could not be archived.
pub fn archive_product_processor(
    index: &CartsWithProductsReadModelProjection,
    decider: &DecisionMaker,
    store: &mut EventStore,
    product_id: ProductId,
    triggering_event_id: i64,
) -> (error_count: usize)
    requires
        old(store).wf(),
    ensures
        final(store).wf(),
        consistent(events_of(old(store)@)) ==> consistent(events_of(final(store)@)),
        consistent(events_of(old(store)@)) && old(store).has_room(
            super::carts_with_products::found_by_product(index@, product_id).len() as int,
        ) ==> {
            &&& events_of(final(store)@) == made_all(
                events_of(old(store)@),
                as_commands(
                    archive_commands(
                        super::carts_with_products::found_by_product(index@, product_id),
                        triggering_event_id,
                    ),
                ),
            )
            &&& error_count == failures(
                events_of(old(store)@),
                as_commands(
                    archive_commands(
                        super::carts_with_products::found_by_product(index@, product_id),
                        triggering_event_id,
                    ),
                ),
            )
        },
{
    let cart_items = index.find_by_product_id(&product_id);
    let commands = archive_product_commands(&cart_items, triggering_event_id);
    archive_items(decider, store, &commands)
}

/// The state that the decision to archive an item reads on a log.
pub open spec fn state_on(command: ArchiveItemCommand, log: Seq<EventView>) -> ArchiveItemState {
    fold(
        ArchiveItemState::initial(command.cart_id, command.item_id),
        cart_events(log, command.cart_id),
    )
}

/// Whether a command archives its item on a log: the cart exists, holds the
/// item and is not submitted.
pub open spec fn archives(command: ArchiveItemCommand, log: Seq<EventView>) -> bool {
    let state = state_on(command, log);
    !state.submitted && state.cart_exists && state.item_exists
}

/// The event that records the archival that a command asks for.
pub open spec fn archived(command: ArchiveItemCommand) -> EventView {
    EventView::ItemArchivedEvent {
        cart_id: command.cart_id,
        item_id: command.item_id,
        price_changed_event_id: command.price_changed_event_id,
    }
}

/// Making a command to archive an item appends the archival where the
/// command archives, and nothing otherwise.
pub proof fn lemma_archive_made(command: ArchiveItemCommand, log: Seq<EventView>)
    ensures
        Command::ArchiveItem(command).made(log) == if archives(command, log) {
            log.push(archived(command))
        } else {
            log
        },
{
    let decided = command.decided(state_on(command, log));
    if archives(command, log) {
        assert(decided->Ok_0 =~= seq![archived(command)]);
        assert(log + seq![archived(command)] =~= log.push(archived(command)));
    } else if decided is Ok {
        assert(log + decided->Ok_0 =~= log);
    }
}

/// The state that the decision to archive an item reads stays the state of
/// its cart and its item, whatever is folded into it.
pub proof fn lemma_state_keeps_ids(cart_id: CartId, item_id: ItemId, history: Seq<EventView>)
    ensures
        fold(ArchiveItemState::initial(cart_id, item_id), history).cart_id == cart_id,
        fold(ArchiveItemState::initial(cart_id, item_id), history).item_id == item_id,
    decreases history.len(),
{
    if history.len() > 0 {
        lemma_state_keeps_ids(cart_id, item_id, history.drop_last());
    }
}

/// What the archival of one item does to the state that another command
/// reads: nothing for a command of another cart; for a command of the same
/// cart, the item of the command is gone if it is the archived one.
pub proof fn lemma_state_after_archived(
    command: ArchiveItemCommand,
    log: Seq<EventView>,
    done: ArchiveItemCommand,
)
    ensures
        state_on(command, log.push(archived(done))) == if done.cart_id == command.cart_id {
            ArchiveItemState {
                item_exists: state_on(command, log).item_exists && done.item_id
                    != command.item_id,
                ..state_on(command, log)
            }
        } else {
            state_on(command, log)
        },
{
    let event = archived(done);
    assert(log.push(event).drop_last() == log);
    assert(log.push(event).last() == event);
    lemma_state_keeps_ids(command.cart_id, command.item_id, cart_events(log, command.cart_id));
    if done.cart_id == command.cart_id {
        assert(of_cart(event, command.cart_id));
        assert(cart_events(log.push(event), command.cart_id) == cart_events(
            log,
            command.cart_id,
        ).push(event));
        lemma_fold_push(
            ArchiveItemState::initial(command.cart_id, command.item_id),
            cart_events(log, command.cart_id),
            event,
        );
    } else {
        assert(!of_cart(event, command.cart_id));
    }
}

/// A command that does not archive on a log does not archive after another
/// command was made; a command that archives still does, unless the other
/// command was for its item.
pub proof fn lemma_archives_after(
    command: ArchiveItemCommand,
    log: Seq<EventView>,
    made: ArchiveItemCommand,
)
    ensures
        archives(command, Command::ArchiveItem(made).made(log)) == (archives(command, log) && !(
        archives(made, log) && made.cart_id == command.cart_id && made.item_id
            == command.item_id)),
{
    lemma_archive_made(made, log);
    if archives(made, log) {
        lemma_state_after_archived(command, log, made);
    }
}

/// After the commands of a list were made, none of them archives any more.
pub proof fn lemma_all_settled(log: Seq<EventView>, commands: Seq<ArchiveItemCommand>, i: int)
    requires
        0 <= i < commands.len(),
    ensures
        !archives(commands[i], made_all(log, as_commands(commands))),
    decreases commands.len(),
{
    let all = as_commands(commands);
    let front = commands.drop_last();
    assert(all.drop_last() =~= as_commands(front));
    assert(all.last() == Command::ArchiveItem(commands.last()));
    let before = made_all(log, as_commands(front));
    lemma_archives_after(commands[i], before, commands.last());
    if i < commands.len() - 1 {
        assert(front[i] == commands[i]);
        lemma_all_settled(log, front, i);
    }
}

/// On a log on which none of the commands archives, making them changes
/// nothing.
pub proof fn lemma_settled_stays(log: Seq<EventView>, commands: Seq<ArchiveItemCommand>)
    requires
        forall|i: int| 0 <= i < commands.len() ==> !archives(#[trigger] commands[i], log),
    ensures
        made_all(log, as_commands(commands)) == log,
    decreases commands.len(),
{
    if commands.len() > 0 {
        let all = as_commands(commands);
        let front = commands.drop_last();
        assert(all.drop_last() =~= as_commands(front));
        assert(all.last() == Command::ArchiveItem(commands.last()));
        assert forall|i: int| 0 <= i < front.len() implies !archives(#[trigger] front[i], log) by {
            assert(front[i] == commands[i]);
        }
        lemma_settled_stays(log, front);
        assert(!archives(commands[commands.len() - 1], log));
        lemma_archive_made(commands.last(), log);
    }
}

/// Archiving a product a second time appends nothing: making the same
/// commands again, whatever price change they name, leaves the log as the
/// first run left it.
pub proof fn lemma_archival_runs_once(
    log: Seq<EventView>,
    commands: Seq<ArchiveItemCommand>,
    again: Seq<ArchiveItemCommand>,
)
    requires
        again.len() == commands.len(),
        forall|i: int|
            0 <= i < commands.len() ==> (#[trigger] again[i]).cart_id == commands[i].cart_id
                && again[i].item_id == commands[i].item_id,
    ensures
        made_all(made_all(log, as_commands(commands)), as_commands(again)) == made_all(
            log,
            as_commands(commands),
        ),
{
    let after = made_all(log, as_commands(commands));
    assert forall|i: int| 0 <= i < again.len() implies !archives(#[trigger] again[i], after) by {
        lemma_all_settled(log, commands, i);
        assert(state_on(again[i], after) == state_on(commands[i], after));
    }
    lemma_settled_stays(after, again);
}

/// Where every command of a list archives on a log and no two of them are
/// for the same item of the same cart, making them appends exactly one
/// archival for each, in their order, and no other event.
pub proof fn lemma_archival_archives_each(log: Seq<EventView>, commands: Seq<ArchiveItemCommand>)
    requires
        forall|i: int| 0 <= i < commands.len() ==> archives(#[trigger] commands[i], log),
        forall|i: int, j: int|
            0 <= i < j < commands.len() ==> !((#[trigger] commands[i]).cart_id == (
            #[trigger] commands[j]).cart_id && commands[i].item_id == commands[j].item_id),
    ensures
        made_all(log, as_commands(commands)) == log + commands.map_values(
            |c: ArchiveItemCommand| archived(c),
        ),
        forall|other: ArchiveItemCommand|
            (forall|i: int|
                0 <= i < commands.len() ==> !((#[trigger] commands[i]).cart_id == other.cart_id
                    && commands[i].item_id == other.item_id)) ==> archives(
                other,
                made_all(log, as_commands(commands)),
            ) == archives(other, log),
    decreases commands.len(),
{
    let all = as_commands(commands);
    let events = commands.map_values(|c: ArchiveItemCommand| archived(c));
    if commands.len() == 0 {
        assert(log + events =~= log);
    } else {
        let front = commands.drop_last();
        let last = commands.last();
        assert(all.drop_last() =~= as_commands(front));
        assert(all.last() == Command::ArchiveItem(last));
        assert forall|i: int| 0 <= i < front.len() implies archives(#[trigger] front[i], log) by {
            assert(front[i] == commands[i]);
        }
        assert forall|i: int, j: int| 0 <= i < j < front.len() implies !((
        #[trigger] front[i]).cart_id == (#[trigger] front[j]).cart_id && front[i].item_id
            == front[j].item_id) by {
            assert(front[i] == commands[i] && front[j] == commands[j]);
        }
        lemma_archival_archives_each(log, front);
        let before = made_all(log, as_commands(front));
        assert forall|i: int| 0 <= i < front.len() implies !((#[trigger] front[i]).cart_id
            == last.cart_id && front[i].item_id == last.item_id) by {
            assert(front[i] == commands[i]);
            assert(last == commands[commands.len() - 1]);
        }
        assert(archives(last, log));
        assert(archives(last, before));
        lemma_archive_made(last, before);
        assert(log + events =~= (log + front.map_values(|c: ArchiveItemCommand| archived(c))).push(
            archived(last),
        ));
        assert forall|other: ArchiveItemCommand|
            (forall|i: int|
                0 <= i < commands.len() ==> !((#[trigger] commands[i]).cart_id == other.cart_id
                    && commands[i].item_id == other.item_id)) implies archives(
            other,
            made_all(log, all),
        ) == archives(other, log) by {
            assert forall|i: int| 0 <= i < front.len() implies !((#[trigger] front[i]).cart_id
                == other.cart_id && front[i].item_id == other.item_id) by {
                assert(front[i] == commands[i]);
            }
            assert(!(commands[commands.len() - 1].cart_id == other.cart_id
                && commands[commands.len() - 1].item_id == other.item_id));
            lemma_archives_after(other, before, last);
        }
    }
}

} // verus!
