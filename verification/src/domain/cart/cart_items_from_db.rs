//! The items of each cart, kept as a table.
//!
//! The table is a projection of the `Cart` stream. Each row remembers the id
//! of the last event that wrote it; an event only overwrites or deletes rows
//! that an earlier event wrote.

use vstd::prelude::*;

use super::cart_items::{
    applied, first_with_item, folded, item_views, kept, CartItem, CartItemView, CartItemsError,
    CartItemsReadModel, CartItemsView,
};
use super::history::{cart_events, of_cart};
use super::ids::{CartId, ItemId};
use crate::domain::event_store::{events_of, ordered, PersistedEvent, PersistedView};
use crate::domain::events::{DomainEvent, EventView};
use crate::domain::helpers::rows::{
    first_where, kept_where, lemma_first_where, lemma_first_where_is, lemma_kept_where,
    lemma_kept_where_twice,
};
use crate::domain::money::{sum, sum_of, Money};

verus! {

/// The name under which the cursor of the projection is kept.
pub const PROJECTION_ID: &'static str = "cart_items_from_db";

/// A row of the table of items.
#[derive(Debug, PartialEq)]
pub struct CartItemRow {
    pub item: CartItem,
    pub last_event_id: i64,
}

/// The model of a row of the table of items.
pub ghost struct CartItemRowView {
    pub item: CartItemView,
    pub last_event_id: i64,
}

impl View for CartItemRow {
    type V = CartItemRowView;

    open spec fn view(&self) -> CartItemRowView {
        CartItemRowView { item: self.item@, last_event_id: self.last_event_id }
    }
}

impl Clone for CartItemRow {
    fn clone(&self) -> (copy: Self)
        ensures
            copy@ == self@,
    {
        CartItemRow { item: self.item.clone(), last_event_id: self.last_event_id }
    }
}

/// The model of the two tables of the projection: the carts that exist, and
/// the items of all carts.
pub ghost struct CartItemsTables {
    pub carts: Seq<CartId>,
    pub rows: Seq<CartItemRowView>,
}

/// The rows after the event with id `event_id` told of an item: a row that
/// is missing is added, and a row that an earlier event wrote is
/// overwritten.
pub open spec fn saved(rows: Seq<CartItemRowView>, item: CartItemView, event_id: i64) -> Seq<
    CartItemRowView,
> {
    let same = |r: CartItemRowView|
        r.item.cart_id == item.cart_id && r.item.item_id == item.item_id;
    match first_where(rows, same) {
        Some(i) => if rows[i].last_event_id < event_id {
            rows.update(i, CartItemRowView { item, last_event_id: event_id })
        } else {
            rows
        },
        None => rows.push(CartItemRowView { item, last_event_id: event_id }),
    }
}

/// The rows without the item of the cart, where an event before `event_id`
/// wrote it.
pub open spec fn without_item(
    rows: Seq<CartItemRowView>,
    cart_id: CartId,
    item_id: ItemId,
    event_id: i64,
) -> Seq<CartItemRowView> {
    kept_where(
        rows,
        |r: CartItemRowView|
            !(r.item.cart_id == cart_id && r.item.item_id == item_id && r.last_event_id
                < event_id),
    )
}

/// The rows without those of the cart that an event before `event_id`
/// wrote.
pub open spec fn without_cart(rows: Seq<CartItemRowView>, cart_id: CartId, event_id: i64) -> Seq<
    CartItemRowView,
> {
    kept_where(
        rows,
        |r: CartItemRowView| !(r.item.cart_id == cart_id && r.last_event_id < event_id),
    )
}

/// The carts with the given one among them.
pub open spec fn with_cart(carts: Seq<CartId>, cart_id: CartId) -> Seq<CartId> {
    if carts.contains(cart_id) {
        carts
    } else {
        carts.push(cart_id)
    }
}

/// The tables after the event with id `event_id`.
pub open spec fn projected(tables: CartItemsTables, event_id: i64, event: EventView)
    -> CartItemsTables {
    match event {
        EventView::CartCreated { cart_id } => CartItemsTables {
            carts: with_cart(tables.carts, cart_id),
            ..tables
        },
        EventView::CartItemAdded {
            cart_id,
            description,
            image,
            price,
            item_id,
            product_id,
            fingerprint,
        } => CartItemsTables {
            rows: saved(
                tables.rows,
                CartItemView {
                    cart_id,
                    description,
                    image,
                    price,
                    item_id,
                    product_id,
                    fingerprint,
                },
                event_id,
            ),
            ..tables
        },
        EventView::CartItemRemoved { cart_id, item_id } => CartItemsTables {
            rows: without_item(tables.rows, cart_id, item_id, event_id),
            ..tables
        },
        EventView::ItemArchivedEvent { cart_id, item_id, .. } => CartItemsTables {
            rows: without_item(tables.rows, cart_id, item_id, event_id),
            ..tables
        },
        EventView::CartCleared { cart_id } => CartItemsTables {
            rows: without_cart(tables.rows, cart_id, event_id),
            ..tables
        },
        _ => tables,
    }
}

/// The items of a cart in the table, in the order of the rows.
pub open spec fn items_of(rows: Seq<CartItemRowView>, cart_id: CartId) -> Seq<CartItemView> {
    kept_where(rows, |r: CartItemRowView| r.item.cart_id == cart_id).map_values(
        |r: CartItemRowView| r.item,
    )
}

/// The prices of a list of items, in order.
pub open spec fn prices_of(items: Seq<CartItemView>) -> Seq<Money> {
    items.map_values(|item: CartItemView| item.price)
}

/// An event delivered a second time, right after the first, changes
/// nothing.
pub proof fn lemma_projected_twice(tables: CartItemsTables, event_id: i64, event: EventView)
    ensures
        projected(projected(tables, event_id, event), event_id, event) == projected(
            tables,
            event_id,
            event,
        ),
{
    match event {
        EventView::CartCreated { cart_id } => {
            let once = with_cart(tables.carts, cart_id);
            if !tables.carts.contains(cart_id) {
                assert(once[tables.carts.len() as int] == cart_id);
            }
        },
        EventView::CartItemAdded {
            cart_id,
            description,
            image,
            price,
            item_id,
            product_id,
            fingerprint,
        } => {
            let item = CartItemView {
                cart_id,
                description,
                image,
                price,
                item_id,
                product_id,
                fingerprint,
            };
            let rows = tables.rows;
            let same = |r: CartItemRowView|
                r.item.cart_id == item.cart_id && r.item.item_id == item.item_id;
            let once = saved(rows, item, event_id);
            lemma_first_where(rows, same);
            match first_where(rows, same) {
                Some(i) => {
                    if rows[i].last_event_id < event_id {
                        assert(forall|j: int| 0 <= j < i ==> once[j] == rows[j]);
                        lemma_first_where_is(once, same, i);
                    }
                },
                None => {
                    assert(forall|j: int| 0 <= j < rows.len() ==> once[j] == rows[j]);
                    lemma_first_where_is(once, same, rows.len() as int);
                },
            }
        },
        EventView::CartItemRemoved { cart_id, item_id } => {
            lemma_kept_where_twice(
                tables.rows,
                |r: CartItemRowView|
                    !(r.item.cart_id == cart_id && r.item.item_id == item_id && r.last_event_id
                        < event_id),
            );
        },
        EventView::ItemArchivedEvent { cart_id, item_id, .. } => {
            lemma_kept_where_twice(
                tables.rows,
                |r: CartItemRowView|
                    !(r.item.cart_id == cart_id && r.item.item_id == item_id && r.last_event_id
                        < event_id),
            );
        },
        EventView::CartCleared { cart_id } => {
            lemma_kept_where_twice(
                tables.rows,
                |r: CartItemRowView| !(r.item.cart_id == cart_id && r.last_event_id < event_id),
            );
        },
        _ => {},
    }
}

/// The replay guard: an event changes nothing where every row was written
/// by an event with the same or a greater id, the cart of a creation is
/// known, and the row of an added item is there.
pub proof fn lemma_projected_guard(tables: CartItemsTables, event_id: i64, event: EventView)
    requires
        forall|j: int|
            0 <= j < tables.rows.len() ==> (#[trigger] tables.rows[j]).last_event_id >= event_id,
        event matches EventView::CartCreated { cart_id } ==> tables.carts.contains(cart_id),
        event matches EventView::CartItemAdded { cart_id, item_id, .. } ==> exists|j: int|
            0 <= j < tables.rows.len() && (#[trigger] tables.rows[j]).item.cart_id == cart_id
                && tables.rows[j].item.item_id == item_id,
    ensures
        projected(tables, event_id, event) == tables,
{
    match event {
        EventView::CartItemAdded { cart_id, item_id, .. } => {
            lemma_first_where(
                tables.rows,
                |r: CartItemRowView| r.item.cart_id == cart_id && r.item.item_id == item_id,
            );
        },
        EventView::CartItemRemoved { cart_id, item_id } => {
            lemma_kept_where(
                tables.rows,
                |r: CartItemRowView|
                    !(r.item.cart_id == cart_id && r.item.item_id == item_id && r.last_event_id
                        < event_id),
            );
        },
        EventView::ItemArchivedEvent { cart_id, item_id, .. } => {
            lemma_kept_where(
                tables.rows,
                |r: CartItemRowView|
                    !(r.item.cart_id == cart_id && r.item.item_id == item_id && r.last_event_id
                        < event_id),
            );
        },
        EventView::CartCleared { cart_id } => {
            lemma_kept_where(
                tables.rows,
                |r: CartItemRowView| !(r.item.cart_id == cart_id && r.last_event_id < event_id),
            );
        },
        _ => {},
    }
}

/// What an event asks of the tables.
#[derive(Debug, PartialEq)]
pub enum TableAction {
    /// Make the cart known.
    AddCart { cart_id: CartId },
    /// Write the row of the item.
    Save { item: CartItem },
    /// Delete the row of the item of the cart.
    DeleteByItemId { cart_id: CartId, item_id: ItemId },
    /// Delete the rows of the cart.
    DeleteByCartId { cart_id: CartId },
    /// Nothing.
    Nothing,
}

/// The model of what an event asks of the tables.
pub ghost enum TableActionView {
    AddCart { cart_id: CartId },
    Save { item: CartItemView },
    DeleteByItemId { cart_id: CartId, item_id: ItemId },
    DeleteByCartId { cart_id: CartId },
    Nothing,
}

impl View for TableAction {
    type V = TableActionView;

    open spec fn view(&self) -> TableActionView {
        match *self {
            TableAction::AddCart { cart_id } => TableActionView::AddCart { cart_id },
            TableAction::Save { item } => TableActionView::Save { item: item@ },
            TableAction::DeleteByItemId { cart_id, item_id } => TableActionView::DeleteByItemId {
                cart_id,
                item_id,
            },
            TableAction::DeleteByCartId { cart_id } => TableActionView::DeleteByCartId { cart_id },
            TableAction::Nothing => TableActionView::Nothing,
        }
    }
}

/// What an event asks of the tables. Every write and delete of a row is
/// guarded by the id of the event.
pub open spec fn action_for(event: EventView) -> TableActionView {
    match event {
        EventView::CartCreated { cart_id } => TableActionView::AddCart { cart_id },
        EventView::CartItemAdded {
            cart_id,
            description,
            image,
            price,
            item_id,
            product_id,
            fingerprint,
        } => TableActionView::Save {
            item: CartItemView {
                cart_id,
                description,
                image,
                price,
                item_id,
                product_id,
                fingerprint,
            },
        },
        EventView::CartItemRemoved { cart_id, item_id } => TableActionView::DeleteByItemId {
            cart_id,
            item_id,
        },
        EventView::ItemArchivedEvent { cart_id, item_id, .. } => TableActionView::DeleteByItemId {
            cart_id,
            item_id,
        },
        EventView::CartCleared { cart_id } => TableActionView::DeleteByCartId { cart_id },
        _ => TableActionView::Nothing,
    }
}

/// The tables after an action that is guarded by the id `event_id`.
pub open spec fn acted(tables: CartItemsTables, event_id: i64, action: TableActionView)
    -> CartItemsTables {
    match action {
        TableActionView::AddCart { cart_id } => CartItemsTables {
            carts: with_cart(tables.carts, cart_id),
            ..tables
        },
        TableActionView::Save { item } => CartItemsTables {
            rows: saved(tables.rows, item, event_id),
            ..tables
        },
        TableActionView::DeleteByItemId { cart_id, item_id } => CartItemsTables {
            rows: without_item(tables.rows, cart_id, item_id, event_id),
            ..tables
        },
        TableActionView::DeleteByCartId { cart_id } => CartItemsTables {
            rows: without_cart(tables.rows, cart_id, event_id),
            ..tables
        },
        TableActionView::Nothing => tables,
    }
}

/// What an event asks of the tables.
pub fn action(event: &DomainEvent) -> (action: TableAction)
    ensures
        action@ == action_for(event@),
        forall|tables: CartItemsTables, event_id: i64|
            #[trigger] acted(tables, event_id, action@) == projected(tables, event_id, event@),
{
    match event {
        DomainEvent::CartCleared { cart_id } => TableAction::DeleteByCartId { cart_id: *cart_id },
        DomainEvent::CartCreated { cart_id } => TableAction::AddCart { cart_id: *cart_id },
        DomainEvent::CartItemAdded {
            cart_id,
            description,
            image,
            price,
            item_id,
            product_id,
            fingerprint,
        } => TableAction::Save {
            item: CartItem {
                cart_id: *cart_id,
                description: description.clone(),
                image: image.clone(),
                price: *price,
                item_id: *item_id,
                product_id: *product_id,
                fingerprint: fingerprint.clone(),
            },
        },
        DomainEvent::CartItemRemoved { cart_id, item_id } => TableAction::DeleteByItemId {
            cart_id: *cart_id,
            item_id: *item_id,
        },
        DomainEvent::ItemArchivedEvent { cart_id, item_id, .. } => TableAction::DeleteByItemId {
            cart_id: *cart_id,
            item_id: *item_id,
        },
        _ => TableAction::Nothing,
    }
}

/// The models of a list of rows, in order.
pub open spec fn row_views(rows: Seq<CartItemRow>) -> Seq<CartItemRowView> {
    rows.map_values(|row: CartItemRow| row@)
}

/// The two tables, held in memory, with the projection that keeps them.
#[derive(Debug)]
pub struct CartItemsReadModelProjection {
    carts: Vec<CartId>,
    rows: Vec<CartItemRow>,
}

impl View for CartItemsReadModelProjection {
    type V = CartItemsTables;

    closed spec fn view(&self) -> CartItemsTables {
        CartItemsTables { carts: self.carts@, rows: row_views(self.rows@) }
    }
}

impl CartItemsReadModelProjection {
    /// The empty tables.
    pub fn new() -> (projection: Self)
        ensures
            projection@ == (CartItemsTables { carts: Seq::empty(), rows: Seq::empty() }),
    {
        let projection = CartItemsReadModelProjection { carts: Vec::new(), rows: Vec::new() };
        assert(projection@.rows =~= Seq::<CartItemRowView>::empty());
        projection
    }

    /// The name under which the cursor of the projection is kept.
    pub fn id(&self) -> (id: &'static str)
        ensures
            id@ == PROJECTION_ID@,
    {
        PROJECTION_ID
    }

    fn knows_cart(&self, cart_id: CartId) -> (b: bool)
        ensures
            b == self@.carts.contains(cart_id),
    {
        let mut i: usize = 0;
        while i < self.carts.len()
            invariant
                i <= self.carts@.len(),
                forall|j: int| 0 <= j < i ==> self.carts@[j] != cart_id,
            decreases self.carts@.len() - i,
        {
            if self.carts[i] == cart_id {
                assert(self.carts@[i as int] == cart_id);
                return true;
            }
            i += 1;
        }
        false
    }

    fn add_cart(&mut self, cart_id: CartId)
        ensures
            final(self)@ == (CartItemsTables {
                carts: with_cart(old(self)@.carts, cart_id),
                ..old(self)@
            }),
    {
        if !self.knows_cart(cart_id) {
            self.carts.push(cart_id);
        }
    }

    fn save(&mut self, item: CartItem, event_id: i64)
        ensures
            final(self)@ == (CartItemsTables {
                rows: saved(old(self)@.rows, item@, event_id),
                ..old(self)@
            }),
    {
        let ghost same = |r: CartItemRowView|
            r.item.cart_id == item@.cart_id && r.item.item_id == item@.item_id;
        let ghost before = self@.rows;
        let mut i: usize = 0;
        while i < self.rows.len()
            invariant
                i <= self.rows@.len(),
                *self == *old(self),
                before == self@.rows,
                same == (|r: CartItemRowView|
                    r.item.cart_id == item@.cart_id && r.item.item_id == item@.item_id),
                forall|j: int| 0 <= j < i ==> !same(#[trigger] before[j]),
            decreases self.rows@.len() - i,
        {
            let row = &self.rows[i];
            assert(before[i as int] == row@);
            if row.item.cart_id == item.cart_id && row.item.item_id == item.item_id {
                proof {
                    lemma_first_where_is(before, same, i as int);
                }
                if row.last_event_id < event_id {
                    let new_row = CartItemRow { item, last_event_id: event_id };
                    assert(row_views(self.rows@.update(i as int, new_row)) =~= before.update(
                        i as int,
                        new_row@,
                    ));
                    self.rows.set(i, new_row);
                }
                return ;
            }
            i += 1;
        }
        proof {
            lemma_first_where(before, same);
        }
        let new_row = CartItemRow { item, last_event_id: event_id };
        assert(row_views(self.rows@.push(new_row)) =~= before.push(new_row@));
        self.rows.push(new_row);
    }

    fn delete_by_item_id(&mut self, cart_id: CartId, item_id: ItemId, event_id: i64)
        ensures
            final(self)@ == (CartItemsTables {
                rows: without_item(old(self)@.rows, cart_id, item_id, event_id),
                ..old(self)@
            }),
    {
        let ghost keep = |r: CartItemRowView|
            !(r.item.cart_id == cart_id && r.item.item_id == item_id && r.last_event_id
                < event_id);
        let ghost before = self@.rows;
        let mut kept: Vec<CartItemRow> = Vec::new();
        let mut i: usize = 0;
        while i < self.rows.len()
            invariant
                i <= self.rows@.len(),
                *self == *old(self),
                before == self@.rows,
                keep == (|r: CartItemRowView|
                    !(r.item.cart_id == cart_id && r.item.item_id == item_id && r.last_event_id
                        < event_id)),
                row_views(kept@) == kept_where(before.take(i as int), keep),
            decreases self.rows@.len() - i,
        {
            let row = &self.rows[i];
            proof {
                assert(before.take(i + 1).drop_last() == before.take(i as int));
                assert(before.take(i + 1).last() == row@);
            }
            if !(row.item.cart_id == cart_id && row.item.item_id == item_id && row.last_event_id
                < event_id) {
                let copy = row.clone();
                assert(row_views(kept@.push(copy)) =~= row_views(kept@).push(row@));
                kept.push(copy);
            }
            i += 1;
        }
        assert(before.take(i as int) == before);
        self.rows = kept;
    }

    fn delete_by_cart_id(&mut self, cart_id: CartId, event_id: i64)
        ensures
            final(self)@ == (CartItemsTables {
                rows: without_cart(old(self)@.rows, cart_id, event_id),
                ..old(self)@
            }),
    {
        let ghost keep = |r: CartItemRowView|
            !(r.item.cart_id == cart_id && r.last_event_id < event_id);
        let ghost before = self@.rows;
        let mut kept: Vec<CartItemRow> = Vec::new();
        let mut i: usize = 0;
        while i < self.rows.len()
            invariant
                i <= self.rows@.len(),
                *self == *old(self),
                before == self@.rows,
                keep == (|r: CartItemRowView|
                    !(r.item.cart_id == cart_id && r.last_event_id < event_id)),
                row_views(kept@) == kept_where(before.take(i as int), keep),
            decreases self.rows@.len() - i,
        {
            let row = &self.rows[i];
            proof {
                assert(before.take(i + 1).drop_last() == before.take(i as int));
                assert(before.take(i + 1).last() == row@);
            }
            if !(row.item.cart_id == cart_id && row.last_event_id < event_id) {
                let copy = row.clone();
                assert(row_views(kept@.push(copy)) =~= row_views(kept@).push(row@));
                kept.push(copy);
            }
            i += 1;
        }
        assert(before.take(i as int) == before);
        self.rows = kept;
    }

    /// Takes in an event of the `Cart` stream.
    pub fn handle(&mut self, event: &PersistedEvent)
        requires
            event@.event.in_cart_stream(),
        ensures
            final(self)@ == projected(old(self)@, event.id, event@.event),
    {
        let last_event_id = event.id;
        match action(&event.event) {
            TableAction::DeleteByCartId { cart_id } => {
                self.delete_by_cart_id(cart_id, last_event_id);
            },
            TableAction::AddCart { cart_id } => {
                self.add_cart(cart_id);
            },
            TableAction::Save { item } => {
                self.save(item, last_event_id);
            },
            TableAction::DeleteByItemId { cart_id, item_id } => {
                self.delete_by_item_id(cart_id, item_id, last_event_id);
            },
            TableAction::Nothing => {},
        }
    }

    /// The items of a cart as the table holds them, with the sum of their
    /// prices: `None` for a cart that the projection has not seen created.
    pub fn cart_items_from_db_read_model(&self, cart_id: &CartId) -> (r: Result<
        Option<CartItemsReadModel>,
        CartItemsError,
    >)
        ensures
            match r {
                Ok(None) => !self@.carts.contains(*cart_id),
                Ok(Some(read_model)) => {
                    &&& self@.carts.contains(*cart_id)
                    &&& read_model@.cart_id == *cart_id
                    &&& read_model@.data == items_of(self@.rows, *cart_id)
                    &&& Some(read_model@.total_price) == sum_of(prices_of(read_model@.data))
                },
                Err(error) => {
                    &&& self@.carts.contains(*cart_id)
                    &&& error == CartItemsError::TotalOverflow
                    &&& sum_of(prices_of(items_of(self@.rows, *cart_id))) is None
                },
            },
    {
        if !self.knows_cart(*cart_id) {
            return Ok(None);
        }
        let ghost before = self@.rows;
        let ghost wanted = |r: CartItemRowView| r.item.cart_id == *cart_id;
        let ghost shape = |r: CartItemRowView| r.item;
        let ghost price = |item: CartItemView| item.price;
        let mut data: Vec<CartItem> = Vec::new();
        let mut prices: Vec<Money> = Vec::new();
        let mut i: usize = 0;
        while i < self.rows.len()
            invariant
                i <= self.rows@.len(),
                before == self@.rows,
                wanted == (|r: CartItemRowView| r.item.cart_id == *cart_id),
                shape == (|r: CartItemRowView| r.item),
                price == (|item: CartItemView| item.price),
                item_views(data@) == kept_where(before.take(i as int), wanted).map_values(shape),
                prices@ == item_views(data@).map_values(price),
            decreases self.rows@.len() - i,
        {
            let row = &self.rows[i];
            proof {
                assert(before.take(i + 1).drop_last() == before.take(i as int));
                assert(before.take(i + 1).last() == row@);
            }
            if row.item.cart_id == *cart_id {
                let copy = row.item.clone();
                proof {
                    let kept = kept_where(before.take(i as int), wanted);
                    assert(kept.push(row@).map_values(shape) =~= kept.map_values(shape).push(
                        row@.item,
                    ));
                    assert(item_views(data@.push(copy)) =~= item_views(data@).push(copy@));
                    assert(item_views(data@).push(copy@).map_values(price) =~= item_views(
                        data@,
                    ).map_values(price).push(copy@.price));
                }
                prices.push(copy.price);
                data.push(copy);
            }
            i += 1;
        }
        assert(before.take(i as int) == before);
        match sum(&prices) {
            Some(total_price) => Ok(
                Some(CartItemsReadModel { cart_id: *cart_id, total_price, data }),
            ),
            None => Err(CartItemsError::TotalOverflow),
        }
    }

    /// Empties the table of items, so that the projection can build it anew
    /// from the start of the log, and returns the cursor to start from: 0.
    /// The carts that exist stay known.
    pub fn cart_items_from_db_read_model_reset(&mut self) -> (cursor: i64)
        ensures
            cursor == 0,
            final(self)@ == (CartItemsTables { rows: Seq::empty(), ..old(self)@ }),
    {
        self.rows.clear();
        assert(self@.rows =~= Seq::<CartItemRowView>::empty());
        0
    }
}

/// The tables after the events were delivered, in order.
pub open spec fn delivered_all(tables: CartItemsTables, events: Seq<PersistedView>)
    -> CartItemsTables
    decreases events.len(),
{
    if events.len() == 0 {
        tables
    } else {
        projected(delivered_all(tables, events.drop_last()), events.last().id, events.last().event)
    }
}

/// Whether the history of a cart is tidy: its events can be applied one
/// after another, and no item is added while an item of the same id is in
/// the cart.
pub open spec fn tidy(history: Seq<EventView>) -> bool
    decreases history.len(),
{
    history.len() == 0 || (tidy(history.drop_last()) && match folded(
        None,
        history.drop_last(),
    ) {
        Ok(before) => applied(before, history.last()) is Ok && match (before, history.last()) {
            (Some(model), EventView::CartItemAdded { item_id, .. }) => first_with_item(
                model.data,
                item_id,
            ) is None,
            _ => true,
        },
        Err(_) => false,
    })
}

/// No row was written by an event with an id above the bound.
pub open spec fn written_by(rows: Seq<CartItemRowView>, bound: int) -> bool {
    forall|j: int| 0 <= j < rows.len() ==> (#[trigger] rows[j]).last_event_id <= bound
}

proof fn lemma_items_of_push(rows: Seq<CartItemRowView>, row: CartItemRowView, cart_id: CartId)
    ensures
        items_of(rows.push(row), cart_id) == if row.item.cart_id == cart_id {
            items_of(rows, cart_id).push(row.item)
        } else {
            items_of(rows, cart_id)
        },
{
    let wanted = |r: CartItemRowView| r.item.cart_id == cart_id;
    let shape = |r: CartItemRowView| r.item;
    assert(rows.push(row).drop_last() == rows);
    if row.item.cart_id == cart_id {
        assert(kept_where(rows, wanted).push(row).map_values(shape) =~= kept_where(
            rows,
            wanted,
        ).map_values(shape).push(row.item));
    }
}

proof fn lemma_items_of_update_elsewhere(
    rows: Seq<CartItemRowView>,
    i: int,
    row: CartItemRowView,
    cart_id: CartId,
)
    requires
        0 <= i < rows.len(),
        rows[i].item.cart_id != cart_id,
        row.item.cart_id != cart_id,
    ensures
        items_of(rows.update(i, row), cart_id) == items_of(rows, cart_id),
    decreases rows.len(),
{
    let front = rows.drop_last();
    assert(rows == front.push(rows.last()));
    lemma_items_of_push(front, rows.last(), cart_id);
    if i == rows.len() - 1 {
        assert(rows.update(i, row) =~= front.push(row));
        lemma_items_of_push(front, row, cart_id);
    } else {
        assert(rows.update(i, row) =~= front.update(i, row).push(rows.last()));
        lemma_items_of_update_elsewhere(front, i, row, cart_id);
        lemma_items_of_push(front.update(i, row), rows.last(), cart_id);
    }
}

proof fn lemma_without_item(
    rows: Seq<CartItemRowView>,
    gone_cart: CartId,
    gone_item: ItemId,
    event_id: i64,
    cart_id: CartId,
)
    requires
        written_by(rows, event_id - 1),
    ensures
        items_of(without_item(rows, gone_cart, gone_item, event_id), cart_id) == if gone_cart
            == cart_id {
            kept(items_of(rows, cart_id), cart_id, gone_item)
        } else {
            items_of(rows, cart_id)
        },
        written_by(without_item(rows, gone_cart, gone_item, event_id), event_id - 1),
    decreases rows.len(),
{
    let keep = |r: CartItemRowView|
        !(r.item.cart_id == gone_cart && r.item.item_id == gone_item && r.last_event_id
            < event_id);
    lemma_kept_where(rows, keep);
    if rows.len() == 0 {
        assert(kept_where(rows, |r: CartItemRowView| r.item.cart_id == cart_id).map_values(
            |r: CartItemRowView| r.item,
        ) =~= Seq::<CartItemView>::empty());
    } else {
        let front = rows.drop_last();
        let last = rows.last();
        assert(rows == front.push(last));
        assert(written_by(front, event_id - 1)) by {
            assert(forall|j: int| 0 <= j < front.len() ==> front[j] == rows[j]);
        }
        assert(rows[rows.len() - 1].last_event_id < event_id);
        lemma_without_item(front, gone_cart, gone_item, event_id, cart_id);
        lemma_items_of_push(front, last, cart_id);
        if keep(last) {
            lemma_items_of_push(kept_where(front, keep), last, cart_id);
        }
        if last.item.cart_id == cart_id {
            assert(items_of(front, cart_id).push(last.item).drop_last() == items_of(
                front,
                cart_id,
            ));
        }
    }
}

proof fn lemma_without_cart(
    rows: Seq<CartItemRowView>,
    gone_cart: CartId,
    event_id: i64,
    cart_id: CartId,
)
    requires
        written_by(rows, event_id - 1),
    ensures
        items_of(without_cart(rows, gone_cart, event_id), cart_id) == if gone_cart == cart_id {
            Seq::<CartItemView>::empty()
        } else {
            items_of(rows, cart_id)
        },
        written_by(without_cart(rows, gone_cart, event_id), event_id - 1),
    decreases rows.len(),
{
    let keep = |r: CartItemRowView| !(r.item.cart_id == gone_cart && r.last_event_id < event_id);
    lemma_kept_where(rows, keep);
    if rows.len() == 0 {
        assert(kept_where(rows, |r: CartItemRowView| r.item.cart_id == cart_id).map_values(
            |r: CartItemRowView| r.item,
        ) =~= Seq::<CartItemView>::empty());
    } else {
        let front = rows.drop_last();
        let last = rows.last();
        assert(rows == front.push(last));
        assert(written_by(front, event_id - 1)) by {
            assert(forall|j: int| 0 <= j < front.len() ==> front[j] == rows[j]);
        }
        assert(rows[rows.len() - 1].last_event_id < event_id);
        lemma_without_cart(front, gone_cart, event_id, cart_id);
        lemma_items_of_push(front, last, cart_id);
        if keep(last) {
            lemma_items_of_push(kept_where(front, keep), last, cart_id);
        }
    }
}

proof fn lemma_first_with_item_push(data: Seq<CartItemView>, item: CartItemView, item_id: ItemId)
    ensures
        first_with_item(data.push(item), item_id) is None <==> first_with_item(data, item_id)
            is None && item.item_id != item_id,
{
    assert(data.push(item).drop_last() == data);
}

proof fn lemma_saved(rows: Seq<CartItemRowView>, item: CartItemView, event_id: i64, cart_id: CartId)
    requires
        written_by(rows, event_id - 1),
        item.cart_id == cart_id ==> first_with_item(items_of(rows, cart_id), item.item_id)
            is None,
    ensures
        items_of(saved(rows, item, event_id), cart_id) == if item.cart_id == cart_id {
            items_of(rows, cart_id).push(item)
        } else {
            items_of(rows, cart_id)
        },
        written_by(saved(rows, item, event_id), event_id as int),
{
    let same = |r: CartItemRowView|
        r.item.cart_id == item.cart_id && r.item.item_id == item.item_id;
    lemma_first_where(rows, same);
    let row = CartItemRowView { item, last_event_id: event_id };
    lemma_items_of_push(rows, row, cart_id);
    match first_where(rows, same) {
        Some(i) => {
            if item.cart_id == cart_id {
                lemma_no_row(rows, i, cart_id);
            } else {
                assert(rows[i].last_event_id < event_id);
                lemma_items_of_update_elsewhere(rows, i, row, cart_id);
            }
        },
        None => {},
    }
}

proof fn lemma_no_row(rows: Seq<CartItemRowView>, i: int, cart_id: CartId)
    requires
        0 <= i < rows.len(),
        rows[i].item.cart_id == cart_id,
    ensures
        first_with_item(items_of(rows, cart_id), rows[i].item.item_id) is Some,
    decreases rows.len(),
{
    let front = rows.drop_last();
    assert(rows == front.push(rows.last()));
    lemma_items_of_push(front, rows.last(), cart_id);
    if rows.last().item.cart_id == cart_id {
        lemma_first_with_item_push(items_of(front, cart_id), rows.last().item, rows[i].item.item_id);
    }
    if i < rows.len() - 1 {
        assert(front[i] == rows[i]);
        lemma_no_row(front, i, cart_id);
    }
}

/// Replaying a log from its start leaves in the table, for a cart whose
/// history is tidy, exactly the items that folding the history of the cart
/// gives, in the same order: the items that were added and not since
/// removed, archived or cleared. The cart is known to the table exactly
/// when its history is not empty.
pub proof fn lemma_table_holds_the_items_of_the_log(events: Seq<PersistedView>, cart_id: CartId)
    requires
        ordered(events),
        tidy(cart_events(events_of(events), cart_id)),
    ensures
        ({
            let tables = delivered_all(
                CartItemsTables { carts: Seq::empty(), rows: Seq::empty() },
                events,
            );
            &&& written_by(tables.rows, crate::domain::event_store::last_id(events))
            &&& match folded(None, cart_events(events_of(events), cart_id)) {
                Ok(Some(model)) => items_of(tables.rows, cart_id) == model.data
                    && tables.carts.contains(cart_id),
                Ok(None) => items_of(tables.rows, cart_id) == Seq::<CartItemView>::empty()
                    && !tables.carts.contains(cart_id),
                Err(_) => false,
            }
        }),
    decreases events.len(),
{
    let start = CartItemsTables { carts: Seq::empty(), rows: Seq::empty() };
    let all = events_of(events);
    if events.len() == 0 {
        assert(cart_events(all, cart_id) =~= Seq::<EventView>::empty());
        assert(kept_where(start.rows, |r: CartItemRowView| r.item.cart_id == cart_id).map_values(
            |r: CartItemRowView| r.item,
        ) =~= Seq::<CartItemView>::empty());
    } else {
        let front = events.drop_last();
        let last = events.last();
        let event = last.event;
        assert(ordered(front)) by {
            assert(forall|i: int| 0 <= i < front.len() ==> front[i] == events[i]);
        }
        assert(all.drop_last() =~= events_of(front));
        assert(all.last() == event);
        let history = cart_events(events_of(front), cart_id);
        if of_cart(event, cart_id) {
            assert(cart_events(all, cart_id) == history.push(event));
            assert(history.push(event).drop_last() == history);
        } else {
            assert(cart_events(all, cart_id) == history);
        }
        lemma_table_holds_the_items_of_the_log(front, cart_id);
        let before = delivered_all(start, front);
        let after = delivered_all(start, events);
        assert(after == projected(before, last.id, event));
        assert(events[events.len() - 1].id >= 1);
        assert(written_by(before.rows, last.id - 1)) by {
            if front.len() > 0 {
                assert(front.last() == events[events.len() - 2]);
                assert(events[events.len() - 2].id < events[events.len() - 1].id);
            }
        }
        match event {
            EventView::CartCreated { cart_id: created } => {
                if !before.carts.contains(created) {
                    assert(after.carts[before.carts.len() as int] == created);
                    assert(forall|j: int|
                        0 <= j < before.carts.len() ==> after.carts[j] == before.carts[j]);
                    if created != cart_id && after.carts.contains(cart_id) {
                        let w = choose|w: int| 0 <= w < after.carts.len() && after.carts[w] == cart_id;
                        assert(before.carts[w] == cart_id);
                    }
                    if before.carts.contains(cart_id) {
                        let w = choose|w: int|
                            0 <= w < before.carts.len() && before.carts[w] == cart_id;
                        assert(after.carts[w] == cart_id);
                    }
                }
            },
            EventView::CartItemAdded {
                cart_id: added_cart,
                description,
                image,
                price,
                item_id,
                product_id,
                fingerprint,
            } => {
                let item = CartItemView {
                    cart_id: added_cart,
                    description,
                    image,
                    price,
                    item_id,
                    product_id,
                    fingerprint,
                };
                lemma_saved(before.rows, item, last.id, cart_id);
            },
            EventView::CartItemRemoved { cart_id: gone_cart, item_id } => {
                lemma_without_item(before.rows, gone_cart, item_id, last.id, cart_id);
            },
            EventView::ItemArchivedEvent { cart_id: gone_cart, item_id, .. } => {
                lemma_without_item(before.rows, gone_cart, item_id, last.id, cart_id);
            },
            EventView::CartCleared { cart_id: gone_cart } => {
                lemma_without_cart(before.rows, gone_cart, last.id, cart_id);
            },
            _ => {},
        }
    }
}

} // verus!
