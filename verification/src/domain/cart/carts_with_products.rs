//! The reverse index from a product to the cart items that hold it.
//!
//! The index is a projection of the `Cart` and `Pricing` streams. Each row
//! remembers the id of the last event that wrote it, and an event only
//! writes or deletes rows that an earlier event wrote: a row written by an
//! event with the same or a greater id is left alone, so that an event
//! delivered twice changes nothing the second time.

use vstd::prelude::*;

use super::archive_item::{archive_commands, archive_product_commands, ArchiveItemCommand};
use super::ids::{CartId, ItemId, ProductId};
use crate::domain::event_store::PersistedEvent;
use crate::domain::events::{DomainEvent, EventView};
use crate::domain::helpers::rows::{
    first_where, kept_where, lemma_first_where, lemma_first_where_is, lemma_kept_where,
    lemma_kept_where_twice,
};

verus! {

/// One cart item that holds a product.
#[derive(Debug, Clone, Copy, PartialEq, Eq, Structural)]
pub struct CartsWithProductsReadModel {
    pub cart_id: CartId,
    pub item_id: ItemId,
    pub product_id: ProductId,
}

/// A row of the index.
#[derive(Debug, Clone, Copy, PartialEq, Eq, Structural)]
pub struct CartsWithProductsRow {
    pub cart_id: CartId,
    pub item_id: ItemId,
    pub product_id: ProductId,
    pub last_event_id: i64,
}

/// The rows after the event with id `event_id` recorded that the item of
/// the cart holds the product: a row that is missing is added, and a row
/// that an earlier event wrote is stamped with `event_id`.
pub open spec fn saved(
    rows: Seq<CartsWithProductsRow>,
    cart_id: CartId,
    item_id: ItemId,
    product_id: ProductId,
    event_id: i64,
) -> Seq<CartsWithProductsRow> {
    let same = |r: CartsWithProductsRow|
        r.cart_id == cart_id && r.item_id == item_id && r.product_id == product_id;
    match first_where(rows, same) {
        Some(i) => if rows[i].last_event_id < event_id {
            rows.update(i, CartsWithProductsRow { last_event_id: event_id, ..rows[i] })
        } else {
            rows
        },
        None => rows.push(
            CartsWithProductsRow { cart_id, item_id, product_id, last_event_id: event_id },
        ),
    }
}

/// The rows without those of the item of the cart that an event before
/// `event_id` wrote.
pub open spec fn without_item(
    rows: Seq<CartsWithProductsRow>,
    cart_id: CartId,
    item_id: ItemId,
    event_id: i64,
) -> Seq<CartsWithProductsRow> {
    kept_where(
        rows,
        |r: CartsWithProductsRow|
            !(r.cart_id == cart_id && r.item_id == item_id && r.last_event_id < event_id),
    )
}

/// The rows without those of the cart that an event before `event_id`
/// wrote.
pub open spec fn without_cart(rows: Seq<CartsWithProductsRow>, cart_id: CartId, event_id: i64) -> Seq<
    CartsWithProductsRow,
> {
    kept_where(
        rows,
        |r: CartsWithProductsRow| !(r.cart_id == cart_id && r.last_event_id < event_id),
    )
}

/// The cart items that hold the product, in the order of the rows.
pub open spec fn found_by_product(rows: Seq<CartsWithProductsRow>, product_id: ProductId) -> Seq<
    CartsWithProductsReadModel,
> {
    kept_where(rows, |r: CartsWithProductsRow| r.product_id == product_id).map_values(
        |r: CartsWithProductsRow|
            CartsWithProductsReadModel {
                cart_id: r.cart_id,
                item_id: r.item_id,
                product_id: r.product_id,
            },
    )
}

/// The rows after the event with id `event_id`. An added item is recorded;
/// an item that was removed or archived leaves the index; a cart that was
/// cleared or submitted leaves it with all its items. Other events leave
/// the index as it is.
pub open spec fn projected(rows: Seq<CartsWithProductsRow>, event_id: i64, event: EventView) -> Seq<
    CartsWithProductsRow,
> {
    match event {
        EventView::CartItemAdded { cart_id, item_id, product_id, .. } => saved(
            rows,
            cart_id,
            item_id,
            product_id,
            event_id,
        ),
        EventView::CartItemRemoved { cart_id, item_id } => without_item(
            rows,
            cart_id,
            item_id,
            event_id,
        ),
        EventView::ItemArchivedEvent { cart_id, item_id, .. } => without_item(
            rows,
            cart_id,
            item_id,
            event_id,
        ),
        EventView::CartCleared { cart_id } => without_cart(rows, cart_id, event_id),
        EventView::CartSubmitted { cart_id, .. } => without_cart(rows, cart_id, event_id),
        _ => rows,
    }
}

/// The commands that the event with id `event_id` asks for: a change of the
/// price of a product archives every cart item that holds the product.
pub open spec fn commands_for(rows: Seq<CartsWithProductsRow>, event_id: i64, event: EventView) -> Seq<
    ArchiveItemCommand,
> {
    match event {
        EventView::PriceChanged { product_id, .. } => archive_commands(
            found_by_product(rows, product_id),
            event_id,
        ),
        _ => Seq::empty(),
    }
}

/// An event delivered a second time, right after the first, changes
/// nothing.
pub proof fn lemma_projected_twice(rows: Seq<CartsWithProductsRow>, event_id: i64, event: EventView)
    ensures
        projected(projected(rows, event_id, event), event_id, event) == projected(
            rows,
            event_id,
            event,
        ),
{
    match event {
        EventView::CartItemAdded { cart_id, item_id, product_id, .. } => {
            lemma_saved_twice(rows, cart_id, item_id, product_id, event_id);
        },
        EventView::CartItemRemoved { cart_id, item_id } => {
            lemma_kept_where_twice(
                rows,
                |r: CartsWithProductsRow|
                    !(r.cart_id == cart_id && r.item_id == item_id && r.last_event_id < event_id),
            );
        },
        EventView::ItemArchivedEvent { cart_id, item_id, .. } => {
            lemma_kept_where_twice(
                rows,
                |r: CartsWithProductsRow|
                    !(r.cart_id == cart_id && r.item_id == item_id && r.last_event_id < event_id),
            );
        },
        EventView::CartCleared { cart_id } => {
            lemma_kept_where_twice(
                rows,
                |r: CartsWithProductsRow| !(r.cart_id == cart_id && r.last_event_id < event_id),
            );
        },
        EventView::CartSubmitted { cart_id, .. } => {
            lemma_kept_where_twice(
                rows,
                |r: CartsWithProductsRow| !(r.cart_id == cart_id && r.last_event_id < event_id),
            );
        },
        _ => {},
    }
}

/// Recording the same fact twice under the same id records it once.
pub proof fn lemma_saved_twice(
    rows: Seq<CartsWithProductsRow>,
    cart_id: CartId,
    item_id: ItemId,
    product_id: ProductId,
    event_id: i64,
)
    ensures
        saved(saved(rows, cart_id, item_id, product_id, event_id), cart_id, item_id, product_id,
            event_id) == saved(rows, cart_id, item_id, product_id, event_id),
{
    let same = |r: CartsWithProductsRow|
        r.cart_id == cart_id && r.item_id == item_id && r.product_id == product_id;
    let once = saved(rows, cart_id, item_id, product_id, event_id);
    lemma_first_where(rows, same);
    match first_where(rows, same) {
        Some(i) => {
            if rows[i].last_event_id < event_id {
                assert(forall|j: int| 0 <= j < i ==> once[j] == rows[j]);
                lemma_first_where_is(once, same, i);
            }
        },
        None => {
            assert(forall|j: int| 0 <= j < rows.len() ==> once[j] == rows[j]);
            lemma_first_where_is(once, same, rows.len() as int);
        },
    }
}

/// The replay guard: an event changes nothing where every row was written
/// by an event with the same or a greater id and, for an added item, the
/// row of the item is there.
pub proof fn lemma_projected_guard(rows: Seq<CartsWithProductsRow>, event_id: i64, event: EventView)
    requires
        forall|j: int| 0 <= j < rows.len() ==> (#[trigger] rows[j]).last_event_id >= event_id,
        event matches EventView::CartItemAdded { cart_id, item_id, product_id, .. } ==> exists|
            j: int,
        |
            0 <= j < rows.len() && (#[trigger] rows[j]).cart_id == cart_id && rows[j].item_id
                == item_id && rows[j].product_id == product_id,
    ensures
        projected(rows, event_id, event) == rows,
{
    match event {
        EventView::CartItemAdded { cart_id, item_id, product_id, .. } => {
            let same = |r: CartsWithProductsRow|
                r.cart_id == cart_id && r.item_id == item_id && r.product_id == product_id;
            lemma_first_where(rows, same);
        },
        EventView::CartItemRemoved { cart_id, item_id } => {
            lemma_kept_where(
                rows,
                |r: CartsWithProductsRow|
                    !(r.cart_id == cart_id && r.item_id == item_id && r.last_event_id < event_id),
            );
        },
        EventView::ItemArchivedEvent { cart_id, item_id, .. } => {
            lemma_kept_where(
                rows,
                |r: CartsWithProductsRow|
                    !(r.cart_id == cart_id && r.item_id == item_id && r.last_event_id < event_id),
            );
        },
        EventView::CartCleared { cart_id } => {
            lemma_kept_where(
                rows,
                |r: CartsWithProductsRow| !(r.cart_id == cart_id && r.last_event_id < event_id),
            );
        },
        EventView::CartSubmitted { cart_id, .. } => {
            lemma_kept_where(
                rows,
                |r: CartsWithProductsRow| !(r.cart_id == cart_id && r.last_event_id < event_id),
            );
        },
        _ => {},
    }
}

/// What an event asks of the index.
#[derive(Debug, Clone, Copy, PartialEq, Eq, Structural)]
pub enum IndexAction {
    /// Record that the item of the cart holds the product.
    Save { cart_id: CartId, item_id: ItemId, product_id: ProductId },
    /// Delete the rows of the item of the cart.
    DeleteByItemId { cart_id: CartId, item_id: ItemId },
    /// Delete the rows of the cart.
    DeleteByCartId { cart_id: CartId },
    /// Archive every cart item that holds the product.
    ArchiveProduct { product_id: ProductId },
    /// Nothing.
    Nothing,
}

/// What an event asks of the index. Every write and delete is guarded by
/// the id of the event.
pub open spec fn action_for(event: EventView) -> IndexAction {
    match event {
        EventView::CartItemAdded { cart_id, item_id, product_id, .. } => IndexAction::Save {
            cart_id,
            item_id,
            product_id,
        },
        EventView::CartItemRemoved { cart_id, item_id } => IndexAction::DeleteByItemId {
            cart_id,
            item_id,
        },
        EventView::ItemArchivedEvent { cart_id, item_id, .. } => IndexAction::DeleteByItemId {
            cart_id,
            item_id,
        },
        EventView::CartCleared { cart_id } => IndexAction::DeleteByCartId { cart_id },
        EventView::CartSubmitted { cart_id, .. } => IndexAction::DeleteByCartId { cart_id },
        EventView::PriceChanged { product_id, .. } => IndexAction::ArchiveProduct { product_id },
        _ => IndexAction::Nothing,
    }
}

/// The rows after an action that is guarded by the id `event_id`.
pub open spec fn acted(rows: Seq<CartsWithProductsRow>, event_id: i64, action: IndexAction) -> Seq<
    CartsWithProductsRow,
> {
    match action {
        IndexAction::Save { cart_id, item_id, product_id } => saved(
            rows,
            cart_id,
            item_id,
            product_id,
            event_id,
        ),
        IndexAction::DeleteByItemId { cart_id, item_id } => without_item(
            rows,
            cart_id,
            item_id,
            event_id,
        ),
        IndexAction::DeleteByCartId { cart_id } => without_cart(rows, cart_id, event_id),
        _ => rows,
    }
}

/// What an event asks of the index.
pub fn action(event: &DomainEvent) -> (action: IndexAction)
    ensures
        action == action_for(event@),
        forall|rows: Seq<CartsWithProductsRow>, event_id: i64|
            #[trigger] acted(rows, event_id, action) == projected(rows, event_id, event@),
{
    match event {
        DomainEvent::CartItemAdded { cart_id, item_id, product_id, .. } => IndexAction::Save {
            cart_id: *cart_id,
            item_id: *item_id,
            product_id: *product_id,
        },
        DomainEvent::CartItemRemoved { cart_id, item_id } => IndexAction::DeleteByItemId {
            cart_id: *cart_id,
            item_id: *item_id,
        },
        DomainEvent::ItemArchivedEvent { cart_id, item_id, .. } => IndexAction::DeleteByItemId {
            cart_id: *cart_id,
            item_id: *item_id,
        },
        DomainEvent::CartCleared { cart_id } => IndexAction::DeleteByCartId { cart_id: *cart_id },
        DomainEvent::CartSubmitted { cart_id, .. } => IndexAction::DeleteByCartId {
            cart_id: *cart_id,
        },
        DomainEvent::PriceChanged { product_id, .. } => IndexAction::ArchiveProduct {
            product_id: *product_id,
        },
        _ => IndexAction::Nothing,
    }
}

/// The index, held in memory, with the projection that keeps it.
#[derive(Debug)]
pub struct CartsWithProductsReadModelProjection {
    rows: Vec<CartsWithProductsRow>,
}

impl View for CartsWithProductsReadModelProjection {
    type V = Seq<CartsWithProductsRow>;

    closed spec fn view(&self) -> Seq<CartsWithProductsRow> {
        self.rows@
    }
}

impl CartsWithProductsReadModelProjection {
    /// The empty index.
    pub fn new() -> (projection: Self)
        ensures
            projection@ == Seq::<CartsWithProductsRow>::empty(),
    {
        CartsWithProductsReadModelProjection { rows: Vec::new() }
    }

    /// The name under which the cursor of the projection is kept.
    pub fn id(&self) -> (id: &'static str)
        ensures
            id@ == "carts_with_products"@,
    {
        "carts_with_products"
    }

    /// The number of rows.
    pub fn len(&self) -> (n: usize)
        ensures
            n == self@.len(),
    {
        self.rows.len()
    }

    fn save(&mut self, cart_id: CartId, item_id: ItemId, product_id: ProductId, event_id: i64)
        ensures
            final(self)@ == saved(old(self)@, cart_id, item_id, product_id, event_id),
    {
        let ghost same = |r: CartsWithProductsRow|
            r.cart_id == cart_id && r.item_id == item_id && r.product_id == product_id;
        let mut i: usize = 0;
        while i < self.rows.len()
            invariant
                i <= self.rows@.len(),
                self.rows@ == old(self).rows@,
                same == (|r: CartsWithProductsRow|
                    r.cart_id == cart_id && r.item_id == item_id && r.product_id == product_id),
                forall|j: int| 0 <= j < i ==> !same(#[trigger] self.rows@[j]),
            decreases self.rows@.len() - i,
        {
            let row = self.rows[i];
            if row.cart_id == cart_id && row.item_id == item_id && row.product_id == product_id {
                proof {
                    lemma_first_where_is(self.rows@, same, i as int);
                }
                if row.last_event_id < event_id {
                    self.rows.set(i, CartsWithProductsRow { last_event_id: event_id, ..row });
                }
                return ;
            }
            i += 1;
        }
        proof {
            lemma_first_where(self.rows@, same);
        }
        self.rows.push(CartsWithProductsRow { cart_id, item_id, product_id, last_event_id: event_id });
    }

    fn delete_by_item_id(&mut self, cart_id: CartId, item_id: ItemId, event_id: i64)
        ensures
            final(self)@ == without_item(old(self)@, cart_id, item_id, event_id),
    {
        let ghost keep = |r: CartsWithProductsRow|
            !(r.cart_id == cart_id && r.item_id == item_id && r.last_event_id < event_id);
        let mut kept: Vec<CartsWithProductsRow> = Vec::new();
        let mut i: usize = 0;
        while i < self.rows.len()
            invariant
                i <= self.rows@.len(),
                self.rows@ == old(self).rows@,
                keep == (|r: CartsWithProductsRow|
                    !(r.cart_id == cart_id && r.item_id == item_id && r.last_event_id < event_id)),
                kept@ == kept_where(self.rows@.take(i as int), keep),
            decreases self.rows@.len() - i,
        {
            let row = self.rows[i];
            proof {
                assert(self.rows@.take(i + 1).drop_last() == self.rows@.take(i as int));
            }
            if !(row.cart_id == cart_id && row.item_id == item_id && row.last_event_id < event_id) {
                kept.push(row);
            }
            i += 1;
        }
        assert(self.rows@.take(i as int) == self.rows@);
        self.rows = kept;
    }

    fn delete_by_cart_id(&mut self, cart_id: CartId, event_id: i64)
        ensures
            final(self)@ == without_cart(old(self)@, cart_id, event_id),
    {
        let ghost keep = |r: CartsWithProductsRow|
            !(r.cart_id == cart_id && r.last_event_id < event_id);
        let mut kept: Vec<CartsWithProductsRow> = Vec::new();
        let mut i: usize = 0;
        while i < self.rows.len()
            invariant
                i <= self.rows@.len(),
                self.rows@ == old(self).rows@,
                keep == (|r: CartsWithProductsRow|
                    !(r.cart_id == cart_id && r.last_event_id < event_id)),
                kept@ == kept_where(self.rows@.take(i as int), keep),
            decreases self.rows@.len() - i,
        {
            let row = self.rows[i];
            proof {
                assert(self.rows@.take(i + 1).drop_last() == self.rows@.take(i as int));
            }
            if !(row.cart_id == cart_id && row.last_event_id < event_id) {
                kept.push(row);
            }
            i += 1;
        }
        assert(self.rows@.take(i as int) == self.rows@);
        self.rows = kept;
    }

    /// The cart items that hold the product.
    pub fn find_by_product_id(&self, product_id: &ProductId) -> (found: Vec<
        CartsWithProductsReadModel,
    >)
        ensures
            found@ == found_by_product(self@, *product_id),
    {
        let ghost wanted = |r: CartsWithProductsRow| r.product_id == *product_id;
        let ghost shape = |r: CartsWithProductsRow|
            CartsWithProductsReadModel {
                cart_id: r.cart_id,
                item_id: r.item_id,
                product_id: r.product_id,
            };
        let mut found: Vec<CartsWithProductsReadModel> = Vec::new();
        let mut i: usize = 0;
        while i < self.rows.len()
            invariant
                i <= self.rows@.len(),
                wanted == (|r: CartsWithProductsRow| r.product_id == *product_id),
                shape == (|r: CartsWithProductsRow|
                    CartsWithProductsReadModel {
                        cart_id: r.cart_id,
                        item_id: r.item_id,
                        product_id: r.product_id,
                    }),
                found@ == kept_where(self.rows@.take(i as int), wanted).map_values(shape),
            decreases self.rows@.len() - i,
        {
            let row = self.rows[i];
            proof {
                assert(self.rows@.take(i + 1).drop_last() == self.rows@.take(i as int));
            }
            if row.product_id == *product_id {
                let ghost before = kept_where(self.rows@.take(i as int), wanted);
                assert(before.push(row).map_values(shape) =~= before.map_values(shape).push(
                    shape(row),
                ));
                found.push(
                    CartsWithProductsReadModel {
                        cart_id: row.cart_id,
                        item_id: row.item_id,
                        product_id: row.product_id,
                    },
                );
            }
            i += 1;
        }
        assert(self.rows@.take(i as int) == self.rows@);
        found
    }

    /// Takes in an event of the `Cart` or the `Pricing` stream and returns
    /// the commands that the event asks for: a change of a price asks for
    /// the archival of every cart item that holds the product.
    pub fn handle(&mut self, event: &PersistedEvent) -> (commands: Vec<ArchiveItemCommand>)
        requires
            event@.event.in_cart_stream() || event@.event.in_pricing_stream(),
        ensures
            final(self)@ == projected(old(self)@, event.id, event@.event),
            commands@ == commands_for(old(self)@, event.id, event@.event),
    {
        let last_event_id = event.id;
        match action(&event.event) {
            IndexAction::Save { cart_id, item_id, product_id } => {
                self.save(cart_id, item_id, product_id, last_event_id);
                Vec::new()
            },
            IndexAction::DeleteByItemId { cart_id, item_id } => {
                self.delete_by_item_id(cart_id, item_id, last_event_id);
                Vec::new()
            },
            IndexAction::DeleteByCartId { cart_id } => {
                self.delete_by_cart_id(cart_id, last_event_id);
                Vec::new()
            },
            IndexAction::ArchiveProduct { product_id } => {
                let rows = self.find_by_product_id(&product_id);
                archive_product_commands(&rows, last_event_id)
            },
            IndexAction::Nothing => Vec::new(),
        }
    }
}

} // verus!
