//! The latest inventory of each product.
//!
//! The table is a projection of the `Inventory` stream. Each row remembers
//! the id of the event that wrote it, and is only overwritten by an event
//! with a greater id.

use vstd::prelude::*;

use super::ids::ProductId;
use crate::domain::event_store::PersistedEvent;
use crate::domain::events::{DomainEvent, EventView};
use crate::domain::helpers::rows::{first_where, lemma_first_where, lemma_first_where_is};

verus! {

/// The inventory of a product.
#[derive(Debug, Clone, Copy, PartialEq, Eq, Structural)]
pub struct InventoriesReadModel {
    pub product_id: ProductId,
    pub inventory: i32,
}

/// A row of the table.
#[derive(Debug, Clone, Copy, PartialEq, Eq, Structural)]
pub struct InventoryRow {
    pub product_id: ProductId,
    pub inventory: i32,
    pub last_event_id: i64,
}

/// The rows after the event with id `event_id` told the inventory of the
/// product: a row that is missing is added, and a row that an earlier event
/// wrote is overwritten.
pub open spec fn upserted(
    rows: Seq<InventoryRow>,
    product_id: ProductId,
    inventory: i32,
    event_id: i64,
) -> Seq<InventoryRow> {
    let same = |r: InventoryRow| r.product_id == product_id;
    match first_where(rows, same) {
        Some(i) => if rows[i].last_event_id < event_id {
            rows.update(i, InventoryRow { product_id, inventory, last_event_id: event_id })
        } else {
            rows
        },
        None => rows.push(InventoryRow { product_id, inventory, last_event_id: event_id }),
    }
}

/// The rows after the event with id `event_id`.
pub open spec fn projected(rows: Seq<InventoryRow>, event_id: i64, event: EventView) -> Seq<
    InventoryRow,
> {
    match event {
        EventView::InventoryChanged { product_id, inventory } => upserted(
            rows,
            product_id,
            inventory,
            event_id,
        ),
        _ => rows,
    }
}

/// The inventory of the product, if the table holds it.
pub open spec fn found(rows: Seq<InventoryRow>, product_id: ProductId) -> Option<
    InventoriesReadModel,
> {
    match first_where(rows, |r: InventoryRow| r.product_id == product_id) {
        Some(i) => Some(InventoriesReadModel { product_id, inventory: rows[i].inventory }),
        None => None,
    }
}

/// An event delivered a second time, right after the first, changes
/// nothing.
pub proof fn lemma_projected_twice(rows: Seq<InventoryRow>, event_id: i64, event: EventView)
    ensures
        projected(projected(rows, event_id, event), event_id, event) == projected(
            rows,
            event_id,
            event,
        ),
{
    if let EventView::InventoryChanged { product_id, inventory } = event {
        let same = |r: InventoryRow| r.product_id == product_id;
        let once = upserted(rows, product_id, inventory, event_id);
        lemma_first_where(rows, same);
        match first_where(rows, same) {
            Some(i) => {
                if rows[i].last_event_id < event_id {
                    assert(forall|j: int| 0 <= j < i ==> once[j] == rows[j]);
                    lemma_first_where_is(once, same, i);
                }
            },
            None => {
                assert(forall|j: int| 0 <= j < rows.len() ==> once[j] == rows[j]);
                lemma_first_where_is(once, same, rows.len() as int);
            },
        }
    }
}

/// The replay guard: an event changes nothing where the row of its product
/// was written by an event with the same or a greater id.
pub proof fn lemma_projected_guard(rows: Seq<InventoryRow>, event_id: i64, event: EventView)
    requires
        event matches EventView::InventoryChanged { product_id, .. } ==> exists|j: int|
            0 <= j < rows.len() && (#[trigger] rows[j]).product_id == product_id,
        forall|j: int| 0 <= j < rows.len() ==> (#[trigger] rows[j]).last_event_id >= event_id,
    ensures
        projected(rows, event_id, event) == rows,
{
    if let EventView::InventoryChanged { product_id, inventory } = event {
        lemma_first_where(rows, |r: InventoryRow| r.product_id == product_id);
    }
}

/// The inventory that an event tells of, if it tells of one. It is written
/// to the table guarded by the id of the event.
pub fn inventory_of(event: &DomainEvent) -> (r: Option<InventoriesReadModel>)
    ensures
        r == match event@ {
            EventView::InventoryChanged { product_id, inventory } => Some(
                InventoriesReadModel { product_id, inventory },
            ),
            _ => None,
        },
{
    match event {
        DomainEvent::InventoryChanged { product_id, inventory } => Some(
            InventoriesReadModel { product_id: *product_id, inventory: *inventory },
        ),
        _ => None,
    }
}

/// The table, held in memory, with the projection that keeps it.
#[derive(Debug)]
pub struct InventoriesReadModelProjection {
    rows: Vec<InventoryRow>,
}

impl View for InventoriesReadModelProjection {
    type V = Seq<InventoryRow>;

    closed spec fn view(&self) -> Seq<InventoryRow> {
        self.rows@
    }
}

impl InventoriesReadModelProjection {
    /// The empty table.
    pub fn new() -> (projection: Self)
        ensures
            projection@ == Seq::<InventoryRow>::empty(),
    {
        InventoriesReadModelProjection { rows: Vec::new() }
    }

    /// The name under which the cursor of the projection is kept.
    pub fn id(&self) -> (id: &'static str)
        ensures
            id@ == "inventories"@,
    {
        "inventories"
    }

    fn position(&self, product_id: ProductId) -> (r: Option<usize>)
        ensures
            match r {
                Some(i) => i < self@.len() && first_where(
                    self@,
                    |r: InventoryRow| r.product_id == product_id,
                ) == Some(i as int),
                None => first_where(self@, |r: InventoryRow| r.product_id == product_id) is None,
            },
    {
        let ghost same = |r: InventoryRow| r.product_id == product_id;
        let mut i: usize = 0;
        while i < self.rows.len()
            invariant
                i <= self.rows@.len(),
                same == (|r: InventoryRow| r.product_id == product_id),
                forall|j: int| 0 <= j < i ==> !same(#[trigger] self.rows@[j]),
            decreases self.rows@.len() - i,
        {
            if self.rows[i].product_id == product_id {
                proof {
                    lemma_first_where_is(self.rows@, same, i as int);
                }
                return Some(i);
            }
            i += 1;
        }
        proof {
            lemma_first_where(self.rows@, same);
        }
        None
    }

    /// The inventory of the product, if the table holds it.
    pub fn find_by_id(&self, product_id: &ProductId) -> (r: Option<InventoriesReadModel>)
        ensures
            r == found(self@, *product_id),
    {
        match self.position(*product_id) {
            Some(i) => Some(
                InventoriesReadModel { product_id: *product_id, inventory: self.rows[i].inventory },
            ),
            None => None,
        }
    }

    /// Takes in an event of the `Inventory` stream.
    pub fn handle(&mut self, event: &PersistedEvent)
        requires
            event@.event.in_inventory_stream(),
        ensures
            final(self)@ == projected(old(self)@, event.id, event@.event),
    {
        let last_event_id = event.id;
        match inventory_of(&event.event) {
            Some(told) => {
                let row = InventoryRow {
                    product_id: told.product_id,
                    inventory: told.inventory,
                    last_event_id,
                };
                match self.position(told.product_id) {
                    Some(i) => {
                        if self.rows[i].last_event_id < last_event_id {
                            self.rows.set(i, row);
                        }
                    },
                    None => {
                        self.rows.push(row);
                    },
                }
            },
            None => {},
        }
    }
}

} // verus!
