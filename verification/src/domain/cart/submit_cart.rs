//! Submitting a cart.

use vstd::prelude::*;

use super::errors::CartError;
use super::ids::{uuid_text, uuid_version_number, CartId, ProductId};
use super::state::{FoldState, StateMutate};
use crate::domain::events::{views, DomainEvent, EventView, OrderedProduct};
use crate::domain::helpers::id_map::{index_of, inserted, removed, value_of, IdMap};
use crate::domain::money::Money;
use crate::domain::streams::CartStream;
use crate::infra::ClientError;

verus! {

/// The body of a request to submit a cart, as it arrives.
#[derive(Debug, Clone, Copy, PartialEq, Eq, Structural)]
pub struct SubmitCartPayload {
    pub cart_id: u128,
}

/// The command to submit a cart.
#[derive(Debug, Clone, Copy, PartialEq, Eq, Structural)]
pub struct SubmitCartCommand {
    pub cart_id: CartId,
}

/// What the decision to submit a cart reads of it: besides the counts, the
/// product of each item and the price of each product, both in the order in
/// which they first came into the cart.
#[derive(Debug, Clone, PartialEq, Eq)]
pub struct SubmitCartState {
    pub cart_id: CartId,
    pub cart_exists: bool,
    pub item_count: u8,
    pub submitted: bool,
    pub cart_items: IdMap<ProductId>,
    pub product_price: IdMap<Money>,
}

/// The mathematical model of [`SubmitCartState`]. The two maps are keyed by
/// the 128-bit values of the item and of the product.
pub ghost struct SubmitCartModel {
    pub cart_id: CartId,
    pub cart_exists: bool,
    pub item_count: u8,
    pub submitted: bool,
    pub cart_items: Seq<(u128, ProductId)>,
    pub product_price: Seq<(u128, Money)>,
}

/// The sum of the prices of a list of ordered products, added from zero in
/// the order of the list; `None` where a sum overflows.
pub open spec fn total_price(products: Seq<OrderedProduct>) -> Option<Money>
    decreases products.len(),
{
    if products.len() == 0 {
        Some(Money::of(0, 0))
    } else {
        match total_price(products.drop_last()) {
            Some(sum) => sum.spec_checked_add(products.last().price),
            None => None,
        }
    }
}

impl SubmitCartModel {
    /// The state of a cart of which no event is known.
    pub open spec fn initial(cart_id: CartId) -> SubmitCartModel {
        SubmitCartModel {
            cart_id,
            cart_exists: false,
            item_count: 0,
            submitted: false,
            cart_items: Seq::empty(),
            product_price: Seq::empty(),
        }
    }

    /// Whether the price of the product of every item is known.
    pub open spec fn prices_known(self) -> bool {
        forall|i: int|
            0 <= i < self.cart_items.len() ==> value_of(
                self.product_price,
                (#[trigger] self.cart_items[i]).1.0,
            ) is Some
    }

    /// The product of each item with its price, in the order of the items.
    pub open spec fn ordered_products(self) -> Seq<OrderedProduct> {
        self.cart_items.map_values(
            |entry: (u128, ProductId)|
                OrderedProduct {
                    product_id: entry.1,
                    price: value_of(self.product_price, entry.1.0).unwrap(),
                },
        )
    }

    /// Whether the cart can be priced: every price is known and the total
    /// does not overflow.
    pub open spec fn priced(self) -> bool {
        self.prices_known() && total_price(self.ordered_products()) is Some
    }
}

impl FoldState for SubmitCartModel {
    open spec fn can_apply(self, event: EventView) -> bool {
        match event {
            EventView::CartItemAdded { .. } => self.item_count < u8::MAX,
            EventView::CartItemRemoved { item_id, .. } => self.item_count > 0 && value_of(
                self.cart_items,
                item_id.0,
            ) is Some,
            EventView::ItemArchivedEvent { item_id, .. } => self.item_count > 0 && value_of(
                self.cart_items,
                item_id.0,
            ) is Some,
            _ => true,
        }
    }

    open spec fn apply(self, event: EventView) -> SubmitCartModel {
        match event {
            EventView::CartCreated { .. } => SubmitCartModel { cart_exists: true, ..self },
            EventView::CartItemAdded { item_id, product_id, price, .. } => SubmitCartModel {
                item_count: (self.item_count + 1) as u8,
                cart_items: inserted(self.cart_items, item_id.0, product_id),
                product_price: inserted(self.product_price, product_id.0, price),
                ..self
            },
            EventView::CartItemRemoved { item_id, .. } => self.without_item(item_id.0),
            EventView::CartCleared { .. } => SubmitCartModel {
                item_count: 0,
                cart_items: Seq::empty(),
                product_price: Seq::empty(),
                ..self
            },
            EventView::ItemArchivedEvent { item_id, .. } => self.without_item(item_id.0),
            EventView::CartSubmitted { .. } => SubmitCartModel { submitted: true, ..self },
            _ => self,
        }
    }
}

impl SubmitCartModel {
    /// The state after an item left the cart: the price of its product is
    /// forgotten with it.
    pub open spec fn without_item(self, item: u128) -> SubmitCartModel {
        SubmitCartModel {
            item_count: (self.item_count - 1) as u8,
            product_price: removed(
                self.product_price,
                value_of(self.cart_items, item).unwrap().0,
            ),
            cart_items: removed(self.cart_items, item),
            ..self
        }
    }
}

impl SubmitCartState {
    fn remove_item(&mut self, item: u128)
        requires
            old(self).item_count > 0,
            value_of(old(self).cart_items@, item) is Some,
        ensures
            final(self).model() == old(self).model().without_item(item),
    {
        self.item_count -= 1;
        let product_id = self.cart_items.get(item).unwrap();
        self.product_price.remove(product_id.0);
        self.cart_items.remove(item);
    }

    /// The ordered products and their total, where the cart can be priced.
    fn price(&self) -> (r: Option<(Vec<OrderedProduct>, Money)>)
        ensures
            match r {
                Some((products, total)) => {
                    &&& self.model().priced()
                    &&& products@ == self.model().ordered_products()
                    &&& Some(total) == total_price(products@)
                },
                None => !self.model().priced(),
            },
    {
        let ghost model = self.model();
        let ghost ordered = model.ordered_products();
        let mut products: Vec<OrderedProduct> = Vec::new();
        let mut total = Money::zero();
        let mut i: usize = 0;
        while i < self.cart_items.len()
            invariant
                model == self.model(),
                ordered == model.ordered_products(),
                i <= self.cart_items@.len(),
                products@ == ordered.take(i as int),
                Some(total) == total_price(products@),
                forall|j: int|
                    0 <= j < i ==> value_of(
                        model.product_price,
                        (#[trigger] model.cart_items[j]).1.0,
                    ) is Some,
            decreases self.cart_items@.len() - i,
        {
            let entry = self.cart_items.entry(i);
            let price = match self.product_price.get(entry.1.0) {
                Some(price) => price,
                None => {
                    return None;
                },
            };
            let product = OrderedProduct { product_id: entry.1, price };
            proof {
                assert(ordered.take(i + 1) == ordered.take(i as int).push(product));
                assert(ordered.take(i + 1).drop_last() == ordered.take(i as int));
            }
            total = match total.checked_add(price) {
                Some(sum) => sum,
                None => {
                    proof {
                        if total_price(ordered) is Some {
                            lemma_total_price_prefix(ordered, i + 1);
                        }
                    }
                    return None;
                },
            };
            products.push(product);
            i += 1;
        }
        assert(ordered.take(i as int) == ordered);
        Some((products, total))
    }
}

/// Where a list of ordered products has a total, so has every prefix of it.
pub proof fn lemma_total_price_prefix(products: Seq<OrderedProduct>, n: int)
    requires
        0 <= n <= products.len(),
        total_price(products) is Some,
    ensures
        total_price(products.take(n)) is Some,
    decreases products.len(),
{
    if n == products.len() {
        assert(products.take(n) == products);
    } else {
        assert(products.drop_last().take(n) == products.take(n));
        lemma_total_price_prefix(products.drop_last(), n);
    }
}

impl StateMutate for SubmitCartState {
    type Model = SubmitCartModel;

    open spec fn model(&self) -> SubmitCartModel {
        SubmitCartModel {
            cart_id: self.cart_id,
            cart_exists: self.cart_exists,
            item_count: self.item_count,
            submitted: self.submitted,
            cart_items: self.cart_items@,
            product_price: self.product_price@,
        }
    }

    fn can_mutate(&self, event: &CartStream) -> (b: bool) {
        match event {
            CartStream::CartItemAdded { .. } => self.item_count < u8::MAX,
            CartStream::CartItemRemoved { item_id, .. } => self.item_count > 0
                && self.cart_items.get(item_id.0).is_some(),
            CartStream::ItemArchivedEvent { item_id, .. } => self.item_count > 0
                && self.cart_items.get(item_id.0).is_some(),
            _ => true,
        }
    }

    fn mutate(&mut self, event: CartStream) {
        match event {
            CartStream::CartCreated { .. } => {
                self.cart_exists = true;
            },
            CartStream::CartItemAdded { item_id, product_id, price, .. } => {
                self.item_count += 1;
                self.cart_items.insert(item_id.0, product_id);
                self.product_price.insert(product_id.0, price);
            },
            CartStream::CartItemRemoved { item_id, .. } => {
                self.remove_item(item_id.0);
            },
            CartStream::CartCleared { .. } => {
                self.item_count = 0;
                self.cart_items.clear();
                self.product_price.clear();
            },
            CartStream::ItemArchivedEvent { item_id, .. } => {
                self.remove_item(item_id.0);
            },
            CartStream::CartSubmitted { .. } => {
                self.submitted = true;
            },
        }
    }
}

impl SubmitCartCommand {
    /// The command that a payload asks for. The payload is refused where its
    /// cart is not named by a version 7 UUID.
    pub fn try_from(payload: SubmitCartPayload) -> (r: Result<SubmitCartCommand, ClientError>)
        ensures
            match r {
                Ok(command) => {
                    &&& uuid_version_number(payload.cart_id) == 7
                    &&& command.cart_id == CartId(payload.cart_id)
                },
                Err(error) => {
                    &&& uuid_version_number(payload.cart_id) != 7
                    &&& error matches ClientError::Payload(message)
                    &&& message@ == "Uuid "@ + uuid_text(payload.cart_id)
                        + " is not compatible. Version 7 Uuid is required."@
                },
            },
    {
        match CartId::try_from(payload.cart_id) {
            Ok(cart_id) => Ok(SubmitCartCommand { cart_id }),
            Err(refused) => Err(ClientError::from_uuid_not_compatible(refused)),
        }
    }

    /// The rule that rejects the command, if one does. The checks are made
    /// in this order: the cart exists, it is not empty, it is not submitted.
    pub open spec fn rejection(self, state: SubmitCartModel) -> Option<CartError> {
        if !state.cart_exists {
            Some(CartError::CartDoesNotExist(self.cart_id))
        } else if state.item_count == 0 {
            Some(CartError::CannotSubmitEmptyCart)
        } else if state.submitted {
            Some(CartError::CannotSubmitCartTwice)
        } else {
            None
        }
    }

    /// The decision: a cart that passes the checks is submitted with the
    /// product and price of each of its items, in the order of the items,
    /// and with the sum of those prices.
    pub open spec fn decided(self, state: SubmitCartModel) -> Result<Seq<EventView>, CartError> {
        match self.rejection(state) {
            Some(error) => Err(error),
            None => Ok(
                seq![
                    EventView::CartSubmitted {
                        cart_id: self.cart_id,
                        ordered_product: state.ordered_products(),
                        total_price: total_price(state.ordered_products()).unwrap(),
                    },
                ],
            ),
        }
    }

    /// The state that the decision reads, before any event.
    pub fn state_query(&self) -> (state: SubmitCartState)
        ensures
            state.model() == SubmitCartModel::initial(self.cart_id),
    {
        SubmitCartState {
            cart_id: self.cart_id,
            cart_exists: false,
            item_count: 0,
            submitted: false,
            cart_items: IdMap::new(),
            product_price: IdMap::new(),
        }
    }

    /// Decides the command against the state of its cart, which can be
    /// priced unless a rule rejects the command.
    pub fn process(&self, state: &SubmitCartState) -> (r: Result<Vec<DomainEvent>, CartError>)
        requires
            self.rejection(state.model()) is None ==> state.model().priced(),
        ensures
            match r {
                Ok(events) => self.decided(state.model()) == Ok::<Seq<EventView>, CartError>(
                    views(events@),
                ),
                Err(error) => self.decided(state.model()) == Err::<Seq<EventView>, CartError>(
                    error,
                ),
            },
    {
        if !state.cart_exists {
            return Err(CartError::CartDoesNotExist(self.cart_id));
        }
        if state.item_count == 0 {
            return Err(CartError::CannotSubmitEmptyCart);
        }
        if state.submitted {
            return Err(CartError::CannotSubmitCartTwice);
        }
        let (ordered_product, total_price) = state.price().unwrap();
        let mut events: Vec<DomainEvent> = Vec::new();
        events.push(
            DomainEvent::CartSubmitted { cart_id: self.cart_id, ordered_product, total_price },
        );
        assert(views(events@) =~= self.decided(state.model())->Ok_0);
        Ok(events)
    }

    /// Decides the command against the state of its cart. Where no rule
    /// rejects the command and the cart cannot be priced, nothing is
    /// decided and `None` is returned.
    pub fn try_process(&self, state: &SubmitCartState) -> (r: Option<
        Result<Vec<DomainEvent>, CartError>,
    >)
        ensures
            match r {
                Some(Ok(events)) => {
                    &&& state.model().priced()
                    &&& self.decided(state.model()) == Ok::<Seq<EventView>, CartError>(
                        views(events@),
                    )
                },
                Some(Err(error)) => self.decided(state.model()) == Err::<
                    Seq<EventView>,
                    CartError,
                >(error),
                None => self.rejection(state.model()) is None && !state.model().priced(),
            },
    {
        if state.cart_exists && state.item_count != 0 && !state.submitted {
            if state.price().is_none() {
                return None;
            }
        }
        Some(self.process(state))
    }
}

} // verus!
