//! The items of a cart, read straight from the events of the cart.

use vstd::prelude::*;

use super::ids::{CartId, ItemId, ProductId};
use crate::domain::event_store::{
    admitted, events_of, lemma_selected, persisted_views, selected, EventStore, PersistedEvent,
    StreamFilter, StreamName, StreamQuery,
};
use crate::domain::events::EventView;
use crate::domain::money::Money;
use crate::domain::streams::CartStream;

verus! {

/// An item of a cart.
#[derive(Debug, PartialEq)]
pub struct CartItem {
    pub cart_id: CartId,
    pub description: String,
    pub image: String,
    pub price: Money,
    pub item_id: ItemId,
    pub product_id: ProductId,
    pub fingerprint: String,
}

/// The model of an item of a cart.
pub ghost struct CartItemView {
    pub cart_id: CartId,
    pub description: Seq<char>,
    pub image: Seq<char>,
    pub price: Money,
    pub item_id: ItemId,
    pub product_id: ProductId,
    pub fingerprint: Seq<char>,
}

impl View for CartItem {
    type V = CartItemView;

    open spec fn view(&self) -> CartItemView {
        CartItemView {
            cart_id: self.cart_id,
            description: self.description@,
            image: self.image@,
            price: self.price,
            item_id: self.item_id,
            product_id: self.product_id,
            fingerprint: self.fingerprint@,
        }
    }
}

impl Clone for CartItem {
    fn clone(&self) -> (copy: Self)
        ensures
            copy@ == self@,
    {
        CartItem {
            cart_id: self.cart_id,
            description: self.description.clone(),
            image: self.image.clone(),
            price: self.price,
            item_id: self.item_id,
            product_id: self.product_id,
            fingerprint: self.fingerprint.clone(),
        }
    }
}

/// The items of a cart and the sum of their prices.
#[derive(Debug, PartialEq)]
pub struct CartItemsReadModel {
    pub cart_id: CartId,
    pub total_price: Money,
    pub data: Vec<CartItem>,
}

/// The model of the items of a cart.
pub ghost struct CartItemsView {
    pub cart_id: CartId,
    pub total_price: Money,
    pub data: Seq<CartItemView>,
}

/// The models of a list of items, in order.
pub open spec fn item_views(items: Seq<CartItem>) -> Seq<CartItemView> {
    items.map_values(|item: CartItem| item@)
}

impl View for CartItemsReadModel {
    type V = CartItemsView;

    open spec fn view(&self) -> CartItemsView {
        CartItemsView {
            cart_id: self.cart_id,
            total_price: self.total_price,
            data: item_views(self.data@),
        }
    }
}

/// The model of a read model that may not be there yet.
pub open spec fn model_of(read_model: Option<CartItemsReadModel>) -> Option<CartItemsView> {
    match read_model {
        Some(m) => Some(m@),
        None => None,
    }
}

/// Why an event cannot follow the items read so far.
#[derive(Clone, Copy, Debug, PartialEq, Eq, Structural)]
pub enum CartItemsError {
    /// The first event of the cart does not create it.
    FirstEventNotCartCreated,
    /// An event creates a cart that is there already.
    CartCreatedTwice,
    /// The sum of the prices cannot be represented.
    TotalOverflow,
}

/// The place of the first item with the given id, if there is one.
pub open spec fn first_with_item(data: Seq<CartItemView>, item_id: ItemId) -> Option<int>
    decreases data.len(),
{
    if data.len() == 0 {
        None
    } else {
        match first_with_item(data.drop_last(), item_id) {
            Some(i) => Some(i),
            None => if data.last().item_id == item_id {
                Some(data.len() - 1)
            } else {
                None
            },
        }
    }
}

/// The items that stay when an item leaves a cart: those of the cart with
/// another item id, in their order.
pub open spec fn kept(data: Seq<CartItemView>, cart_id: CartId, item_id: ItemId) -> Seq<
    CartItemView,
>
    decreases data.len(),
{
    if data.len() == 0 {
        Seq::empty()
    } else {
        let front = kept(data.drop_last(), cart_id, item_id);
        if data.last().cart_id == cart_id && data.last().item_id != item_id {
            front.push(data.last())
        } else {
            front
        }
    }
}

impl CartItemsView {
    /// The items of a cart that was just created.
    pub open spec fn created(cart_id: CartId) -> CartItemsView {
        CartItemsView { cart_id, total_price: Money::of(0, 0), data: Seq::empty() }
    }

    /// The read model after an item left the cart: the price of the first
    /// item with that id is taken off the total.
    pub open spec fn without(self, cart_id: CartId, item_id: ItemId) -> Result<
        CartItemsView,
        CartItemsError,
    > {
        let total = match first_with_item(self.data, item_id) {
            Some(i) => self.total_price.spec_checked_sub(self.data[i].price),
            None => Some(self.total_price),
        };
        match total {
            Some(total_price) => Ok(
                CartItemsView { total_price, data: kept(self.data, cart_id, item_id), ..self },
            ),
            None => Err(CartItemsError::TotalOverflow),
        }
    }
}

/// The read model after an event, or why the event cannot follow.
pub open spec fn applied(read_model: Option<CartItemsView>, event: EventView) -> Result<
    CartItemsView,
    CartItemsError,
> {
    match read_model {
        None => match event {
            EventView::CartCreated { cart_id } => Ok(CartItemsView::created(cart_id)),
            _ => Err(CartItemsError::FirstEventNotCartCreated),
        },
        Some(model) => match event {
            EventView::CartCreated { .. } => Err(CartItemsError::CartCreatedTwice),
            EventView::CartItemAdded {
                cart_id,
                description,
                image,
                price,
                item_id,
                product_id,
                fingerprint,
            } => match model.total_price.spec_checked_add(price) {
                Some(total_price) => Ok(
                    CartItemsView {
                        total_price,
                        data: model.data.push(
                            CartItemView {
                                cart_id,
                                description,
                                image,
                                price,
                                item_id,
                                product_id,
                                fingerprint,
                            },
                        ),
                        ..model
                    },
                ),
                None => Err(CartItemsError::TotalOverflow),
            },
            EventView::CartItemRemoved { cart_id, item_id } => model.without(cart_id, item_id),
            EventView::ItemArchivedEvent { cart_id, item_id, .. } => model.without(
                cart_id,
                item_id,
            ),
            EventView::CartCleared { .. } => Ok(
                CartItemsView { total_price: Money::of(0, 0), data: Seq::empty(), ..model },
            ),
            _ => Ok(model),
        },
    }
}

/// The read model after the events, applied in order; the first event that
/// cannot follow gives the error.
pub open spec fn folded(read_model: Option<CartItemsView>, events: Seq<EventView>) -> Result<
    Option<CartItemsView>,
    CartItemsError,
>
    decreases events.len(),
{
    if events.len() == 0 {
        Ok(read_model)
    } else {
        match folded(read_model, events.drop_last()) {
            Ok(model) => match applied(model, events.last()) {
                Ok(next) => Ok(Some(next)),
                Err(error) => Err(error),
            },
            Err(error) => Err(error),
        }
    }
}

fn find_item(data: &Vec<CartItem>, item_id: ItemId) -> (r: Option<usize>)
    ensures
        match r {
            Some(i) => first_with_item(item_views(data@), item_id) == Some(i as int) && i
                < data@.len(),
            None => first_with_item(item_views(data@), item_id) is None,
        },
{
    let ghost views = item_views(data@);
    let mut i: usize = 0;
    while i < data.len()
        invariant
            i <= data@.len(),
            views == item_views(data@),
            first_with_item(views.take(i as int), item_id) is None,
        decreases data@.len() - i,
    {
        proof {
            assert(views.take(i + 1).drop_last() == views.take(i as int));
            assert(views.take(i + 1).last() == data@[i as int]@);
        }
        if data[i].item_id == item_id {
            proof {
                lemma_first_with_item_extends(views, item_id, i + 1);
            }
            return Some(i);
        }
        i += 1;
    }
    assert(views.take(i as int) == views);
    None
}

/// What is found in a prefix of a list is found in the list.
proof fn lemma_first_with_item_extends(data: Seq<CartItemView>, item_id: ItemId, n: int)
    requires
        0 <= n <= data.len(),
        first_with_item(data.take(n), item_id) is Some,
    ensures
        first_with_item(data, item_id) == first_with_item(data.take(n), item_id),
    decreases data.len(),
{
    if n == data.len() {
        assert(data.take(n) == data);
    } else {
        assert(data.drop_last().take(n) == data.take(n));
        lemma_first_with_item_extends(data.drop_last(), item_id, n);
    }
}

fn keep_others(data: &Vec<CartItem>, cart_id: CartId, item_id: ItemId) -> (r: Vec<CartItem>)
    ensures
        item_views(r@) == kept(item_views(data@), cart_id, item_id),
{
    let ghost views = item_views(data@);
    let mut r: Vec<CartItem> = Vec::new();
    let mut i: usize = 0;
    while i < data.len()
        invariant
            i <= data@.len(),
            views == item_views(data@),
            item_views(r@) == kept(views.take(i as int), cart_id, item_id),
        decreases data@.len() - i,
    {
        let item = &data[i];
        proof {
            assert(views.take(i + 1).drop_last() == views.take(i as int));
            assert(views.take(i + 1).last() == item@);
        }
        if item.cart_id == cart_id && item.item_id != item_id {
            let copy = item.clone();
            assert(item_views(r@.push(copy)) =~= item_views(r@).push(item@));
            r.push(copy);
        }
        i += 1;
    }
    assert(views.take(i as int) == views);
    r
}

impl CartItemsReadModel {
    /// The items of a cart that was just created: none, with a total of zero.
    pub fn new(cart_id: CartId) -> (read_model: Self)
        ensures
            read_model@ == CartItemsView::created(cart_id),
    {
        let read_model = CartItemsReadModel {
            cart_id,
            total_price: Money::zero(),
            data: Vec::new(),
        };
        assert(read_model@.data =~= Seq::<CartItemView>::empty());
        read_model
    }

    fn remove(self, cart_id: CartId, item_id: ItemId) -> (r: CartItemsReadModel)
        requires
            self@.without(cart_id, item_id) is Ok,
        ensures
            Ok::<CartItemsView, CartItemsError>(r@) == self@.without(cart_id, item_id),
    {
        let mut read_model = self;
        if let Some(i) = find_item(&read_model.data, item_id) {
            assert(item_views(read_model.data@)[i as int] == read_model.data@[i as int]@);
            read_model.total_price = read_model.total_price.checked_sub(
                read_model.data[i].price,
            ).unwrap();
        }
        read_model.data = keep_others(&read_model.data, cart_id, item_id);
        read_model
    }

    fn can_remove(&self, item_id: ItemId) -> (b: bool)
        ensures
            forall|cart_id: CartId| b == (#[trigger] self@.without(cart_id, item_id) is Ok),
    {
        if let Some(i) = find_item(&self.data, item_id) {
            assert(item_views(self.data@)[i as int] == self.data@[i as int]@);
            self.total_price.checked_sub(self.data[i].price).is_some()
        } else {
            true
        }
    }
}

/// Whether an event can follow the items read so far, and if not, why.
pub fn check_event(read_model: &Option<CartItemsReadModel>, event: &CartStream) -> (r: Result<
    (),
    CartItemsError,
>)
    ensures
        match r {
            Ok(_) => applied(model_of(*read_model), event@) is Ok,
            Err(error) => applied(model_of(*read_model), event@) == Err::<
                CartItemsView,
                CartItemsError,
            >(error),
        },
{
    match read_model {
        None => match event {
            CartStream::CartCreated { .. } => Ok(()),
            _ => Err(CartItemsError::FirstEventNotCartCreated),
        },
        Some(model) => match event {
            CartStream::CartCreated { .. } => Err(CartItemsError::CartCreatedTwice),
            CartStream::CartItemAdded { price, .. } => {
                if model.total_price.checked_add(*price).is_some() {
                    Ok(())
                } else {
                    Err(CartItemsError::TotalOverflow)
                }
            },
            CartStream::CartItemRemoved { cart_id, item_id } => {
                if model.can_remove(*item_id) {
                    assert(model@.without(*cart_id, *item_id) is Ok);
                    Ok(())
                } else {
                    assert(!(model@.without(*cart_id, *item_id) is Ok));
                    Err(CartItemsError::TotalOverflow)
                }
            },
            CartStream::ItemArchivedEvent { cart_id, item_id, .. } => {
                if model.can_remove(*item_id) {
                    assert(model@.without(*cart_id, *item_id) is Ok);
                    Ok(())
                } else {
                    assert(!(model@.without(*cart_id, *item_id) is Ok));
                    Err(CartItemsError::TotalOverflow)
                }
            },
            CartStream::CartCleared { .. } => Ok(()),
            CartStream::CartSubmitted { .. } => Ok(()),
        },
    }
}

/// Applies an event of a cart to the items read so far. The first event of
/// a cart creates it and no later one does, and the total stays
/// representable.
pub fn apply_event(read_model: Option<CartItemsReadModel>, event: CartStream) -> (r: Option<
    CartItemsReadModel,
>)
    requires
        applied(model_of(read_model), event@) is Ok,
    ensures
        r matches Some(next) && Ok::<CartItemsView, CartItemsError>(next@) == applied(
            model_of(read_model),
            event@,
        ),
{
    match read_model {
        None => match event {
            CartStream::CartCreated { cart_id } => Some(CartItemsReadModel::new(cart_id)),
            _ => {
                // Excluded: the first event of a cart creates it.
                None
            },
        },
        Some(model) => {
            let mut model = model;
            match event {
                CartStream::CartItemAdded {
                    cart_id,
                    description,
                    image,
                    price,
                    item_id,
                    product_id,
                    fingerprint,
                } => {
                    let ghost before = model@;
                    model.total_price = model.total_price.checked_add(price).unwrap();
                    let item = CartItem {
                        cart_id,
                        description,
                        image,
                        price,
                        item_id,
                        product_id,
                        fingerprint,
                    };
                    assert(item_views(model.data@.push(item)) =~= before.data.push(item@));
                    model.data.push(item);
                    Some(model)
                },
                CartStream::CartItemRemoved { cart_id, item_id } => Some(
                    model.remove(cart_id, item_id),
                ),
                CartStream::CartCleared { .. } => {
                    model.total_price = Money::default();
                    model.data.clear();
                    assert(item_views(model.data@) =~= Seq::<CartItemView>::empty());
                    Some(model)
                },
                CartStream::ItemArchivedEvent { cart_id, item_id, .. } => Some(
                    model.remove(cart_id, item_id),
                ),
                CartStream::CartSubmitted { .. } => Some(model),
                CartStream::CartCreated { .. } => {
                    // Excluded: a cart is created once.
                    None
                },
            }
        },
    }
}

/// Applies an event of a cart to the items read so far, or says why the
/// event cannot follow them.
pub fn try_apply_event(read_model: Option<CartItemsReadModel>, event: CartStream) -> (r: Result<
    Option<CartItemsReadModel>,
    CartItemsError,
>)
    ensures
        match r {
            Ok(next) => next matches Some(model) && Ok::<CartItemsView, CartItemsError>(model@)
                == applied(model_of(read_model), event@),
            Err(error) => applied(model_of(read_model), event@) == Err::<
                CartItemsView,
                CartItemsError,
            >(error),
        },
{
    match check_event(&read_model, &event) {
        Ok(_) => Ok(apply_event(read_model, event)),
        Err(error) => Err(error),
    }
}

/// The filters of the query for the events of one cart.
pub open spec fn cart_filters(cart_id: CartId) -> Seq<StreamFilter> {
    seq![
        StreamFilter {
            stream: StreamName::Cart,
            cart_id: Some(cart_id),
            item_id: None,
            product_id: None,
        },
    ]
}

/// The query for the events of one cart.
pub fn cart_query(cart_id: CartId) -> (query: StreamQuery)
    ensures
        query@ == cart_filters(cart_id),
{
    StreamQuery::new(StreamFilter::of_cart(StreamName::Cart, cart_id))
}

/// The events of one cart in a log, in log order.
pub open spec fn cart_history(log: Seq<crate::domain::event_store::PersistedView>, cart_id: CartId) -> Seq<
    EventView,
> {
    events_of(selected(log, cart_filters(cart_id), 0))
}

/// The items of a cart as the log tells them: `None` for a cart of which
/// the log holds no event.
pub fn cart_items_read_model(event_store: &EventStore, cart_id: &CartId) -> (r: Result<
    Option<CartItemsReadModel>,
    CartItemsError,
>)
    requires
        event_store.wf(),
    ensures
        match r {
            Ok(read_model) => folded(None, cart_history(event_store@, *cart_id)) == Ok::<
                Option<CartItemsView>,
                CartItemsError,
            >(model_of(read_model)),
            Err(error) => folded(None, cart_history(event_store@, *cart_id)) == Err::<
                Option<CartItemsView>,
                CartItemsError,
            >(error),
        },
{
    let query = cart_query(*cart_id);
    let events = event_store.stream(&query);
    let ghost history = cart_history(event_store@, *cart_id);
    proof {
        lemma_selected(event_store@, query@, 0);
        assert(history.len() == events@.len());
    }
    let mut read_model: Option<CartItemsReadModel> = None;
    let mut i: usize = 0;
    while i < events.len()
        invariant
            i <= events@.len(),
            history == cart_history(event_store@, *cart_id),
            history.len() == events@.len(),
            forall|k: int| 0 <= k < events@.len() ==> (#[trigger] events@[k])@.event == history[k],
            forall|k: int| 0 <= k < history.len() ==> (#[trigger] history[k]).in_cart_stream(),
            folded(None, history.take(i as int)) == Ok::<Option<CartItemsView>, CartItemsError>(
                model_of(read_model),
            ),
        decreases events@.len() - i,
    {
        let event = events[i].event.clone();
        proof {
            assert(history.take(i + 1).drop_last() == history.take(i as int));
            assert(history.take(i + 1).last() == history[i as int]);
            assert(history[i as int].in_cart_stream());
        }
        let cart_event = match CartStream::try_from(event) {
            Ok(cart_event) => cart_event,
            Err(_) => {
                proof {
                    assert(false);
                }
                return Ok(None);
            },
        };
        let ghost before = model_of(read_model);
        assert(cart_event@ == history[i as int]);
        match try_apply_event(read_model, cart_event) {
            Ok(next) => {
                read_model = next;
            },
            Err(error) => {
                proof {
                    assert(folded(None, history.take(i + 1)) == Err::<
                        Option<CartItemsView>,
                        CartItemsError,
                    >(error));
                    lemma_folded_error(history, i + 1);
                }
                return Err(error);
            },
        }
        i += 1;
    }
    assert(history.take(i as int) == history);
    Ok(read_model)
}

/// An error met on the way stays the result.
pub proof fn lemma_folded_error(events: Seq<EventView>, n: int)
    requires
        0 <= n <= events.len(),
        folded(None, events.take(n)) is Err,
    ensures
        folded(None, events) == folded(None, events.take(n)),
    decreases events.len(),
{
    if n == events.len() {
        assert(events.take(n) == events);
    } else {
        assert(events.drop_last().take(n) == events.take(n));
        lemma_folded_error(events.drop_last(), n);
    }
}

} // verus!
