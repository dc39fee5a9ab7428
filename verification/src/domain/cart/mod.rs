pub mod add_item;
pub mod archive_item;
pub mod cart_items;
pub mod cart_items_from_db;
pub mod carts_with_products;
pub mod change_inventory;
pub mod change_price;
pub mod clear_cart;
pub mod endpoints;
pub mod errors;
pub mod history;
pub(crate) mod ids;
pub mod inventories;
pub mod publish_cart;
pub mod remove_item;
pub mod submit_cart;
pub mod state;

pub use add_item::{AddItemCommand, AddItemPayload, AddItemState, MAX_ITEMS};
pub use archive_item::{
    archive_commands, archive_items, archive_product_commands, archive_product_processor,
    archived, archives, as_commands, state_on, ArchiveItemCommand, ArchiveItemState,
};
pub use cart_items::{
    applied, apply_event, cart_filters, first_with_item, kept, model_of, cart_history, cart_items_read_model, cart_query, check_event, folded,
    item_views, try_apply_event, CartItem, CartItemView, CartItemsError, CartItemsReadModel, CartItemsView,
};
pub use cart_items_from_db::{
    CartItemRow, CartItemRowView, CartItemsReadModelProjection, CartItemsTables,
};
pub use carts_with_products::{
    CartsWithProductsReadModel, CartsWithProductsReadModelProjection, CartsWithProductsRow,
};
pub use change_inventory::{
    ChangeInventoryCommand, InventoryChangedMessage, InventoryChangedTranslator,
};
pub use change_price::{
    ChangePriceCommand, ChangePricePayload, PriceChangeTranslator, PriceChangedMessage,
};
pub use clear_cart::{ClearCartCommand, ClearCartState};
pub use endpoints::{
    add_item_endpoint, add_item_request, answered, cart_mismatch_message, id_answered,
    incompatible_message, last_of_ids, product_mismatch_message, unreadable_message, change_price_request, clear_cart_request,
    remove_item_request, submit_cart_request, cart_items_endpoint, cart_items_from_db_endpoint,
    carts_with_products_endpoint, change_price_endpoint, clear_cart_endpoint,
    inventories_endpoint, last_event_id, remove_item_endpoint, submit_cart_endpoint,
};
pub use errors::CartError;
pub use ids::{
    uuid_parsed, uuid_text, uuid_version_number, CartId, InvalidUuidText, ItemId, ProductId,
    UuidNotCompatible,
};
pub use inventories::{InventoriesReadModel, InventoriesReadModelProjection, InventoryRow};
pub use publish_cart::{
    publish_cart_processor, published_carts_topic, ExternalPublishCart, ExternalPublishCartView,
    CartSubmittedEventHandler, PublishCartProcessorArgs, PublishCartProcessorArgsView,
    PublishRequest, PUBLISH_TIMEOUT,
};
pub use remove_item::{RemoveItemCommand, RemoveItemPayload, RemoveItemState};
pub use state::{FoldState, StateMutate};
pub use submit_cart::{
    total_price, SubmitCartCommand, SubmitCartModel, SubmitCartPayload, SubmitCartState,
};
