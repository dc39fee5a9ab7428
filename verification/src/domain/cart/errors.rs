//! The business-rule rejections of cart commands.

use vstd::prelude::*;

use super::ids::{print_uuid, uuid_text, CartId};

verus! {

/// Why a cart command was rejected.
#[derive(Clone, Copy, Debug, PartialEq, Eq, Structural)]
pub enum CartError {
    IdConsumed(CartId),
    CartDoesNotExist(CartId),
    CannotAddItemCartFull,
    CannotRemoveItem,
    CannotSubmitEmptyCart,
    CannotSubmitCartTwice,
    CartCannotBeAltered,
}

impl CartError {
    /// The human-readable message of the rejection.
    pub open spec fn message(self) -> Seq<char> {
        match self {
            CartError::IdConsumed(cart_id) => "CartID "@ + uuid_text(cart_id.0)
                + " is not unique."@,
            CartError::CartDoesNotExist(cart_id) => "Cart with ID "@ + uuid_text(cart_id.0)
                + " does not exist."@,
            CartError::CannotAddItemCartFull => "Cannot add item. Cart is full (max 3 items)."@,
            CartError::CannotRemoveItem => "Cannot remove item. Item not in cart."@,
            CartError::CannotSubmitEmptyCart => "Cannot submit an empty cart."@,
            CartError::CannotSubmitCartTwice => "Cannot submit cart twice."@,
            CartError::CartCannotBeAltered => "Cart has been submitted. Cannot be altered."@,
        }
    }

    /// The human-readable message of the rejection.
    pub fn to_string(&self) -> (text: String)
        ensures
            text@ == self.message(),
    {
        match self {
            CartError::IdConsumed(cart_id) => {
                let mut text = "CartID ".to_owned();
                let id = print_uuid(cart_id.0);
                text.push_str(id.as_str());
                text.push_str(" is not unique.");
                text
            },
            CartError::CartDoesNotExist(cart_id) => {
                let mut text = "Cart with ID ".to_owned();
                let id = print_uuid(cart_id.0);
                text.push_str(id.as_str());
                text.push_str(" does not exist.");
                text
            },
            CartError::CannotAddItemCartFull => {
                "Cannot add item. Cart is full (max 3 items).".to_owned()
            },
            CartError::CannotRemoveItem => "Cannot remove item. Item not in cart.".to_owned(),
            CartError::CannotSubmitEmptyCart => "Cannot submit an empty cart.".to_owned(),
            CartError::CannotSubmitCartTwice => "Cannot submit cart twice.".to_owned(),
            CartError::CartCannotBeAltered => {
                "Cart has been submitted. Cannot be altered.".to_owned()
            },
        }
    }
}

} // verus!
