use cart_server::domain::cart::{CartId, InvalidUuidText, ItemId, ProductId, UuidNotCompatible};
use cart_server::subsystems::work_queue::TaskId;
use uuid::Uuid;

#[test]
fn confirm_v7_uuid_can_be_converted_to_product_id() {
    let uuid = Uuid::now_v7();
    assert!(ProductId::try_from(uuid.as_u128()).is_ok())
}

#[test]
fn confirm_v4_uuid_cannot_be_converted_to_product_id() {
    let uuid = Uuid::new_v4();
    assert!(ProductId::try_from(uuid.as_u128()).is_err())
}

#[test]
fn a_refused_identifier_is_handed_back() {
    let uuid = Uuid::new_v4();
    assert_eq!(CartId::try_from(uuid.as_u128()), Err(UuidNotCompatible(uuid.as_u128())));
    assert_eq!(ItemId::try_from(0), Err(UuidNotCompatible(0)));
    assert_eq!(
        UuidNotCompatible(uuid.as_u128()).to_string(),
        format!("Uuid {} is not compatible. Version 7 Uuid is required.", uuid)
    );
}

#[test]
fn an_accepted_identifier_keeps_its_value() {
    let bits: u128 = 0x0192_0000_0000_7000_8000_0000_0000_0001;
    assert_eq!(CartId::try_from(bits), Ok(CartId(bits)));
    assert_eq!(CartId(bits).as_u128(), bits);
    assert_eq!(CartId(bits).to_string(), "01920000-0000-7000-8000-000000000001");
}

#[test]
fn the_version_is_read_from_the_seventh_byte() {
    let v1: u128 = 0x0192_0000_0000_1000_8000_0000_0000_0001;
    let v8: u128 = 0x0192_0000_0000_8000_8000_0000_0000_0001;
    let seven_elsewhere: u128 = 0x7777_7777_7777_6777_7777_7777_7777_7777;
    assert!(ProductId::try_from(v1).is_err());
    assert!(ProductId::try_from(v8).is_err());
    assert!(ProductId::try_from(seven_elsewhere).is_err());
}

#[test]
fn new_identifiers_are_version_7_and_differ() {
    let a = CartId::new();
    let b = CartId::new();
    assert_ne!(a, b);
    assert_eq!(Uuid::from_u128(a.as_u128()).get_version_num(), 7);
    assert_eq!(Uuid::from_u128(ItemId::new().as_u128()).get_version_num(), 7);
    assert_eq!(Uuid::from_u128(ProductId::new().as_u128()).get_version_num(), 7);
    assert_eq!(Uuid::from_u128(TaskId::new().as_u128()).get_version_num(), 7);
    assert!(CartId::try_from(a.as_u128()).is_ok());
}

#[test]
fn the_default_identifier_is_nil() {
    assert_eq!(CartId::default(), CartId(0));
    assert_eq!(ItemId::default().to_string(), "00000000-0000-0000-0000-000000000000");
}

#[test]
fn identifiers_are_read_from_text() {
    let uuid = Uuid::now_v7();
    assert_eq!(CartId::from_str(&uuid.to_string()), Ok(CartId(uuid.as_u128())));
    assert_eq!(
        ItemId::from_str("550e8400-e29b-41d4-a716-446655440000"),
        Ok(ItemId(0x550e8400_e29b_41d4_a716_446655440000))
    );
    assert_eq!(
        ProductId::from_str("550e8400e29b41d4a716446655440000"),
        Ok(ProductId(0x550e8400_e29b_41d4_a716_446655440000))
    );
    assert_eq!(TaskId::from_str("not a uuid"), Err(InvalidUuidText));
    assert_eq!(CartId::from_str(""), Err(InvalidUuidText));
    let id = ProductId::new();
    assert_eq!(ProductId::from_str(&id.to_string()), Ok(id));
}
