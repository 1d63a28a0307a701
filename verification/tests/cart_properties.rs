use shopping_cart::{CartError, Item, ShoppingCart};

fn item(id: u32, name: &str, price: u32) -> Item {
    Item {
        id,
        name: name.to_string(),
        price,
    }
}

#[test]
fn add_reports_growing_count() {
    let mut cart = ShoppingCart::new(5, 7);
    assert_eq!(Ok(1), cart.add_item(item(1, "Pen", 3)));
    assert_eq!(Ok(2), cart.add_item(item(2, "Pad", 9)));
    assert_eq!(Ok(3), cart.add_item(item(2, "Pad again", 9)));
    assert_eq!(3, cart.total_items());
}

#[test]
fn zero_price_error_kind() {
    let mut cart = ShoppingCart::new(1, 2);
    let result = cart.add_item(item(8, "Sample", 0));
    assert_eq!(Err(CartError::ZeroPrice), result);
    assert_eq!("Price cannot be zero", CartError::ZeroPrice.message());
    assert_eq!(0, cart.total_items());
}

#[test]
fn empty_cart_error_kind() {
    let mut cart = ShoppingCart::new(1, 2);
    assert_eq!(Err(CartError::EmptyCart), cart.delete_item(1));
    assert_eq!("Cart is empty", CartError::EmptyCart.message());
}

#[test]
fn item_not_found_error_kind() {
    let mut cart = ShoppingCart::new(1, 2);
    let _ = cart.add_item(item(1, "Cup", 40));
    let _ = cart.add_item(item(2, "Bowl", 30));
    let result = cart.delete_item(99);
    assert_eq!(Err(CartError::ItemNotFound), result);
    assert_eq!("Item not found", CartError::ItemNotFound.message());
    assert_eq!(2, cart.total_items());
    assert_eq!(70, cart.calculate_total_price());
}

#[test]
fn invalid_discount_error_kind() {
    let mut cart = ShoppingCart::new(1, 2);
    let _ = cart.add_item(item(1, "Cup", 40));
    assert_eq!(Err(CartError::InvalidDiscount), cart.apply_discount(101));
    assert_eq!(
        "Discount percentage greater than 100",
        CartError::InvalidDiscount.message()
    );
    assert_eq!(40, cart.calculate_total_price());
}

#[test]
fn delete_removes_first_match_only() {
    let mut cart = ShoppingCart::new(1, 2);
    let _ = cart.add_item(item(7, "First", 10));
    let _ = cart.add_item(item(7, "Second", 25));
    let _ = cart.add_item(item(3, "Other", 5));

    assert_eq!(Ok(2), cart.delete_item(7));
    // The first item with id 7 (price 10) is gone; the later duplicate stays.
    assert_eq!(30, cart.calculate_total_price());

    assert_eq!(Ok(1), cart.delete_item(7));
    assert_eq!(5, cart.calculate_total_price());
}

#[test]
fn delete_last_remaining_item() {
    let mut cart = ShoppingCart::new(1, 2);
    let _ = cart.add_item(item(4, "Only", 12));
    assert_eq!(Ok(0), cart.delete_item(4));
    assert_eq!(0, cart.total_items());
    assert_eq!(0, cart.calculate_total_price());
    assert_eq!(Err(CartError::EmptyCart), cart.delete_item(4));
}

#[test]
fn full_discount_gives_zero() {
    let mut cart = ShoppingCart::new(1, 2);
    let _ = cart.add_item(item(1, "Cup", 40));
    let _ = cart.add_item(item(2, "Bowl", 30));
    assert_eq!(Ok(0), cart.apply_discount(100));
}

#[test]
fn discount_rounds_down() {
    let mut cart = ShoppingCart::new(1, 2);
    let _ = cart.add_item(item(1, "Odd", 99));
    // 99 * 33 / 100 truncates to 32, so the discounted total is 67.
    assert_eq!(Ok(67), cart.apply_discount(33));
}

#[test]
fn discount_on_empty_cart() {
    let cart = ShoppingCart::new(1, 2);
    assert_eq!(Ok(0), cart.apply_discount(50));
}

#[test]
fn total_price_at_type_limit() {
    let mut cart = ShoppingCart::new(1, 2);
    let _ = cart.add_item(item(1, "Big", u32::MAX - 1));
    let _ = cart.add_item(item(2, "Small", 1));
    assert_eq!(u32::MAX, cart.calculate_total_price());
    assert_eq!(Ok(2147483648), cart.apply_discount(50));
}
