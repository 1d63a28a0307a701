use vstd::prelude::*;

verus! {

/// The ways a cart operation can fail. Every failure leaves the cart
/// unchanged and usable; the caller decides how to surface it.
#[derive(Clone, Copy, Debug, PartialEq, Eq, Structural)]
pub enum CartError {
    /// Raised when an item with price zero is added.
    ZeroPrice,
    /// Raised when an item is deleted from a cart that holds nothing.
    EmptyCart,
    /// Raised when no item in the cart carries the requested identifier.
    ItemNotFound,
    /// Raised when a discount of more than one hundred percent is requested.
    InvalidDiscount,
}

impl CartError {
    /// The human-readable text of each error.
    pub open spec fn spec_message(&self) -> Seq<char> {
        match self {
            CartError::ZeroPrice => "Price cannot be zero"@,
            CartError::EmptyCart => "Cart is empty"@,
            CartError::ItemNotFound => "Item not found"@,
            CartError::InvalidDiscount => "Discount percentage greater than 100"@,
        }
    }

    /// Returns the human-readable text of this error.
    pub fn message(&self) -> (r: &'static str)
        ensures
            r@ == self.spec_message(),
    {
        match self {
            CartError::ZeroPrice => "Price cannot be zero",
            CartError::EmptyCart => "Cart is empty",
            CartError::ItemNotFound => "Item not found",
            CartError::InvalidDiscount => "Discount percentage greater than 100",
        }
    }
}

/// The sum of the prices of all items in the sequence, as an unbounded
/// integer; zero when the sequence is empty.
pub open spec fn sum_prices(items: Seq<Item>) -> int
    decreases items.len(),
{
    if items.len() == 0 {
        0
    } else {
        sum_prices(items.drop_last()) + items.last().price
    }
}

/// Some item in the sequence carries the given identifier.
pub open spec fn has_id(items: Seq<Item>, id: u32) -> bool {
    exists|i: int| 0 <= i < items.len() && (#[trigger] items[i]).id == id
}

/// `after` is `before` with exactly its first item of the given identifier
/// taken out; everything before and after that item keeps its place.
pub open spec fn removes_first_with_id(before: Seq<Item>, after: Seq<Item>, id: u32) -> bool {
    exists|k: int|
        0 <= k < before.len() && (#[trigger] before[k]).id == id && (forall|j: int|
            0 <= j < k ==> (#[trigger] before[j]).id != id) && after == before.remove(k)
}

/// Extending a prefix by one item adds that item's price to the prefix sum.
proof fn lemma_sum_take_succ(items: Seq<Item>, i: int)
    requires
        0 <= i < items.len(),
    ensures
        sum_prices(items.take(i + 1)) == sum_prices(items.take(i)) + items[i].price,
{
    assert(items.take(i + 1).drop_last() =~= items.take(i));
    assert(items.take(i + 1).last() == items[i]);
}

/// A prefix sum never exceeds the sum of the whole sequence, since every
/// price is non-negative.
proof fn lemma_sum_take_le(items: Seq<Item>, i: int)
    requires
        0 <= i <= items.len(),
    ensures
        sum_prices(items.take(i)) <= sum_prices(items),
    decreases items.len() - i,
{
    if i == items.len() {
        assert(items.take(i) =~= items);
    } else {
        lemma_sum_take_succ(items, i);
        lemma_sum_take_le(items, i + 1);
    }
}

/// A priced, named, identified unit that can be placed into a cart.
/// Prices are non-negative integers in the smallest currency unit.
#[derive(Hash)]
pub struct Item {
    pub id: u32,
    pub name: String,
    pub price: u32,
}

/// A per-owner container of purchasable items, kept in insertion order.
/// Every item that enters through `add_item` has a price greater than zero.
#[allow(dead_code)]
pub struct ShoppingCart {
    id: u32,
    owner: u32,
    cart: Vec<Item>,
}

impl ShoppingCart {
    /// The cart's own identifier.
    pub closed spec fn spec_id(&self) -> u32 {
        self.id
    }

    /// The identifier of the cart's owner.
    pub closed spec fn spec_owner(&self) -> u32 {
        self.owner
    }

    /// The items currently held, in insertion order.
    pub closed spec fn items(&self) -> Seq<Item> {
        self.cart@
    }

    /// Every item held has a price greater than zero. Established on
    /// creation and preserved by every operation.
    pub open spec fn wf(&self) -> bool {
        forall|i: int| 0 <= i < self.items().len() ==> (#[trigger] self.items()[i]).price > 0
    }

    /// Creates an empty cart for the given cart and owner identifiers.
    pub fn new(id: u32, owner: u32) -> (cart: Self)
        ensures
            cart.spec_id() == id,
            cart.spec_owner() == owner,
            cart.items() == Seq::<Item>::empty(),
            cart.wf(),
    {
        Self { id, owner, cart: Vec::new() }
    }

    /// Returns the number of items currently held.
    pub fn total_items(&self) -> (count: usize)
        ensures
            count == self.items().len(),
    {
        self.cart.len()
    }

    /// Appends an item to the end of the cart and returns the new item
    /// count. An item priced zero is rejected and the cart is unchanged;
    /// any positive price is accepted, duplicate identifiers included.
    pub fn add_item(&mut self, item: Item) -> (result: Result<usize, CartError>)
        ensures
            item.price == 0 ==> result == Err::<usize, CartError>(CartError::ZeroPrice)
                && *final(self) == *old(self),
            item.price > 0 ==> {
                &&& final(self).items() == old(self).items().push(item)
                &&& final(self).items().len() == old(self).items().len() + 1
                &&& result is Ok
                &&& result->Ok_0 == final(self).items().len()
            },
            final(self).spec_id() == old(self).spec_id(),
            final(self).spec_owner() == old(self).spec_owner(),
            old(self).wf() ==> final(self).wf(),
    {
        if item.price == 0 {
            return Err(CartError::ZeroPrice);
        }
        self.cart.push(item);
        Ok(self.cart.len())
    }

    /// Scans the cart in insertion order and removes the first item whose
    /// identifier matches, shifting later items down, and returns the new
    /// item count. Fails on an empty cart, and when no item matches; either
    /// failure leaves the cart unchanged.
    pub fn delete_item(&mut self, needle: u32) -> (result: Result<usize, CartError>)
        ensures
            old(self).items().len() == 0 ==> result == Err::<usize, CartError>(
                CartError::EmptyCart,
            ) && *final(self) == *old(self),
            old(self).items().len() > 0 && !has_id(old(self).items(), needle) ==> result
                == Err::<usize, CartError>(CartError::ItemNotFound) && *final(self) == *old(self),
            old(self).items().len() > 0 && has_id(old(self).items(), needle) ==> {
                &&& removes_first_with_id(old(self).items(), final(self).items(), needle)
                &&& final(self).items().len() == old(self).items().len() - 1
                &&& result is Ok
                &&& result->Ok_0 == final(self).items().len()
            },
            final(self).spec_id() == old(self).spec_id(),
            final(self).spec_owner() == old(self).spec_owner(),
            old(self).wf() ==> final(self).wf(),
    {
        if self.cart.len() == 0 {
            return Err(CartError::EmptyCart);
        }
        let ghost orig: ShoppingCart = *self;
        let mut idx: usize = 0;
        while idx < self.cart.len()
            invariant
                idx <= self.cart.len(),
                *self == orig,
                orig == *old(self),
                forall|j: int| 0 <= j < idx ==> (#[trigger] self.cart@[j]).id != needle,
            decreases self.cart.len() - idx,
        {
            if self.cart[idx].id == needle {
                self.cart.remove(idx);
                proof {
                    let k = idx as int;
                    assert(orig.items()[k].id == needle);
                    assert(has_id(orig.items(), needle));
                    assert(self.items() == orig.items().remove(k));
                    assert(removes_first_with_id(orig.items(), self.items(), needle));
                    orig.items().remove_ensures(k);
                    if orig.wf() {
                        assert forall|i: int|
                            0 <= i < self.items().len() implies (#[trigger] self.items()[i]).price
                            > 0 by {
                            if i < k {
                                assert(self.items()[i] == orig.items()[i]);
                            } else {
                                assert(self.items()[i] == orig.items()[i + 1]);
                            }
                        }
                    }
                }
                return Ok(self.cart.len());
            }
            idx = idx + 1;
        }
        proof {
            assert forall|i: int|
                0 <= i < self.items().len() implies (#[trigger] self.items()[i]).id != needle by {}
        }
        Err(CartError::ItemNotFound)
    }

    /// Returns the sum of all item prices in the cart; zero when the cart
    /// is empty. Read-only. The sum must fit in the return type.
    pub fn calculate_total_price(&self) -> (total: u32)
        requires
            sum_prices(self.items()) <= u32::MAX,
        ensures
            total == sum_prices(self.items()),
            self.items().len() == 0 ==> total == 0,
    {
        let mut sum: u32 = 0;
        let mut idx: usize = 0;
        while idx < self.cart.len()
            invariant
                idx <= self.cart.len(),
                sum == sum_prices(self.cart@.take(idx as int)),
                sum_prices(self.cart@) <= u32::MAX,
            decreases self.cart.len() - idx,
        {
            proof {
                lemma_sum_take_succ(self.cart@, idx as int);
                lemma_sum_take_le(self.cart@, idx + 1);
            }
            sum = sum + self.cart[idx].price;
            idx = idx + 1;
        }
        proof {
            assert(self.cart@.take(self.cart@.len() as int) =~= self.cart@);
        }
        sum
    }

    /// Returns the cart's total price reduced by the given percentage,
    /// with the discount amount rounded down (truncating integer
    /// division); a percentage over one hundred is rejected. Read-only:
    /// the cart is never changed.
    pub fn apply_discount(&self, percent: u32) -> (result: Result<u32, CartError>)
        requires
            sum_prices(self.items()) <= u32::MAX,
        ensures
            percent > 100 ==> result == Err::<u32, CartError>(CartError::InvalidDiscount),
            percent <= 100 ==> result is Ok && result->Ok_0 == sum_prices(self.items())
                - sum_prices(self.items()) * percent / 100,
            percent == 0 ==> result is Ok && result->Ok_0 == sum_prices(self.items()),
    {
        if percent > 100 {
            return Err(CartError::InvalidDiscount);
        }
        let total: u32 = self.calculate_total_price();
        proof {
            vstd::arithmetic::mul::lemma_mul_inequality(percent as int, 100, total as int);
            vstd::arithmetic::div_mod::lemma_div_is_ordered(
                total as int * percent as int,
                total as int * 100,
                100,
            );
            vstd::arithmetic::div_mod::lemma_div_multiples_vanish(total as int, 100);
            assert(total as int * percent as int / 100 <= total as int);
        }
        let discount: u64 = (total as u64) * (percent as u64) / 100;
        let discounted: u32 = total - (discount as u32);
        Ok(discounted)
    }
}

} // verus!
