//! The two inventories of a machine: coins by denomination and products by
//! name. Each is an ordered map from a key to a count; a count of zero means
//! that the key is known but depleted, which differs from a key that was
//! never stocked.

use crate::money::{
    lemma_occurrences_prefix, lemma_occurrences_push, occurrences, Coin, Money,
};
use crate::product::{Product, ProductName, ProductPrice};
use std::collections::BTreeMap;
use vstd::prelude::*;

verus! {

/// The number of coins of one denomination in a coin inventory; zero for a
/// denomination that was never stocked.
pub open spec fn held(stock: Map<Coin, nat>, coin: Coin) -> nat {
    if stock.contains_key(coin) {
        stock[coin]
    } else {
        0
    }
}

/// The inventory after one more `coin` went in.
pub open spec fn deposit_one(stock: Map<Coin, nat>, coin: Coin) -> Map<Coin, nat> {
    stock.insert(coin, held(stock, coin) + 1)
}

/// The inventory after every coin of `coins` went in.
pub open spec fn deposit(stock: Map<Coin, nat>, coins: Seq<Coin>) -> Map<Coin, nat> {
    Map::new(
        |coin: Coin| stock.contains_key(coin) || occurrences(coins, coin) > 0,
        |coin: Coin| held(stock, coin) + occurrences(coins, coin),
    )
}

/// Whether every count of the inventory stays within the machine's integers
/// once the coins of `coins` have gone in.
pub open spec fn fits(stock: Map<Coin, nat>, coins: Seq<Coin>) -> bool {
    forall|coin: Coin| #[trigger] held(stock, coin) + occurrences(coins, coin) <= usize::MAX
}

/// Whether the inventory holds every coin of `coins`, counted by
/// denomination.
pub open spec fn covers(stock: Map<Coin, nat>, coins: Seq<Coin>) -> bool {
    forall|coin: Coin| occurrences(coins, coin) <= #[trigger] held(stock, coin)
}

/// The inventory after every coin of `coins` left it. Denominations stay
/// known when their count drops to zero.
pub open spec fn withdraw(stock: Map<Coin, nat>, coins: Seq<Coin>) -> Map<Coin, nat> {
    Map::new(
        |coin: Coin| stock.contains_key(coin),
        |coin: Coin| (stock[coin] - occurrences(coins, coin)) as nat,
    )
}

/// The entry of one denomination in a listing: nothing if it was never
/// stocked.
pub open spec fn coin_entry(stock: Map<Coin, nat>, coin: Coin) -> Seq<(Coin, nat)> {
    if stock.contains_key(coin) {
        seq![(coin, stock[coin])]
    } else {
        Seq::empty()
    }
}

/// The entries of the denominations below position `rank`, ascending.
pub open spec fn coin_listing_upto(stock: Map<Coin, nat>, rank: nat) -> Seq<(Coin, nat)>
    decreases rank,
{
    if rank == 0 {
        Seq::empty()
    } else {
        let before = coin_listing_upto(stock, (rank - 1) as nat);
        match Coin::at_rank((rank - 1) as nat) {
            Some(coin) => before + coin_entry(stock, coin),
            None => before,
        }
    }
}

/// The inventory as a list of denomination and count, by face value
/// ascending.
pub open spec fn coin_listing(stock: Map<Coin, nat>) -> Seq<(Coin, nat)> {
    coin_listing_upto(stock, 6)
}

/// The coins a machine holds, by denomination.
#[derive(Debug)]
pub struct CoinStock {
    slots: BTreeMap<u8, usize>,
}

impl View for CoinStock {
    type V = Map<Coin, nat>;

    closed spec fn view(&self) -> Map<Coin, nat> {
        Map::new(
            |coin: Coin| self.slots@.contains_key(coin.rank() as u8),
            |coin: Coin| self.slots@[coin.rank() as u8] as nat,
        )
    }
}

impl Clone for CoinStock {
    fn clone(&self) -> (copy: Self)
        ensures
            copy@ == self@,
    {
        CoinStock { slots: self.slots.clone() }
    }
}

impl Default for CoinStock {
    fn default() -> (stock: Self)
        ensures
            stock@ == Map::<Coin, nat>::empty(),
    {
        CoinStock::new()
    }
}

impl CoinStock {
    /// An inventory that knows no denomination.
    pub fn new() -> (stock: Self)
        ensures
            stock@ == Map::<Coin, nat>::empty(),
    {
        let stock = CoinStock { slots: BTreeMap::new() };
        assert(stock@ =~= Map::<Coin, nat>::empty());
        stock
    }

    /// Every count of an inventory is within the machine's integers.
    pub proof fn lemma_bounded(&self)
        ensures
            fits(self@, Seq::<Coin>::empty()),
    {
    }

    /// The count of one denomination, or `None` if it was never stocked.
    pub fn count(&self, coin: Coin) -> (count: Option<usize>)
        ensures
            count is Some <==> self@.contains_key(coin),
            count matches Some(n) ==> n as nat == self@[coin],
    {
        let key: u8 = coin.index();
        match self.slots.get(&key) {
            Some(n) => Some(*n),
            None => None,
        }
    }

    /// Sets the count of one denomination, stocking it if need be.
    pub fn set(&mut self, coin: Coin, count: usize)
        ensures
            final(self)@ == old(self)@.insert(coin, count as nat),
    {
        let key: u8 = coin.index();
        self.slots.insert(key, count);
        assert(final(self)@ =~= old(self)@.insert(coin, count as nat)) by {
            assert forall|c: Coin| c != coin implies c.rank() as u8 != key by {}
        }
    }

    /// Puts one coin in.
    pub fn add(&mut self, coin: Coin)
        requires
            held(old(self)@, coin) < usize::MAX,
        ensures
            final(self)@ == deposit_one(old(self)@, coin),
    {
        let next: usize = match self.count(coin) {
            Some(n) => n + 1,
            None => 1,
        };
        self.set(coin, next);
    }

    /// Whether every count stays within the machine's integers once the
    /// coins of `coins` have gone in.
    pub fn has_room_for(&self, coins: &Money) -> (ok: bool)
        ensures
            ok == fits(self@, coins@),
    {
        let mut i: u8 = 0;
        while i < 6
            invariant
                i <= 6,
                forall|coin: Coin|
                    coin.rank() < i ==> #[trigger] held(self@, coin) + occurrences(coins@, coin)
                        <= usize::MAX,
            decreases 6 - i,
        {
            if let Some(coin) = Coin::from_index(i) {
                let stocked: usize = match self.count(coin) {
                    Some(n) => n,
                    None => 0,
                };
                if stocked.checked_add(coins.count(coin)).is_none() {
                    assert(held(self@, coin) + occurrences(coins@, coin) > usize::MAX);
                    return false;
                }
                assert forall|other: Coin| other.rank() < i + 1 implies #[trigger] held(
                    self@,
                    other,
                ) + occurrences(coins@, other) <= usize::MAX by {
                    if other.rank() == i {
                        assert(other == coin);
                    }
                }
            }
            i += 1;
        }
        assert forall|coin: Coin| #[trigger]
            held(self@, coin) + occurrences(coins@, coin) <= usize::MAX by {
            assert(coin.rank() < 6);
        }
        true
    }

    /// Puts the coins of `coins` in.
    pub fn add_all(&mut self, coins: &Vec<Coin>)
        requires
            fits(old(self)@, coins@),
        ensures
            final(self)@ == deposit(old(self)@, coins@),
    {
        let mut i: usize = 0;
        assert(self@ =~= deposit(old(self)@, coins@.take(0)));
        while i < coins.len()
            invariant
                i <= coins@.len(),
                fits(old(self)@, coins@),
                self@ == deposit(old(self)@, coins@.take(i as int)),
            decreases coins@.len() - i,
        {
            let coin = coins[i];
            proof {
                let seen = coins@.take(i as int);
                assert(coins@.take(i as int + 1) =~= seen.push(coin));
                assert forall|c: Coin|
                    occurrences(seen.push(coin), c) == occurrences(seen, c) + if coin == c {
                        1nat
                    } else {
                        0nat
                    } by {
                    lemma_occurrences_push(seen, coin, c);
                }
                lemma_occurrences_prefix(coins@, i as int + 1, coin);
                assert(held(old(self)@, coin) + occurrences(coins@, coin) <= usize::MAX);
                assert(deposit_one(deposit(old(self)@, seen), coin) =~= deposit(
                    old(self)@,
                    seen.push(coin),
                ));
            }
            self.add(coin);
            i += 1;
        }
        assert(coins@.take(i as int) =~= coins@);
    }

    /// The inventory as a list of denomination and count, by face value
    /// ascending.
    pub fn entries(&self) -> (list: Vec<(Coin, usize)>)
        ensures
            list@.map_values(|e: (Coin, usize)| (e.0, e.1 as nat)) == coin_listing(self@),
    {
        let mut list: Vec<(Coin, usize)> = Vec::new();
        let mut i: u8 = 0;
        while i < 6
            invariant
                i <= 6,
                list@.map_values(|e: (Coin, usize)| (e.0, e.1 as nat)) == coin_listing_upto(
                    self@,
                    i as nat,
                ),
            decreases 6 - i,
        {
            let ghost before = list@;
            if let Some(coin) = Coin::from_index(i) {
                if let Some(n) = self.count(coin) {
                    list.push((coin, n));
                    assert(list@.map_values(|e: (Coin, usize)| (e.0, e.1 as nat))
                        =~= before.map_values(|e: (Coin, usize)| (e.0, e.1 as nat)) + coin_entry(
                        self@,
                        coin,
                    ));
                } else {
                    assert(before + Seq::<(Coin, usize)>::empty() =~= before);
                    assert(coin_listing_upto(self@, i as nat) + coin_entry(self@, coin)
                        =~= coin_listing_upto(self@, i as nat));
                }
            }
            i += 1;
        }
        list
    }
}

/// What a product inventory holds under one name: the product as it was
/// first stocked, and how many are left.
pub type Shelf = (Product, nat);

/// The number of items left under one name; zero for a name that was never
/// stocked.
pub open spec fn shelved(stock: Map<ProductName, Shelf>, name: ProductName) -> nat {
    if stock.contains_key(name) {
        stock[name].1
    } else {
        0
    }
}

/// The inventory after one more `product` went in. A name that is already
/// known keeps the product it was first stocked with.
pub open spec fn stock_one(stock: Map<ProductName, Shelf>, product: Product) -> Map<
    ProductName,
    Shelf,
> {
    if stock.contains_key(product.name) {
        stock.insert(product.name, (stock[product.name].0, stock[product.name].1 + 1))
    } else {
        stock.insert(product.name, (product, 1))
    }
}

/// The inventory after the products of `products` went in, one after the
/// other.
pub open spec fn stock_all(stock: Map<ProductName, Shelf>, products: Seq<Product>) -> Map<
    ProductName,
    Shelf,
>
    decreases products.len(),
{
    if products.len() == 0 {
        stock
    } else {
        stock_one(stock_all(stock, products.drop_last()), products.last())
    }
}

/// How many products of `products` go by `name`.
pub open spec fn named(products: Seq<Product>, name: ProductName) -> nat
    decreases products.len(),
{
    if products.len() == 0 {
        0
    } else {
        named(products.drop_last(), name) + if products.last().name == name {
            1nat
        } else {
            0nat
        }
    }
}

/// Whether every count of the inventory stays within the machine's integers
/// once the products of `products` have gone in.
pub open spec fn room(stock: Map<ProductName, Shelf>, products: Seq<Product>) -> bool {
    forall|name: ProductName| #[trigger] shelved(stock, name) + named(products, name) <= usize::MAX
}

/// Stocking products raises the count under each name by the number of
/// products of that name, whatever their order.
pub proof fn lemma_stock_all_counts(
    stock: Map<ProductName, Shelf>,
    products: Seq<Product>,
    name: ProductName,
)
    ensures
        shelved(stock_all(stock, products), name) == shelved(stock, name) + named(products, name),
    decreases products.len(),
{
    if products.len() > 0 {
        lemma_stock_all_counts(stock, products.drop_last(), name);
    }
}

/// A prefix holds no more products of a name than the whole.
pub proof fn lemma_named_prefix(products: Seq<Product>, len: int, name: ProductName)
    requires
        0 <= len <= products.len(),
    ensures
        named(products.take(len), name) <= named(products, name),
    decreases products.len(),
{
    if len < products.len() {
        lemma_named_prefix(products.drop_last(), len, name);
        assert(products.drop_last().take(len) =~= products.take(len));
    } else {
        assert(products.take(len) =~= products);
    }
}

/// The inventory after one item of `name` left it.
pub open spec fn sell_one(stock: Map<ProductName, Shelf>, name: ProductName) -> Map<
    ProductName,
    Shelf,
> {
    stock.insert(name, (stock[name].0, (stock[name].1 - 1) as nat))
}

/// The entry of one name in a listing: nothing if it was never stocked.
pub open spec fn product_entry(stock: Map<ProductName, Shelf>, name: ProductName) -> Seq<Shelf> {
    if stock.contains_key(name) {
        seq![stock[name]]
    } else {
        Seq::empty()
    }
}

/// The entries of the names below position `rank`, in listing order.
pub open spec fn product_listing_upto(stock: Map<ProductName, Shelf>, rank: nat) -> Seq<Shelf>
    decreases rank,
{
    if rank == 0 {
        Seq::empty()
    } else {
        let before = product_listing_upto(stock, (rank - 1) as nat);
        match ProductName::at_rank((rank - 1) as nat) {
            Some(name) => before + product_entry(stock, name),
            None => before,
        }
    }
}

/// The inventory as a list of product and count, in the order of the names.
pub open spec fn product_listing(stock: Map<ProductName, Shelf>) -> Seq<Shelf> {
    product_listing_upto(stock, 3)
}

/// Whether every shelf holds a product of the name it stands under.
pub open spec fn shelves_named(stock: Map<ProductName, Shelf>) -> bool {
    forall|name: ProductName| #[trigger] stock.contains_key(name) ==> stock[name].0.name == name
}

/// The products a machine holds, by name.
#[derive(Debug)]
pub struct ProductStock {
    shelves: BTreeMap<u8, (ProductPrice, usize)>,
}

impl View for ProductStock {
    type V = Map<ProductName, Shelf>;

    closed spec fn view(&self) -> Map<ProductName, Shelf> {
        Map::new(
            |name: ProductName| self.shelves@.contains_key(name.rank() as u8),
            |name: ProductName|
                (
                    Product { name, price: self.shelves@[name.rank() as u8].0 },
                    self.shelves@[name.rank() as u8].1 as nat,
                ),
        )
    }
}

impl Clone for ProductStock {
    fn clone(&self) -> (copy: Self)
        ensures
            copy@ == self@,
    {
        ProductStock { shelves: self.shelves.clone() }
    }
}

impl Default for ProductStock {
    fn default() -> (stock: Self)
        ensures
            stock@ == Map::<ProductName, Shelf>::empty(),
    {
        ProductStock::new()
    }
}

impl ProductStock {
    /// An inventory that knows no product.
    pub fn new() -> (stock: Self)
        ensures
            stock@ == Map::<ProductName, Shelf>::empty(),
    {
        let stock = ProductStock { shelves: BTreeMap::new() };
        assert(stock@ =~= Map::<ProductName, Shelf>::empty());
        stock
    }

    /// Every shelf of an inventory holds a product of the name it stands
    /// under.
    pub proof fn lemma_shelves_named(&self)
        ensures
            shelves_named(self@),
    {
    }

    /// The product stocked under `name` and how many are left, or `None` if
    /// the name was never stocked.
    pub fn get(&self, name: ProductName) -> (shelf: Option<(Product, usize)>)
        ensures
            shelf is Some <==> self@.contains_key(name),
            shelf matches Some(s) ==> s.0 == self@[name].0 && s.1 as nat == self@[name].1,
    {
        let key: u8 = name.index();
        match self.shelves.get(&key) {
            Some(slot) => Some((Product::new(name, slot.0), slot.1)),
            None => None,
        }
    }

    /// Puts one product in.
    pub fn add(&mut self, product: Product)
        requires
            shelved(old(self)@, product.name) < usize::MAX,
        ensures
            final(self)@ == stock_one(old(self)@, product),
    {
        let key: u8 = product.name().index();
        let slot: (ProductPrice, usize) = match self.shelves.get(&key) {
            Some(slot) => (slot.0, slot.1 + 1),
            None => (product.price(), 1),
        };
        self.shelves.insert(key, slot);
        assert(final(self)@ =~= stock_one(old(self)@, product)) by {
            assert forall|n: ProductName| n != product.name implies n.rank() as u8 != key by {}
        }
    }

    /// Puts the products of `products` in, one after the other.
    pub fn add_all(&mut self, products: &Vec<Product>)
        requires
            room(old(self)@, products@),
        ensures
            final(self)@ == stock_all(old(self)@, products@),
    {
        let mut i: usize = 0;
        while i < products.len()
            invariant
                i <= products@.len(),
                room(old(self)@, products@),
                self@ == stock_all(old(self)@, products@.take(i as int)),
            decreases products@.len() - i,
        {
            let product = products[i];
            proof {
                let seen = products@.take(i as int);
                assert(products@.take(i as int + 1).drop_last() =~= seen);
                lemma_stock_all_counts(old(self)@, seen, product.name);
                lemma_named_prefix(products@, i as int, product.name);
                lemma_named_prefix(products@, i as int + 1, product.name);
                assert(shelved(old(self)@, product.name) + named(products@, product.name)
                    <= usize::MAX);
            }
            self.add(product);
            i += 1;
        }
        assert(products@.take(i as int) =~= products@);
    }

    /// Takes one item of `name` out.
    pub fn remove_one(&mut self, name: ProductName)
        requires
            shelved(old(self)@, name) > 0,
        ensures
            final(self)@ == sell_one(old(self)@, name),
    {
        let key: u8 = name.index();
        let slot: (ProductPrice, usize) = match self.shelves.get(&key) {
            Some(slot) => (slot.0, slot.1 - 1),
            None => (0, 0),
        };
        self.shelves.insert(key, slot);
        assert(final(self)@ =~= sell_one(old(self)@, name)) by {
            assert forall|n: ProductName| n != name implies n.rank() as u8 != key by {}
        }
    }

    /// The inventory as a list of product and count, in the order of the
    /// names.
    pub fn entries(&self) -> (list: Vec<(Product, usize)>)
        ensures
            list@.map_values(|e: (Product, usize)| (e.0, e.1 as nat)) == product_listing(self@),
    {
        let mut list: Vec<(Product, usize)> = Vec::new();
        let mut i: u8 = 0;
        while i < 3
            invariant
                i <= 3,
                list@.map_values(|e: (Product, usize)| (e.0, e.1 as nat)) == product_listing_upto(
                    self@,
                    i as nat,
                ),
            decreases 3 - i,
        {
            let ghost before = list@;
            if let Some(name) = ProductName::from_index(i) {
                if let Some(shelf) = self.get(name) {
                    list.push(shelf);
                    assert(list@.map_values(|e: (Product, usize)| (e.0, e.1 as nat))
                        =~= before.map_values(|e: (Product, usize)| (e.0, e.1 as nat))
                        + product_entry(self@, name));
                } else {
                    assert(product_listing_upto(self@, i as nat) + product_entry(self@, name)
                        =~= product_listing_upto(self@, i as nat));
                }
            }
            i += 1;
        }
        list
    }
}

} // verus!
