//! Stocking: what the shelves and the coin inventory hold after products
//! and coins went in, and that the order in which they went in does not
//! matter.

use crate::inventory::{
    deposit, deposit_one, lemma_stock_all_counts, named, shelved, stock_all, stock_one, Shelf,
};
use crate::money::{lemma_occurrences_push, occurrences, Coin};
use crate::product::{Product, ProductName};
use vstd::prelude::*;

verus! {

/// Stocking the same product `times` times raises the count under its name
/// by `times` and leaves every other name alone.
pub proof fn law_stocking_counts(
    stock: Map<ProductName, Shelf>,
    product: Product,
    times: nat,
    name: ProductName,
)
    ensures
        shelved(stock_all(stock, Seq::new(times, |i: int| product)), name) == shelved(stock, name)
            + if name == product.name {
            times
        } else {
            0
        },
    decreases times,
{
    let all = Seq::new(times, |i: int| product);
    lemma_stock_all_counts(stock, all, name);
    lemma_named_repeated(product, times, name);
}

/// A sequence of one product repeated holds that many products of its name.
pub proof fn lemma_named_repeated(product: Product, times: nat, name: ProductName)
    ensures
        named(Seq::new(times, |i: int| product), name) == if name == product.name {
            times
        } else {
            0
        },
    decreases times,
{
    if times > 0 {
        lemma_named_repeated(product, (times - 1) as nat, name);
        assert(Seq::new(times, |i: int| product).drop_last() =~= Seq::new(
            (times - 1) as nat,
            |i: int| product,
        ));
    }
}

/// Taking one product out of a sequence lowers the number under its name by
/// one and leaves the other names alone.
pub proof fn lemma_named_remove(products: Seq<Product>, at: int, name: ProductName)
    requires
        0 <= at < products.len(),
    ensures
        named(products, name) == named(products.remove(at), name) + if products[at].name == name {
            1nat
        } else {
            0nat
        },
    decreases products.len(),
{
    if at == products.len() - 1 {
        assert(products.remove(at) =~= products.drop_last());
    } else {
        lemma_named_remove(products.drop_last(), at, name);
        assert(products.remove(at).drop_last() =~= products.drop_last().remove(at));
        assert(products.remove(at).last() == products.last());
    }
}

/// Two sequences that hold the same products, in whatever order, hold the
/// same number of products under every name.
pub proof fn lemma_named_reordered(first: Seq<Product>, second: Seq<Product>, name: ProductName)
    requires
        first.to_multiset() == second.to_multiset(),
    ensures
        named(first, name) == named(second, name),
    decreases first.len(),
{
    vstd::seq_lib::to_multiset_len(first);
    vstd::seq_lib::to_multiset_len(second);
    if first.len() > 0 {
        let last = first.last();
        assert(first.contains(last));
        vstd::seq_lib::to_multiset_contains(first, last);
        vstd::seq_lib::to_multiset_contains(second, last);
        let at = choose|at: int| 0 <= at < second.len() && second[at] == last;
        vstd::seq_lib::to_multiset_remove(first, first.len() - 1);
        vstd::seq_lib::to_multiset_remove(second, at);
        assert(first.remove(first.len() - 1) =~= first.drop_last());
        lemma_named_reordered(first.drop_last(), second.remove(at), name);
        lemma_named_remove(second, at, name);
    }
}

/// The order in which products are stocked does not change the count under
/// any name.
pub proof fn law_stocking_order(
    stock: Map<ProductName, Shelf>,
    first: Seq<Product>,
    second: Seq<Product>,
    name: ProductName,
)
    requires
        first.to_multiset() == second.to_multiset(),
    ensures
        shelved(stock_all(stock, first), name) == shelved(stock_all(stock, second), name),
{
    lemma_stock_all_counts(stock, first, name);
    lemma_stock_all_counts(stock, second, name);
    lemma_named_reordered(first, second, name);
}

/// Two products of different names can be stocked in either order: the
/// shelves end up the same.
pub proof fn law_stocking_commutes(stock: Map<ProductName, Shelf>, a: Product, b: Product)
    requires
        a.name != b.name,
    ensures
        stock_one(stock_one(stock, a), b) == stock_one(stock_one(stock, b), a),
{
    assert(stock_one(stock_one(stock, a), b) =~= stock_one(stock_one(stock, b), a));
}

/// Taking one coin out of a sequence lowers the occurrences of its
/// denomination by one and leaves the others alone.
pub proof fn lemma_occurrences_remove(coins: Seq<Coin>, at: int, coin: Coin)
    requires
        0 <= at < coins.len(),
    ensures
        occurrences(coins, coin) == occurrences(coins.remove(at), coin) + if coins[at] == coin {
            1nat
        } else {
            0nat
        },
    decreases coins.len(),
{
    if at == coins.len() - 1 {
        assert(coins.remove(at) =~= coins.drop_last());
    } else {
        lemma_occurrences_remove(coins.drop_last(), at, coin);
        assert(coins.remove(at).drop_last() =~= coins.drop_last().remove(at));
        assert(coins.remove(at).last() == coins.last());
    }
}

/// Two sequences that hold the same coins, in whatever order, hold the same
/// number of coins of every denomination.
pub proof fn lemma_occurrences_reordered(first: Seq<Coin>, second: Seq<Coin>, coin: Coin)
    requires
        first.to_multiset() == second.to_multiset(),
    ensures
        occurrences(first, coin) == occurrences(second, coin),
    decreases first.len(),
{
    vstd::seq_lib::to_multiset_len(first);
    vstd::seq_lib::to_multiset_len(second);
    if first.len() > 0 {
        let last = first.last();
        assert(first.contains(last));
        vstd::seq_lib::to_multiset_contains(first, last);
        vstd::seq_lib::to_multiset_contains(second, last);
        let at = choose|at: int| 0 <= at < second.len() && second[at] == last;
        vstd::seq_lib::to_multiset_remove(first, first.len() - 1);
        vstd::seq_lib::to_multiset_remove(second, at);
        assert(first.remove(first.len() - 1) =~= first.drop_last());
        lemma_occurrences_reordered(first.drop_last(), second.remove(at), coin);
        lemma_occurrences_remove(second, at, coin);
    }
}

/// Putting coins in one by one comes to the same as putting them in
/// together.
pub proof fn law_deposit_one_by_one(stock: Map<Coin, nat>, coins: Seq<Coin>, coin: Coin)
    ensures
        deposit_one(deposit(stock, coins), coin) == deposit(stock, coins.push(coin)),
        deposit(stock, Seq::empty()) == stock,
{
    assert forall|other: Coin|
        occurrences(coins.push(coin), other) == occurrences(coins, other) + if coin == other {
            1nat
        } else {
            0nat
        } by {
        lemma_occurrences_push(coins, coin, other);
    }
    assert(deposit_one(deposit(stock, coins), coin) =~= deposit(stock, coins.push(coin)));
    assert(deposit(stock, Seq::empty()) =~= stock);
}

/// The order in which coins are put in does not change what the machine
/// holds.
pub proof fn law_deposit_order(stock: Map<Coin, nat>, first: Seq<Coin>, second: Seq<Coin>)
    requires
        first.to_multiset() == second.to_multiset(),
    ensures
        deposit(stock, first) == deposit(stock, second),
{
    assert forall|coin: Coin| occurrences(first, coin) == occurrences(second, coin) by {
        lemma_occurrences_reordered(first, second, coin);
    }
    assert(deposit(stock, first) =~= deposit(stock, second));
}

} // verus!
