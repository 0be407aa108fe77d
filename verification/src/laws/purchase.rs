//! A purchase from the choice of a product to its end: what is kept when a
//! step fails, and what a completed sale moves.

use crate::inventory::{deposit, held, shelved};
use crate::laws::change::lemma_no_change_for_nothing;
use crate::machine::{
    buys, cancels, inserts, selects, Error, Purchase, WaitingForCoinInsertMachine,
    WaitingForProductSelectMachine,
};
use crate::money::{
    change, lemma_change, lemma_total_concat, lemma_total_positive, occurrences, total, Coin,
};
use crate::product::ProductName;
use vstd::prelude::*;

verus! {

/// Asking for a product of which none is left changes nothing: the machine
/// that comes back inside the error is the machine that was asked.
pub proof fn law_select_depleted(
    before: WaitingForProductSelectMachine,
    name: ProductName,
    outcome: Result<WaitingForCoinInsertMachine, Error>,
)
    requires
        before.stock().contains_key(name),
        before.stock()[name].1 == 0,
        selects(before, name, outcome),
    ensures
        outcome == Err::<WaitingForCoinInsertMachine, Error>(Error::NotEnoughProduct(before, name)),
{
}

/// A purchase that is short of money loses nothing: the machine comes back
/// as it was, and once coins worth at least what was missing have been
/// added, the purchase goes through whenever the machine can give the
/// change; it always can when exactly the missing amount was added.
pub proof fn law_retry_after_shortfall(
    before: WaitingForCoinInsertMachine,
    first: Result<Purchase, Error>,
    more: Seq<Coin>,
    topped_up: WaitingForCoinInsertMachine,
    second: Result<Purchase, Error>,
)
    requires
        before.wf(),
        total(before.inserted()) < before.selected().price,
        buys(before, first),
        first is Err,
        first->Err_0 is NotEnoughMoneyForProduct,
        inserts(first->Err_0->NotEnoughMoneyForProduct_0, more, topped_up),
        total(more) >= first->Err_0->NotEnoughMoneyForProduct_2,
        buys(topped_up, second),
        total(more) == first->Err_0->NotEnoughMoneyForProduct_2 || change(
            deposit(topped_up.till(), topped_up.inserted()),
            (total(topped_up.inserted()) - topped_up.selected().price) as nat,
        ) is Some,
    ensures
        first->Err_0->NotEnoughMoneyForProduct_0 == before,
        first->Err_0->NotEnoughMoneyForProduct_2 == before.selected().price - total(
            before.inserted(),
        ),
        topped_up.wf(),
        second is Ok,
        second->Ok_0.1 == before.selected(),
{
    lemma_total_concat(before.inserted(), more);
    if total(more) == first->Err_0->NotEnoughMoneyForProduct_2 {
        lemma_no_change_for_nothing(deposit(topped_up.till(), topped_up.inserted()));
    }
}

/// Giving a purchase up leaves the coins of the machine as they were before
/// the customer inserted any: the inserted coins are not taken in.
pub proof fn law_cancel_discards(
    before: WaitingForCoinInsertMachine,
    coins: Seq<Coin>,
    paying: WaitingForCoinInsertMachine,
    after: WaitingForProductSelectMachine,
)
    requires
        inserts(before, coins, paying),
        cancels(paying, after),
    ensures
        after.till() == before.till(),
        after.stock() == before.stock(),
{
}

/// The change of a completed sale, as a sequence of coins.
pub open spec fn change_of(purchase: Purchase) -> Seq<Coin> {
    match purchase.2 {
        Some(money) => money@,
        None => Seq::empty(),
    }
}

/// A completed sale takes exactly one item of the sold product off the
/// shelves and none of any other; the machine gains every inserted coin and
/// loses every coin of the change; and the change sums to what was paid
/// beyond the price.
pub proof fn law_sale_accounts(
    before: WaitingForCoinInsertMachine,
    outcome: Result<Purchase, Error>,
    name: ProductName,
    coin: Coin,
)
    requires
        before.wf(),
        buys(before, outcome),
        outcome is Ok,
    ensures
        outcome->Ok_0.1 == before.selected(),
        shelved(outcome->Ok_0.0.stock(), name) == shelved(before.stock(), name) - if name
            == before.selected().name {
            1int
        } else {
            0int
        },
        held(outcome->Ok_0.0.till(), coin) == held(before.till(), coin) + occurrences(
            before.inserted(),
            coin,
        ) - occurrences(change_of(outcome->Ok_0), coin),
        total(change_of(outcome->Ok_0)) == total(before.inserted()) - before.selected().price,
{
    let paid = total(before.inserted());
    let price = before.selected().price as nat;
    let merged = deposit(before.till(), before.inserted());
    assert(paid >= price);
    let coins = change(merged, (paid - price) as nat)->Some_0;
    lemma_change(merged, (paid - price) as nat);
    assert(occurrences(coins, coin) <= held(merged, coin));
    if paid == price {
        if coins.len() > 0 {
            lemma_total_positive(coins);
        }
        assert(coins =~= Seq::<Coin>::empty());
    } else {
        assert(outcome->Ok_0.2 is Some);
    }
    assert(change_of(outcome->Ok_0) == coins);
}

} // verus!
