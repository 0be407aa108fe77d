//! Change: the greedy breakdown of an amount into coins, the change that an
//! inventory gives, and how the two agree.

use crate::inventory::{covers, held, withdraw};
use crate::money::{
    change, change_from, given, greedy, greedy_count, lemma_change, lemma_occurrences_concat,
    lemma_occurrences_push, lemma_occurrences_repeat, occurrences, owed_after, total, Coin,
};
use vstd::prelude::*;

verus! {

/// The greedy breakdown never takes a larger coin after a smaller one.
pub proof fn lemma_greedy_descends(amount: nat, i: int, j: int)
    requires
        0 <= i <= j < greedy(amount).len(),
    ensures
        greedy(amount)[i].face() >= greedy(amount)[j].face(),
    decreases amount,
{
    if amount > 0 {
        let coin = Coin::largest_within(amount);
        let rest = (amount - coin.face()) as nat;
        if i > 0 {
            lemma_greedy_descends(rest, i - 1, j - 1);
        } else if j > 0 {
            lemma_greedy_descends(rest, 0, j - 1);
            assert(greedy(rest)[0] == Coin::largest_within(rest));
        }
    }
}

/// Taking a coin of `face` out of an amount lowers the quotient by `face`
/// by one and leaves the remainder alone.
proof fn lemma_quotient_step(amount: nat, face: nat)
    requires
        face > 0,
        amount >= face,
    ensures
        (amount - face) / (face as int) + 1 == amount / face,
        (amount - face) % (face as int) == amount % face,
{
    let q = amount as int / face as int;
    let r = amount as int % face as int;
    vstd::arithmetic::div_mod::lemma_fundamental_div_mod(amount as int, face as int);
    vstd::arithmetic::div_mod::lemma_mod_pos_bound(amount as int, face as int);
    assert(amount - face == (q - 1) * face + r) by (nonlinear_arith)
        requires
            amount == face * q + r,
    ;
    vstd::arithmetic::div_mod::lemma_fundamental_div_mod_converse(
        amount - face,
        face as int,
        amount as int / face as int - 1,
        amount as int % face as int,
    );
}

/// Taking a multiple of `modulus` out of an amount leaves the remainder by
/// `modulus` alone.
proof fn lemma_remainder_step(amount: nat, modulus: nat, times: nat)
    requires
        modulus > 0,
        amount >= modulus * times,
    ensures
        (amount - modulus * times) % (modulus as int) == amount % modulus,
{
    vstd::arithmetic::div_mod::lemma_mod_multiples_vanish(
        -(times as int),
        amount as int,
        modulus as int,
    );
    assert(modulus * (-(times as int)) == -(modulus * times)) by (nonlinear_arith);
}

/// Taking the largest coin that fits lowers the closed-form count of that
/// denomination by one and leaves the counts of the others alone.
proof fn lemma_count_step(amount: nat, coin: Coin)
    requires
        amount > 0,
    ensures
        greedy_count(amount, coin) == greedy_count(
            (amount - Coin::largest_within(amount).face()) as nat,
            coin,
        ) + if Coin::largest_within(amount) == coin {
            1nat
        } else {
            0nat
        },
{
    let top = Coin::largest_within(amount);
    let rest = (amount - top.face()) as nat;
    if amount >= 50 {
        lemma_quotient_step(amount, 50);
        lemma_remainder_step(amount, 10, 5);
        lemma_remainder_step(amount, 5, 10);
    } else if amount >= 20 {
        vstd::arithmetic::div_mod::lemma_small_mod(amount, 50);
        vstd::arithmetic::div_mod::lemma_small_mod(rest, 50);
        lemma_quotient_step(amount, 20);
        lemma_remainder_step(amount, 10, 2);
        lemma_remainder_step(amount, 5, 4);
    } else if amount >= 10 {
        vstd::arithmetic::div_mod::lemma_small_mod(amount, 50);
        vstd::arithmetic::div_mod::lemma_small_mod(rest, 50);
        vstd::arithmetic::div_mod::lemma_small_mod(amount, 20);
        vstd::arithmetic::div_mod::lemma_small_mod(rest, 20);
        lemma_quotient_step(amount, 10);
        lemma_remainder_step(amount, 5, 2);
    } else if amount >= 5 {
        vstd::arithmetic::div_mod::lemma_small_mod(amount, 10);
        vstd::arithmetic::div_mod::lemma_small_mod(rest, 10);
        lemma_quotient_step(amount, 5);
    } else if amount >= 2 {
        vstd::arithmetic::div_mod::lemma_small_mod(amount, 5);
        vstd::arithmetic::div_mod::lemma_small_mod(rest, 5);
        lemma_quotient_step(amount, 2);
    } else {
        assert(amount == 1 && rest == 0);
    }
}

/// How often the greedy breakdown takes each denomination: as many of the
/// largest as fit, then as many of the next as fit into what is left, and so
/// on down.
pub proof fn lemma_greedy_counts(amount: nat, coin: Coin)
    ensures
        occurrences(greedy(amount), coin) == greedy_count(amount, coin),
    decreases amount,
{
    if amount > 0 {
        let top = Coin::largest_within(amount);
        let rest = (amount - top.face()) as nat;
        lemma_greedy_counts(rest, coin);
        assert(Seq::<Coin>::empty().push(top) =~= seq![top]);
        lemma_occurrences_push(Seq::empty(), top, coin);
        lemma_occurrences_concat(seq![top], greedy(rest), coin);
        lemma_count_step(amount, coin);
    }
}

/// Change that is given is exact and is covered by the inventory: the coins
/// given sum to the amount, and for every denomination the coins left and
/// the coins given together are the coins that were there.
pub proof fn law_change_round_trip(stock: Map<Coin, nat>, amount: nat, coin: Coin)
    requires
        change(stock, amount) is Some,
    ensures
        total(change(stock, amount)->Some_0) == amount,
        held(withdraw(stock, change(stock, amount)->Some_0), coin) + occurrences(
            change(stock, amount)->Some_0,
            coin,
        ) == held(stock, coin),
        withdraw(stock, change(stock, amount)->Some_0).dom() == stock.dom(),
{
    let coins = change(stock, amount)->Some_0;
    lemma_change(stock, amount);
    assert(occurrences(coins, coin) <= held(stock, coin));
    assert(withdraw(stock, coins).dom() =~= stock.dom());
}

/// When nothing is owed, every denomination gives nothing.
pub proof fn lemma_nothing_owed(stock: Map<Coin, nat>, rank: nat)
    requires
        rank <= 6,
    ensures
        owed_after(stock, 0, rank) == 0,
        change_from(stock, 0, rank) == Seq::<Coin>::empty(),
    decreases 6 - rank,
{
    if rank < 6 {
        lemma_nothing_owed(stock, rank + 1);
        let coin = Coin::at_rank(rank)->Some_0;
        assert(given(stock, 0, coin) == 0);
        assert(change_from(stock, 0, rank + 1) + Seq::new(0, |i: int| coin) =~= Seq::<
            Coin,
        >::empty());
    }
}

/// The change for nothing is no coin at all.
pub proof fn lemma_no_change_for_nothing(stock: Map<Coin, nat>)
    ensures
        change(stock, 0) == Some(Seq::<Coin>::empty()),
{
    lemma_nothing_owed(stock, 0);
}

/// Whether no coin of `coins` is followed by a larger one.
pub open spec fn descends(coins: Seq<Coin>) -> bool {
    forall|i: int, j: int| 0 <= i <= j < coins.len() ==> coins[i].rank() >= coins[j].rank()
}

/// A coin that occurs in a sequence stands somewhere in it.
pub proof fn lemma_occurs_somewhere(coins: Seq<Coin>, coin: Coin)
    requires
        occurrences(coins, coin) > 0,
    ensures
        exists|at: int| 0 <= at < coins.len() && coins[at] == coin,
    decreases coins.len(),
{
    if coins.len() > 0 {
        if coins.last() == coin {
            assert(coins[coins.len() - 1] == coin);
        } else {
            lemma_occurs_somewhere(coins.drop_last(), coin);
            let at = choose|at: int| 0 <= at < coins.drop_last().len() && coins.drop_last()[at]
                == coin;
            assert(coins[at] == coin);
        }
    }
}

/// Two sequences of coins, each with its larger coins first, that hold the
/// same number of coins of every denomination are the same sequence.
pub proof fn lemma_descending_is_determined(first: Seq<Coin>, second: Seq<Coin>)
    requires
        descends(first),
        descends(second),
        forall|coin: Coin| occurrences(first, coin) == occurrences(second, coin),
    ensures
        first == second,
    decreases first.len(),
{
    if first.len() == 0 {
        if second.len() > 0 {
            assert(occurrences(second, second.last()) > 0);
            assert(occurrences(first, second.last()) == 0);
        }
        assert(first =~= second);
    } else {
        let x = first.last();
        assert(occurrences(first, x) > 0);
        assert(occurrences(second, x) > 0);
        assert(second.len() > 0);
        let y = second.last();
        assert(occurrences(second, y) > 0);
        lemma_occurs_somewhere(first, y);
        lemma_occurs_somewhere(second, x);
        let at_y = choose|at: int| 0 <= at < first.len() && first[at] == y;
        let at_x = choose|at: int| 0 <= at < second.len() && second[at] == x;
        assert(first[at_y].rank() >= first[first.len() - 1].rank());
        assert(second[at_x].rank() >= second[second.len() - 1].rank());
        assert(x.rank() == y.rank());
        assert(x == y);
        assert forall|coin: Coin|
            occurrences(first.drop_last(), coin) == occurrences(second.drop_last(), coin) by {
            assert(occurrences(first, coin) == occurrences(second, coin));
        }
        let shorter = first.drop_last();
        let other = second.drop_last();
        assert(descends(shorter)) by {
            assert forall|i: int, j: int| 0 <= i <= j < shorter.len() implies shorter[i].rank()
                >= shorter[j].rank() by {
                assert(first[i].rank() >= first[j].rank());
            }
        }
        assert(descends(other)) by {
            assert forall|i: int, j: int| 0 <= i <= j < other.len() implies other[i].rank()
                >= other[j].rank() by {
                assert(second[i].rank() >= second[j].rank());
            }
        }
        lemma_descending_is_determined(shorter, other);
        assert(first =~= first.drop_last().push(x));
        assert(second =~= second.drop_last().push(y));
    }
}

/// The coins given down to a position are none smaller than the
/// denomination at that position, and come larger coins first.
pub proof fn lemma_change_descends(stock: Map<Coin, nat>, amount: nat, rank: nat)
    requires
        rank <= 6,
    ensures
        descends(change_from(stock, amount, rank)),
        forall|i: int|
            0 <= i < change_from(stock, amount, rank).len() ==> change_from(
                stock,
                amount,
                rank,
            )[i].rank() >= rank,
    decreases 6 - rank,
{
    if rank < 6 {
        lemma_change_descends(stock, amount, rank + 1);
        let upper = change_from(stock, amount, rank + 1);
        let coin = Coin::at_rank(rank)->Some_0;
        assert(coin.rank() == rank);
        let all = change_from(stock, amount, rank);
        assert forall|i: int, j: int| 0 <= i <= j < all.len() implies all[i].rank()
            >= all[j].rank() by {
            if j < upper.len() {
                assert(all[i] == upper[i] && all[j] == upper[j]);
            } else if i < upper.len() {
                assert(all[i] == upper[i] && all[j] == coin);
            } else {
                assert(all[i] == coin && all[j] == coin);
            }
        }
        assert forall|i: int| 0 <= i < all.len() implies all[i].rank() >= rank by {
            if i < upper.len() {
                assert(all[i] == upper[i]);
            } else {
                assert(all[i] == coin);
            }
        }
    }
}

/// How many coins of a denomination are given: none before its turn, and
/// from its turn on what it gave at its turn.
pub proof fn lemma_change_counts(stock: Map<Coin, nat>, amount: nat, rank: nat, coin: Coin)
    requires
        rank <= 6,
    ensures
        occurrences(change_from(stock, amount, rank), coin) == if coin.rank() >= rank {
            given(stock, owed_after(stock, amount, coin.rank() + 1), coin)
        } else {
            0
        },
    decreases 6 - rank,
{
    if rank < 6 {
        lemma_change_counts(stock, amount, rank + 1, coin);
        let owed = owed_after(stock, amount, rank + 1);
        let turn = Coin::at_rank(rank)->Some_0;
        assert(turn.rank() == rank);
        lemma_occurrences_repeat(
            change_from(stock, amount, rank + 1),
            turn,
            given(stock, owed, turn),
            coin,
        );
    }
}

/// What is still owed after each denomination when none runs out: the
/// remainder of what was owed before, by the face value.
pub open spec fn remainder_after(amount: nat, rank: nat) -> nat
    decreases 6 - rank,
{
    if rank >= 6 {
        amount
    } else {
        match Coin::at_rank(rank) {
            Some(coin) => remainder_after(amount, rank + 1) % coin.face(),
            None => amount,
        }
    }
}

/// When no denomination runs out, each gives as many coins as the greedy
/// breakdown of the amount takes of it.
proof fn lemma_remainders(amount: nat, coin: Coin)
    ensures
        remainder_after(amount, coin.rank() + 1) / coin.face() == greedy_count(amount, coin),
        remainder_after(amount, 0) == 0,
{
    reveal_with_fuel(remainder_after, 8);
    let r5 = amount % 50;
    let r4 = r5 % 20;
    let r3 = r4 % 10;
    let r2 = r3 % 5;
    let r1 = r2 % 2;
    assert(remainder_after(amount, 6) == amount);
    assert(remainder_after(amount, 5) == r5);
    assert(remainder_after(amount, 4) == r4);
    assert(remainder_after(amount, 3) == r3);
    assert(remainder_after(amount, 2) == r2);
    assert(remainder_after(amount, 1) == r1);
    assert(remainder_after(amount, 0) == r1 % 1);
    assert(r3 == amount % 10);
    assert(r2 == amount % 5);
}

/// While the inventory holds the greedy breakdown of the amount, no
/// denomination runs out.
proof fn lemma_ample(stock: Map<Coin, nat>, amount: nat, rank: nat)
    requires
        rank <= 6,
        covers(stock, greedy(amount)),
    ensures
        owed_after(stock, amount, rank) == remainder_after(amount, rank),
    decreases 6 - rank,
{
    if rank < 6 {
        lemma_ample(stock, amount, rank + 1);
        let coin = Coin::at_rank(rank)->Some_0;
        assert(coin.rank() == rank);
        let owed = remainder_after(amount, rank + 1);
        lemma_remainders(amount, coin);
        lemma_greedy_counts(amount, coin);
        assert(occurrences(greedy(amount), coin) <= held(stock, coin));
        assert(given(stock, owed, coin) == owed / coin.face());
        vstd::arithmetic::div_mod::lemma_fundamental_div_mod(owed as int, coin.face() as int);
        let face = coin.face();
        assert((owed / face) * face == face * (owed as int / face as int)) by (nonlinear_arith);
    }
}

/// While the inventory holds the greedy breakdown of the amount, the change
/// is that breakdown.
pub proof fn law_change_is_breakdown(stock: Map<Coin, nat>, amount: nat)
    requires
        covers(stock, greedy(amount)),
    ensures
        change(stock, amount) == Some(greedy(amount)),
{
    lemma_ample(stock, amount, 0);
    lemma_remainders(amount, Coin::One);
    let coins = change_from(stock, amount, 0);
    lemma_change_descends(stock, amount, 0);
    assert(descends(greedy(amount))) by {
        assert forall|i: int, j: int| 0 <= i <= j < greedy(amount).len() implies greedy(
            amount,
        )[i].rank() >= greedy(amount)[j].rank() by {
            lemma_greedy_descends(amount, i, j);
        }
    }
    assert forall|coin: Coin| occurrences(coins, coin) == occurrences(greedy(amount), coin) by {
        lemma_change_counts(stock, amount, 0, coin);
        lemma_ample(stock, amount, coin.rank() + 1);
        lemma_remainders(amount, coin);
        lemma_greedy_counts(amount, coin);
        assert(occurrences(greedy(amount), coin) <= held(stock, coin));
    }
    lemma_descending_is_determined(coins, greedy(amount));
}

} // verus!
