//! Coins, the money a customer has handed over, and the greedy breakdown of
//! an amount into coins.

use crate::inventory::{covers, deposit, fits, held, withdraw, CoinStock};
use vstd::prelude::*;

verus! {

/// A coin denomination. The declaration order is by face value, ascending.
#[derive(Debug, Clone, Copy, PartialEq, Eq, PartialOrd, Ord, Structural)]
pub enum Coin {
    One,
    Two,
    Five,
    Ten,
    Twenty,
    Fifty,
}

impl Coin {
    /// Face value of the coin.
    pub open spec fn face(self) -> nat {
        match self {
            Coin::One => 1,
            Coin::Two => 2,
            Coin::Five => 5,
            Coin::Ten => 10,
            Coin::Twenty => 20,
            Coin::Fifty => 50,
        }
    }

    /// Position of the denomination when sorted by face value, ascending.
    pub open spec fn rank(self) -> nat {
        match self {
            Coin::One => 0,
            Coin::Two => 1,
            Coin::Five => 2,
            Coin::Ten => 3,
            Coin::Twenty => 4,
            Coin::Fifty => 5,
        }
    }

    /// The denomination at position `rank`, if there is one.
    pub open spec fn at_rank(rank: nat) -> Option<Coin> {
        if rank == 0 {
            Some(Coin::One)
        } else if rank == 1 {
            Some(Coin::Two)
        } else if rank == 2 {
            Some(Coin::Five)
        } else if rank == 3 {
            Some(Coin::Ten)
        } else if rank == 4 {
            Some(Coin::Twenty)
        } else if rank == 5 {
            Some(Coin::Fifty)
        } else {
            None
        }
    }

    /// Every denomination, largest face value first.
    pub open spec fn descending() -> Seq<Coin> {
        seq![Coin::Fifty, Coin::Twenty, Coin::Ten, Coin::Five, Coin::Two, Coin::One]
    }

    /// The largest denomination whose face value does not exceed `amount`
    /// (`One` for an amount of zero, which no caller asks about).
    pub open spec fn largest_within(amount: nat) -> Coin {
        if amount >= 50 {
            Coin::Fifty
        } else if amount >= 20 {
            Coin::Twenty
        } else if amount >= 10 {
            Coin::Ten
        } else if amount >= 5 {
            Coin::Five
        } else if amount >= 2 {
            Coin::Two
        } else {
            Coin::One
        }
    }

    /// Face value of the coin.
    pub fn value(self) -> (v: usize)
        ensures
            v as nat == self.face(),
    {
        match self {
            Coin::One => 1,
            Coin::Two => 2,
            Coin::Five => 5,
            Coin::Ten => 10,
            Coin::Twenty => 20,
            Coin::Fifty => 50,
        }
    }

    /// Position of the denomination when sorted by face value, ascending.
    pub fn index(self) -> (i: u8)
        ensures
            i as nat == self.rank(),
    {
        match self {
            Coin::One => 0,
            Coin::Two => 1,
            Coin::Five => 2,
            Coin::Ten => 3,
            Coin::Twenty => 4,
            Coin::Fifty => 5,
        }
    }

    /// The denomination at position `i` of the ascending order.
    pub fn from_index(i: u8) -> (coin: Option<Coin>)
        ensures
            coin == Coin::at_rank(i as nat),
    {
        if i == 0 {
            Some(Coin::One)
        } else if i == 1 {
            Some(Coin::Two)
        } else if i == 2 {
            Some(Coin::Five)
        } else if i == 3 {
            Some(Coin::Ten)
        } else if i == 4 {
            Some(Coin::Twenty)
        } else if i == 5 {
            Some(Coin::Fifty)
        } else {
            None
        }
    }

    /// The largest denomination whose face value does not exceed `amount`.
    pub fn largest_fitting(amount: usize) -> (coin: Coin)
        requires
            amount > 0,
        ensures
            coin == Coin::largest_within(amount as nat),
            coin.face() <= amount,
    {
        let nominals = Coin::all_in_descent_order();
        let mut i: usize = 0;
        while i < 5
            invariant
                i <= 5,
                nominals@ == Coin::descending(),
                forall|j: int| 0 <= j < i ==> nominals@[j].face() > amount,
            decreases 5 - i,
        {
            let nominal = nominals[i];
            if nominal.value() <= amount {
                if i >= 1 {
                    assert(nominals@[i - 1].face() > amount);
                }
                return nominal;
            }
            i += 1;
        }
        assert(nominals@[4].face() > amount);
        Coin::One
    }

    /// Every denomination, largest face value first.
    pub fn all_in_descent_order() -> (coins: [Coin; 6])
        ensures
            coins@ == Coin::descending(),
    {
        let coins = [Coin::Fifty, Coin::Twenty, Coin::Ten, Coin::Five, Coin::Two, Coin::One];
        assert(coins@ =~= Coin::descending());
        coins
    }
}

impl From<Coin> for usize {
    fn from(value: Coin) -> (v: usize) {
        value.value()
    }
}

impl vstd::std_specs::convert::FromSpecImpl<Coin> for usize {
    open spec fn obeys_from_spec() -> bool {
        true
    }

    open spec fn from_spec(value: Coin) -> usize {
        value.face() as usize
    }
}

/// Sum of the face values of `coins`.
pub open spec fn total(coins: Seq<Coin>) -> nat
    decreases coins.len(),
{
    if coins.len() == 0 {
        0
    } else {
        total(coins.drop_last()) + coins.last().face()
    }
}

/// How many times `coin` occurs in `coins`.
pub open spec fn occurrences(coins: Seq<Coin>, coin: Coin) -> nat
    decreases coins.len(),
{
    if coins.len() == 0 {
        0
    } else {
        occurrences(coins.drop_last(), coin) + if coins.last() == coin {
            1nat
        } else {
            0nat
        }
    }
}

/// The greedy breakdown of `amount` against an unlimited supply of every
/// denomination: take the largest coin that still fits, and go on with the
/// rest.
pub open spec fn greedy(amount: nat) -> Seq<Coin>
    decreases amount,
{
    if amount == 0 {
        Seq::empty()
    } else {
        let coin = Coin::largest_within(amount);
        seq![coin] + greedy((amount - coin.face()) as nat)
    }
}

/// How many coins of one denomination the greedy breakdown of `amount`
/// takes: as many of the largest as fit, then as many of the next as fit into
/// what is left, and so on down.
pub open spec fn greedy_count(amount: nat, coin: Coin) -> nat {
    match coin {
        Coin::Fifty => amount / 50,
        Coin::Twenty => (amount % 50) / 20,
        Coin::Ten => ((amount % 50) % 20) / 10,
        Coin::Five => (amount % 10) / 5,
        Coin::Two => (amount % 5) / 2,
        Coin::One => (amount % 5) % 2,
    }
}

/// Putting a coin at the end adds its face value to the sum.
pub proof fn lemma_total_push(coins: Seq<Coin>, coin: Coin)
    ensures
        total(coins.push(coin)) == total(coins) + coin.face(),
{
    assert(coins.push(coin).drop_last() =~= coins);
}

/// Putting a coin at the end adds one occurrence of that coin and none of
/// any other.
pub proof fn lemma_occurrences_push(coins: Seq<Coin>, coin: Coin, other: Coin)
    ensures
        occurrences(coins.push(coin), other) == occurrences(coins, other) + if coin == other {
            1nat
        } else {
            0nat
        },
{
    assert(coins.push(coin).drop_last() =~= coins);
}

/// The sum of two sequences joined is the sum of their sums.
pub proof fn lemma_total_concat(front: Seq<Coin>, back: Seq<Coin>)
    ensures
        total(front + back) == total(front) + total(back),
    decreases back.len(),
{
    if back.len() == 0 {
        assert(front + back =~= front);
    } else {
        lemma_total_concat(front, back.drop_last());
        assert((front + back).drop_last() =~= front + back.drop_last());
    }
}

/// The occurrences in two sequences joined are those of the one plus those
/// of the other.
pub proof fn lemma_occurrences_concat(front: Seq<Coin>, back: Seq<Coin>, coin: Coin)
    ensures
        occurrences(front + back, coin) == occurrences(front, coin) + occurrences(back, coin),
    decreases back.len(),
{
    if back.len() == 0 {
        assert(front + back =~= front);
    } else {
        lemma_occurrences_concat(front, back.drop_last(), coin);
        assert((front + back).drop_last() =~= front + back.drop_last());
    }
}

/// The greedy breakdown of an amount sums to that amount.
pub proof fn lemma_greedy_total(amount: nat)
    ensures
        total(greedy(amount)) == amount,
    decreases amount,
{
    if amount > 0 {
        let coin = Coin::largest_within(amount);
        let rest = (amount - coin.face()) as nat;
        lemma_greedy_total(rest);
        lemma_total_concat(seq![coin], greedy(rest));
        lemma_total_push(Seq::empty(), coin);
        assert(Seq::<Coin>::empty().push(coin) =~= seq![coin]);
    }
}

/// A prefix holds no more coins of a denomination than the whole.
pub proof fn lemma_occurrences_prefix(coins: Seq<Coin>, len: int, coin: Coin)
    requires
        0 <= len <= coins.len(),
    ensures
        occurrences(coins.take(len), coin) <= occurrences(coins, coin),
{
    lemma_occurrences_concat(coins.take(len), coins.skip(len), coin);
    assert(coins.take(len) + coins.skip(len) =~= coins);
}

/// The money a customer has handed over: coins in the order in which they
/// came.
#[derive(Debug)]
pub struct Money(Vec<Coin>);

impl View for Money {
    type V = Seq<Coin>;

    closed spec fn view(&self) -> Seq<Coin> {
        self.0@
    }
}

impl Default for Money {
    fn default() -> (money: Self)
        ensures
            money@ == Seq::<Coin>::empty(),
    {
        Money(Vec::new())
    }
}

impl Clone for Money {
    fn clone(&self) -> (copy: Self)
        ensures
            copy@ == self@,
    {
        Money(self.get_coins())
    }
}

impl Money {
    /// Appends one coin.
    pub fn add(&mut self, coin: Coin)
        ensures
            final(self)@ == old(self)@.push(coin),
    {
        self.0.push(coin)
    }

    /// Appends the coins of `coins`, in their order.
    pub fn extend(&mut self, coins: Vec<Coin>)
        ensures
            final(self)@ == old(self)@ + coins@,
    {
        let mut coins = coins;
        self.0.append(&mut coins);
    }

    /// Breaks `amount` down into coins, always taking the largest
    /// denomination that still fits.
    pub fn from_amount(amount: usize) -> (money: Self)
        ensures
            money@ == greedy(amount as nat),
            total(money@) == amount,
    {
        proof {
            lemma_greedy_total(amount as nat);
        }
        let mut coins: Vec<Coin> = Vec::new();
        let mut rest: usize = amount;

        while rest != 0
            invariant
                greedy(amount as nat) == coins@ + greedy(rest as nat),
            decreases rest,
        {
            let coin = Coin::largest_fitting(rest);
            assert(coins@.push(coin) + greedy((rest - coin.face()) as nat) =~= coins@ + (seq![coin]
                + greedy((rest - coin.face()) as nat)));
            coins.push(coin);
            rest = rest - coin.value();
        }
        assert(coins@ + greedy(0) =~= coins@);
        Money(coins)
    }

    /// The sum of the face values.
    pub fn sum(&self) -> (sum: usize)
        requires
            total(self@) <= usize::MAX,
        ensures
            sum as nat == total(self@),
    {
        let mut sum: usize = 0;
        let mut i: usize = 0;
        while i < self.0.len()
            invariant
                i <= self.0@.len(),
                sum as nat == total(self.0@.take(i as int)),
                total(self.0@) <= usize::MAX,
            decreases self.0@.len() - i,
        {
            proof {
                let next = self.0@.take(i as int + 1);
                assert(next.drop_last() =~= self.0@.take(i as int));
                assert(next.last() == self.0@[i as int]);
                lemma_total_concat(next, self.0@.skip(i as int + 1));
                assert(next + self.0@.skip(i as int + 1) =~= self.0@);
            }
            sum = sum + self.0[i].value();
            i += 1;
        }
        assert(self.0@.take(i as int) =~= self.0@);
        sum
    }

    /// The sum of the face values, if the machine's integers can hold it.
    pub fn checked_sum(&self) -> (sum: Option<usize>)
        ensures
            sum is Some <==> total(self@) <= usize::MAX,
            sum matches Some(s) ==> s as nat == total(self@),
    {
        let mut sum: usize = 0;
        let mut i: usize = 0;
        while i < self.0.len()
            invariant
                i <= self.0@.len(),
                sum as nat == total(self.0@.take(i as int)),
            decreases self.0@.len() - i,
        {
            proof {
                let next = self.0@.take(i as int + 1);
                assert(next.drop_last() =~= self.0@.take(i as int));
                assert(next.last() == self.0@[i as int]);
                lemma_total_concat(next, self.0@.skip(i as int + 1));
                assert(next + self.0@.skip(i as int + 1) =~= self.0@);
            }
            match sum.checked_add(self.0[i].value()) {
                Some(next) => {
                    sum = next;
                },
                None => {
                    return None;
                },
            }
            i += 1;
        }
        assert(self.0@.take(i as int) =~= self.0@);
        Some(sum)
    }

    /// How many coins of one denomination there are.
    pub fn count(&self, coin: Coin) -> (count: usize)
        ensures
            count as nat == occurrences(self@, coin),
    {
        let mut count: usize = 0;
        let mut i: usize = 0;
        while i < self.0.len()
            invariant
                i <= self.0@.len(),
                count <= i,
                count as nat == occurrences(self.0@.take(i as int), coin),
            decreases self.0@.len() - i,
        {
            proof {
                let next = self.0@.take(i as int + 1);
                assert(next.drop_last() =~= self.0@.take(i as int));
                assert(next.last() == self.0@[i as int]);
            }
            if self.0[i] == coin {
                count += 1;
            }
            i += 1;
        }
        assert(self.0@.take(i as int) =~= self.0@);
        count
    }

    /// The coins, in the order in which they came.
    pub fn get_coins(&self) -> (coins: Vec<Coin>)
        ensures
            coins@ == self@,
    {
        let mut coins: Vec<Coin> = Vec::new();
        let mut i: usize = 0;
        while i < self.0.len()
            invariant
                i <= self.0@.len(),
                coins@ == self.0@.take(i as int),
            decreases self.0@.len() - i,
        {
            coins.push(self.0[i]);
            assert(coins@ =~= self.0@.take(i as int + 1));
            i += 1;
        }
        assert(self.0@.take(i as int) =~= self.0@);
        coins
    }
}

/// How many coins of one denomination go towards `owed`: as many as fit, but
/// no more than the inventory holds.
pub open spec fn given(stock: Map<Coin, nat>, owed: nat, coin: Coin) -> nat {
    if owed / coin.face() <= held(stock, coin) {
        owed / coin.face()
    } else {
        held(stock, coin)
    }
}

/// What is still owed of `amount` once the denominations from the largest
/// down to the one at position `rank` have each given what they can.
pub open spec fn owed_after(stock: Map<Coin, nat>, amount: nat, rank: nat) -> nat
    decreases 6 - rank,
{
    if rank >= 6 {
        amount
    } else {
        let owed = owed_after(stock, amount, rank + 1);
        match Coin::at_rank(rank) {
            Some(coin) => (owed - given(stock, owed, coin) * coin.face()) as nat,
            None => owed,
        }
    }
}

/// The coins that the denominations from the largest down to the one at
/// position `rank` give towards `amount`, largest first.
pub open spec fn change_from(stock: Map<Coin, nat>, amount: nat, rank: nat) -> Seq<Coin>
    decreases 6 - rank,
{
    if rank >= 6 {
        Seq::empty()
    } else {
        let owed = owed_after(stock, amount, rank + 1);
        match Coin::at_rank(rank) {
            Some(coin) => change_from(stock, amount, rank + 1) + Seq::new(
                given(stock, owed, coin),
                |i: int| coin,
            ),
            None => change_from(stock, amount, rank + 1),
        }
    }
}

/// The change for `amount` out of an inventory, made the greedy way: every
/// denomination, from the largest down, gives as many coins as fit into
/// what is still owed and as the inventory holds. There is no change if
/// something is owed at the end; no other combination is tried.
pub open spec fn change(stock: Map<Coin, nat>, amount: nat) -> Option<Seq<Coin>> {
    if owed_after(stock, amount, 0) == 0 {
        Some(change_from(stock, amount, 0))
    } else {
        None
    }
}

/// Coins of one denomination at the end of a sequence add that many
/// occurrences of the denomination and none of any other.
pub proof fn lemma_occurrences_repeat(coins: Seq<Coin>, coin: Coin, times: nat, other: Coin)
    ensures
        occurrences(coins + Seq::new(times, |i: int| coin), other) == occurrences(coins, other)
            + if coin == other {
            times
        } else {
            0
        },
        total(coins + Seq::new(times, |i: int| coin)) == total(coins) + times * coin.face(),
    decreases times,
{
    let tail = Seq::new(times, |i: int| coin);
    if times == 0 {
        assert(coins + tail =~= coins);
    } else {
        let shorter = Seq::new((times - 1) as nat, |i: int| coin);
        lemma_occurrences_repeat(coins, coin, (times - 1) as nat, other);
        assert(coins + tail =~= (coins + shorter).push(coin));
        lemma_occurrences_push(coins + shorter, coin, other);
        lemma_total_push(coins + shorter, coin);
        assert(times * coin.face() == (times - 1) * coin.face() + coin.face()) by (nonlinear_arith);
    }
}

/// What the denominations have given so far and what is still owed make up
/// the amount; and nothing was given by a denomination whose turn has not
/// come, nor more by any than the inventory holds.
pub proof fn lemma_change_from(stock: Map<Coin, nat>, amount: nat, rank: nat, coin: Coin)
    requires
        rank <= 6,
    ensures
        total(change_from(stock, amount, rank)) + owed_after(stock, amount, rank) == amount,
        occurrences(change_from(stock, amount, rank), coin) <= held(stock, coin),
        coin.rank() < rank ==> occurrences(change_from(stock, amount, rank), coin) == 0,
    decreases 6 - rank,
{
    if rank < 6 {
        lemma_change_from(stock, amount, rank + 1, coin);
        let owed = owed_after(stock, amount, rank + 1);
        let turn = Coin::at_rank(rank)->Some_0;
        let times = given(stock, owed, turn);
        lemma_occurrences_repeat(change_from(stock, amount, rank + 1), turn, times, coin);
        assert(times * turn.face() <= owed) by {
            vstd::arithmetic::div_mod::lemma_fundamental_div_mod(owed as int, turn.face() as int);
            vstd::arithmetic::div_mod::lemma_mod_pos_bound(owed as int, turn.face() as int);
            assert(times * turn.face() <= (owed / turn.face()) * turn.face()) by (nonlinear_arith)
                requires
                    times <= owed / turn.face(),
            ;
            assert(turn.face() * (owed as int / turn.face() as int) == (owed / turn.face())
                * turn.face()) by (nonlinear_arith);
        }
    }
}

/// Change that is given is exact and is covered by the inventory.
pub proof fn lemma_change(stock: Map<Coin, nat>, amount: nat)
    requires
        change(stock, amount) is Some,
    ensures
        total(change(stock, amount)->Some_0) == amount,
        covers(stock, change(stock, amount)->Some_0),
{
    lemma_change_from(stock, amount, 0, Coin::One);
    assert forall|coin: Coin|
        occurrences(change(stock, amount)->Some_0, coin) <= #[trigger] held(stock, coin) by {
        lemma_change_from(stock, amount, 0, coin);
    }
}

/// Takes the coins a customer has inserted into the inventory and gives
/// `amount` back out of it as change.
///
/// The change is made the greedy way, out of the inventory with the
/// inserted coins in it; no other combination is tried. If that way leaves
/// something owed, there is no change and the result is `None`. Otherwise
/// the result is the inventory after the inserted coins went in and the
/// change went out, and the change itself (`None` for an amount of zero).
pub fn get_change(machine_coins: &CoinStock, new_coins: Money, amount: usize) -> (res: Option<
    (CoinStock, Option<Money>),
>)
    requires
        fits(machine_coins@, new_coins@),
    ensures
        res is Some <==> change(deposit(machine_coins@, new_coins@), amount as nat) is Some,
        res matches Some((stock, money)) ==> {
            let coins = change(deposit(machine_coins@, new_coins@), amount as nat)->Some_0;
            &&& stock@ == withdraw(deposit(machine_coins@, new_coins@), coins)
            &&& money is None <==> amount == 0
            &&& money matches Some(m) ==> m@ == coins && total(m@) == amount
        },
{
    let mut stock = machine_coins.clone();
    stock.add_all(&new_coins.0);
    let ghost merged = stock@;

    let nominals = Coin::all_in_descent_order();
    let mut coins: Vec<Coin> = Vec::new();
    let mut rest: usize = amount;
    let mut i: usize = 0;
    assert(stock@ =~= withdraw(merged, coins@));
    while i < 6
        invariant
            i <= 6,
            nominals@ == Coin::descending(),
            merged == deposit(machine_coins@, new_coins@),
            rest as nat == owed_after(merged, amount as nat, (6 - i) as nat),
            coins@ == change_from(merged, amount as nat, (6 - i) as nat),
            stock@ == withdraw(merged, coins@),
        decreases 6 - i,
    {
        let coin = nominals[i];
        let ghost rank = (5 - i) as nat;
        let ghost before = coins@;
        let ghost owed = rest as nat;
        assert(Coin::at_rank(rank) == Some(coin));
        let face = coin.value();
        let available: usize = match stock.count(coin) {
            Some(n) => n,
            None => 0,
        };
        let wanted = rest / face;
        let times = if wanted <= available {
            wanted
        } else {
            available
        };
        proof {
            lemma_change_from(merged, amount as nat, rank + 1, coin);
            assert(held(stock@, coin) == held(merged, coin));
            assert(times as nat == given(merged, owed, coin));
            assert(times * face <= rest) by {
                vstd::arithmetic::div_mod::lemma_fundamental_div_mod(rest as int, face as int);
                vstd::arithmetic::div_mod::lemma_mod_pos_bound(rest as int, face as int);
                assert(times * face <= wanted * face) by (nonlinear_arith)
                    requires
                        times <= wanted,
                ;
                assert(face * (rest as int / face as int) == wanted * face) by (nonlinear_arith)
                    requires
                        wanted == rest as int / face as int,
                ;
            }
        }
        let mut j: usize = 0;
        assert(coins@ =~= before + Seq::new(0, |i: int| coin));
        while j < times
            invariant
                j <= times,
                coins@ == before + Seq::new(j as nat, |i: int| coin),
            decreases times - j,
        {
            coins.push(coin);
            assert(coins@ =~= before + Seq::new((j + 1) as nat, |i: int| coin));
            j += 1;
        }
        if times > 0 {
            stock.set(coin, available - times);
        }
        rest = rest - times * face;
        proof {
            assert forall|other: Coin|
                occurrences(coins@, other) == occurrences(before, other) + if coin == other {
                    times as nat
                } else {
                    0nat
                } by {
                lemma_occurrences_repeat(before, coin, times as nat, other);
            }
            assert(stock@ =~= withdraw(merged, coins@));
        }
        i += 1;
    }
    if rest != 0 {
        return None;
    }
    proof {
        lemma_change(merged, amount as nat);
    }
    if amount != 0 {
        Some((stock, Some(Money(coins))))
    } else {
        assert(coins@ =~= Seq::<Coin>::empty()) by {
            if coins@.len() > 0 {
                lemma_total_positive(coins@);
            }
        }
        Some((stock, None))
    }
}

/// Coins are worth something: a sequence that is not empty has a sum above
/// zero.
pub proof fn lemma_total_positive(coins: Seq<Coin>)
    requires
        coins.len() > 0,
    ensures
        total(coins) > 0,
{
}

} // verus!
