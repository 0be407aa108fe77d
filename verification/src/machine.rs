//! The vending machine. Its phase is part of its type: a machine that is
//! being stocked, one that waits for a product to be chosen, and one that
//! waits for coins each offer only the operations of their phase, and every
//! transition consumes the machine and hands back the one of the next phase.

use crate::inventory::{
    coin_listing, deposit, deposit_one, fits, held, product_listing, room, sell_one, shelved,
    stock_all, stock_one, withdraw, CoinStock, ProductStock, Shelf,
};
use crate::money::{change, get_change, total, Coin, Money};
use crate::product::{Product, ProductName};
use crate::text::{decimal, to_decimal};
use vstd::prelude::*;
use vstd::string::StringExecFns;

verus! {

/// Phase: the machine is being stocked.
#[derive(Debug)]
pub struct InitState;

/// Phase: the machine waits for a product to be chosen.
#[derive(Debug)]
pub struct WaitingForProductSelectState;

/// Phase: a product is chosen and the machine takes coins for it.
#[derive(Debug)]
pub struct WaitingForCoinInsertState {
    product: Product,
    inserted: Money,
}

/// A vending machine in phase `S`: what it has on its shelves, the coins it
/// holds, and what belongs to the phase.
#[derive(Debug)]
pub struct VendingMachine<S> {
    products: ProductStock,
    coins: CoinStock,
    state: S,
}

pub type WaitingForProductSelectMachine = VendingMachine<WaitingForProductSelectState>;

pub type WaitingForCoinInsertMachine = VendingMachine<WaitingForCoinInsertState>;

pub type InitStateMachine = VendingMachine<InitState>;

/// A completed sale: the machine, the product handed out, and the change.
pub type Purchase = (WaitingForProductSelectMachine, Product, Option<Money>);

/// Why a machine did not do what it was asked. Each error hands the machine
/// back, in the phase from which the customer goes on.
#[derive(Debug)]
pub enum Error {
    /// The chosen product is known but none is left.
    NotEnoughProduct(WaitingForProductSelectMachine, ProductName),
    /// The coins inserted so far do not reach the price; the last field is
    /// what is missing.
    NotEnoughMoneyForProduct(WaitingForCoinInsertMachine, ProductName, usize),
    /// The machine cannot give the change that is due, which is the last
    /// field. It has kept the inserted coins and handed out no product.
    NotEnoughMoneyForChange(WaitingForProductSelectMachine, usize),
}

impl<S> VendingMachine<S> {
    /// The products on the shelves, by name.
    pub closed spec fn stock(&self) -> Map<ProductName, Shelf> {
        self.products@
    }

    /// The coins the machine holds, by denomination.
    pub closed spec fn till(&self) -> Map<Coin, nat> {
        self.coins@
    }

    /// Whether the machine was ever stocked with a product of `name`.
    pub fn knows(&self, name: ProductName) -> (known: bool)
        ensures
            known == self.stock().contains_key(name),
    {
        self.products.get(name).is_some()
    }

    /// The shelves as a list of product and count, in the order of the
    /// names.
    pub fn products(&self) -> (list: Vec<(Product, usize)>)
        ensures
            list@.map_values(|e: (Product, usize)| (e.0, e.1 as nat)) == product_listing(
                self.stock(),
            ),
    {
        self.products.entries()
    }

    /// The coins held as a list of denomination and count, by face value
    /// ascending.
    pub fn coins(&self) -> (list: Vec<(Coin, usize)>)
        ensures
            list@.map_values(|e: (Coin, usize)| (e.0, e.1 as nat)) == coin_listing(self.till()),
    {
        self.coins.entries()
    }
}

/// What `add_product` does: one more `product` on the shelves, the coins
/// untouched.
pub open spec fn stocks_product(
    before: InitStateMachine,
    product: Product,
    after: InitStateMachine,
) -> bool {
    &&& after.stock() == stock_one(before.stock(), product)
    &&& after.till() == before.till()
}

/// What `add_products` does: the products of `products` on the shelves, one
/// after the other, the coins untouched.
pub open spec fn stocks_products(
    before: InitStateMachine,
    products: Seq<Product>,
    after: InitStateMachine,
) -> bool {
    &&& after.stock() == stock_all(before.stock(), products)
    &&& after.till() == before.till()
}

/// What `add_coin` does: one more `coin` in the machine, the shelves
/// untouched.
pub open spec fn stocks_coin(
    before: InitStateMachine,
    coin: Coin,
    after: InitStateMachine,
) -> bool {
    &&& after.stock() == before.stock()
    &&& after.till() == deposit_one(before.till(), coin)
}

/// What `add_coins` does: the coins of `coins` in the machine, the shelves
/// untouched.
pub open spec fn stocks_coins(
    before: InitStateMachine,
    coins: Seq<Coin>,
    after: InitStateMachine,
) -> bool {
    &&& after.stock() == before.stock()
    &&& after.till() == deposit(before.till(), coins)
}

/// What `start` does: the machine opens for sale with what it was stocked
/// with.
pub open spec fn starts(before: InitStateMachine, after: WaitingForProductSelectMachine) -> bool {
    &&& after.stock() == before.stock()
    &&& after.till() == before.till()
}

/// What `select` answers when `name` is asked of a machine that knows it.
/// If none is left the machine comes back as it was, inside the error.
/// Otherwise it waits for coins for the product stocked under that name,
/// with nothing inserted yet and both inventories as they were.
pub open spec fn selects(
    before: WaitingForProductSelectMachine,
    name: ProductName,
    outcome: Result<WaitingForCoinInsertMachine, Error>,
) -> bool {
    if shelved(before.stock(), name) == 0 {
        outcome == Err::<WaitingForCoinInsertMachine, Error>(Error::NotEnoughProduct(before, name))
    } else {
        &&& outcome is Ok
        &&& outcome->Ok_0.stock() == before.stock()
        &&& outcome->Ok_0.till() == before.till()
        &&& outcome->Ok_0.selected() == before.stock()[name].0
        &&& outcome->Ok_0.inserted() == Seq::<Coin>::empty()
        &&& outcome->Ok_0.wf()
    }
}

/// What `insert_coins` does: the coins of `coins` are added to those
/// inserted before; nothing else changes.
pub open spec fn inserts(
    before: WaitingForCoinInsertMachine,
    coins: Seq<Coin>,
    after: WaitingForCoinInsertMachine,
) -> bool {
    &&& after.stock() == before.stock()
    &&& after.till() == before.till()
    &&& after.selected() == before.selected()
    &&& after.inserted() == before.inserted() + coins
}

/// What `cancel` does: the machine waits for a choice again, with both
/// inventories as they were; the inserted coins are not taken in.
pub open spec fn cancels(
    before: WaitingForCoinInsertMachine,
    after: WaitingForProductSelectMachine,
) -> bool {
    &&& after.stock() == before.stock()
    &&& after.till() == before.till()
}

/// What `buy` answers.
///
/// While the inserted coins do not reach the price, the machine comes back
/// as it was, inside the error, with what is missing. Once they do, the
/// machine takes them in. If it can then make the change the greedy way,
/// out of what it holds with the inserted coins in it, those coins leave it,
/// one item of the product leaves the shelves, and the sale is done. If it
/// cannot, it keeps the inserted coins and the product, and says how much
/// change it owed.
pub open spec fn buys(
    before: WaitingForCoinInsertMachine,
    outcome: Result<Purchase, Error>,
) -> bool {
    let paid = total(before.inserted());
    let price = before.selected().price as nat;
    let merged = deposit(before.till(), before.inserted());
    if paid < price {
        outcome == Err::<Purchase, Error>(
            Error::NotEnoughMoneyForProduct(
                before,
                before.selected().name,
                (price - paid) as usize,
            ),
        )
    } else {
        match change(merged, (paid - price) as nat) {
            Some(coins) => {
                &&& outcome is Ok
                &&& outcome->Ok_0.0.stock() == sell_one(before.stock(), before.selected().name)
                &&& outcome->Ok_0.0.till() == withdraw(merged, coins)
                &&& outcome->Ok_0.1 == before.selected()
                &&& outcome->Ok_0.2 is None <==> paid == price
                &&& outcome->Ok_0.2 matches Some(money) ==> money@ == coins
            },
            None => {
                &&& outcome is Err
                &&& outcome->Err_0 is NotEnoughMoneyForChange
                &&& outcome->Err_0->NotEnoughMoneyForChange_0.stock() == before.stock()
                &&& outcome->Err_0->NotEnoughMoneyForChange_0.till() == merged
                &&& outcome->Err_0->NotEnoughMoneyForChange_1 as nat == paid - price
            },
        }
    }
}

/// What an error says in words.
pub open spec fn error_text(error: Error) -> Seq<char> {
    match error {
        Error::NotEnoughProduct(_, name) => "there is no such "@ + name.spec_label()
            + " product anymore"@,
        Error::NotEnoughMoneyForProduct(_, name, amount) => "you have to add "@ + decimal(
            amount as nat,
        ) + " money to buy "@ + name.spec_label() + " product"@,
        Error::NotEnoughMoneyForChange(_, amount) =>
            "there is not enough money to give change from "@ + decimal(amount as nat),
    }
}

impl Error {
    /// What the error says in words.
    pub fn message(&self) -> (text: String)
        ensures
            text@ == error_text(*self),
    {
        match self {
            Error::NotEnoughProduct(_, name) => {
                let mut text = String::from_str("there is no such ");
                text.append(name.label());
                text.append(" product anymore");
                text
            },
            Error::NotEnoughMoneyForProduct(_, name, amount) => {
                let mut text = String::from_str("you have to add ");
                text.append(to_decimal(*amount).as_str());
                text.append(" money to buy ");
                text.append(name.label());
                text.append(" product");
                text
            },
            Error::NotEnoughMoneyForChange(_, amount) => {
                let mut text = String::from_str("there is not enough money to give change from ");
                text.append(to_decimal(*amount).as_str());
                text
            },
        }
    }
}

impl Default for VendingMachine<InitState> {
    fn default() -> (machine: Self)
        ensures
            machine.stock() == Map::<ProductName, Shelf>::empty(),
            machine.till() == Map::<Coin, nat>::empty(),
    {
        VendingMachine { products: ProductStock::new(), coins: CoinStock::new(), state: InitState }
    }
}

impl VendingMachine<InitState> {
    /// A machine with nothing in it.
    pub fn new() -> (machine: Self)
        ensures
            machine.stock() == Map::<ProductName, Shelf>::empty(),
            machine.till() == Map::<Coin, nat>::empty(),
    {
        VendingMachine { products: ProductStock::new(), coins: CoinStock::new(), state: InitState }
    }

    /// Puts one product on the shelves. A name that is already known keeps
    /// the product it was first stocked with and counts one more.
    pub fn add_product(&mut self, product: Product) -> (machine: &mut Self)
        requires
            shelved(old(self).stock(), product.name) < usize::MAX,
        ensures
            stocks_product(*old(self), product, *machine),
            *final(self) == *final(machine),
    {
        self.products.add(product);
        self
    }

    /// Puts the products of `products` on the shelves, one after the other.
    pub fn add_products(&mut self, products: Vec<Product>) -> (machine: &mut Self)
        requires
            room(old(self).stock(), products@),
        ensures
            stocks_products(*old(self), products@, *machine),
            *final(self) == *final(machine),
    {
        self.products.add_all(&products);
        self
    }

    /// Puts one coin into the machine.
    pub fn add_coin(&mut self, coin: Coin) -> (machine: &mut Self)
        requires
            held(old(self).till(), coin) < usize::MAX,
        ensures
            stocks_coin(*old(self), coin, *machine),
            *final(self) == *final(machine),
    {
        self.coins.add(coin);
        self
    }

    /// Puts the coins of `coins` into the machine.
    pub fn add_coins(&mut self, coins: Vec<Coin>) -> (machine: &mut Self)
        requires
            fits(old(self).till(), coins@),
        ensures
            stocks_coins(*old(self), coins@, *machine),
            *final(self) == *final(machine),
    {
        self.coins.add_all(&coins);
        self
    }

    /// Opens the machine for sale.
    pub fn start(self) -> (machine: VendingMachine<WaitingForProductSelectState>)
        ensures
            starts(self, machine),
    {
        VendingMachine {
            products: self.products,
            coins: self.coins,
            state: WaitingForProductSelectState,
        }
    }
}

impl VendingMachine<WaitingForProductSelectState> {
    /// Chooses the product to buy. The name must be one that the machine was
    /// stocked with.
    pub fn select(self, name: ProductName) -> (outcome: Result<WaitingForCoinInsertMachine, Error>)
        requires
            self.stock().contains_key(name),
        ensures
            selects(self, name, outcome),
    {
        proof {
            self.products.lemma_shelves_named();
        }
        match self.products.get(name) {
            Some((product, count)) => {
                if count == 0 {
                    Err(Error::NotEnoughProduct(self, name))
                } else {
                    Ok(self.next_state(product))
                }
            },
            None => Err(Error::NotEnoughProduct(self, name)),
        }
    }

    fn next_state(self, product: Product) -> (machine: WaitingForCoinInsertMachine)
        ensures
            machine.stock() == self.stock(),
            machine.till() == self.till(),
            machine.selected() == product,
            machine.inserted() == Seq::<Coin>::empty(),
    {
        VendingMachine {
            products: self.products,
            coins: self.coins,
            state: WaitingForCoinInsertState { product, inserted: Money::default() },
        }
    }
}

impl VendingMachine<WaitingForCoinInsertState> {
    /// The product that was chosen.
    pub closed spec fn selected(&self) -> Product {
        self.state.product
    }

    /// The coins inserted so far, in the order in which they came.
    pub closed spec fn inserted(&self) -> Seq<Coin> {
        self.state.inserted@
    }

    /// What `select` has checked and what holds until the purchase ends: the
    /// chosen product is the one stocked under its name, and at least one is
    /// left.
    pub open spec fn wf(&self) -> bool {
        &&& self.stock().contains_key(self.selected().name)
        &&& self.stock()[self.selected().name].0 == self.selected()
        &&& self.stock()[self.selected().name].1 > 0
    }

    /// Whether `buy` can be asked: the sum of the inserted coins and every
    /// count of the machine with those coins in it stay within the
    /// machine's integers.
    pub fn can_take_payment(&self) -> (ok: bool)
        ensures
            ok == (total(self.inserted()) <= usize::MAX && fits(self.till(), self.inserted())),
    {
        self.state.inserted.checked_sum().is_some() && self.coins.has_room_for(&self.state.inserted)
    }

    /// Takes one coin from the customer.
    pub fn insert_coin(&mut self, coin: Coin)
        ensures
            inserts(*old(self), seq![coin], *final(self)),
    {
        self.state.inserted.add(coin);
        assert(old(self).inserted().push(coin) =~= old(self).inserted() + seq![coin]);
    }

    /// Takes the coins of `coins` from the customer, in their order.
    pub fn insert_coins(&mut self, coins: Vec<Coin>)
        ensures
            inserts(*old(self), coins@, *final(self)),
    {
        self.state.inserted.extend(coins)
    }

    /// Gives the purchase up. The inserted coins do not enter the machine.
    pub fn cancel(self) -> (machine: WaitingForProductSelectMachine)
        ensures
            cancels(self, machine),
    {
        self.next_state()
    }

    /// Completes the purchase, if the inserted coins reach the price and the
    /// machine can give the change.
    pub fn buy(self) -> (outcome: Result<Purchase, Error>)
        requires
            self.wf(),
            total(self.inserted()) <= usize::MAX,
            fits(self.till(), self.inserted()),
        ensures
            buys(self, outcome),
    {
        let inserted = self.state.inserted.sum();
        let price = self.state.product.price();
        let product = self.state.product;

        if inserted < price {
            Err(Error::NotEnoughMoneyForProduct(self, product.name(), price - inserted))
        } else {
            let change = inserted - price;
            let mut machine = self;
            let inserted_money = machine.state.inserted.get_coins();
            machine.coins.add_all(&inserted_money);
            proof {
                machine.coins.lemma_bounded();
                assert(deposit(machine.coins@, Seq::<Coin>::empty()) =~= machine.coins@);
            }
            match get_change(&machine.coins, Money::default(), change) {
                Some((new_machine_coins, change)) => {
                    machine.coins = new_machine_coins;
                    machine.take_off_product(product.name());
                    Ok((machine.next_state(), product, change))
                },
                None => Err(Error::NotEnoughMoneyForChange(machine.next_state(), change)),
            }
        }
    }

    fn next_state(self) -> (machine: WaitingForProductSelectMachine)
        ensures
            machine.stock() == self.stock(),
            machine.till() == self.till(),
    {
        VendingMachine {
            products: self.products,
            coins: self.coins,
            state: WaitingForProductSelectState,
        }
    }

    fn take_off_product(&mut self, name: ProductName)
        requires
            shelved(old(self).stock(), name) > 0,
        ensures
            final(self).stock() == sell_one(old(self).stock(), name),
            final(self).till() == old(self).till(),
            final(self).selected() == old(self).selected(),
            final(self).inserted() == old(self).inserted(),
    {
        self.products.remove_one(name);
    }
}

} // verus!
