use vending_machine::inventory::CoinStock;
use vending_machine::money::{get_change, Coin, Money};
use vending_machine::product::{Product, ProductName};

fn get_coins_from_amount(amount: usize) -> Vec<usize> {
    Money::from_amount(amount)
        .get_coins()
        .into_iter()
        .map(Into::into)
        .collect()
}

#[test]
fn test_coins_from_amount() {
    assert_eq!(get_coins_from_amount(0), &[]);
    assert_eq!(get_coins_from_amount(1), &[1]);
    assert_eq!(get_coins_from_amount(2), &[2]);
    assert_eq!(get_coins_from_amount(3), &[2, 1]);
    assert_eq!(get_coins_from_amount(4), &[2, 2]);
    assert_eq!(get_coins_from_amount(5), &[5]);
    assert_eq!(get_coins_from_amount(6), &[5, 1]);
    assert_eq!(get_coins_from_amount(7), &[5, 2]);
    assert_eq!(get_coins_from_amount(8), &[5, 2, 1]);
    assert_eq!(get_coins_from_amount(9), &[5, 2, 2]);
    assert_eq!(get_coins_from_amount(10), &[10]);
    assert_eq!(get_coins_from_amount(11), &[10, 1]);
    assert_eq!(get_coins_from_amount(12), &[10, 2]);
    assert_eq!(get_coins_from_amount(20), &[20]);
    assert_eq!(get_coins_from_amount(50), &[50]);
    assert_eq!(get_coins_from_amount(100), &[50, 50]);
    assert_eq!(get_coins_from_amount(138), &[50, 50, 20, 10, 5, 2, 1]);
}

fn coin_stock(coins: &[(Coin, usize)]) -> CoinStock {
    let mut stock = CoinStock::new();
    for (coin, count) in coins.iter().copied() {
        stock.set(coin, count);
    }
    stock
}

fn change_for(coins: &[(Coin, usize)], amount: usize) -> Vec<usize> {
    let coins_map = coin_stock(coins);
    let change = get_change(&coins_map, Money::default(), amount);
    assert!(change.is_some());
    let money = change.unwrap().1;
    assert!(money.is_some());
    money
        .unwrap()
        .get_coins()
        .into_iter()
        .map(Into::into)
        .collect()
}

fn get_empty_change(coins: &[(Coin, usize)], amount: usize) -> bool {
    let coins_map = coin_stock(coins);
    let change = get_change(&coins_map, Money::default(), amount);
    change.is_none()
}

#[test]
fn test_get_change() {
    assert_eq!(change_for(&[(Coin::One, 1)], 1), &[1]);
    assert_eq!(change_for(&[(Coin::One, 2)], 1), &[1]);

    let coins = vec![
        (Coin::One, 1),
        (Coin::Two, 1),
        (Coin::Five, 1),
        (Coin::Ten, 1),
        (Coin::Twenty, 1),
        (Coin::Five, 1),
    ];
    assert_eq!(change_for(&coins, 1), &[1]);
    assert_eq!(change_for(&coins, 2), &[2]);
    assert_eq!(change_for(&coins, 3), &[2, 1]);
    assert_eq!(change_for(&coins, 5), &[5]);
    assert_eq!(change_for(&coins, 6), &[5, 1]);
    assert_eq!(change_for(&coins, 7), &[5, 2]);
    assert_eq!(change_for(&coins, 8), &[5, 2, 1]);
    assert_eq!(change_for(&coins, 10), &[10]);
    assert_eq!(change_for(&coins, 11), &[10, 1]);
    assert_eq!(change_for(&coins, 12), &[10, 2]);

    assert!(get_empty_change(&coins, 4));
    assert!(get_empty_change(&coins, 9));
    assert!(get_empty_change(&coins, 14));
    assert!(get_empty_change(&coins, 19));
    assert!(get_empty_change(&coins, 24));
    assert!(get_empty_change(&coins, 29));
}

#[test]
fn change_for_nothing_is_no_money() {
    let stock = coin_stock(&[(Coin::Two, 3)]);
    let (after, change) = get_change(&stock, Money::default(), 0).unwrap();
    assert!(change.is_none());
    assert_eq!(after.entries(), vec![(Coin::Two, 3)]);
}

#[test]
fn change_leaves_the_rest_in_stock() {
    let stock = coin_stock(&[(Coin::One, 4), (Coin::Five, 1), (Coin::Twenty, 2)]);
    let mut inserted = Money::default();
    inserted.add(Coin::Ten);
    inserted.add(Coin::Two);
    let (after, change) = get_change(&stock, inserted, 38).unwrap();
    let change = change.unwrap();
    assert_eq!(
        change.get_coins(),
        vec![
            Coin::Twenty,
            Coin::Ten,
            Coin::Five,
            Coin::Two,
            Coin::One
        ]
    );
    assert_eq!(change.sum(), 38);
    assert_eq!(
        after.entries(),
        vec![
            (Coin::One, 3),
            (Coin::Two, 0),
            (Coin::Five, 0),
            (Coin::Ten, 0),
            (Coin::Twenty, 1)
        ]
    );
    assert_eq!(
        stock.entries(),
        vec![(Coin::One, 4), (Coin::Five, 1), (Coin::Twenty, 2)]
    );
}

#[test]
fn greedy_change_does_not_look_for_another_way() {
    // 6 = 2 + 2 + 2 is at hand, but the five goes first and leaves 1 owed.
    let stock = coin_stock(&[(Coin::Two, 3), (Coin::Five, 1)]);
    assert!(get_change(&stock, Money::default(), 6).is_none());
    assert_eq!(change_for(&[(Coin::Two, 3), (Coin::Five, 1)], 4), &[2, 2]);
}

#[test]
fn change_takes_what_the_stock_holds() {
    // No ten and no second two in stock: smaller coins stand in.
    assert_eq!(change_for(&[(Coin::Five, 2)], 10), &[5, 5]);
    assert_eq!(change_for(&[(Coin::One, 2), (Coin::Two, 1)], 4), &[2, 1, 1]);
    assert_eq!(
        change_for(&[(Coin::One, 9), (Coin::Ten, 1), (Coin::Fifty, 0)], 19),
        &[10, 1, 1, 1, 1, 1, 1, 1, 1, 1]
    );
    assert!(get_empty_change(&[(Coin::Fifty, 5)], 49));
    assert!(get_empty_change(&[], 1));

    let stock = coin_stock(&[(Coin::One, 2), (Coin::Two, 1), (Coin::Twenty, 0)]);
    let (after, change) = get_change(&stock, Money::default(), 4).unwrap();
    assert_eq!(change.unwrap().sum(), 4);
    assert_eq!(
        after.entries(),
        vec![(Coin::One, 0), (Coin::Two, 0), (Coin::Twenty, 0)]
    );
}

#[test]
fn money_keeps_coins_in_order_and_sums_them() {
    let mut money = Money::default();
    assert_eq!(money.sum(), 0);
    money.add(Coin::Five);
    money.extend(vec![Coin::One, Coin::Fifty]);
    money.add(Coin::Twenty);
    assert_eq!(
        money.get_coins(),
        vec![Coin::Five, Coin::One, Coin::Fifty, Coin::Twenty]
    );
    assert_eq!(money.sum(), 76);
    assert_eq!(money.clone().get_coins(), money.get_coins());
}

#[test]
fn coins_have_their_face_values() {
    let values: Vec<usize> = Coin::all_in_descent_order()
        .into_iter()
        .map(usize::from)
        .collect();
    assert_eq!(values, vec![50, 20, 10, 5, 2, 1]);
    assert_eq!(Coin::Twenty.value(), 20);
    assert_eq!(Coin::from_index(Coin::Ten.index()), Some(Coin::Ten));
    assert_eq!(Coin::from_index(6), None);
    assert!(Coin::One < Coin::Two && Coin::Twenty < Coin::Fifty);
}

#[test]
fn products_carry_name_and_price() {
    let product = Product::new(ProductName::Juice, 15);
    let name: &ProductName = std::borrow::Borrow::borrow(&product);
    assert_eq!(*name, ProductName::Juice);
    assert_eq!(product.name(), ProductName::Juice);
    assert_eq!(product.price(), 15);
    assert_eq!(ProductName::Juice.label(), "Juice");
    assert_eq!(ProductName::Water.label(), "Water");
    assert_eq!(ProductName::Soda.label(), "Soda");
    assert_eq!(
        ProductName::from_index(ProductName::Soda.index()),
        Some(ProductName::Soda)
    );
    assert_eq!(ProductName::from_index(3), None);
}
