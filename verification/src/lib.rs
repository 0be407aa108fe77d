//! A vending machine whose purchase protocol is enforced by types, and a
//! collection of smaller pieces in the same spirit: containers, values whose
//! stage is part of their type, readers of small languages, and a few
//! helpers around chance and time. Every executable function carries a
//! contract over a mathematical model of the data it touches, and Verus
//! proves the function against it.
//!
//! The vending machine lives in [`machine`], with its coins in [`money`],
//! its products in [`product`], its two inventories in [`inventory`], and
//! what holds of it across several steps in [`laws`].

pub mod inventory;
pub mod laws;
pub mod machine;
pub mod money;
pub mod product;

pub mod age;
pub mod chance;
pub mod conf;
pub mod config;
pub mod crypto;
pub mod declarative;
pub mod dispatch;
pub mod email;
pub mod format_spec;
pub mod guess;
pub mod linked_list;
pub mod matrix;
pub mod moderation;
pub mod polyline;
pub mod random;
pub mod sized;
pub mod stack;
pub mod text;
pub mod users;

pub use inventory::{CoinStock, ProductStock};
pub use machine::{
    Error, InitState, InitStateMachine, Purchase, VendingMachine, WaitingForCoinInsertMachine,
    WaitingForCoinInsertState, WaitingForProductSelectMachine, WaitingForProductSelectState,
};
pub use money::{get_change, Coin, Money};
pub use product::{Product, ProductName, ProductPrice};
