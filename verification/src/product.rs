//! Products on sale: a closed set of names and a price per product.

use vstd::prelude::*;

verus! {

/// The items a machine can sell. The declaration order is the order in which
/// inventories list them.
#[derive(Debug, PartialEq, Eq, PartialOrd, Ord, Clone, Copy, Structural)]
pub enum ProductName {
    Water,
    Juice,
    Soda,
}

/// A price, in the smallest currency unit.
pub type ProductPrice = usize;

impl ProductName {
    /// Position of the name in the listing order.
    pub open spec fn rank(self) -> nat {
        match self {
            ProductName::Water => 0,
            ProductName::Juice => 1,
            ProductName::Soda => 2,
        }
    }

    /// The name whose position is `rank`, if there is one.
    pub open spec fn at_rank(rank: nat) -> Option<ProductName> {
        if rank == 0 {
            Some(ProductName::Water)
        } else if rank == 1 {
            Some(ProductName::Juice)
        } else if rank == 2 {
            Some(ProductName::Soda)
        } else {
            None
        }
    }

    /// The text printed for the name.
    pub open spec fn spec_label(self) -> Seq<char> {
        match self {
            ProductName::Water => "Water"@,
            ProductName::Juice => "Juice"@,
            ProductName::Soda => "Soda"@,
        }
    }

    /// The text printed for the name.
    pub fn label(&self) -> (text: &'static str)
        ensures
            text@ == self.spec_label(),
    {
        match self {
            ProductName::Water => "Water",
            ProductName::Juice => "Juice",
            ProductName::Soda => "Soda",
        }
    }

    /// Position of the name in the listing order, as a machine integer.
    pub fn index(&self) -> (i: u8)
        ensures
            i as nat == self.rank(),
    {
        match self {
            ProductName::Water => 0,
            ProductName::Juice => 1,
            ProductName::Soda => 2,
        }
    }

    /// The name at position `i` of the listing order.
    pub fn from_index(i: u8) -> (name: Option<ProductName>)
        ensures
            name == ProductName::at_rank(i as nat),
    {
        if i == 0 {
            Some(ProductName::Water)
        } else if i == 1 {
            Some(ProductName::Juice)
        } else if i == 2 {
            Some(ProductName::Soda)
        } else {
            None
        }
    }
}

/// A sellable item: a name and the price asked for it. Inventories identify a
/// product by its name alone; the price is carried along.
#[derive(Debug, PartialEq, Eq, PartialOrd, Ord, Clone, Copy, Structural)]
pub struct Product {
    pub name: ProductName,
    pub price: ProductPrice,
}

impl Product {
    pub fn new(name: ProductName, price: ProductPrice) -> (product: Self)
        ensures
            product == (Product { name, price }),
    {
        Self { name, price }
    }

    pub fn price(&self) -> (price: ProductPrice)
        ensures
            price == self.price,
    {
        self.price
    }

    pub fn name(&self) -> (name: ProductName)
        ensures
            name == self.name,
    {
        self.name
    }
}

/// Whether `product` goes by `name`.
pub open spec fn goes_by(product: Product, name: &ProductName) -> bool {
    product.name == *name
}

impl std::borrow::Borrow<ProductName> for Product {
    /// A product stands for its name where a name is asked for.
    fn borrow(&self) -> (name: &ProductName)
        ensures
            goes_by(*self, name),
    {
        &self.name
    }
}

} // verus!
