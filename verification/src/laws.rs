//! What holds of the machine across several steps, stated over the relations
//! that the steps themselves ensure: of stocking in [`stocking`], of a
//! purchase in [`purchase`], and of the change in [`change`].

pub mod change;
pub mod purchase;
pub mod stocking;
