//! The ways in which the store declines an operation.

use vstd::prelude::*;
use vstd::string::*;

verus! {

/// Why an operation was declined. A declined operation changes nothing.
#[derive(Clone, Copy, Debug, PartialEq, Eq, Structural)]
pub enum StoreError {
    /// A product of that name is already in the catalog.
    DuplicateProduct,
    /// No product of that name is in the catalog.
    ProductNotFound,
    /// Fewer units are on hand than the sale asks for.
    InsufficientStock,
}

impl StoreError {
    /// The text that a person reads for this error.
    pub open spec fn message_text(self) -> Seq<char> {
        match self {
            StoreError::DuplicateProduct => "Product already exists"@,
            StoreError::ProductNotFound => "Product not found"@,
            StoreError::InsufficientStock => "Not enough stock"@,
        }
    }

    /// The human-readable message of this error.
    pub fn message(&self) -> (text: String)
        ensures
            text@ == self.message_text(),
    {
        match self {
            StoreError::DuplicateProduct => String::from_str("Product already exists"),
            StoreError::ProductNotFound => String::from_str("Product not found"),
            StoreError::InsufficientStock => String::from_str("Not enough stock"),
        }
    }
}

} // verus!
