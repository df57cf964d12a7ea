//! The mathematical model of the store: what a product, a log entry and the
//! whole ledger are, and how each operation changes them.
//!
//! The model has no machine limits: its numbers are integers. Each operation
//! is a total function from the ledger before to the ledger after, and a
//! second function says whether the operation succeeds. An operation that
//! fails leaves the ledger as it is.

use crate::error::StoreError;
use vstd::prelude::*;

verus! {

/// A catalog item as the contracts see it.
pub struct ProductModel {
    pub name: Seq<char>,
    pub description: Seq<char>,
    pub price: int,
    pub quantity: int,
}

/// One line of the sales or of the purchases log: the product's name, the
/// number of units moved and the unit price of that transaction.
pub struct Transaction {
    pub name: Seq<char>,
    pub quantity: int,
    pub price: int,
}

/// The units that the entries of a log move for the product called `name`.
pub open spec fn units(log: Seq<Transaction>, name: Seq<char>) -> int
    decreases log.len(),
{
    if log.len() == 0 {
        0
    } else if log.last().name == name {
        units(log.drop_last(), name) + log.last().quantity
    } else {
        units(log.drop_last(), name)
    }
}

/// The state of a store: the catalog, which maps a name to the product of that
/// name; the names in the order in which the products were added; and the two
/// logs in the order in which the transactions were recorded.
#[verifier::ext_equal]
pub struct Ledger {
    pub catalog: Map<Seq<char>, ProductModel>,
    pub order: Seq<Seq<char>>,
    pub sales: Seq<Transaction>,
    pub purchases: Seq<Transaction>,
}

impl Ledger {
    /// The store with no product and nothing logged.
    pub open spec fn empty() -> Ledger {
        Ledger {
            catalog: Map::empty(),
            order: Seq::empty(),
            sales: Seq::empty(),
            purchases: Seq::empty(),
        }
    }

    /// The names in `order` are those of the catalog, each once; every product
    /// is filed under its own name; and no product has a negative quantity.
    pub open spec fn wf(self) -> bool {
        &&& self.order.no_duplicates()
        &&& forall|name: Seq<char>|
            self.catalog.dom().contains(name) <==> self.order.contains(name)
        &&& forall|name: Seq<char>| #[trigger]
            self.catalog.dom().contains(name) ==> {
                &&& self.catalog[name].name == name
                &&& self.catalog[name].quantity >= 0
            }
    }

    /// There is a product called `name`.
    pub open spec fn contains(self, name: Seq<char>) -> bool {
        self.catalog.dom().contains(name)
    }

    /// The product called `name`.
    pub open spec fn product(self, name: Seq<char>) -> ProductModel {
        self.catalog[name]
    }

    /// The units on hand of the product called `name`.
    pub open spec fn stock(self, name: Seq<char>) -> int {
        self.catalog[name].quantity
    }

    /// The products in the order in which they were added.
    pub open spec fn products(self) -> Seq<ProductModel> {
        Seq::new(self.order.len(), |i: int| self.catalog[self.order[i]])
    }

    /// The units of the product called `name` that the purchases logged since
    /// `earlier` brought.
    pub open spec fn purchased_since(self, earlier: Ledger, name: Seq<char>) -> int {
        units(self.purchases.skip(earlier.purchases.len() as int), name)
    }

    /// The units of the product called `name` that the sales logged since
    /// `earlier` took.
    pub open spec fn sold_since(self, earlier: Ledger, name: Seq<char>) -> int {
        units(self.sales.skip(earlier.sales.len() as int), name)
    }

    /// Adding a product: a new name is filed in the catalog and goes to the end
    /// of the order; a name already taken changes nothing.
    pub open spec fn add_product(
        self,
        name: Seq<char>,
        description: Seq<char>,
        price: int,
        quantity: int,
    ) -> Ledger {
        if self.contains(name) {
            self
        } else {
            Ledger {
                catalog: self.catalog.insert(
                    name,
                    ProductModel { name, description, price, quantity },
                ),
                order: self.order.push(name),
                ..self
            }
        }
    }

    /// Whether adding a product called `name` succeeds.
    pub open spec fn add_product_outcome(self, name: Seq<char>) -> Result<(), StoreError> {
        if self.contains(name) {
            Err(StoreError::DuplicateProduct)
        } else {
            Ok(())
        }
    }

    /// Editing a product: its description, price and quantity are overwritten,
    /// its name and its place in the order stay; an unknown name changes
    /// nothing.
    pub open spec fn edit_product(
        self,
        name: Seq<char>,
        description: Seq<char>,
        price: int,
        quantity: int,
    ) -> Ledger {
        if self.contains(name) {
            Ledger {
                catalog: self.catalog.insert(
                    name,
                    ProductModel { name, description, price, quantity },
                ),
                ..self
            }
        } else {
            self
        }
    }

    /// Whether editing the product called `name` succeeds.
    pub open spec fn edit_product_outcome(self, name: Seq<char>) -> Result<(), StoreError> {
        if self.contains(name) {
            Ok(())
        } else {
            Err(StoreError::ProductNotFound)
        }
    }

    /// Deleting a product: it leaves the catalog and the order, and both logs
    /// stay as they are; an unknown name changes nothing.
    pub open spec fn delete_product(self, name: Seq<char>) -> Ledger {
        if self.contains(name) {
            Ledger {
                catalog: self.catalog.remove(name),
                order: self.order.remove(self.order.index_of(name)),
                ..self
            }
        } else {
            self
        }
    }

    /// Whether deleting the product called `name` succeeds.
    pub open spec fn delete_product_outcome(self, name: Seq<char>) -> Result<(), StoreError> {
        if self.contains(name) {
            Ok(())
        } else {
            Err(StoreError::ProductNotFound)
        }
    }

    /// The catalog in which the product called `name` has `quantity` units on
    /// hand and everything else is as before.
    pub open spec fn restocked(self, name: Seq<char>, quantity: int) -> Map<
        Seq<char>,
        ProductModel,
    > {
        self.catalog.insert(name, ProductModel { quantity, ..self.catalog[name] })
    }

    /// Recording a sale: if the product exists and has at least `quantity`
    /// units on hand, that many leave the stock and the sale is appended to the
    /// sales log; otherwise nothing changes.
    pub open spec fn record_sale(self, name: Seq<char>, quantity: int, price: int) -> Ledger {
        if self.contains(name) && quantity <= self.stock(name) {
            Ledger {
                catalog: self.restocked(name, self.stock(name) - quantity),
                sales: self.sales.push(Transaction { name, quantity, price }),
                ..self
            }
        } else {
            self
        }
    }

    /// Whether a sale of `quantity` units of the product called `name`
    /// succeeds.
    pub open spec fn record_sale_outcome(self, name: Seq<char>, quantity: int) -> Result<
        (),
        StoreError,
    > {
        if !self.contains(name) {
            Err(StoreError::ProductNotFound)
        } else if self.stock(name) < quantity {
            Err(StoreError::InsufficientStock)
        } else {
            Ok(())
        }
    }

    /// Recording a purchase: if the product exists, `quantity` units join the
    /// stock and the purchase is appended to the purchases log; otherwise
    /// nothing changes.
    pub open spec fn record_purchase(self, name: Seq<char>, quantity: int, price: int) -> Ledger {
        if self.contains(name) {
            Ledger {
                catalog: self.restocked(name, self.stock(name) + quantity),
                purchases: self.purchases.push(Transaction { name, quantity, price }),
                ..self
            }
        } else {
            self
        }
    }

    /// Whether a purchase for the product called `name` succeeds.
    pub open spec fn record_purchase_outcome(self, name: Seq<char>) -> Result<(), StoreError> {
        if self.contains(name) {
            Ok(())
        } else {
            Err(StoreError::ProductNotFound)
        }
    }
}

/// A request to the store. The laws of the ledger speak of commands and of
/// sequences of them.
pub enum Command {
    AddProduct { name: Seq<char>, description: Seq<char>, price: int, quantity: int },
    EditProduct { name: Seq<char>, description: Seq<char>, price: int, quantity: int },
    DeleteProduct { name: Seq<char> },
    RecordSale { name: Seq<char>, quantity: int, price: int },
    RecordPurchase { name: Seq<char>, quantity: int, price: int },
}

impl Command {
    /// The command records a sale or a purchase.
    pub open spec fn is_movement(self) -> bool {
        self is RecordSale || self is RecordPurchase
    }

    /// The log entry that a sale or a purchase appends if it succeeds.
    pub open spec fn entry(self) -> Transaction
        recommends
            self.is_movement(),
    {
        match self {
            Command::RecordSale { name, quantity, price } => Transaction { name, quantity, price },
            Command::RecordPurchase { name, quantity, price } => Transaction {
                name,
                quantity,
                price,
            },
            _ => arbitrary(),
        }
    }
}

impl Ledger {
    /// The ledger after one command.
    pub open spec fn step(self, command: Command) -> Ledger {
        match command {
            Command::AddProduct { name, description, price, quantity } => {
                self.add_product(name, description, price, quantity)
            },
            Command::EditProduct { name, description, price, quantity } => {
                self.edit_product(name, description, price, quantity)
            },
            Command::DeleteProduct { name } => self.delete_product(name),
            Command::RecordSale { name, quantity, price } => {
                self.record_sale(name, quantity, price)
            },
            Command::RecordPurchase { name, quantity, price } => {
                self.record_purchase(name, quantity, price)
            },
        }
    }

    /// Whether one command succeeds.
    pub open spec fn outcome(self, command: Command) -> Result<(), StoreError> {
        match command {
            Command::AddProduct { name, .. } => self.add_product_outcome(name),
            Command::EditProduct { name, .. } => self.edit_product_outcome(name),
            Command::DeleteProduct { name } => self.delete_product_outcome(name),
            Command::RecordSale { name, quantity, .. } => self.record_sale_outcome(name, quantity),
            Command::RecordPurchase { name, .. } => self.record_purchase_outcome(name),
        }
    }

    /// The command, if it is carried out, leaves no quantity negative: a
    /// product is not added or edited with a negative quantity, and a purchase
    /// does not take the stock below zero.
    pub open spec fn admits(self, command: Command) -> bool {
        match command {
            Command::AddProduct { name, quantity, .. } => !self.contains(name) ==> quantity >= 0,
            Command::EditProduct { name, quantity, .. } => self.contains(name) ==> quantity >= 0,
            Command::DeleteProduct { .. } => true,
            Command::RecordSale { .. } => true,
            Command::RecordPurchase { name, quantity, .. } => {
                self.contains(name) ==> self.stock(name) + quantity >= 0
            },
        }
    }

    /// The ledger after a sequence of commands, the first of them first.
    pub open spec fn run(self, commands: Seq<Command>) -> Ledger
        decreases commands.len(),
    {
        if commands.len() == 0 {
            self
        } else {
            self.run(commands.drop_last()).step(commands.last())
        }
    }

    /// Each command of the sequence is admitted by the ledger that it meets.
    pub open spec fn admits_all(self, commands: Seq<Command>) -> bool
        decreases commands.len(),
    {
        commands.len() == 0 || {
            &&& self.admits_all(commands.drop_last())
            &&& self.run(commands.drop_last()).admits(commands.last())
        }
    }
}

/// Every command of a sequence records a sale or a purchase.
pub open spec fn all_movements(commands: Seq<Command>) -> bool {
    forall|i: int| 0 <= i < commands.len() ==> (#[trigger] commands[i]).is_movement()
}

} // verus!
