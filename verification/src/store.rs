//! The store itself: the catalog, the two logs, and the operations on them.

use crate::error::StoreError;
use crate::ledger::{Ledger, ProductModel, Transaction};
use crate::listing::{
    ledger_of, lemma_ledger_of, lemma_place, lemma_push, lemma_remove, lemma_update, stocked,
    unique,
};
use vstd::prelude::*;
use vstd::string::*;

verus! {

/// A named, priced, stocked catalog item.
#[derive(Debug, PartialEq, Eq)]
pub struct Product {
    pub name: String,
    pub description: String,
    pub price: i32,
    pub quantity: i32,
}

impl View for Product {
    type V = ProductModel;

    open spec fn view(&self) -> ProductModel {
        ProductModel {
            name: self.name@,
            description: self.description@,
            price: self.price as int,
            quantity: self.quantity as int,
        }
    }
}

/// What a log entry `(name, quantity, unit price)` stands for.
pub open spec fn transaction_model(entry: (String, i32, i32)) -> Transaction {
    Transaction { name: entry.0@, quantity: entry.1 as int, price: entry.2 as int }
}

/// What a list of products stands for, item by item.
pub open spec fn catalog_model(items: Seq<Product>) -> Seq<ProductModel> {
    Seq::new(items.len(), |i: int| items[i]@)
}

/// What a list of log entries stands for, item by item.
pub open spec fn log_model(entries: Seq<(String, i32, i32)>) -> Seq<Transaction> {
    Seq::new(entries.len(), |i: int| transaction_model(entries[i]))
}

/// An in-memory ledger of products, sales and purchases.
///
/// The store keeps the products in the order in which they were added; that is
/// the order of the rows of the inventory report.
pub struct Store {
    products: Vec<Product>,
    sales: Vec<(String, i32, i32)>,
    purchases: Vec<(String, i32, i32)>,
}

impl View for Store {
    type V = Ledger;

    closed spec fn view(&self) -> Ledger {
        ledger_of(
            catalog_model(self.products@),
            log_model(self.sales@),
            log_model(self.purchases@),
        )
    }
}

impl Store {
    /// A store with no product and empty logs.
    pub fn new() -> (store: Store)
        ensures
            store@ == Ledger::empty(),
            store@.wf(),
    {
        Store { products: Vec::new(), sales: Vec::new(), purchases: Vec::new() }
    }

    /// The products, in the order in which they were added.
    pub fn products(&self) -> (items: &Vec<Product>)
        requires
            self@.wf(),
        ensures
            catalog_model(items@) == self@.products(),
    {
        proof {
            lemma_ledger_of(
                catalog_model(self.products@),
                log_model(self.sales@),
                log_model(self.purchases@),
            );
        }
        &self.products
    }

    /// The sales log, oldest entry first.
    pub fn sales(&self) -> (entries: &Vec<(String, i32, i32)>)
        ensures
            log_model(entries@) == self@.sales,
    {
        &self.sales
    }

    /// The purchases log, oldest entry first.
    pub fn purchases(&self) -> (entries: &Vec<(String, i32, i32)>)
        ensures
            log_model(entries@) == self@.purchases,
    {
        &self.purchases
    }

    /// The product called `name`, if there is one.
    pub fn product(&self, name: &str) -> (found: Option<&Product>)
        requires
            self@.wf(),
        ensures
            found is Some <==> self@.contains(name@),
            found matches Some(product) ==> product@ == self@.product(name@),
    {
        let key = String::from_str(name);
        match self.position(&key) {
            Some(i) => Some(&self.products[i]),
            None => None,
        }
    }

    /// What the private list of products is known to satisfy in a well-formed
    /// store.
    proof fn lemma_listing(&self)
        requires
            self@.wf(),
        ensures
            unique(catalog_model(self.products@)),
            stocked(catalog_model(self.products@)),
    {
        lemma_ledger_of(
            catalog_model(self.products@),
            log_model(self.sales@),
            log_model(self.purchases@),
        );
    }

    /// A store whose list has unique names and no negative quantity is well
    /// formed.
    proof fn lemma_settled(&self)
        requires
            unique(catalog_model(self.products@)),
            stocked(catalog_model(self.products@)),
        ensures
            self@.wf(),
    {
        lemma_ledger_of(
            catalog_model(self.products@),
            log_model(self.sales@),
            log_model(self.purchases@),
        );
    }

    /// The place of the product called `name` in the list, if there is one.
    fn position(&self, name: &String) -> (found: Option<usize>)
        requires
            self@.wf(),
        ensures
            found is Some <==> self@.contains(name@),
            found matches Some(i) ==> {
                &&& i < self.products.len()
                &&& self.products[i as int].name@ == name@
                &&& self.products[i as int]@ == self@.product(name@)
            },
    {
        let ghost items = catalog_model(self.products@);
        proof {
            self.lemma_listing();
        }
        let mut i: usize = 0;
        while i < self.products.len()
            invariant
                unique(items),
                items == catalog_model(self.products@),
                i <= self.products.len(),
                forall|j: int| 0 <= j < i ==> items[j].name != name@,
            decreases self.products.len() - i,
        {
            if self.products[i].name == *name {
                proof {
                    lemma_place(items, i as int);
                }
                return Some(i);
            }
            i += 1;
        }
        None
    }

    /// Adds a product to the catalog.
    ///
    /// Fails with `DuplicateProduct`, changing nothing, if a product of that
    /// name exists. Otherwise the new product is the last of the catalog. Its
    /// quantity must not be negative.
    pub fn add_product(
        &mut self,
        name: String,
        description: String,
        price: i32,
        quantity: i32,
    ) -> (outcome: Result<(), StoreError>)
        requires
            old(self)@.wf(),
            !old(self)@.contains(name@) ==> quantity >= 0,
        ensures
            final(self)@.wf(),
            outcome == old(self)@.add_product_outcome(name@),
            final(self)@ == old(self)@.add_product(
                name@,
                description@,
                price as int,
                quantity as int,
            ),
            old(self)@.contains(name@) ==> outcome matches Err(StoreError::DuplicateProduct),
            outcome is Err ==> final(self)@ == old(self)@,
    {
        if self.position(&name).is_some() {
            return Err(StoreError::DuplicateProduct);
        }
        proof {
            self.lemma_listing();
        }
        self.products.push(Product { name, description, price, quantity });
        proof {
            let before = catalog_model(old(self).products@);
            let added = ProductModel {
                name: name@,
                description: description@,
                price: price as int,
                quantity: quantity as int,
            };
            assert(catalog_model(self.products@) =~= before.push(added));
            lemma_push(before, added);
            self.lemma_settled();
        }
        Ok(())
    }

    /// Overwrites the description, price and quantity of a product.
    ///
    /// Fails with `ProductNotFound`, changing nothing, if no product of that
    /// name exists. The product keeps its name and its place in the catalog.
    /// The new quantity must not be negative.
    pub fn edit_product(
        &mut self,
        name: String,
        description: String,
        price: i32,
        quantity: i32,
    ) -> (outcome: Result<(), StoreError>)
        requires
            old(self)@.wf(),
            old(self)@.contains(name@) ==> quantity >= 0,
        ensures
            final(self)@.wf(),
            outcome == old(self)@.edit_product_outcome(name@),
            final(self)@ == old(self)@.edit_product(
                name@,
                description@,
                price as int,
                quantity as int,
            ),
            !old(self)@.contains(name@) ==> outcome matches Err(StoreError::ProductNotFound),
            outcome is Err ==> final(self)@ == old(self)@,
    {
        match self.position(&name) {
            Some(i) => {
                proof {
                    self.lemma_listing();
                }
                self.products[i].description = description;
                self.products[i].price = price;
                self.products[i].quantity = quantity;
                proof {
                    let before = catalog_model(old(self).products@);
                    let edited = ProductModel {
                        name: name@,
                        description: description@,
                        price: price as int,
                        quantity: quantity as int,
                    };
                    assert(catalog_model(self.products@) =~= before.update(i as int, edited));
                    lemma_update(before, i as int, edited);
                    self.lemma_settled();
                }
                Ok(())
            },
            None => Err(StoreError::ProductNotFound),
        }
    }

    /// Removes a product from the catalog.
    ///
    /// Fails with `ProductNotFound`, changing nothing, if no product of that
    /// name exists. The sales and purchases that were logged for the product
    /// stay in the logs.
    pub fn delete_product(&mut self, name: String) -> (outcome: Result<(), StoreError>)
        requires
            old(self)@.wf(),
        ensures
            final(self)@.wf(),
            outcome == old(self)@.delete_product_outcome(name@),
            final(self)@ == old(self)@.delete_product(name@),
            !old(self)@.contains(name@) ==> outcome matches Err(StoreError::ProductNotFound),
            outcome is Err ==> final(self)@ == old(self)@,
            final(self)@.sales == old(self)@.sales,
            final(self)@.purchases == old(self)@.purchases,
    {
        match self.position(&name) {
            Some(i) => {
                proof {
                    self.lemma_listing();
                }
                self.products.remove(i);
                proof {
                    let before = catalog_model(old(self).products@);
                    assert(catalog_model(self.products@) =~= before.remove(i as int));
                    lemma_remove(before, i as int);
                    lemma_place(before, i as int);
                    self.lemma_settled();
                }
                Ok(())
            },
            None => Err(StoreError::ProductNotFound),
        }
    }

    /// Records the sale of `quantity` units of a product at the unit price
    /// `price`, which need not be the product's catalog price.
    ///
    /// Fails with `ProductNotFound` if no product of that name exists, and with
    /// `InsufficientStock` if fewer than `quantity` units are on hand; a failed
    /// sale changes nothing. Otherwise the units leave the stock and the sale
    /// is appended to the sales log. The stock that a sale leaves must fit in an
    /// `i32`, which it does for every quantity that is not negative.
    pub fn record_sale(
        &mut self,
        name: String,
        quantity: i32,
        price: i32,
    ) -> (outcome: Result<(), StoreError>)
        requires
            old(self)@.wf(),
            old(self)@.contains(name@) && quantity <= old(self)@.stock(name@)
                ==> old(self)@.stock(name@) - quantity <= i32::MAX,
        ensures
            final(self)@.wf(),
            outcome == old(self)@.record_sale_outcome(name@, quantity as int),
            final(self)@ == old(self)@.record_sale(name@, quantity as int, price as int),
            !old(self)@.contains(name@) ==> outcome matches Err(StoreError::ProductNotFound),
            old(self)@.contains(name@) && quantity > old(self)@.stock(name@)
                ==> outcome matches Err(StoreError::InsufficientStock),
            outcome is Err ==> final(self)@ == old(self)@,
    {
        match self.position(&name) {
            Some(i) => {
                let stock: i32 = self.products[i].quantity;
                if stock < quantity {
                    return Err(StoreError::InsufficientStock);
                }
                proof {
                    self.lemma_listing();
                }
                self.products[i].quantity = stock - quantity;
                self.sales.push((name, quantity, price));
                proof {
                    let before = catalog_model(old(self).products@);
                    let sold = ProductModel {
                        quantity: stock - quantity,
                        ..old(self)@.product(name@)
                    };
                    assert(catalog_model(self.products@) =~= before.update(i as int, sold));
                    assert(log_model(self.sales@) =~= log_model(old(self).sales@).push(
                        Transaction {
                            name: name@,
                            quantity: quantity as int,
                            price: price as int,
                        },
                    ));
                    lemma_update(before, i as int, sold);
                    self.lemma_settled();
                }
                Ok(())
            },
            None => Err(StoreError::ProductNotFound),
        }
    }

    /// Records the purchase of `quantity` units of a product at the unit price
    /// `price`, which need not be the product's catalog price.
    ///
    /// Fails with `ProductNotFound`, changing nothing, if no product of that
    /// name exists. Otherwise the units join the stock and the purchase is
    /// appended to the purchases log. The store sets no ceiling on the stock,
    /// but the new stock must fit in an `i32` and must not be negative.
    pub fn record_purchase(
        &mut self,
        name: String,
        quantity: i32,
        price: i32,
    ) -> (outcome: Result<(), StoreError>)
        requires
            old(self)@.wf(),
            old(self)@.contains(name@) ==> 0 <= old(self)@.stock(name@) + quantity <= i32::MAX,
        ensures
            final(self)@.wf(),
            outcome == old(self)@.record_purchase_outcome(name@),
            final(self)@ == old(self)@.record_purchase(name@, quantity as int, price as int),
            !old(self)@.contains(name@) ==> outcome matches Err(StoreError::ProductNotFound),
            outcome is Err ==> final(self)@ == old(self)@,
    {
        match self.position(&name) {
            Some(i) => {
                proof {
                    self.lemma_listing();
                }
                let stock: i32 = self.products[i].quantity;
                self.products[i].quantity = stock + quantity;
                self.purchases.push((name, quantity, price));
                proof {
                    let before = catalog_model(old(self).products@);
                    let bought = ProductModel {
                        quantity: stock + quantity,
                        ..old(self)@.product(name@)
                    };
                    assert(catalog_model(self.products@) =~= before.update(i as int, bought));
                    assert(log_model(self.purchases@) =~= log_model(old(self).purchases@).push(
                        Transaction {
                            name: name@,
                            quantity: quantity as int,
                            price: price as int,
                        },
                    ));
                    lemma_update(before, i as int, bought);
                    self.lemma_settled();
                }
                Ok(())
            },
            None => Err(StoreError::ProductNotFound),
        }
    }
}

} // verus!
