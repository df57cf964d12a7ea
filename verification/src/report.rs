//! The three reports: fixed-width tables of the catalog, of the sales log and
//! of the purchases log.
//!
//! A table row has four cells. Each cell is filled with spaces to the width of
//! its column and is never cut; one space parts two cells, and a line feed ends
//! the row. The first, third and fourth columns are 20 characters wide; the
//! second is 40 wide in the inventory report and 20 in the other two.

use crate::ledger::{Ledger, ProductModel, Transaction};
use crate::store::{catalog_model, log_model, Store};
use crate::text::{decimal, decimal_string, left_aligned, push_left_aligned};
use vstd::prelude::*;
use vstd::string::*;

verus! {

/// The width of a column.
pub const COLUMN: usize = 20;

/// The width of the description column of the inventory report.
pub const WIDE_COLUMN: usize = 40;

/// One row of a table.
pub open spec fn row(
    first: Seq<char>,
    second: Seq<char>,
    second_width: nat,
    third: Seq<char>,
    fourth: Seq<char>,
) -> Seq<char> {
    left_aligned(first, COLUMN as nat) + seq![' ']
        + left_aligned(second, second_width) + seq![' ']
        + left_aligned(third, COLUMN as nat) + seq![' ']
        + left_aligned(fourth, COLUMN as nat) + seq!['\n']
}

/// The row of the inventory report for one product: its name, description,
/// price and quantity.
pub open spec fn inventory_row(product: ProductModel) -> Seq<char> {
    row(
        product.name,
        product.description,
        WIDE_COLUMN as nat,
        decimal(product.price),
        decimal(product.quantity),
    )
}

/// The rows of the inventory report for `products`, in their order.
pub open spec fn inventory_rows(products: Seq<ProductModel>) -> Seq<char>
    decreases products.len(),
{
    if products.len() == 0 {
        Seq::empty()
    } else {
        inventory_rows(products.drop_last()) + inventory_row(products.last())
    }
}

/// The head of the inventory report: its title line and its header row.
pub open spec fn inventory_head() -> Seq<char> {
    "Inventory Report: \n"@ + row(
        "NAME"@,
        "DESCRIPTION"@,
        WIDE_COLUMN as nat,
        "PRICE"@,
        "QUANTITY"@,
    )
}

/// The inventory report: the head, and a row for each product in the order in
/// which the products were added.
pub open spec fn inventory_report(ledger: Ledger) -> Seq<char> {
    inventory_head() + inventory_rows(ledger.products())
}

/// The row of the sales report for one log entry: its name, quantity and unit
/// price, and their product as the total.
pub open spec fn sale_row(entry: Transaction) -> Seq<char> {
    row(
        entry.name,
        decimal(entry.quantity),
        COLUMN as nat,
        decimal(entry.price),
        decimal(entry.quantity * entry.price),
    )
}

/// The rows of the sales report for `entries`, oldest entry first.
pub open spec fn sale_rows(entries: Seq<Transaction>) -> Seq<char>
    decreases entries.len(),
{
    if entries.len() == 0 {
        Seq::empty()
    } else {
        sale_rows(entries.drop_last()) + sale_row(entries.last())
    }
}

/// The head of the sales report: its title line and its header row.
pub open spec fn sales_head() -> Seq<char> {
    "Sales Report:\n"@ + row("Name"@, "Quantity"@, COLUMN as nat, "Price"@, "Total"@)
}

/// The sales report: the head, and a row for every sale that was ever
/// recorded, whether or not its product is still in the catalog.
pub open spec fn sales_report(ledger: Ledger) -> Seq<char> {
    sales_head() + sale_rows(ledger.sales)
}

/// The row of the purchases report for one log entry: the entry's name, the
/// description that the product has now, and the quantity and unit price of the
/// entry. An entry whose product is no longer in the catalog has no row.
pub open spec fn purchase_row(ledger: Ledger, entry: Transaction) -> Seq<char> {
    if ledger.contains(entry.name) {
        row(
            entry.name,
            ledger.product(entry.name).description,
            COLUMN as nat,
            decimal(entry.quantity),
            decimal(entry.price),
        )
    } else {
        Seq::empty()
    }
}

/// The rows of the purchases report for `entries`, oldest entry first.
pub open spec fn purchase_rows(ledger: Ledger, entries: Seq<Transaction>) -> Seq<char>
    decreases entries.len(),
{
    if entries.len() == 0 {
        Seq::empty()
    } else {
        purchase_rows(ledger, entries.drop_last()) + purchase_row(ledger, entries.last())
    }
}

/// The head of the purchases report: its title line and its header row.
pub open spec fn purchases_head() -> Seq<char> {
    "Purchases Report:\n"@ + row("Name"@, "Description"@, COLUMN as nat, "Quantity"@, "Price"@)
}

/// The purchases report: the head, and a row for each purchase whose product
/// is still in the catalog.
pub open spec fn purchases_report(ledger: Ledger) -> Seq<char> {
    purchases_head() + purchase_rows(ledger, ledger.purchases)
}

fn push_row(
    out: &mut String,
    first: &str,
    second: &str,
    second_width: usize,
    third: &str,
    fourth: &str,
)
    ensures
        final(out)@ == old(out)@ + row(first@, second@, second_width as nat, third@, fourth@),
{
    proof {
        reveal_strlit(" ");
        reveal_strlit("\n");
    }
    push_left_aligned(out, first, COLUMN);
    out.append(" ");
    push_left_aligned(out, second, second_width);
    out.append(" ");
    push_left_aligned(out, third, COLUMN);
    out.append(" ");
    push_left_aligned(out, fourth, COLUMN);
    out.append("\n");
}

impl Store {
    /// The inventory report, with the products in the order in which they were
    /// added to the catalog.
    pub fn generate_inventory_report(&self) -> (report: String)
        requires
            self@.wf(),
        ensures
            report@ == inventory_report(self@),
    {
        let mut report = String::from_str("Inventory Report: \n");
        push_row(&mut report, "NAME", "DESCRIPTION", WIDE_COLUMN, "PRICE", "QUANTITY");
        let ghost head = report@;
        let products = self.products();
        let mut i: usize = 0;
        while i < products.len()
            invariant
                i <= products.len(),
                catalog_model(products@) == self@.products(),
                report@ == head + inventory_rows(self@.products().take(i as int)),
            decreases products.len() - i,
        {
            let product = &products[i];
            assert(self@.products().take(i + 1).drop_last() =~= self@.products().take(i as int));
            let price = decimal_string(product.price as i64);
            let quantity = decimal_string(product.quantity as i64);
            push_row(
                &mut report,
                product.name.as_str(),
                product.description.as_str(),
                WIDE_COLUMN,
                price.as_str(),
                quantity.as_str(),
            );
            i += 1;
        }
        assert(self@.products().take(i as int) =~= self@.products());
        report
    }

    /// The sales report. The total of a row is the quantity times the unit
    /// price of that sale.
    pub fn generate_sales_report(&self) -> (report: String)
        ensures
            report@ == sales_report(self@),
    {
        let mut report = String::from_str("Sales Report:\n");
        push_row(&mut report, "Name", "Quantity", COLUMN, "Price", "Total");
        let ghost head = report@;
        let entries = self.sales();
        let mut i: usize = 0;
        while i < entries.len()
            invariant
                i <= entries.len(),
                log_model(entries@) == self@.sales,
                report@ == head + sale_rows(self@.sales.take(i as int)),
            decreases entries.len() - i,
        {
            let entry = &entries[i];
            assert(self@.sales.take(i + 1).drop_last() =~= self@.sales.take(i as int));
            assert(i64::MIN <= entry.1 * entry.2 <= i64::MAX) by (nonlinear_arith)
                requires
                    i32::MIN <= entry.1 <= i32::MAX,
                    i32::MIN <= entry.2 <= i32::MAX,
            ;
            let amount: i64 = (entry.1 as i64) * (entry.2 as i64);
            let quantity = decimal_string(entry.1 as i64);
            let price = decimal_string(entry.2 as i64);
            let total = decimal_string(amount);
            push_row(
                &mut report,
                entry.0.as_str(),
                quantity.as_str(),
                COLUMN,
                price.as_str(),
                total.as_str(),
            );
            i += 1;
        }
        assert(self@.sales.take(i as int) =~= self@.sales);
        report
    }

    /// The purchases report.
    ///
    /// The description shown is the one that the product has now, and a
    /// purchase of a product that has since been deleted is not shown.
    pub fn generate_purchases_report(&self) -> (report: String)
        requires
            self@.wf(),
        ensures
            report@ == purchases_report(self@),
    {
        let mut report = String::from_str("Purchases Report:\n");
        push_row(&mut report, "Name", "Description", COLUMN, "Quantity", "Price");
        let ghost head = report@;
        let entries = self.purchases();
        let mut i: usize = 0;
        while i < entries.len()
            invariant
                self@.wf(),
                i <= entries.len(),
                log_model(entries@) == self@.purchases,
                report@ == head + purchase_rows(self@, self@.purchases.take(i as int)),
            decreases entries.len() - i,
        {
            let entry = &entries[i];
            assert(self@.purchases.take(i + 1).drop_last() =~= self@.purchases.take(i as int));
            match self.product(entry.0.as_str()) {
                Some(product) => {
                    let quantity = decimal_string(entry.1 as i64);
                    let price = decimal_string(entry.2 as i64);
                    push_row(
                        &mut report,
                        product.name.as_str(),
                        product.description.as_str(),
                        COLUMN,
                        quantity.as_str(),
                        price.as_str(),
                    );
                },
                None => {},
            }
            i += 1;
        }
        assert(self@.purchases.take(i as int) =~= self@.purchases);
        report
    }
}

} // verus!
