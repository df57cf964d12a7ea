//! What holds of the ledger whatever is asked of it.

use crate::error::StoreError;
use crate::ledger::{all_movements, Command, Ledger, Transaction};
use crate::report::{purchase_rows, purchases_head, purchases_report, sales_report};
use vstd::prelude::*;

verus! {

/// A command that the ledger admits leaves it well formed: the names stay
/// unique and no quantity becomes negative.
pub proof fn lemma_step_keeps_wf(ledger: Ledger, command: Command)
    requires
        ledger.wf(),
        ledger.admits(command),
    ensures
        ledger.step(command).wf(),
{
    let after = ledger.step(command);
    match command {
        Command::AddProduct { name, .. } => {
            if !ledger.contains(name) {
                assert(!ledger.order.contains(name));
                assert forall|n: Seq<char>| after.catalog.dom().contains(n) <==> after.order.contains(
                    n,
                ) by {
                    if ledger.order.contains(n) {
                        assert(after.order[ledger.order.index_of(n)] == n);
                    }
                    if n == name {
                        assert(after.order[ledger.order.len() as int] == n);
                    }
                }
            }
        },
        Command::DeleteProduct { name } => {
            if ledger.contains(name) {
                let i = ledger.order.index_of(name);
                assert(ledger.order.contains(name));
                assert forall|a: int| 0 <= a < after.order.len() implies #[trigger] after.order[a]
                    == ledger.order[if a < i {
                    a
                } else {
                    a + 1
                }] by {}
                assert forall|n: Seq<char>| after.catalog.dom().contains(n) <==> after.order.contains(
                    n,
                ) by {
                    if after.catalog.dom().contains(n) {
                        let k = ledger.order.index_of(n);
                        assert(ledger.order.contains(n));
                        assert(after.order[if k < i { k } else { k - 1 }] == n);
                    }
                    if after.order.contains(n) {
                        assert(ledger.order.contains(n));
                    }
                }
            }
        },
        _ => {},
    }
}

/// A sequence of commands, each admitted by the ledger that it meets, leaves
/// the ledger well formed.
pub proof fn lemma_run_keeps_wf(ledger: Ledger, commands: Seq<Command>)
    requires
        ledger.wf(),
        ledger.admits_all(commands),
    ensures
        ledger.run(commands).wf(),
    decreases commands.len(),
{
    if commands.len() > 0 {
        lemma_run_keeps_wf(ledger, commands.drop_last());
        lemma_step_keeps_wf(ledger.run(commands.drop_last()), commands.last());
    }
}

/// Adding a product under a name that is taken fails with `DuplicateProduct`
/// and changes nothing: the product of that name keeps all its fields.
pub proof fn lemma_add_under_taken_name(
    ledger: Ledger,
    name: Seq<char>,
    description: Seq<char>,
    price: int,
    quantity: int,
)
    requires
        ledger.contains(name),
    ensures
        ledger.add_product_outcome(name) matches Err(StoreError::DuplicateProduct),
        ledger.add_product(name, description, price, quantity) == ledger,
        ledger.add_product(name, description, price, quantity).product(name) == ledger.product(
            name,
        ),
{
}

/// Editing or deleting a product that does not exist fails with
/// `ProductNotFound` and changes nothing; so does a sale or a purchase of it.
pub proof fn lemma_unknown_name(
    ledger: Ledger,
    name: Seq<char>,
    description: Seq<char>,
    price: int,
    quantity: int,
)
    requires
        !ledger.contains(name),
    ensures
        ledger.edit_product_outcome(name) matches Err(StoreError::ProductNotFound),
        ledger.edit_product(name, description, price, quantity) == ledger,
        ledger.delete_product_outcome(name) matches Err(StoreError::ProductNotFound),
        ledger.delete_product(name) == ledger,
        ledger.record_sale_outcome(name, quantity) matches Err(StoreError::ProductNotFound),
        ledger.record_sale(name, quantity, price) == ledger,
        ledger.record_purchase_outcome(name) matches Err(StoreError::ProductNotFound),
        ledger.record_purchase(name, quantity, price) == ledger,
{
}

/// A sale of more units than are on hand fails with `InsufficientStock` and
/// changes nothing: the stock is as before and nothing joins the sales log.
pub proof fn lemma_sale_beyond_stock(ledger: Ledger, name: Seq<char>, quantity: int, price: int)
    requires
        ledger.contains(name),
        quantity > ledger.stock(name),
    ensures
        ledger.record_sale_outcome(name, quantity) matches Err(StoreError::InsufficientStock),
        ledger.record_sale(name, quantity, price) == ledger,
        ledger.record_sale(name, quantity, price).stock(name) == ledger.stock(name),
        ledger.record_sale(name, quantity, price).sales == ledger.sales,
{
}

/// A command that fails changes nothing.
pub proof fn lemma_failure_changes_nothing(ledger: Ledger, command: Command)
    requires
        ledger.outcome(command) is Err,
    ensures
        ledger.step(command) == ledger,
{
}

/// A command appends at most one entry to one log and never touches an entry
/// that is there: a sale that succeeds appends itself to the sales log, a
/// purchase that succeeds appends itself to the purchases log, and every other
/// command leaves both logs as they are.
pub proof fn lemma_step_appends(ledger: Ledger, command: Command)
    ensures
        ledger.sales.is_prefix_of(ledger.step(command).sales),
        ledger.purchases.is_prefix_of(ledger.step(command).purchases),
        ledger.step(command).sales == if command is RecordSale && ledger.outcome(command) is Ok {
            ledger.sales.push(command.entry())
        } else {
            ledger.sales
        },
        ledger.step(command).purchases == if command is RecordPurchase && ledger.outcome(
            command,
        ) is Ok {
            ledger.purchases.push(command.entry())
        } else {
            ledger.purchases
        },
{
}

/// Whatever the commands, the logs only grow: what was logged before a
/// sequence of commands is, entry for entry, the beginning of what is logged
/// after it.
pub proof fn lemma_logs_only_grow(ledger: Ledger, commands: Seq<Command>)
    ensures
        ledger.sales.is_prefix_of(ledger.run(commands).sales),
        ledger.purchases.is_prefix_of(ledger.run(commands).purchases),
    decreases commands.len(),
{
    if commands.len() > 0 {
        let before = ledger.run(commands.drop_last());
        lemma_logs_only_grow(ledger, commands.drop_last());
        lemma_step_appends(before, commands.last());
    }
}

/// Through any sequence of sales and purchases, after each step, a product's
/// stock is what it was at the start, plus the units that the purchases logged
/// since the start brought, minus the units that the sales logged since the
/// start took.
pub proof fn lemma_stock_follows_the_logs(ledger: Ledger, name: Seq<char>, commands: Seq<Command>)
    requires
        ledger.contains(name),
        all_movements(commands),
    ensures
        forall|k: int|
            0 <= k <= commands.len() ==> {
                let reached = ledger.run(#[trigger] commands.take(k));
                &&& reached.contains(name)
                &&& reached.stock(name) == ledger.stock(name) + reached.purchased_since(ledger, name)
                    - reached.sold_since(ledger, name)
            },
{
    assert forall|k: int| 0 <= k <= commands.len() implies {
        let reached = ledger.run(#[trigger] commands.take(k));
        &&& reached.contains(name)
        &&& reached.stock(name) == ledger.stock(name) + reached.purchased_since(ledger, name)
            - reached.sold_since(ledger, name)
    } by {
        lemma_stock_after(ledger, name, commands.take(k));
    }
}

proof fn lemma_stock_after(ledger: Ledger, name: Seq<char>, commands: Seq<Command>)
    requires
        ledger.contains(name),
        all_movements(commands),
    ensures
        ledger.run(commands).contains(name),
        ledger.run(commands).stock(name) == ledger.stock(name) + ledger.run(
            commands,
        ).purchased_since(ledger, name) - ledger.run(commands).sold_since(ledger, name),
    decreases commands.len(),
{
    if commands.len() > 0 {
        let before = ledger.run(commands.drop_last());
        let after = ledger.run(commands);
        let logged_sales = ledger.sales.len() as int;
        let logged_purchases = ledger.purchases.len() as int;
        lemma_stock_after(ledger, name, commands.drop_last());
        lemma_logs_only_grow(ledger, commands.drop_last());
        lemma_step_appends(before, commands.last());
        if after.sales != before.sales {
            assert(after.sales.skip(logged_sales).drop_last() =~= before.sales.skip(
                logged_sales,
            ));
        }
        if after.purchases != before.purchases {
            assert(after.purchases.skip(logged_purchases).drop_last() =~= before.purchases.skip(
                logged_purchases,
            ));
        }
    }
}

/// Through any sequence of sales and purchases that the ledger admits, after
/// each step, a product's stock is not negative: a sale that would make it so
/// is declined, and leaves the stock as it is.
pub proof fn lemma_stock_never_negative(ledger: Ledger, name: Seq<char>, commands: Seq<Command>)
    requires
        ledger.wf(),
        ledger.contains(name),
        ledger.admits_all(commands),
        all_movements(commands),
    ensures
        forall|k: int|
            0 <= k <= commands.len() ==> {
                let reached = ledger.run(#[trigger] commands.take(k));
                &&& reached.contains(name)
                &&& reached.stock(name) >= 0
            },
{
    assert forall|k: int| 0 <= k <= commands.len() implies {
        let reached = ledger.run(#[trigger] commands.take(k));
        &&& reached.contains(name)
        &&& reached.stock(name) >= 0
    } by {
        lemma_admits_beginning(ledger, commands, k);
        lemma_run_keeps_wf(ledger, commands.take(k));
        lemma_stock_after(ledger, name, commands.take(k));
    }
}

/// A ledger that admits a sequence of commands admits every beginning of it.
pub proof fn lemma_admits_beginning(ledger: Ledger, commands: Seq<Command>, k: int)
    requires
        ledger.admits_all(commands),
        0 <= k <= commands.len(),
    ensures
        ledger.admits_all(commands.take(k)),
    decreases commands.len(),
{
    if k == commands.len() {
        assert(commands.take(k) =~= commands);
    } else {
        assert(commands.take(k) =~= commands.drop_last().take(k));
        lemma_admits_beginning(ledger, commands.drop_last(), k);
    }
}

/// Deleting a product leaves both logs as they are, and with them the sales
/// report, which shows every sale ever recorded.
pub proof fn lemma_delete_keeps_the_logs(ledger: Ledger, name: Seq<char>)
    ensures
        ledger.delete_product(name).sales == ledger.sales,
        ledger.delete_product(name).purchases == ledger.purchases,
        sales_report(ledger.delete_product(name)) == sales_report(ledger),
{
}

/// The purchases report has no row for a purchase whose product is not in the
/// catalog: where none of the logged products is, it is the title and the
/// header alone.
pub proof fn lemma_purchases_of_absent_products(ledger: Ledger)
    requires
        forall|i: int|
            0 <= i < ledger.purchases.len() ==> !ledger.contains(
                (#[trigger] ledger.purchases[i]).name,
            ),
    ensures
        purchases_report(ledger) == purchases_head(),
{
    lemma_rows_of_absent_products(ledger, ledger.purchases);
}

proof fn lemma_rows_of_absent_products(ledger: Ledger, entries: Seq<Transaction>)
    requires
        forall|i: int| 0 <= i < entries.len() ==> !ledger.contains((#[trigger] entries[i]).name),
    ensures
        purchase_rows(ledger, entries) == Seq::<char>::empty(),
    decreases entries.len(),
{
    if entries.len() > 0 {
        lemma_rows_of_absent_products(ledger, entries.drop_last());
    }
}

/// After a product is deleted, the purchases report is what it was without
/// the rows of that product: the purchases of the other products keep their
/// rows, in their order.
pub proof fn lemma_purchases_report_after_delete(ledger: Ledger, name: Seq<char>)
    ensures
        purchases_report(ledger.delete_product(name)) == purchases_head() + purchase_rows(
            ledger,
            ledger.purchases.filter(|entry: Transaction| entry.name != name),
        ),
{
    lemma_rows_after_delete(ledger, name, ledger.purchases);
}

proof fn lemma_rows_after_delete(ledger: Ledger, name: Seq<char>, entries: Seq<Transaction>)
    ensures
        purchase_rows(ledger.delete_product(name), entries) == purchase_rows(
            ledger,
            entries.filter(|entry: Transaction| entry.name != name),
        ),
    decreases entries.len(),
{
    reveal(Seq::filter);
    let kept = |entry: Transaction| entry.name != name;
    if entries.len() > 0 {
        lemma_rows_after_delete(ledger, name, entries.drop_last());
        if entries.last().name != name {
            assert(entries.filter(kept).drop_last() =~= entries.drop_last().filter(kept));
        }
    }
}

} // verus!
