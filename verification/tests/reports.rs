use rusty_store::store::Store;

fn s(text: &str) -> String {
    text.to_string()
}

fn wide_row(name: &str, description: &str, price: i32, quantity: i32) -> String {
    format!("{:<20} {:<40} {:<20} {:<20}\n", name, description, price, quantity)
}

fn sale_row(name: &str, quantity: i32, price: i32, total: i64) -> String {
    format!("{:<20} {:<20} {:<20} {:<20}\n", name, quantity, price, total)
}

fn purchase_row(name: &str, description: &str, quantity: i32, price: i32) -> String {
    format!("{:<20} {:<20} {:<20} {:<20}\n", name, description, quantity, price)
}

fn inventory_head() -> String {
    let mut head = s("Inventory Report: \n");
    head += &format!("{:<20} {:<40} {:<20} {:<20}\n", "NAME", "DESCRIPTION", "PRICE", "QUANTITY");
    head
}

fn sales_head() -> String {
    let mut head = s("Sales Report:\n");
    head += &format!("{:<20} {:<20} {:<20} {:<20}\n", "Name", "Quantity", "Price", "Total");
    head
}

fn purchases_head() -> String {
    let mut head = s("Purchases Report:\n");
    head += &format!("{:<20} {:<20} {:<20} {:<20}\n", "Name", "Description", "Quantity", "Price");
    head
}

#[test]
fn reports_of_empty_store() {
    let store = Store::new();
    assert_eq!(store.generate_inventory_report(), inventory_head());
    assert_eq!(store.generate_sales_report(), sales_head());
    assert_eq!(store.generate_purchases_report(), purchases_head());
}

#[test]
fn sales_head_letter_for_letter() {
    let store = Store::new();
    let expected = "Sales Report:\n\
                    Name                 Quantity             Price                Total               \n";
    assert_eq!(store.generate_sales_report(), expected);
}

#[test]
fn inventory_head_letter_for_letter() {
    let store = Store::new();
    let expected = "Inventory Report: \n\
                    NAME                 DESCRIPTION                              PRICE                QUANTITY            \n";
    assert_eq!(store.generate_inventory_report(), expected);
}

#[test]
fn inventory_report_rows_in_order_added() {
    let mut store = Store::new();
    store.add_product(s("Widget"), s("A widget"), 100, 10).unwrap();
    store.add_product(s("Anvil"), s("Heavy"), 2500, 1).unwrap();
    store.add_product(s("Mallet"), s(""), 0, 0).unwrap();
    let expected = inventory_head()
        + &wide_row("Widget", "A widget", 100, 10)
        + &wide_row("Anvil", "Heavy", 2500, 1)
        + &wide_row("Mallet", "", 0, 0);
    assert_eq!(store.generate_inventory_report(), expected);
}

#[test]
fn inventory_row_letter_for_letter() {
    let mut store = Store::new();
    store.add_product(s("Widget"), s("A widget"), 100, 10).unwrap();
    let report = store.generate_inventory_report();
    assert_eq!(
        report.lines().nth(2).unwrap(),
        "Widget               A widget                                 100                  10                  "
    );
}

#[test]
fn inventory_report_after_edit_and_delete() {
    let mut store = Store::new();
    store.add_product(s("A"), s("first"), 1, 1).unwrap();
    store.add_product(s("B"), s("second"), 2, 2).unwrap();
    store.add_product(s("C"), s("third"), 3, 3).unwrap();
    store.edit_product(s("A"), s("first, edited"), -7, 70).unwrap();
    store.delete_product(s("B")).unwrap();
    store.record_sale(s("C"), 2, 9).unwrap();
    let expected =
        inventory_head() + &wide_row("A", "first, edited", -7, 70) + &wide_row("C", "third", 3, 1);
    assert_eq!(store.generate_inventory_report(), expected);
}

#[test]
fn sales_report_totals() {
    let mut store = Store::new();
    store.add_product(s("Widget"), s("A widget"), 100, 200000).unwrap();
    store.record_sale(s("Widget"), 3, 120).unwrap();
    store.record_sale(s("Widget"), 0, 55).unwrap();
    store.record_sale(s("Widget"), 4, -25).unwrap();
    store.record_sale(s("Widget"), 100000, 100000).unwrap();
    let expected = sales_head()
        + &sale_row("Widget", 3, 120, 360)
        + &sale_row("Widget", 0, 55, 0)
        + &sale_row("Widget", 4, -25, -100)
        + &sale_row("Widget", 100000, 100000, 10_000_000_000);
    let report = store.generate_sales_report();
    assert_eq!(report, expected);
    assert!(report.lines().nth(5).unwrap().ends_with(" 10000000000         "));
}

#[test]
fn sales_report_shows_sales_of_deleted_products() {
    let mut store = Store::new();
    store.add_product(s("Widget"), s("A widget"), 100, 10).unwrap();
    store.add_product(s("Gadget"), s("A gadget"), 50, 4).unwrap();
    store.record_sale(s("Widget"), 3, 120).unwrap();
    store.record_sale(s("Gadget"), 1, 60).unwrap();
    let before = store.generate_sales_report();
    store.delete_product(s("Widget")).unwrap();
    assert_eq!(store.generate_sales_report(), before);
    assert_eq!(
        before,
        sales_head() + &sale_row("Widget", 3, 120, 360) + &sale_row("Gadget", 1, 60, 60)
    );
}

#[test]
fn purchases_report_uses_current_description() {
    let mut store = Store::new();
    store.add_product(s("Widget"), s("A widget"), 100, 10).unwrap();
    store.record_purchase(s("Widget"), 5, 90).unwrap();
    store.record_purchase(s("Widget"), 1, 95).unwrap();
    assert_eq!(
        store.generate_purchases_report(),
        purchases_head()
            + &purchase_row("Widget", "A widget", 5, 90)
            + &purchase_row("Widget", "A widget", 1, 95)
    );
    store.edit_product(s("Widget"), s("Better widget"), 100, 16).unwrap();
    assert_eq!(
        store.generate_purchases_report(),
        purchases_head()
            + &purchase_row("Widget", "Better widget", 5, 90)
            + &purchase_row("Widget", "Better widget", 1, 95)
    );
}

#[test]
fn purchases_report_omits_deleted_products() {
    let mut store = Store::new();
    store.add_product(s("Widget"), s("A widget"), 100, 10).unwrap();
    store.add_product(s("Gadget"), s("A gadget"), 50, 4).unwrap();
    store.record_purchase(s("Widget"), 5, 90).unwrap();
    store.record_purchase(s("Gadget"), 1, 40).unwrap();
    store.record_purchase(s("Widget"), 2, 91).unwrap();
    store.delete_product(s("Widget")).unwrap();
    assert_eq!(
        store.generate_purchases_report(),
        purchases_head() + &purchase_row("Gadget", "A gadget", 1, 40)
    );
    store.delete_product(s("Gadget")).unwrap();
    assert_eq!(store.generate_purchases_report(), purchases_head());
    assert_eq!(store.purchases().len(), 3);
}

#[test]
fn purchases_report_shows_old_purchases_of_a_name_added_again() {
    let mut store = Store::new();
    store.add_product(s("Widget"), s("A widget"), 100, 10).unwrap();
    store.record_purchase(s("Widget"), 5, 90).unwrap();
    store.delete_product(s("Widget")).unwrap();
    store.add_product(s("Widget"), s("Second life"), 1, 0).unwrap();
    assert_eq!(
        store.generate_purchases_report(),
        purchases_head() + &purchase_row("Widget", "Second life", 5, 90)
    );
}

#[test]
fn long_cells_are_not_cut() {
    let mut store = Store::new();
    let name = "A name that is longer than twenty characters";
    let description = "A description that is a good deal longer than forty characters";
    store.add_product(s(name), s(description), i32::MAX, i32::MAX).unwrap();
    store.record_sale(s(name), i32::MAX, i32::MAX).unwrap();
    store.record_purchase(s(name), 0, i32::MIN).unwrap();
    assert_eq!(
        store.generate_inventory_report(),
        inventory_head() + &wide_row(name, description, i32::MAX, 0)
    );
    assert_eq!(
        store.generate_sales_report(),
        sales_head() + &sale_row(name, i32::MAX, i32::MAX, 4611686014132420609)
    );
    assert_eq!(
        store.generate_purchases_report(),
        purchases_head() + &purchase_row(name, description, 0, i32::MIN)
    );
    let line = format!("{} {} 2147483647           0                   ", name, description);
    assert_eq!(store.generate_inventory_report().lines().nth(2).unwrap(), line);
}

#[test]
fn cells_are_measured_in_characters() {
    let mut store = Store::new();
    store.add_product(s("Käse"), s("très bon €"), 3, 4).unwrap();
    store.record_sale(s("Käse"), 1, 3).unwrap();
    store.record_purchase(s("Käse"), 1, 2).unwrap();
    assert_eq!(
        store.generate_inventory_report(),
        inventory_head() + &wide_row("Käse", "très bon €", 3, 3 + 1)
    );
    assert_eq!(store.generate_sales_report(), sales_head() + &sale_row("Käse", 1, 3, 3));
    assert_eq!(
        store.generate_purchases_report(),
        purchases_head() + &purchase_row("Käse", "très bon €", 1, 2)
    );
    let row = store.generate_inventory_report().lines().nth(2).unwrap().to_string();
    assert_eq!(row.chars().count(), 20 + 1 + 40 + 1 + 20 + 1 + 20);
}
