//! How a list of products with unique names stands for a catalog: the map
//! from each name to its product, and the names in the order of the list.

use crate::ledger::{Ledger, ProductModel, Transaction};
use vstd::prelude::*;

verus! {

/// The names of the listed products, in the order of the list.
pub open spec fn names(items: Seq<ProductModel>) -> Seq<Seq<char>> {
    Seq::new(items.len(), |i: int| items[i].name)
}

/// No two listed products share a name.
pub open spec fn unique(items: Seq<ProductModel>) -> bool {
    forall|i: int, j: int| 0 <= i < j < items.len() ==> items[i].name != items[j].name
}

/// A product called `name` is listed.
pub open spec fn listed(items: Seq<ProductModel>, name: Seq<char>) -> bool {
    exists|i: int| 0 <= i < items.len() && items[i].name == name
}

/// A place at which a product called `name` is listed.
pub open spec fn place(items: Seq<ProductModel>, name: Seq<char>) -> int {
    choose|i: int| 0 <= i < items.len() && items[i].name == name
}

/// The map from each listed name to a product of that name.
pub open spec fn by_name(items: Seq<ProductModel>) -> Map<Seq<char>, ProductModel> {
    Map::new(|name: Seq<char>| listed(items, name), |name: Seq<char>| items[place(items, name)])
}

/// No listed product has a negative quantity.
pub open spec fn stocked(items: Seq<ProductModel>) -> bool {
    forall|i: int| 0 <= i < items.len() ==> items[i].quantity >= 0
}

/// The ledger that a list of products and two logs stand for.
pub open spec fn ledger_of(
    items: Seq<ProductModel>,
    sales: Seq<Transaction>,
    purchases: Seq<Transaction>,
) -> Ledger {
    Ledger { catalog: by_name(items), order: names(items), sales, purchases }
}

/// In a list with unique names a product is found at one place only.
pub proof fn lemma_place(items: Seq<ProductModel>, i: int)
    requires
        unique(items),
        0 <= i < items.len(),
    ensures
        listed(items, items[i].name),
        place(items, items[i].name) == i,
        by_name(items)[items[i].name] == items[i],
        names(items).index_of(items[i].name) == i,
{
    assert(names(items)[i] == items[i].name);
}

/// The names of a list are without duplicates exactly if the list is unique,
/// and a name is among them exactly if it is listed.
pub proof fn lemma_names(items: Seq<ProductModel>)
    ensures
        names(items).no_duplicates() <==> unique(items),
        forall|name: Seq<char>| names(items).contains(name) <==> listed(items, name),
{
    let ns = names(items);
    if ns.no_duplicates() {
        assert forall|i: int, j: int| 0 <= i < j < items.len() implies items[i].name
            != items[j].name by {
            assert(ns[i] != ns[j]);
        }
    }
    assert forall|name: Seq<char>| ns.contains(name) <==> listed(items, name) by {
        if listed(items, name) {
            assert(ns[place(items, name)] == name);
        }
    }
}

/// A product with a new name, put at the end of a list, is filed under its
/// name; the rest of the catalog is as before.
pub proof fn lemma_push(items: Seq<ProductModel>, product: ProductModel)
    requires
        unique(items),
        !listed(items, product.name),
    ensures
        unique(items.push(product)),
        names(items.push(product)) == names(items).push(product.name),
        by_name(items.push(product)) == by_name(items).insert(product.name, product),
{
    let after = items.push(product);
    assert forall|name: Seq<char>| listed(after, name) <==> (listed(items, name) || name
        == product.name) by {
        if listed(items, name) {
            assert(after[place(items, name)].name == name);
        }
        if name == product.name {
            assert(after[items.len() as int].name == name);
        }
    }
    assert forall|name: Seq<char>| listed(after, name) implies by_name(after)[name] == by_name(
        items,
    ).insert(product.name, product)[name] by {
        if name == product.name {
            lemma_place(after, items.len() as int);
        } else {
            lemma_place(after, place(items, name));
        }
    }
}

/// A product that takes the place of one of the same name is filed under that
/// name; the names and the rest of the catalog are as before.
pub proof fn lemma_update(items: Seq<ProductModel>, i: int, product: ProductModel)
    requires
        unique(items),
        0 <= i < items.len(),
        product.name == items[i].name,
    ensures
        unique(items.update(i, product)),
        names(items.update(i, product)) == names(items),
        by_name(items.update(i, product)) == by_name(items).insert(product.name, product),
{
    let after = items.update(i, product);
    assert forall|a: int| 0 <= a < after.len() implies #[trigger] after[a].name
        == items[a].name by {}
    assert forall|name: Seq<char>| listed(after, name) <==> listed(items, name) by {
        if listed(items, name) {
            assert(after[place(items, name)].name == name);
        }
    }
    lemma_place(items, i);
    assert forall|name: Seq<char>| listed(after, name) implies by_name(after)[name] == by_name(
        items,
    ).insert(product.name, product)[name] by {
        if name == product.name {
            lemma_place(after, i);
        } else {
            lemma_place(after, place(items, name));
        }
    }
}

/// A product taken out of a list leaves the catalog and the names; the rest of
/// the catalog is as before.
pub proof fn lemma_remove(items: Seq<ProductModel>, i: int)
    requires
        unique(items),
        0 <= i < items.len(),
    ensures
        unique(items.remove(i)),
        names(items.remove(i)) == names(items).remove(i),
        by_name(items.remove(i)) == by_name(items).remove(items[i].name),
{
    let after = items.remove(i);
    let gone = items[i].name;
    assert forall|a: int| 0 <= a < after.len() implies #[trigger] after[a] == items[if a < i {
        a
    } else {
        a + 1
    }] by {}
    assert forall|name: Seq<char>| listed(after, name) <==> (listed(items, name) && name
        != gone) by {
        if listed(items, name) && name != gone {
            let k = place(items, name);
            assert(after[if k < i { k } else { k - 1 }] == items[k]);
        }
    }
    assert forall|name: Seq<char>| listed(after, name) implies by_name(after)[name] == by_name(
        items,
    ).remove(gone)[name] by {
        let k = place(items, name);
        lemma_place(after, if k < i { k } else { k - 1 });
    }
}

/// The ledger of a list is well formed exactly if the names of the list are
/// unique and none of its quantities is negative. Where the names are unique,
/// the products of the ledger are those of the list, in the same order.
pub proof fn lemma_ledger_of(
    items: Seq<ProductModel>,
    sales: Seq<Transaction>,
    purchases: Seq<Transaction>,
)
    ensures
        ledger_of(items, sales, purchases).wf() <==> unique(items) && stocked(items),
        unique(items) ==> ledger_of(items, sales, purchases).products() == items,
{
    let ledger = ledger_of(items, sales, purchases);
    lemma_names(items);
    if unique(items) {
        assert forall|i: int| 0 <= i < items.len() implies #[trigger] ledger.products()[i]
            == items[i] by {
            lemma_place(items, i);
        }
    }
    if ledger.wf() {
        assert forall|i: int| 0 <= i < items.len() implies items[i].quantity >= 0 by {
            lemma_place(items, i);
        }
    }
}

} // verus!
