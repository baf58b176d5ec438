//! The in-memory todo store: an ordered list of free-text items, appended to
//! at the end and listed in full. Insertion order is display order.

use vstd::prelude::*;
use uuid::Uuid;

verus! {

/// Declares `uuid::Uuid`, the identifier handed out for an appended item.
/// The library only passes such a value through; it never reads one.
#[verifier::external_type_specification]
#[verifier::external_body]
pub struct ExUuid(Uuid);

/// Relies on `uuid::Uuid::new_v4`: a fresh random identifier for a newly
/// appended item. Nothing is promised of its value.
#[verifier::external_body]
fn fresh_id() -> Uuid {
    Uuid::new_v4()
}

/// The in-process variant of the storage abstraction: a growable list of
/// todo texts. Callers that share it across tasks wrap it in a lock of
/// their own; the store itself is single-threaded.
pub struct MemStore {
    todos: Vec<String>,
}

impl View for MemStore {
    type V = Seq<String>;

    closed spec fn view(&self) -> Seq<String> {
        self.todos@
    }
}

impl MemStore {
    /// A store holding no items.
    pub fn new() -> (s: MemStore)
        ensures
            s@ == Seq::<String>::empty(),
    {
        MemStore { todos: Vec::new() }
    }

    /// Appends one item at the end and hands back a fresh identifier for
    /// it. The identifier is random and not kept alongside the item.
    pub fn add_todo(&mut self, todo: String) -> (id: Uuid)
        ensures
            final(self)@ == old(self)@.push(todo),
    {
        let id = fresh_id();
        self.todos.push(todo);
        id
    }

    /// Lists every item, in the order of insertion.
    pub fn all_todos(&self) -> (r: Vec<String>)
        ensures
            r@ == self@,
    {
        let r = self.todos.clone();
        proof {
            assert forall|i: int| 0 <= i < r@.len() implies r@[i] == self.todos@[i] by {
                assert(cloned::<String>(self.todos@[i], r@[i]));
            }
            assert(r@ =~= self.todos@);
        }
        r
    }
}

/// The contents of a store after the items are appended one at a time, as
/// `add_todo` appends them.
pub open spec fn appended(base: Seq<String>, items: Seq<String>) -> Seq<String>
    decreases items.len(),
{
    if items.len() == 0 {
        base
    } else {
        appended(base.push(items[0]), items.drop_first())
    }
}

proof fn lemma_appended_adds(base: Seq<String>, items: Seq<String>)
    ensures
        appended(base, items) == base + items,
    decreases items.len(),
{
    if items.len() == 0 {
        assert(base + items =~= base);
    } else {
        lemma_appended_adds(base.push(items[0]), items.drop_first());
        assert(base.push(items[0]) + items.drop_first() =~= base + items);
    }
}

/// Law: appending items one at a time and then listing yields exactly those
/// items after the ones already present, in submission order; appending them
/// to an empty store yields exactly those items.
pub proof fn lemma_todos_listed_in_order(base: Seq<String>, items: Seq<String>)
    ensures
        appended(base, items) == base + items,
        appended(Seq::<String>::empty(), items) == items,
{
    lemma_appended_adds(base, items);
    lemma_appended_adds(Seq::<String>::empty(), items);
    assert(Seq::<String>::empty() + items =~= items);
}

} // verus!
