//! The collection of records: a map from identifier to record in which
//! every record is filed under its own identifier.

use crate::data::{
    CreateTodo, Pagination, Todo, TodoView, UpdateTodo, UpdateTodoView, is_random_uuid,
};
use std::collections::HashMap;
use vstd::prelude::*;
use vstd::std_specs::iter::IteratorSpec;

verus! {

broadcast use vstd::std_specs::hash::group_hash_axioms;

/// Whether `records` can be the records of a store: there are finitely
/// many, and each is filed under its own identifier.
pub open spec fn well_filed(records: Map<u128, TodoView>) -> bool {
    &&& records.dom().finite()
    &&& forall|id: u128| #[trigger] records.contains_key(id) ==> records[id].id == id
}

/// Whether `all` walks the records of `records`: each of them once, in
/// some order.
pub open spec fn enumerates(all: Seq<TodoView>, records: Map<u128, TodoView>) -> bool {
    &&& all.no_duplicates()
    &&& all.to_set() == records.values()
}

/// The mathematical records that a sequence of records holds.
pub open spec fn seq_views(todos: Seq<Todo>) -> Seq<TodoView> {
    todos.map_values(|todo: Todo| todo@)
}

/// The records of the service, each under its identifier.
pub struct Store {
    todos: HashMap<u128, Todo>,
}

impl View for Store {
    type V = Map<u128, TodoView>;

    closed spec fn view(&self) -> Map<u128, TodoView> {
        views(self.todos@)
    }
}

impl Default for Store {
    fn default() -> (store: Store)
        ensures
            store.wf(),
            store@ == Map::<u128, TodoView>::empty(),
    {
        Store::new()
    }
}

impl Store {
    #[verifier::type_invariant]
    spec fn inv(self) -> bool {
        well_filed(self@)
    }

    /// The invariant of the store: it is finite, and every record is
    /// filed under its own identifier. Every operation keeps it.
    pub open spec fn wf(self) -> bool {
        well_filed(self@)
    }

    /// An empty store.
    pub fn new() -> (store: Store)
        ensures
            store.wf(),
            store@ == Map::<u128, TodoView>::empty(),
    {
        let todos: HashMap<u128, Todo> = HashMap::new();
        proof {
            lemma_views(todos@);
        }
        Store { todos }
    }

    /// The number of records.
    pub fn len(&self) -> (len: usize)
        ensures
            self.wf(),
            len == self@.len(),
    {
        proof {
            use_type_invariant(self);
            lemma_views(self.todos@);
        }
        self.todos.len()
    }

    /// A copy of the record with the given identifier, if there is one.
    pub fn get(&self, id: u128) -> (found: Option<Todo>)
        ensures
            self.wf(),
            match found {
                Some(todo) => self@.contains_key(id) && todo@ == self@[id],
                None => !self@.contains_key(id),
            },
    {
        proof {
            use_type_invariant(self);
        }
        match self.todos.get(&id) {
            Some(todo) => Some(todo.clone()),
            None => None,
        }
    }

    /// Files `todo` under its identifier. A record that was filed under
    /// the same identifier is replaced.
    pub fn insert(&mut self, todo: Todo)
        ensures
            final(self).wf(),
            final(self)@ == old(self)@.insert(todo@.id, todo@),
    {
        let mut todos = self.take_todos();
        proof {
            lemma_views(todos@);
        }
        todos.insert(todo.id(), todo);
        proof {
            lemma_views(todos@);
        }
        self.todos = todos;
    }

    /// Copies of the records that a list request with the given
    /// pagination shows. The records are walked in the order of the
    /// underlying hash map, which is not specified; of that walk the
    /// first `offset` records are skipped and at most `limit` are taken.
    pub fn list(&self, pagination: &Pagination) -> (listed: Vec<Todo>)
        ensures
            self.wf(),
            exists|all: Seq<TodoView>|
                enumerates(all, self@) && seq_views(listed@) == pagination.page(all),
    {
        proof {
            use_type_invariant(self);
        }
        let (start, end) = pagination.window(self.todos.len());
        let mut listed: Vec<Todo> = Vec::new();
        let mut position: usize = 0;
        let values = self.todos.values();
        let ghost order = values.remaining();
        for todo in walk: values
            invariant_except_break
                position == walk.index(),
            invariant
                walk.seq() == order,
                start <= end <= order.len() <= usize::MAX,
                position <= end,
                listed@.len() == if position <= start {
                    0int
                } else {
                    position - start
                },
                forall|i: int| 0 <= i < listed@.len() ==> listed@[i] == *order[start + i],
            ensures
                position == end,
        {
            if position >= end {
                break;
            }
            if position >= start {
                listed.push(todo.clone());
            }
            position += 1;
        }
        proof {
            let all = order.map_values(|todo: &Todo| todo@);
            lemma_walk_enumerates(self.todos@, order);
            pagination.lemma_page(all);
        }
        listed
    }

    /// Makes a record of `input` under a newly drawn identifier, files
    /// it and returns a copy. The new record is not completed.
    pub fn create(&mut self, input: &CreateTodo) -> (todo: Todo)
        ensures
            final(self).wf(),
            is_random_uuid(todo@.id),
            todo@.text == input@.text,
            !todo@.completed,
            final(self)@ == old(self)@.insert(todo@.id, todo@),
    {
        let todo = Todo::new(input.text().to_string(), false);
        self.insert(todo.clone());
        todo
    }

    /// Applies `input` to the record with the given identifier, files the
    /// result in its place and returns a copy. Without such a record the
    /// store stays as it is and `None` is returned.
    pub fn update(&mut self, id: u128, input: &UpdateTodo) -> (updated: Option<Todo>)
        ensures
            final(self).wf(),
            match updated {
                Some(todo) => {
                    &&& old(self)@.contains_key(id)
                    &&& todo@ == input@.apply(old(self)@[id])
                    &&& final(self)@ == old(self)@.insert(id, todo@)
                },
                None => !old(self)@.contains_key(id) && final(self)@ == old(self)@,
            },
    {
        let mut todo = match self.get(id) {
            Some(todo) => todo,
            None => {
                return None;
            },
        };
        if let Some(text) = input.text() {
            todo.set_text(text.clone());
        }
        if let Some(completed) = input.completed() {
            todo.set_completed(completed);
        }
        self.insert(todo.clone());
        Some(todo)
    }

    /// Removes the record with the given identifier and says whether
    /// there was one.
    pub fn delete(&mut self, id: u128) -> (removed: bool)
        ensures
            final(self).wf(),
            removed == old(self)@.contains_key(id),
            final(self)@ == old(self)@.remove(id),
    {
        let mut todos = self.take_todos();
        proof {
            lemma_views(todos@);
        }
        let removed = todos.remove(&id).is_some();
        proof {
            lemma_views(todos@);
        }
        self.todos = todos;
        removed
    }

    /// Moves the map out of the store, which is empty until the map is
    /// put back: the invariant holds of the store throughout, also where
    /// an operation on the map does not return.
    fn take_todos(&mut self) -> (todos: HashMap<u128, Todo>)
        ensures
            views(todos@) == old(self)@,
            well_filed(old(self)@),
    {
        proof {
            use_type_invariant(&*self);
        }
        let mut todos: HashMap<u128, Todo> = HashMap::new();
        proof {
            lemma_views(todos@);
        }
        core::mem::swap(&mut self.todos, &mut todos);
        todos
    }
}

/// A walk through records that are filed by identifier passes as many
/// entries as there are records, each of them a record filed under its
/// identifier, no identifier twice and every record once.
pub proof fn lemma_enumeration(all: Seq<TodoView>, records: Map<u128, TodoView>)
    requires
        well_filed(records),
        enumerates(all, records),
    ensures
        all.len() == records.len(),
        forall|i: int|
            0 <= i < all.len() ==> records.contains_key(#[trigger] all[i].id) && records[all[i].id]
                == all[i],
        forall|i: int, j: int|
            0 <= i < all.len() && 0 <= j < all.len() && i != j ==> #[trigger] all[i].id
                != #[trigger] all[j].id,
        forall|id: u128| #[trigger]
            records.contains_key(id) ==> exists|i: int|
                0 <= i < all.len() && #[trigger] all[i] == records[id],
{
    records.lemma_injective_values_len();
    all.unique_seq_to_set();
    assert forall|i: int| 0 <= i < all.len() implies records.contains_key(#[trigger] all[i].id)
        && records[all[i].id] == all[i] by {
        assert(records.values().contains(all[i]));
    }
    assert forall|id: u128| #[trigger] records.contains_key(id) implies exists|i: int|
        0 <= i < all.len() && #[trigger] all[i] == records[id] by {
        assert(all.to_set().contains(records[id]));
    }
}

/// A listing without offset and limit shows every record of the store,
/// and nothing else.
pub proof fn lemma_unbounded_listing_is_complete(
    pagination: Pagination,
    all: Seq<TodoView>,
    records: Map<u128, TodoView>,
)
    requires
        well_filed(records),
        enumerates(all, records),
        pagination.offset is None,
        pagination.limit is None,
    ensures
        pagination.page(all).len() == records.len(),
        forall|id: u128| #[trigger]
            records.contains_key(id) ==> pagination.page(all).contains(records[id]),
        forall|i: int|
            0 <= i < pagination.page(all).len() ==> records.values().contains(
                #[trigger] pagination.page(all)[i],
            ),
{
    lemma_enumeration(all, records);
}

/// A listing shows only records of the store, none of them twice, and
/// no more than the limit allows.
pub proof fn lemma_listing_is_sound(
    pagination: Pagination,
    all: Seq<TodoView>,
    records: Map<u128, TodoView>,
)
    requires
        well_filed(records),
        enumerates(all, records),
    ensures
        pagination.page(all).len() <= records.len(),
        pagination.limit matches Some(limit) ==> pagination.page(all).len() <= limit,
        forall|i: int|
            0 <= i < pagination.page(all).len() ==> {
                let shown = #[trigger] pagination.page(all)[i];
                records.contains_key(shown.id) && records[shown.id] == shown
            },
        forall|i: int, j: int|
            0 <= i < pagination.page(all).len() && 0 <= j < pagination.page(all).len() && i != j
                ==> #[trigger] pagination.page(all)[i].id != #[trigger] pagination.page(all)[j].id,
{
    lemma_enumeration(all, records);
}

/// Two pages of one walk that start at different offsets inside it and
/// are limited to one record each show one record each, and not the
/// same one.
pub proof fn lemma_single_pages_differ(
    first: Pagination,
    second: Pagination,
    all: Seq<TodoView>,
    records: Map<u128, TodoView>,
)
    requires
        well_filed(records),
        enumerates(all, records),
        first.limit == Some(1usize),
        second.limit == Some(1usize),
        first.start(all.len()) != second.start(all.len()),
        first.start(all.len()) < all.len(),
        second.start(all.len()) < all.len(),
    ensures
        first.page(all).len() == 1,
        second.page(all).len() == 1,
        first.page(all)[0].id != second.page(all)[0].id,
{
    lemma_enumeration(all, records);
}

/// Filing a record under its identifier, applying an update to a record
/// in its place and removing a record each leave the records well filed.
pub proof fn lemma_operations_keep_well_filed(
    records: Map<u128, TodoView>,
    todo: TodoView,
    update: UpdateTodoView,
    id: u128,
)
    requires
        well_filed(records),
    ensures
        well_filed(records.insert(todo.id, todo)),
        records.contains_key(id) ==> well_filed(records.insert(id, update.apply(records[id]))),
        well_filed(records.remove(id)),
{
}

/// A record that is filed under an identifier the store does not hold
/// yet adds one record to the store and changes none of the others.
pub proof fn lemma_insert_new(records: Map<u128, TodoView>, todo: TodoView)
    requires
        well_filed(records),
        !records.contains_key(todo.id),
    ensures
        well_filed(records.insert(todo.id, todo)),
        records.insert(todo.id, todo).len() == records.len() + 1,
        forall|id: u128| #[trigger]
            records.contains_key(id) ==> records.insert(todo.id, todo).contains_key(id)
                && records.insert(todo.id, todo)[id] == records[id],
{
}

/// No two records of a store have the same identifier.
pub proof fn lemma_identifiers_distinct(records: Map<u128, TodoView>, a: u128, b: u128)
    requires
        well_filed(records),
        records.contains_key(a),
        records.contains_key(b),
        a != b,
    ensures
        records[a].id != records[b].id,
{
}

/// After a record is removed the store holds no record with its
/// identifier, no walk through the store passes one, and removing it
/// once more finds nothing and changes nothing.
pub proof fn lemma_removed_is_gone(records: Map<u128, TodoView>, id: u128, all: Seq<TodoView>)
    requires
        well_filed(records),
        enumerates(all, records.remove(id)),
    ensures
        !records.remove(id).contains_key(id),
        forall|i: int| 0 <= i < all.len() ==> #[trigger] all[i].id != id,
        records.remove(id).remove(id) == records.remove(id),
{
    lemma_enumeration(all, records.remove(id));
}

/// The mathematical records that a map of records holds.
spec fn views(todos: Map<u128, Todo>) -> Map<u128, TodoView> {
    todos.map_values(|todo: Todo| todo@)
}

proof fn lemma_views(todos: Map<u128, Todo>)
    ensures
        views(todos).dom() == todos.dom(),
        forall|id: u128| #[trigger] todos.contains_key(id) ==> views(todos)[id] == todos[id]@,
{
}

/// A walk through the values of a map whose records are filed by
/// identifier passes each record once.
proof fn lemma_walk_enumerates(todos: Map<u128, Todo>, walk: Seq<&Todo>)
    requires
        well_filed(views(todos)),
        walk.len() == todos.dom().len(),
        walk.unref().to_set() == todos.values(),
    ensures
        enumerates(walk.map_values(|todo: &Todo| todo@), views(todos)),
{
    lemma_views(todos);
    let found = walk.unref();
    let all = walk.map_values(|todo: &Todo| todo@);
    todos.lemma_injective_values_len();
    found.lemma_no_dup_set_cardinality();
    assert forall|i: int| 0 <= i < walk.len() implies todos.contains_key(#[trigger] all[i].id)
        && todos[all[i].id] == found[i] by {
        assert(todos.values().contains(found[i]));
    }
    assert forall|i: int, j: int| 0 <= i < all.len() && 0 <= j < all.len() && i != j implies all[i]
        != all[j] by {
        assert(todos[all[i].id] == found[i] && todos[all[j].id] == found[j]);
    }
    assert forall|record: TodoView| all.to_set().contains(record) <==> views(
        todos,
    ).values().contains(record) by {
        if all.to_set().contains(record) {
            let i = choose|i: int| 0 <= i < all.len() && all[i] == record;
            assert(views(todos).contains_key(all[i].id) && views(todos)[all[i].id] == record);
        }
        if views(todos).values().contains(record) {
            let id = choose|id: u128| views(todos).contains_key(id) && views(todos)[id] == record;
            assert(found.to_set().contains(todos[id]));
            let i = choose|i: int| 0 <= i < found.len() && found[i] == todos[id];
            assert(all[i] == record);
        }
    }
    assert(all.to_set() =~= views(todos).values());
}

} // verus!
