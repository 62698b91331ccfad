//! The four operations of the service on the store, each with the
//! status it answers with.

use crate::data::{CreateTodo, Pagination, Todo, TodoView, UpdateTodo, is_random_uuid};
use crate::status::StatusCode;
use crate::store::{Store, enumerates, seq_views};
use vstd::prelude::*;

verus! {

/// GET /todos
///
/// Lists the records that `pagination` selects from a walk through the
/// store. The order of the walk is not specified.
pub fn todos_index(pagination: &Pagination, db: &Store) -> (todos: Vec<Todo>)
    ensures
        db.wf(),
        exists|all: Seq<TodoView>|
            enumerates(all, db@) && seq_views(todos@) == pagination.page(all),
{
    db.list(pagination)
}

/// POST /todos
///
/// Makes a record of `input`, not completed, under a newly drawn
/// identifier and files it.
pub fn todos_create(db: &mut Store, input: &CreateTodo) -> (response: (StatusCode, Todo))
    ensures
        final(db).wf(),
        response.0 == StatusCode::Created,
        is_random_uuid(response.1@.id),
        response.1@.text == input@.text,
        !response.1@.completed,
        final(db)@ == old(db)@.insert(response.1@.id, response.1@),
{
    let todo = db.create(input);
    (StatusCode::Created, todo)
}

/// PATCH /todos/{id}
///
/// Replaces the fields that `input` names in the record with the given
/// identifier. Without such a record nothing changes and the answer is
/// 404.
pub fn todos_update(id: u128, db: &mut Store, input: &UpdateTodo) -> (response: Result<
    Todo,
    StatusCode,
>)
    ensures
        final(db).wf(),
        match response {
            Ok(todo) => {
                &&& old(db)@.contains_key(id)
                &&& todo@ == input@.apply(old(db)@[id])
                &&& final(db)@ == old(db)@.insert(id, todo@)
            },
            Err(status) => {
                &&& status == StatusCode::NotFound
                &&& !old(db)@.contains_key(id)
                &&& final(db)@ == old(db)@
            },
        },
{
    match db.update(id, input) {
        Some(todo) => Ok(todo),
        None => Err(StatusCode::NotFound),
    }
}

/// DELETE /todos/{id}
///
/// Removes the record with the given identifier: 204 if there was one,
/// 404 if not.
pub fn todos_delete(id: u128, db: &mut Store) -> (status: StatusCode)
    ensures
        final(db).wf(),
        final(db)@ == old(db)@.remove(id),
        status == if old(db)@.contains_key(id) {
            StatusCode::NoContent
        } else {
            StatusCode::NotFound
        },
{
    if db.delete(id) {
        StatusCode::NoContent
    } else {
        StatusCode::NotFound
    }
}

} // verus!
