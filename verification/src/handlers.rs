//! The request handlers: one function per route, from the store and the
//! decoded request to the status code and the body of the response.

use crate::ident::{is_random_uuid, new_v4};
use crate::status::StatusCode;
use crate::store::{is_snapshot, keyed_by_id, updated, Store, StoreError};
use crate::todo::{created, patched, views, CreateTodo, Todo, TodoView, UpdateTodo};
use vstd::prelude::*;
use vstd::string::StringExecFns;

verus! {

/// The status that answers a delete of `id`.
pub open spec fn delete_status(m: Map<u128, TodoView>, id: u128) -> StatusCode {
    if m.contains_key(id) {
        StatusCode::NoContent
    } else {
        StatusCode::NotFound
    }
}

/// The status that answers an update of `id`.
pub open spec fn update_status(m: Map<u128, TodoView>, id: u128) -> StatusCode {
    if m.contains_key(id) {
        StatusCode::Okay
    } else {
        StatusCode::NotFound
    }
}

/// `GET /todos`: all records, in no particular order.
pub fn todos_index(db: &Store) -> (reply: (StatusCode, Vec<Todo>))
    ensures
        keyed_by_id(db@),
        reply.0 == StatusCode::Okay,
        is_snapshot(views(reply.1@), db@),
        reply.1@.len() == db@.len(),
{
    (StatusCode::Okay, db.list())
}

/// Files a new, open task with the text of `input` under `id` and answers
/// with it. A record that was under `id` is replaced.
pub fn todos_create_with_id(db: &mut Store, id: u128, input: CreateTodo) -> (reply: (
    StatusCode,
    Todo,
))
    ensures
        keyed_by_id(final(db)@),
        reply.0 == StatusCode::Created,
        reply.1@ == created(id, input.text@),
        final(db)@ == old(db)@.insert(id, created(id, input.text@)),
{
    let todo = Todo { id, text: input.text, completed: false };
    db.insert(todo.clone());
    (StatusCode::Created, todo)
}

/// `POST /todos`: files a new, open task with the text of `input` under a
/// newly drawn identifier and answers with it. Any text is accepted.
pub fn todos_create(db: &mut Store, input: CreateTodo) -> (reply: (StatusCode, Todo))
    ensures
        keyed_by_id(final(db)@),
        reply.0 == StatusCode::Created,
        is_random_uuid(reply.1.id),
        reply.1@ == created(reply.1.id, input.text@),
        final(db)@ == old(db)@.insert(reply.1.id, reply.1@),
{
    let id: u128 = new_v4();
    todos_create_with_id(db, id, input)
}

/// `PATCH /todos/{id}`: changes the fields that `input` names and answers
/// with the whole record; an unknown `id` is answered with
/// `StatusCode::NotFound` and changes nothing.
pub fn todos_update(db: &mut Store, id: u128, input: UpdateTodo) -> (reply: Result<
    (StatusCode, Todo),
    StatusCode,
>)
    ensures
        keyed_by_id(final(db)@),
        final(db)@ == updated(old(db)@, id, input@),
        !old(db)@.contains_key(id) ==> final(db)@ == old(db)@,
        match reply {
            Ok((status, todo)) => {
                &&& old(db)@.contains_key(id)
                &&& status == update_status(old(db)@, id)
                &&& todo@ == patched(old(db)@[id], input@)
            },
            Err(status) => !old(db)@.contains_key(id) && status == update_status(old(db)@, id),
        },
{
    match db.update(id, input.text, input.completed) {
        Ok(todo) => Ok((StatusCode::Okay, todo)),
        Err(StoreError::NotFound) => Err(StatusCode::NotFound),
    }
}

/// `DELETE /todos/{id}`: deletes the record and answers
/// `StatusCode::NoContent`, or `StatusCode::NotFound` where there is none.
pub fn todos_delete(db: &mut Store, id: u128) -> (status: StatusCode)
    ensures
        keyed_by_id(final(db)@),
        status == delete_status(old(db)@, id),
        final(db)@ == old(db)@.remove(id),
{
    if db.remove(id) {
        StatusCode::NoContent
    } else {
        StatusCode::NotFound
    }
}

/// The response to a request that failed outside the handlers. A request
/// that ran out of time (`elapsed`) is answered with
/// `StatusCode::RequestTimeout` and no body; any other failure with
/// `StatusCode::InternalServerError` and a message that quotes `error`.
pub fn handle_error(elapsed: bool, error: &str) -> (reply: Result<StatusCode, (StatusCode, String)>)
    ensures
        match reply {
            Ok(status) => elapsed && status == StatusCode::RequestTimeout,
            Err((status, message)) => {
                &&& !elapsed
                &&& status == StatusCode::InternalServerError
                &&& message@ == "Unhandled internal error: "@ + error@
            },
        },
{
    if elapsed {
        Ok(StatusCode::RequestTimeout)
    } else {
        let message = String::from_str("Unhandled internal error: ").concat(error);
        Err((StatusCode::InternalServerError, message))
    }
}

} // verus!
