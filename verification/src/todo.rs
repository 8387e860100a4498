//! Task records and the bodies of the requests that create and change them.

use vstd::prelude::*;

verus! {

/// What a task record is, as a mathematical value.
pub struct TodoView {
    pub id: u128,
    pub text: Seq<char>,
    pub completed: bool,
}

/// A task record. The identifier is the 128-bit value of a UUID.
#[derive(Debug, PartialEq, Eq)]
pub struct Todo {
    pub id: u128,
    pub text: String,
    pub completed: bool,
}

impl View for Todo {
    type V = TodoView;

    open spec fn view(&self) -> TodoView {
        TodoView { id: self.id, text: self.text@, completed: self.completed }
    }
}

impl Clone for Todo {
    fn clone(&self) -> (copy: Self)
        ensures
            copy == *self,
    {
        Todo { id: self.id, text: self.text.clone(), completed: self.completed }
    }
}

/// The body of a request that creates a task.
#[derive(Debug)]
pub struct CreateTodo {
    pub text: String,
}

/// The body of a request that changes a task. A field that is `None` is
/// left as it was.
#[derive(Debug)]
pub struct UpdateTodo {
    pub text: Option<String>,
    pub completed: Option<bool>,
}

/// The field changes that an update asks for, as a mathematical value.
pub struct Patch {
    pub text: Option<Seq<char>>,
    pub completed: Option<bool>,
}

/// The patch that an update with these two optional fields asks for.
pub open spec fn patch_of(text: Option<String>, completed: Option<bool>) -> Patch {
    Patch {
        text: match text {
            Some(text) => Some(text@),
            None => None,
        },
        completed,
    }
}

impl View for UpdateTodo {
    type V = Patch;

    open spec fn view(&self) -> Patch {
        patch_of(self.text, self.completed)
    }
}

/// The record that a create request with this text yields under this id.
pub open spec fn created(id: u128, text: Seq<char>) -> TodoView {
    TodoView { id, text, completed: false }
}

/// The record `todo` after the changes of `patch`: each field that the patch
/// names takes the patch's value, every other field stays.
pub open spec fn patched(todo: TodoView, patch: Patch) -> TodoView {
    TodoView {
        id: todo.id,
        text: match patch.text {
            Some(text) => text,
            None => todo.text,
        },
        completed: match patch.completed {
            Some(completed) => completed,
            None => todo.completed,
        },
    }
}

/// The views of a sequence of records, in the same order.
pub open spec fn views(todos: Seq<Todo>) -> Seq<TodoView> {
    Seq::new(todos.len(), |i: int| todos[i]@)
}

} // verus!
