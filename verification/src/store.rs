//! The store: every task record under its identifier.

use crate::todo::{patch_of, patched, views, Patch, Todo, TodoView};
use std::collections::HashMap;
use vstd::prelude::*;
use vstd::std_specs::iter::IteratorSpec;

verus! {

broadcast use vstd::std_specs::hash::group_hash_axioms;

/// Finitely many records, each filed under its own identifier. This is what
/// makes identifiers unique: no two records of such a map share one. It
/// holds of every store, and each method of `Store` says so of the stores it
/// was given and leaves behind.
pub open spec fn keyed_by_id(m: Map<u128, TodoView>) -> bool {
    &&& m.dom().finite()
    &&& forall|id: u128| m.contains_key(id) ==> (#[trigger] m[id]).id == id
}

/// `list` holds every record of `m` once, in some order.
pub open spec fn is_snapshot(list: Seq<TodoView>, m: Map<u128, TodoView>) -> bool {
    &&& list.no_duplicates()
    &&& forall|todo: TodoView| list.contains(todo) <==> m.contains_value(todo)
}

/// The map after an update of `id`: the record there is patched, and an
/// unknown `id` changes nothing.
pub open spec fn updated(m: Map<u128, TodoView>, id: u128, patch: Patch) -> Map<u128, TodoView> {
    if m.contains_key(id) {
        m.insert(id, patched(m[id], patch))
    } else {
        m
    }
}

/// Why a store operation failed.
#[derive(Clone, Copy, Debug, PartialEq, Eq, Structural)]
pub enum StoreError {
    /// No record has the requested identifier.
    NotFound,
}

/// The task records of the service, by identifier.
pub struct Store {
    todos: HashMap<u128, Todo>,
}

impl View for Store {
    type V = Map<u128, TodoView>;

    closed spec fn view(&self) -> Map<u128, TodoView> {
        Map::new(|id: u128| self.todos@.contains_key(id), |id: u128| self.todos@[id]@)
    }
}

impl Default for Store {
    /// An empty store.
    fn default() -> (store: Store)
        ensures
            keyed_by_id(store@),
            store@ == Map::<u128, TodoView>::empty(),
    {
        Store::new()
    }
}

impl Store {
    /// Every record is filed under its own identifier.
    #[verifier::type_invariant]
    spec fn keyed(&self) -> bool {
        forall|id: u128| self.todos@.contains_key(id) ==> (#[trigger] self.todos@[id]).id == id
    }

    /// An empty store.
    pub fn new() -> (store: Store)
        ensures
            keyed_by_id(store@),
            store@ == Map::<u128, TodoView>::empty(),
    {
        let store = Store { todos: HashMap::new() };
        assert(store@ =~= Map::<u128, TodoView>::empty());
        store
    }

    /// Adds `record` under its identifier, in place of the record that was
    /// there, if any.
    pub fn insert(&mut self, record: Todo)
        ensures
            keyed_by_id(final(self)@),
            final(self)@ == old(self)@.insert(record.id, record@),
    {
        proof {
            use_type_invariant(&*self);
        }
        let id: u128 = record.id;
        let mut todos: HashMap<u128, Todo> = HashMap::new();
        std::mem::swap(&mut todos, &mut self.todos);
        todos.insert(id, record);
        self.todos = todos;
        assert(self@ =~= old(self)@.insert(id, record@));
        assert(self@.dom() =~= self.todos@.dom());
    }

    /// The record under `id`, if there is one.
    pub fn get(&self, id: u128) -> (found: Option<Todo>)
        ensures
            keyed_by_id(self@),
            match found {
                Some(todo) => self@.contains_key(id) && todo@ == self@[id],
                None => !self@.contains_key(id),
            },
    {
        proof {
            use_type_invariant(self);
            assert(self@.dom() =~= self.todos@.dom());
        }
        match self.todos.get(&id) {
            Some(todo) => Some(todo.clone()),
            None => None,
        }
    }

    /// Changes the record under `id`: a field that is given takes the new
    /// value, a field that is `None` stays. Fails, and changes nothing, where
    /// there is no such record.
    pub fn update(&mut self, id: u128, text: Option<String>, completed: Option<bool>) -> (outcome:
        Result<Todo, StoreError>)
        ensures
            keyed_by_id(final(self)@),
            final(self)@ == updated(old(self)@, id, patch_of(text, completed)),
            !old(self)@.contains_key(id) ==> final(self)@ == old(self)@,
            match outcome {
                Ok(todo) => old(self)@.contains_key(id) && todo@ == patched(
                    old(self)@[id],
                    patch_of(text, completed),
                ),
                Err(e) => !old(self)@.contains_key(id) && e == StoreError::NotFound,
            },
    {
        let mut todo = match self.get(id) {
            Some(todo) => todo,
            None => {
                return Err(StoreError::NotFound);
            },
        };
        if let Some(text) = text {
            todo.text = text;
        }
        if let Some(completed) = completed {
            todo.completed = completed;
        }
        self.insert(todo.clone());
        Ok(todo)
    }

    /// A snapshot of all records, in no particular order.
    pub fn list(&self) -> (todos: Vec<Todo>)
        ensures
            keyed_by_id(self@),
            is_snapshot(views(todos@), self@),
            todos@.len() == self@.len(),
    {
        proof {
            use_type_invariant(self);
        }
        let ghost entries = self.todos.iter().remaining();
        let mut todos: Vec<Todo> = Vec::new();
        for entry in it: self.todos.iter()
            invariant
                it.seq() == entries,
                entries.no_duplicates(),
                todos@.len() == it.index(),
                forall|i: int| 0 <= i < todos@.len() ==> todos@[i] == *entries[i].1,
        {
            let (_, todo) = entry;
            todos.push(todo.clone());
        }
        proof {
            let list = views(todos@);
            assert(self@.dom() =~= self.todos@.dom());
            assert forall|i: int| 0 <= i < list.len() implies self@.contains_key(*entries[i].0)
                && self@[*entries[i].0] == #[trigger] list[i] by {
                assert(self.todos@.contains_key(*entries[i].0));
            }
            assert forall|i: int, j: int| 0 <= i < j < list.len() implies list[i] != list[j] by {
                if list[i] == list[j] {
                    assert(*entries[i].0 == *entries[j].0);
                    assert(entries[i] == entries[j]);
                }
            }
            assert forall|todo: TodoView| self@.contains_value(todo) implies list.contains(
                todo,
            ) by {
                let id = choose|id: u128| self@.contains_key(id) && self@[id] == todo;
                assert(self.todos@.contains_key(id));
                let i = choose|i: int|
                    0 <= i < entries.len() && entries[i] == (&id, &self.todos@[id]);
                assert(list[i] == todo);
            }
        }
        todos
    }

    /// Deletes the record under `id` and says whether there was one.
    pub fn remove(&mut self, id: u128) -> (removed: bool)
        ensures
            keyed_by_id(final(self)@),
            removed == old(self)@.contains_key(id),
            final(self)@ == old(self)@.remove(id),
    {
        proof {
            use_type_invariant(&*self);
        }
        let mut todos: HashMap<u128, Todo> = HashMap::new();
        std::mem::swap(&mut todos, &mut self.todos);
        let removed = todos.remove(&id).is_some();
        self.todos = todos;
        assert(self@ =~= old(self)@.remove(id));
        assert(self@.dom() =~= self.todos@.dom());
        removed
    }
}

} // verus!
