//! What holds of the service's operations taken together, over the
//! mathematical model that their contracts use: the store as a map from
//! identifier to record, a create as `Map::insert` of `created`, an update as
//! `updated`, a delete as `Map::remove`, and a listing as `is_snapshot`.

use crate::handlers::{delete_status, update_status};
use crate::status::StatusCode;
use crate::store::{is_snapshot, keyed_by_id, updated};
use crate::todo::{created, patched, Patch, TodoView};
use vstd::prelude::*;

verus! {

/// The store after one create per text, in order, the `i`-th under
/// `ids[i]`.
pub open spec fn created_all(
    m: Map<u128, TodoView>,
    ids: Seq<u128>,
    texts: Seq<Seq<char>>,
) -> Map<u128, TodoView>
    decreases ids.len(),
{
    if ids.len() == 0 {
        m
    } else {
        created_all(m, ids.drop_last(), texts.drop_last()).insert(
            ids.last(),
            created(ids.last(), texts.last()),
        )
    }
}

/// The store after the updates `patches` of `id`, in order.
pub open spec fn updated_all(
    m: Map<u128, TodoView>,
    id: u128,
    patches: Seq<Patch>,
) -> Map<u128, TodoView>
    decreases patches.len(),
{
    if patches.len() == 0 {
        m
    } else {
        updated(updated_all(m, id, patches.drop_last()), id, patches.last())
    }
}

/// The one patch that does what `first` and after it `second` do: each field
/// takes the value that was written last.
pub open spec fn merged(first: Patch, second: Patch) -> Patch {
    Patch {
        text: if second.text is Some {
            second.text
        } else {
            first.text
        },
        completed: if second.completed is Some {
            second.completed
        } else {
            first.completed
        },
    }
}

/// The one patch that does what `patches` do in order.
pub open spec fn merged_all(patches: Seq<Patch>) -> Patch
    decreases patches.len(),
{
    if patches.len() == 0 {
        Patch { text: None, completed: None }
    } else {
        merged(merged_all(patches.drop_last()), patches.last())
    }
}

/// No field is named by both patches.
pub open spec fn disjoint(p: Patch, q: Patch) -> bool {
    &&& !(p.text is Some && q.text is Some)
    &&& !(p.completed is Some && q.completed is Some)
}

/// No two of the patches name the same field.
pub open spec fn pairwise_disjoint(patches: Seq<Patch>) -> bool {
    forall|i: int, j: int|
        0 <= i < j < patches.len() ==> disjoint(#[trigger] patches[i], #[trigger] patches[j])
}

/// Every operation keeps the store's invariant, whatever its arguments.
pub proof fn law_operations_keep_invariant(
    m: Map<u128, TodoView>,
    id: u128,
    text: Seq<char>,
    patch: Patch,
)
    requires
        keyed_by_id(m),
    ensures
        keyed_by_id(m.insert(id, created(id, text))),
        keyed_by_id(updated(m, id, patch)),
        keyed_by_id(m.remove(id)),
{
}

/// Creates under identifiers that are new and pairwise distinct add exactly
/// the created records: each is found under its identifier, what was there
/// before stays, and a listing afterwards holds the old records and the
/// created ones, each once. From an empty store the listing is exactly the
/// created records.
pub proof fn law_creates_are_listed(
    m: Map<u128, TodoView>,
    ids: Seq<u128>,
    texts: Seq<Seq<char>>,
    list: Seq<TodoView>,
)
    requires
        keyed_by_id(m),
        ids.len() == texts.len(),
        ids.no_duplicates(),
        forall|i: int| 0 <= i < ids.len() ==> !m.contains_key(ids[i]),
        is_snapshot(list, created_all(m, ids, texts)),
    ensures
        keyed_by_id(created_all(m, ids, texts)),
        forall|i: int|
            0 <= i < ids.len() ==> created_all(m, ids, texts).contains_key(#[trigger] ids[i])
                && created_all(m, ids, texts)[ids[i]] == created(ids[i], texts[i]),
        forall|id: u128|
            m.contains_key(id) ==> created_all(m, ids, texts).contains_key(id) && created_all(
                m,
                ids,
                texts,
            )[id] == m[id],
        forall|todo: TodoView|
            list.contains(todo) <==> m.contains_value(todo) || exists|i: int|
                0 <= i < ids.len() && todo == created(#[trigger] ids[i], texts[i]),
        list.len() == m.len() + ids.len(),
        m.dom().is_empty() ==> list.len() == ids.len() && forall|todo: TodoView|
            list.contains(todo) <==> exists|i: int|
                0 <= i < ids.len() && todo == created(#[trigger] ids[i], texts[i]),
{
    lemma_created_all(m, ids, texts);
    let after = created_all(m, ids, texts);
    assert forall|todo: TodoView|
        list.contains(todo) <==> m.contains_value(todo) || exists|i: int|
            0 <= i < ids.len() && todo == created(#[trigger] ids[i], texts[i]) by {
        if list.contains(todo) {
            let id = choose|id: u128| after.contains_key(id) && after[id] == todo;
            if m.contains_key(id) {
                assert(m.contains_value(todo));
            } else {
                assert(ids.to_set().contains(id));
                let i = choose|i: int| 0 <= i < ids.len() && ids[i] == id;
                assert(todo == created(ids[i], texts[i]));
            }
        }
        if m.contains_value(todo) {
            let id = choose|id: u128| m.contains_key(id) && m[id] == todo;
            assert(after.contains_key(id) && after[id] == todo);
        }
        if exists|i: int| 0 <= i < ids.len() && todo == created(#[trigger] ids[i], texts[i]) {
            let i = choose|i: int|
                0 <= i < ids.len() && todo == created(#[trigger] ids[i], texts[i]);
            assert(after.contains_key(ids[i]) && after[ids[i]] == todo);
        }
    }
    lemma_snapshot_len(list, after);
    ids.unique_seq_to_set();
    vstd::set_lib::lemma_set_disjoint_lens(m.dom(), ids.to_set());
}

/// What `created_all` holds, for identifiers that are new and distinct.
proof fn lemma_created_all(m: Map<u128, TodoView>, ids: Seq<u128>, texts: Seq<Seq<char>>)
    requires
        keyed_by_id(m),
        ids.len() == texts.len(),
        ids.no_duplicates(),
        forall|i: int| 0 <= i < ids.len() ==> !m.contains_key(ids[i]),
    ensures
        keyed_by_id(created_all(m, ids, texts)),
        created_all(m, ids, texts).dom() == m.dom().union(ids.to_set()),
        forall|i: int|
            0 <= i < ids.len() ==> created_all(m, ids, texts).contains_key(#[trigger] ids[i])
                && created_all(m, ids, texts)[ids[i]] == created(ids[i], texts[i]),
        forall|id: u128|
            m.contains_key(id) ==> created_all(m, ids, texts).contains_key(id) && created_all(
                m,
                ids,
                texts,
            )[id] == m[id],
    decreases ids.len(),
{
    if ids.len() == 0 {
        assert(m.dom().union(ids.to_set()) =~= m.dom());
    } else {
        lemma_created_all(m, ids.drop_last(), texts.drop_last());
        let after = created_all(m, ids, texts);
        assert(after.dom() =~= m.dom().union(ids.to_set())) by {
            let init = ids.drop_last();
            assert forall|id: u128|
                ids.to_set().contains(id) <==> init.to_set().contains(id) || id == ids.last() by {
                if ids.to_set().contains(id) {
                    let i = choose|i: int| 0 <= i < ids.len() && ids[i] == id;
                    if i < init.len() {
                        assert(init[i] == id);
                    }
                }
                if init.to_set().contains(id) {
                    let i = choose|i: int| 0 <= i < init.len() && init[i] == id;
                    assert(ids[i] == id);
                }
            }
        }
        assert forall|i: int| 0 <= i < ids.len() implies after.contains_key(#[trigger] ids[i])
            && after[ids[i]] == created(ids[i], texts[i]) by {
            if i < ids.len() - 1 {
                assert(ids.drop_last()[i] == ids[i]);
                assert(texts.drop_last()[i] == texts[i]);
            }
        }
    }
}

/// A listing is as long as the store is large.
pub proof fn lemma_snapshot_len(list: Seq<TodoView>, m: Map<u128, TodoView>)
    requires
        keyed_by_id(m),
        is_snapshot(list, m),
    ensures
        list.len() == m.len(),
{
    let ids = list.map_values(|todo: TodoView| todo.id);
    assert forall|i: int, j: int| 0 <= i < j < ids.len() implies ids[i] != ids[j] by {
        assert(m.contains_value(list[i]) && m.contains_value(list[j]));
    }
    assert(ids.to_set() =~= m.dom()) by {
        assert forall|id: u128| ids.to_set().contains(id) <==> m.contains_key(id) by {
            if ids.to_set().contains(id) {
                let i = choose|i: int| 0 <= i < ids.len() && ids[i] == id;
                assert(m.contains_value(list[i]));
            }
            if m.contains_key(id) {
                assert(m.contains_value(m[id]));
                let i = choose|i: int| 0 <= i < list.len() && list[i] == m[id];
                assert(ids[i] == id);
            }
        }
    }
    ids.unique_seq_to_set();
}

/// A record that was created is found in a listing under its identifier,
/// with the text that was sent and not completed; the listing holds no other
/// record with that identifier.
pub proof fn law_created_is_listed(
    m: Map<u128, TodoView>,
    id: u128,
    text: Seq<char>,
    list: Seq<TodoView>,
)
    requires
        keyed_by_id(m),
        is_snapshot(list, m.insert(id, created(id, text))),
    ensures
        list.contains(TodoView { id, text, completed: false }),
        forall|i: int|
            0 <= i < list.len() && (#[trigger] list[i]).id == id ==> list[i].text == text
                && !list[i].completed,
{
    let after = m.insert(id, created(id, text));
    assert(after.contains_key(id) && after[id] == created(id, text));
    assert(after.contains_value(created(id, text)));
    assert forall|i: int| 0 <= i < list.len() && (#[trigger] list[i]).id == id implies list[i]
        == created(id, text) by {
        assert(list.contains(list[i]));
        let key = choose|key: u128| after.contains_key(key) && after[key] == list[i];
        assert(key == id);
    }
}

/// An update of an identifier that the store does not hold is answered with
/// `StatusCode::NotFound` and leaves the store as it was.
pub proof fn law_update_of_unknown_id(m: Map<u128, TodoView>, id: u128, patch: Patch)
    requires
        !m.contains_key(id),
    ensures
        update_status(m, id) == StatusCode::NotFound,
        updated(m, id, patch) == m,
{
}

/// An update changes the fields that it names and no other: with only a text
/// the flag stays, with only a flag the text stays, with both both change,
/// and with neither the record is returned as it was. The identifier never
/// changes.
pub proof fn law_update_is_partial(todo: TodoView, patch: Patch)
    ensures
        patched(todo, patch).id == todo.id,
        patch.text matches Some(text) ==> patched(todo, patch).text == text,
        patch.text is None ==> patched(todo, patch).text == todo.text,
        patch.completed matches Some(completed) ==> patched(todo, patch).completed == completed,
        patch.completed is None ==> patched(todo, patch).completed == todo.completed,
        patch.text is None && patch.completed is None ==> patched(todo, patch) == todo,
{
}

/// An update touches no record but the one it names.
pub proof fn law_update_is_local(m: Map<u128, TodoView>, id: u128, patch: Patch, other: u128)
    requires
        other != id,
    ensures
        updated(m, id, patch).contains_key(other) == m.contains_key(other),
        m.contains_key(other) ==> updated(m, id, patch)[other] == m[other],
        updated(m, id, patch).dom() == m.dom(),
{
    assert(updated(m, id, patch).dom() =~= m.dom());
}

/// Of two deletes of one identifier the first succeeds where the store holds
/// it, and the second is answered with `StatusCode::NotFound` and changes
/// nothing: a deleted record is gone, and nothing stands in its place.
pub proof fn law_delete_twice(m: Map<u128, TodoView>, id: u128)
    ensures
        m.contains_key(id) ==> delete_status(m, id) == StatusCode::NoContent,
        !m.remove(id).contains_key(id),
        delete_status(m.remove(id), id) == StatusCode::NotFound,
        m.remove(id).remove(id) == m.remove(id),
{
    assert(m.remove(id).remove(id) =~= m.remove(id));
}

/// Two updates of one record, one after the other, leave what a single
/// update with `merged(first, second)` leaves: per field, the last write wins.
pub proof fn law_updates_compose(m: Map<u128, TodoView>, id: u128, first: Patch, second: Patch)
    ensures
        updated(updated(m, id, first), id, second) == updated(m, id, merged(first, second)),
{
    let stepwise = updated(updated(m, id, first), id, second);
    assert(stepwise =~= updated(m, id, merged(first, second)));
}

/// Two updates of one record that name different fields leave the same
/// record in either order, and it holds what both wrote: neither update is
/// lost.
pub proof fn law_disjoint_updates_commute(m: Map<u128, TodoView>, id: u128, p: Patch, q: Patch)
    requires
        disjoint(p, q),
    ensures
        updated(updated(m, id, p), id, q) == updated(updated(m, id, q), id, p),
        merged(p, q) == merged(q, p),
        m.contains_key(id) ==> {
            let todo = updated(updated(m, id, p), id, q)[id];
            &&& p.text matches Some(text) ==> todo.text == text
            &&& q.text matches Some(text) ==> todo.text == text
            &&& p.completed matches Some(completed) ==> todo.completed == completed
            &&& q.completed matches Some(completed) ==> todo.completed == completed
        },
{
    law_updates_compose(m, id, p, q);
    law_updates_compose(m, id, q, p);
}

/// Any number of updates of one record, one after the other, leave what a
/// single update with `merged_all(patches)` leaves.
pub proof fn law_updates_converge(m: Map<u128, TodoView>, id: u128, patches: Seq<Patch>)
    ensures
        updated_all(m, id, patches) == updated(m, id, merged_all(patches)),
    decreases patches.len(),
{
    if patches.len() == 0 {
        assert(updated(m, id, merged_all(patches)) =~= m);
    } else {
        law_updates_converge(m, id, patches.drop_last());
        law_updates_compose(m, id, merged_all(patches.drop_last()), patches.last());
    }
}

/// What `merged_all` holds where no two patches name the same field: every
/// field that some patch names, with that patch's value, and no other.
proof fn lemma_merged_all_of_disjoint(patches: Seq<Patch>)
    requires
        pairwise_disjoint(patches),
    ensures
        forall|i: int|
            0 <= i < patches.len() && (#[trigger] patches[i]).text is Some ==> merged_all(
                patches,
            ).text == patches[i].text,
        forall|i: int|
            0 <= i < patches.len() && (#[trigger] patches[i]).completed is Some ==> merged_all(
                patches,
            ).completed == patches[i].completed,
        merged_all(patches).text is Some ==> exists|i: int|
            0 <= i < patches.len() && (#[trigger] patches[i]).text == merged_all(patches).text,
        merged_all(patches).completed is Some ==> exists|i: int|
            0 <= i < patches.len() && (#[trigger] patches[i]).completed == merged_all(
                patches,
            ).completed,
    decreases patches.len(),
{
    if patches.len() > 0 {
        let init = patches.drop_last();
        let last = patches.last();
        assert(pairwise_disjoint(init)) by {
            assert forall|i: int, j: int| 0 <= i < j < init.len() implies disjoint(
                #[trigger] init[i],
                #[trigger] init[j],
            ) by {
                assert(disjoint(patches[i], patches[j]));
            }
        }
        lemma_merged_all_of_disjoint(init);
        assert forall|i: int|
            0 <= i < patches.len() && (#[trigger] patches[i]).text is Some implies merged_all(
            patches,
        ).text == patches[i].text by {
            if i < init.len() {
                assert(disjoint(patches[i], patches[patches.len() - 1]));
                assert(init[i].text is Some);
            }
        }
        assert forall|i: int|
            0 <= i < patches.len() && (#[trigger] patches[i]).completed is Some implies merged_all(
            patches,
        ).completed == patches[i].completed by {
            if i < init.len() {
                assert(disjoint(patches[i], patches[patches.len() - 1]));
                assert(init[i].completed is Some);
            }
        }
        if merged_all(patches).text is Some {
            if last.text is Some {
                assert(patches[patches.len() - 1].text == merged_all(patches).text);
            } else {
                let i = choose|i: int|
                    0 <= i < init.len() && (#[trigger] init[i]).text == merged_all(init).text;
                assert(patches[i].text == merged_all(patches).text);
            }
        }
        if merged_all(patches).completed is Some {
            if last.completed is Some {
                assert(patches[patches.len() - 1].completed == merged_all(patches).completed);
            } else {
                let i = choose|i: int|
                    0 <= i < init.len() && (#[trigger] init[i]).completed == merged_all(
                        init,
                    ).completed;
                assert(patches[i].completed == merged_all(patches).completed);
            }
        }
    }
}

/// After any number of updates of one record, no two of which name the same
/// field, the record holds every value that was written, and each field that
/// no update named is as it was: no update is lost, whatever the order.
pub proof fn law_no_update_is_lost(m: Map<u128, TodoView>, id: u128, patches: Seq<Patch>)
    requires
        m.contains_key(id),
        pairwise_disjoint(patches),
    ensures
        updated_all(m, id, patches).contains_key(id),
        updated_all(m, id, patches)[id].id == m[id].id,
        forall|i: int|
            0 <= i < patches.len() ==> ((#[trigger] patches[i]).text matches Some(text)
                ==> updated_all(m, id, patches)[id].text == text),
        forall|i: int|
            0 <= i < patches.len() ==> ((#[trigger] patches[i]).completed matches Some(completed)
                ==> updated_all(m, id, patches)[id].completed == completed),
        (forall|i: int| 0 <= i < patches.len() ==> (#[trigger] patches[i]).text is None)
            ==> updated_all(m, id, patches)[id].text == m[id].text,
        (forall|i: int| 0 <= i < patches.len() ==> (#[trigger] patches[i]).completed is None)
            ==> updated_all(m, id, patches)[id].completed == m[id].completed,
{
    law_updates_converge(m, id, patches);
    lemma_merged_all_of_disjoint(patches);
}

/// Updates of one record, no two of which name the same field, leave the
/// same store in whatever order they are applied.
pub proof fn law_disjoint_updates_converge(
    m: Map<u128, TodoView>,
    id: u128,
    patches: Seq<Patch>,
    reordered: Seq<Patch>,
)
    requires
        pairwise_disjoint(patches),
        pairwise_disjoint(reordered),
        forall|patch: Patch| patches.contains(patch) <==> reordered.contains(patch),
    ensures
        updated_all(m, id, patches) == updated_all(m, id, reordered),
{
    law_updates_converge(m, id, patches);
    law_updates_converge(m, id, reordered);
    lemma_merged_all_of_disjoint(patches);
    lemma_merged_all_of_disjoint(reordered);
    let p = merged_all(patches);
    let q = merged_all(reordered);
    assert(p.text == q.text) by {
        if p.text is Some {
            let i = choose|i: int|
                0 <= i < patches.len() && (#[trigger] patches[i]).text == p.text;
            assert(patches.contains(patches[i]));
            let j = choose|j: int| 0 <= j < reordered.len() && reordered[j] == patches[i];
            assert(reordered[j].text is Some);
        } else if q.text is Some {
            let j = choose|j: int|
                0 <= j < reordered.len() && (#[trigger] reordered[j]).text == q.text;
            assert(reordered.contains(reordered[j]));
            let i = choose|i: int| 0 <= i < patches.len() && patches[i] == reordered[j];
            assert(patches[i].text is Some);
        }
    }
    assert(p.completed == q.completed) by {
        if p.completed is Some {
            let i = choose|i: int|
                0 <= i < patches.len() && (#[trigger] patches[i]).completed == p.completed;
            assert(patches.contains(patches[i]));
            let j = choose|j: int| 0 <= j < reordered.len() && reordered[j] == patches[i];
            assert(reordered[j].completed is Some);
        } else if q.completed is Some {
            let j = choose|j: int|
                0 <= j < reordered.len() && (#[trigger] reordered[j]).completed == q.completed;
            assert(reordered.contains(reordered[j]));
            let i = choose|i: int| 0 <= i < patches.len() && patches[i] == reordered[j];
            assert(patches[i].completed is Some);
        }
    }
}

} // verus!
