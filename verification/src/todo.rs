//! The task-list state behind the HTTP handlers: an ordered list of
//! todos, addressed by their string identifiers.
//!
//! Creation draws a fresh random identifier from the UUID library
//! behind one trusted wrapper; everything decided about the list —
//! where an entry lands, which entry an update or a deletion hits,
//! when an identifier misses — is verified, for every identifier the
//! wrapper could hand back.

use vstd::prelude::*;

verus! {

/// One task: its identifier, its title, and whether it is done.
#[derive(Debug)]
pub struct Todo {
    pub id: String,
    pub title: String,
    pub completed: bool,
}

/// Mathematical image of one task.
pub struct TodoModel {
    pub id: Seq<char>,
    pub title: Seq<char>,
    pub completed: bool,
}

impl View for Todo {
    type V = TodoModel;

    open spec fn view(&self) -> TodoModel {
        TodoModel { id: self.id@, title: self.title@, completed: self.completed }
    }
}

/// The mathematical image of a task list.
pub open spec fn todos_model(s: Seq<Todo>) -> Seq<TodoModel> {
    s.map_values(|t: Todo| t@)
}

/// The position of the first task carrying `id`, if any.
pub open spec fn find_id(ts: Seq<TodoModel>, id: Seq<char>) -> Option<int>
    decreases ts.len(),
{
    if ts.len() == 0 {
        None
    } else if ts.first().id == id {
        Some(0)
    } else {
        match find_id(ts.drop_first(), id) {
            Some(j) => Some(j + 1),
            None => None,
        }
    }
}

/// Where the first `i` tasks miss `id` and task `i` carries it, it is
/// the first carrier.
proof fn lemma_find_id_at(ts: Seq<TodoModel>, id: Seq<char>, i: int)
    requires
        0 <= i < ts.len(),
        ts[i].id == id,
        forall|j: int| 0 <= j < i ==> (#[trigger] ts[j]).id != id,
    ensures
        find_id(ts, id) == Some(i),
    decreases i,
{
    if i > 0 {
        lemma_find_id_at(ts.drop_first(), id, i - 1);
    }
}

/// Where no task carries `id`, the search misses.
proof fn lemma_find_id_none(ts: Seq<TodoModel>, id: Seq<char>)
    requires
        forall|j: int| 0 <= j < ts.len() ==> (#[trigger] ts[j]).id != id,
    ensures
        find_id(ts, id) is None,
    decreases ts.len(),
{
    if ts.len() > 0 {
        lemma_find_id_none(ts.drop_first(), id);
    }
}

/// Relies on uuid::Uuid::new_v4 and its Display: a fresh random
/// version-4 identifier, rendered in the 36-character hyphenated form.
/// Nothing relates two draws; only the length holds of every outcome.
/// The draw aborts the process if the operating system's random
/// source fails — an environmental condition, not one any input
/// could exclude.
#[verifier::external_body]
fn fresh_uuid_string() -> (r: String)
    ensures
        r@.len() == 36,
{
    uuid::Uuid::new_v4().to_string()
}

/// Clones one task.
fn clone_todo(t: &Todo) -> (r: Todo)
    ensures
        r == *t,
{
    Todo { id: t.id.clone(), title: t.title.clone(), completed: t.completed }
}

/// Appends a task with the given identifier to the end of the list and
/// returns a copy of it.
pub fn add_todo(todos: &mut Vec<Todo>, id: String, title: String, completed: bool) -> (t: Todo)
    ensures
        final(todos)@.len() == old(todos)@.len() + 1,
        todos_model(final(todos)@) == todos_model(old(todos)@).push(t@),
        t@ == (TodoModel { id: id@, title: title@, completed }),
{
    let t = Todo { id, title, completed };
    let copy = clone_todo(&t);
    todos.push(t);
    proof {
        assert(todos_model(todos@) =~= todos_model(old(todos)@).push(copy@));
    }
    copy
}

/// Creates a task under a fresh random identifier, appends it, and
/// returns a copy: the stored and returned entry agree, whatever
/// identifier was drawn, and the identifier is 36 characters long.
pub fn create_todo(todos: &mut Vec<Todo>, title: String, completed: bool) -> (t: Todo)
    ensures
        final(todos)@.len() == old(todos)@.len() + 1,
        todos_model(final(todos)@) == todos_model(old(todos)@).push(t@),
        t@.id.len() == 36,
        t@.title == title@,
        t@.completed == completed,
{
    let id = fresh_uuid_string();
    add_todo(todos, id, title, completed)
}

/// Rewrites the first task carrying `id` with the given title and
/// state, returning a copy of the new entry, or changes nothing and
/// returns nothing when no task carries `id`.
#[verifier::loop_isolation(false)]
pub fn update_todo(todos: &mut Vec<Todo>, id: &String, title: String, completed: bool) -> (r:
    Option<Todo>)
    ensures
        match find_id(todos_model(old(todos)@), id@) {
            Some(i) => {
                &&& r matches Some(t)
                &&& t@ == (TodoModel {
                    id: todos_model(old(todos)@)[i].id,
                    title: title@,
                    completed,
                })
                &&& todos_model(final(todos)@) == todos_model(old(todos)@).update(i, t@)
            },
            None => r is None && final(todos)@ == old(todos)@,
        },
{
    let ghost m = todos_model(old(todos)@);
    let mut i: usize = 0;
    while i < todos.len()
        invariant
            i <= todos@.len(),
            todos@ == old(todos)@,
            forall|j: int| 0 <= j < i ==> (#[trigger] m[j]).id != id@,
        decreases todos@.len() - i,
    {
        if todos[i].id.eq(id) {
            proof {
                lemma_find_id_at(m, id@, i as int);
            }
            let old_t = todos.remove(i);
            let t = Todo { id: old_t.id, title, completed };
            let copy = clone_todo(&t);
            todos.insert(i, t);
            proof {
                assert(todos_model(todos@) =~= m.update(i as int, copy@));
            }
            return Some(copy);
        }
        i += 1;
    }
    proof {
        lemma_find_id_none(m, id@);
    }
    None
}

/// Removes the first task carrying `id` and says so, or changes
/// nothing when no task carries it.
#[verifier::loop_isolation(false)]
pub fn delete_todo(todos: &mut Vec<Todo>, id: &String) -> (r: bool)
    ensures
        match find_id(todos_model(old(todos)@), id@) {
            Some(i) => r && todos_model(final(todos)@) == todos_model(old(todos)@).remove(i),
            None => !r && final(todos)@ == old(todos)@,
        },
{
    let ghost m = todos_model(old(todos)@);
    let mut i: usize = 0;
    while i < todos.len()
        invariant
            i <= todos@.len(),
            todos@ == old(todos)@,
            forall|j: int| 0 <= j < i ==> (#[trigger] m[j]).id != id@,
        decreases todos@.len() - i,
    {
        if todos[i].id.eq(id) {
            proof {
                lemma_find_id_at(m, id@, i as int);
            }
            todos.remove(i);
            proof {
                assert(todos_model(todos@) =~= m.remove(i as int));
            }
            return true;
        }
        i += 1;
    }
    proof {
        lemma_find_id_none(m, id@);
    }
    false
}

/// What a failed request is answered with: 404 and "Not found" where
/// the route missed, else 400 and "Bad request".
pub fn rejection_reply(not_found: bool) -> (r: (u16, String))
    ensures
        not_found ==> r.0 == 404 && r.1@ == "Not found"@,
        !not_found ==> r.0 == 400 && r.1@ == "Bad request"@,
{
    if not_found {
        (404, String::from_str("Not found"))
    } else {
        (400, String::from_str("Bad request"))
    }
}

} // verus!
