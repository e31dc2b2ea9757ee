use vstd::prelude::*;
use crate::todo::{Todo, TodoView, trimmed, trim_text, normalize_title};
use crate::rows::{rows_view, retain_rows, active_only};

verus! {

/// `str == str` of std: two string slices are equal when they hold the same characters.
#[verifier::external_body]
fn same_text(a: &str, b: &str) -> (r: bool)
    ensures
        r == (a@ == b@),
{
    a == b
}

/// Which todos the list shows.
#[derive(Clone, Copy, Debug, PartialEq, Eq, Structural)]
pub enum Filter {
    All,
    Active,
    Completed,
}

/// Whether a todo is shown under a filter.
pub open spec fn shows(filter: Filter, t: TodoView) -> bool {
    match filter {
        Filter::All => true,
        Filter::Active => !t.completed,
        Filter::Completed => t.completed,
    }
}

/// The todos of `s` that `filter` shows, in their order.
pub open spec fn shown(s: Seq<TodoView>, filter: Filter) -> Seq<TodoView> {
    retain_rows(s, |t: TodoView| shows(filter, t))
}

/// The name of a filter, as it stands in the link `#/name`.
pub open spec fn filter_name(filter: Filter) -> Seq<char> {
    match filter {
        Filter::All => "all"@,
        Filter::Active => "active"@,
        Filter::Completed => "completed"@,
    }
}

/// The filter that a name selects: `active` and `completed` select their own, any
/// other name shows all todos.
pub open spec fn filter_named(name: Seq<char>) -> Filter {
    if name == "active"@ {
        Filter::Active
    } else if name == "completed"@ {
        Filter::Completed
    } else {
        Filter::All
    }
}

impl Filter {
    /// The filter that a name selects (`all` for a name it does not know).
    pub fn from_name(name: &str) -> (f: Filter)
        ensures
            f == filter_named(name@),
    {
        if same_text(name, "active") {
            Filter::Active
        } else if same_text(name, "completed") {
            Filter::Completed
        } else {
            Filter::All
        }
    }

    /// The name of this filter.
    pub fn name(&self) -> (r: &'static str)
        ensures
            r@ == filter_name(*self),
    {
        match self {
            Filter::All => "all",
            Filter::Active => "active",
            Filter::Completed => "completed",
        }
    }
}

/// The todos that `filter` shows, in their order.
pub fn filter_todos(todos: &Vec<Todo>, filter: Filter) -> (r: Vec<Todo>)
    ensures
        rows_view(r@) == shown(rows_view(todos@), filter),
{
    let ghost s = rows_view(todos@);
    let mut out: Vec<Todo> = Vec::new();
    let n = todos.len();
    let mut i: usize = 0;
    while i < n
        invariant
            n == todos.len(),
            i <= n,
            s == rows_view(todos@),
            rows_view(out@) == shown(s.take(i as int), filter),
        decreases n - i,
    {
        assert(s.take(i + 1).drop_last() =~= s.take(i as int));
        let keep = match filter {
            Filter::All => true,
            Filter::Active => !todos[i].completed,
            Filter::Completed => todos[i].completed,
        };
        if keep {
            let t = todos[i].duplicate();
            out.push(t);
            assert(rows_view(out@) =~= shown(s.take(i + 1), filter));
        }
        i += 1;
    }
    assert(s.take(n as int) =~= s);
    out
}

/// The number of todos not yet completed ("N items left").
pub fn active_count(todos: &Vec<Todo>) -> (r: usize)
    ensures
        r == active_only(rows_view(todos@)).len(),
{
    let ghost s = rows_view(todos@);
    let n = todos.len();
    let mut count: usize = 0;
    let mut i: usize = 0;
    while i < n
        invariant
            n == todos.len(),
            i <= n,
            s == rows_view(todos@),
            count == active_only(s.take(i as int)).len(),
            count <= i,
        decreases n - i,
    {
        assert(s.take(i + 1).drop_last() =~= s.take(i as int));
        if !todos[i].completed {
            count += 1;
        }
        i += 1;
    }
    assert(s.take(n as int) =~= s);
    count
}

/// Whether some todo is completed (the "Clear completed" button is shown).
pub fn has_completed(todos: &Vec<Todo>) -> (r: bool)
    ensures
        r == exists|i: int| 0 <= i < todos@.len() && (#[trigger] todos@[i]).completed,
{
    let n = todos.len();
    let mut i: usize = 0;
    while i < n
        invariant
            n == todos.len(),
            i <= n,
            forall|k: int| 0 <= k < i ==> !(#[trigger] todos@[k]).completed,
        decreases n - i,
    {
        if todos[i].completed {
            return true;
        }
        i += 1;
    }
    false
}

/// Whether the list is not empty and every todo in it is completed (the state of the
/// "Mark all as complete" checkbox).
pub fn all_completed(todos: &Vec<Todo>) -> (r: bool)
    ensures
        r == (todos@.len() > 0 && forall|i: int|
            0 <= i < todos@.len() ==> (#[trigger] todos@[i]).completed),
{
    let n = todos.len();
    if n == 0 {
        return false;
    }
    let mut i: usize = 0;
    while i < n
        invariant
            n == todos.len(),
            i <= n,
            forall|k: int| 0 <= k < i ==> (#[trigger] todos@[k]).completed,
        decreases n - i,
    {
        if !todos[i].completed {
            return false;
        }
        i += 1;
    }
    true
}

/// The noun after the count of todos left: `item` for one, `items` otherwise.
pub fn item_label(count: usize) -> (r: &'static str)
    ensures
        r@ == (if count == 1 { "item"@ } else { "items"@ }),
{
    if count == 1 {
        "item"
    } else {
        "items"
    }
}

/// The CSS class of a todo's list entry.
pub fn item_class(completed: bool, editing: bool) -> (r: &'static str)
    ensures
        r@ == (if completed && editing {
            "completed editing"@
        } else if completed {
            "completed"@
        } else if editing {
            "editing"@
        } else {
            ""@
        }),
{
    match (completed, editing) {
        (true, true) => "completed editing",
        (true, false) => "completed",
        (false, true) => "editing",
        (false, false) => "",
    }
}

/// A key pressed in a text input, as far as the list cares.
#[derive(Clone, Copy, Debug, PartialEq, Eq, Structural)]
pub enum Key {
    Enter,
    Escape,
    Other,
}

/// The key that a `KeyboardEvent.key` value names.
pub open spec fn key_named(name: Seq<char>) -> Key {
    if name == "Enter"@ {
        Key::Enter
    } else if name == "Escape"@ {
        Key::Escape
    } else {
        Key::Other
    }
}

impl Key {
    /// The key that a `KeyboardEvent.key` value names.
    pub fn from_name(name: &str) -> (k: Key)
        ensures
            k == key_named(name@),
    {
        if same_text(name, "Enter") {
            Key::Enter
        } else if same_text(name, "Escape") {
            Key::Escape
        } else {
            Key::Other
        }
    }
}

/// A key pressed in the "What needs to be done?" input: Enter on a text that is not
/// blank adds a todo with the trimmed text (and the input is cleared); anything else
/// adds nothing.
pub fn new_todo_entry(key: Key, input: &str) -> (r: Option<String>)
    ensures
        r is Some <==> key == Key::Enter && trimmed(input@).len() > 0,
        r matches Some(t) ==> t@ == trimmed(input@),
{
    match key {
        Key::Enter => match normalize_title(input) {
            Ok(t) => Some(t),
            Err(_) => None,
        },
        _ => None,
    }
}

/// The editing state of one todo's entry: whether its edit box is open, and its text.
pub struct EditorState {
    pub editing: bool,
    pub value: String,
}

/// What happens to a todo's entry.
pub enum EditEvent {
    /// Double click on the title: the edit box opens with the title.
    Start,
    /// The text of the edit box becomes this.
    Input(String),
    /// A key is pressed in the edit box.
    Key(Key),
    /// The edit box loses the focus.
    Blur,
}

/// The entry's next state, and the title submitted to `update_todo`, if any.
pub struct EditOutcome {
    pub state: EditorState,
    pub submitted: Option<String>,
}

/// One step of editing a todo whose stored title is `title`. Enter and leaving the box
/// submit the trimmed text (a blank one deletes the todo) and close the box; Escape puts
/// the title back and closes the box without submitting.
pub fn edit_step(state: EditorState, title: &str, event: EditEvent) -> (r: EditOutcome)
    ensures
        match event {
            EditEvent::Start => {
                &&& r.state.editing
                &&& r.state.value@ == title@
                &&& r.submitted is None
            },
            EditEvent::Input(v) => {
                &&& r.state.editing == state.editing
                &&& r.state.value@ == v@
                &&& r.submitted is None
            },
            EditEvent::Key(Key::Enter) | EditEvent::Blur => {
                &&& !r.state.editing
                &&& r.state.value@ == state.value@
                &&& r.submitted matches Some(t) && t@ == trimmed(state.value@)
            },
            EditEvent::Key(Key::Escape) => {
                &&& !r.state.editing
                &&& r.state.value@ == title@
                &&& r.submitted is None
            },
            EditEvent::Key(Key::Other) => {
                &&& r.state.editing == state.editing
                &&& r.state.value@ == state.value@
                &&& r.submitted is None
            },
        },
{
    match event {
        EditEvent::Start => EditOutcome {
            state: EditorState { editing: true, value: title.to_owned() },
            submitted: None,
        },
        EditEvent::Input(v) => EditOutcome {
            state: EditorState { editing: state.editing, value: v },
            submitted: None,
        },
        EditEvent::Key(Key::Enter) | EditEvent::Blur => {
            let t = trim_text(state.value.as_str());
            EditOutcome { state: EditorState { editing: false, value: state.value }, submitted: Some(t) }
        },
        EditEvent::Key(Key::Escape) => EditOutcome {
            state: EditorState { editing: false, value: title.to_owned() },
            submitted: None,
        },
        EditEvent::Key(Key::Other) => EditOutcome { state, submitted: None },
    }
}

} // verus!
