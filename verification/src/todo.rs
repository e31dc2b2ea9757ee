use vstd::prelude::*;

verus! {

/// A todo item, as stored in the `todos` table.
#[derive(Clone, Debug, PartialEq)]
pub struct Todo {
    pub id: i64,
    pub title: String,
    pub completed: bool,
    pub display_order: i64,
}

/// The mathematical value of a [`Todo`]: its title as a sequence of characters.
pub struct TodoView {
    pub id: i64,
    pub title: Seq<char>,
    pub completed: bool,
    pub display_order: i64,
}

impl View for Todo {
    type V = TodoView;

    open spec fn view(&self) -> TodoView {
        TodoView {
            id: self.id,
            title: self.title@,
            completed: self.completed,
            display_order: self.display_order,
        }
    }
}

impl Todo {
    /// A copy of this todo, field for field.
    pub fn duplicate(&self) -> (r: Todo)
        ensures
            r@ == self@,
    {
        Todo {
            id: self.id,
            title: self.title.clone(),
            completed: self.completed,
            display_order: self.display_order,
        }
    }
}

/// Errors that the todo operations report.
#[derive(Debug, PartialEq, Eq, Structural, Clone, Copy)]
pub enum TodoError {
    /// The title is empty once surrounding whitespace is removed.
    EmptyTitle,
    /// No identifier is left for a new row: the largest one ever used is `i64::MAX`.
    StorageFull,
}

/// Whether `c` has the Unicode `White_Space` property (the set that `char::is_whitespace`
/// and `str::trim` use).
pub open spec fn is_white_space(c: char) -> bool {
    let n = c as u32;
    ||| 0x09 <= n <= 0x0D
    ||| n == 0x20
    ||| n == 0x85
    ||| n == 0xA0
    ||| n == 0x1680
    ||| 0x2000 <= n <= 0x200A
    ||| n == 0x2028
    ||| n == 0x2029
    ||| n == 0x202F
    ||| n == 0x205F
    ||| n == 0x3000
}

/// `s` without its leading whitespace.
pub open spec fn trim_start(s: Seq<char>) -> Seq<char>
    decreases s.len(),
{
    if s.len() > 0 && is_white_space(s[0]) {
        trim_start(s.drop_first())
    } else {
        s
    }
}

/// `s` without its trailing whitespace.
pub open spec fn trim_end(s: Seq<char>) -> Seq<char>
    decreases s.len(),
{
    if s.len() > 0 && is_white_space(s.last()) {
        trim_end(s.drop_last())
    } else {
        s
    }
}

/// `s` without leading and trailing whitespace.
pub open spec fn trimmed(s: Seq<char>) -> Seq<char> {
    trim_end(trim_start(s))
}

/// Neither the first nor the last character of `s` is whitespace.
pub open spec fn is_trimmed(s: Seq<char>) -> bool {
    s.len() > 0 ==> !is_white_space(s[0]) && !is_white_space(s.last())
}

/// A title that can be stored: not empty, and without surrounding whitespace.
pub open spec fn is_stored_title(s: Seq<char>) -> bool {
    s.len() > 0 && is_trimmed(s)
}

/// `str::trim` of std: the slice without leading and trailing characters that have the
/// Unicode `White_Space` property. The contract states exactly that, over `trimmed`.
#[verifier::external_body]
fn trim_whitespace(s: &str) -> (r: &str)
    ensures
        r@ == trimmed(s@),
{
    s.trim()
}

proof fn lemma_trim_start_suffix(s: Seq<char>)
    ensures
        exists|k: int| 0 <= k <= s.len() && trim_start(s) == s.subrange(k, s.len() as int),
        trim_start(s).len() > 0 ==> !is_white_space(trim_start(s)[0]),
    decreases s.len(),
{
    if s.len() > 0 && is_white_space(s[0]) {
        lemma_trim_start_suffix(s.drop_first());
        let k = choose|k: int|
            0 <= k <= s.drop_first().len() && trim_start(s.drop_first()) == s.drop_first().subrange(
                k,
                s.drop_first().len() as int,
            );
        assert(s.drop_first().subrange(k, s.drop_first().len() as int) =~= s.subrange(
            k + 1,
            s.len() as int,
        ));
    } else {
        assert(s.subrange(0, s.len() as int) =~= s);
    }
}

proof fn lemma_trim_end_prefix(s: Seq<char>)
    ensures
        exists|m: int| 0 <= m <= s.len() && trim_end(s) == s.subrange(0, m),
        trim_end(s).len() > 0 ==> !is_white_space(trim_end(s).last()),
    decreases s.len(),
{
    if s.len() > 0 && is_white_space(s.last()) {
        lemma_trim_end_prefix(s.drop_last());
        let m = choose|m: int|
            0 <= m <= s.drop_last().len() && trim_end(s.drop_last()) == s.drop_last().subrange(
                0,
                m,
            );
        assert(s.drop_last().subrange(0, m) =~= s.subrange(0, m));
    } else {
        assert(s.subrange(0, s.len() as int) =~= s);
    }
}

/// Trimming leaves a string that has no surrounding whitespace.
pub proof fn lemma_trimmed_is_trimmed(s: Seq<char>)
    ensures
        is_trimmed(trimmed(s)),
{
    lemma_trim_start_suffix(s);
    let u = trim_start(s);
    lemma_trim_end_prefix(u);
    let m = choose|m: int| 0 <= m <= u.len() && trim_end(u) == u.subrange(0, m);
    if m > 0 {
        assert(trim_end(u)[0] == u[0]);
    }
}

/// A string without surrounding whitespace is its own trim.
pub proof fn lemma_trimmed_fixed(s: Seq<char>)
    requires
        is_trimmed(s),
    ensures
        trimmed(s) == s,
{
}

/// Trimming twice is trimming once.
pub proof fn lemma_trim_idempotent(s: Seq<char>)
    ensures
        trimmed(trimmed(s)) == trimmed(s),
{
    lemma_trimmed_is_trimmed(s);
    lemma_trimmed_fixed(trimmed(s));
}

/// `s` without surrounding whitespace, as an owned string (possibly empty).
pub fn trim_text(s: &str) -> (r: String)
    ensures
        r@ == trimmed(s@),
{
    trim_whitespace(s).to_owned()
}

/// Whether `title` can be stored as it is: not empty, without surrounding whitespace.
pub fn is_storable_title(title: &String) -> (r: bool)
    ensures
        r == is_stored_title(title@),
{
    let t = trim_text(title.as_str());
    proof {
        lemma_trimmed_is_trimmed(title@);
        if is_trimmed(title@) {
            lemma_trimmed_fixed(title@);
        }
    }
    !title.as_str().is_empty() && t == *title
}

/// The title that `add_todo` and `update_todo` store: the input without surrounding
/// whitespace, or `EmptyTitle` when nothing is left.
pub fn normalize_title(title: &str) -> (r: Result<String, TodoError>)
    ensures
        match r {
            Ok(t) => t@ == trimmed(title@) && is_stored_title(t@),
            Err(e) => e == TodoError::EmptyTitle && trimmed(title@).len() == 0,
        },
{
    let t = trim_whitespace(title);
    proof {
        lemma_trimmed_is_trimmed(title@);
    }
    if t.is_empty() {
        Err(TodoError::EmptyTitle)
    } else {
        Ok(t.to_owned())
    }
}

/// The `display_order` that `add_todo` gives a new row, from the largest one stored:
/// one more than it, or `0` when the table is empty (`MAX(display_order)` is `NULL`).
pub open spec fn order_after(max_order: Option<i64>) -> int {
    match max_order {
        Some(m) => m + 1,
        None => 0,
    }
}

/// `max_order.unwrap_or(-1) + 1`: the display order of the next new row.
pub fn next_display_order(max_order: Option<i64>) -> (r: i64)
    requires
        max_order matches Some(m) ==> m < i64::MAX,
    ensures
        r == order_after(max_order),
{
    match max_order {
        Some(m) => m + 1,
        None => 0,
    }
}

/// The todo that `add_todo` returns once its row is inserted: not completed, with the
/// id that the database gave the row.
pub fn added_todo(id: i64, title: String, display_order: i64) -> (r: Todo)
    ensures
        r@ == (TodoView { id, title: title@, completed: false, display_order }),
{
    Todo { id, title, completed: false, display_order }
}

/// What `update_todo` does with a row, given the new title.
pub enum TitleUpdate {
    /// Store this title (already trimmed, not empty).
    Rename(String),
    /// The title is blank: the row is deleted.
    Remove,
}

/// Decides what `update_todo` does: a blank title deletes the row, any other title is
/// stored without its surrounding whitespace.
pub fn plan_title_update(title: &str) -> (r: TitleUpdate)
    ensures
        match r {
            TitleUpdate::Rename(t) => t@ == trimmed(title@) && is_stored_title(t@),
            TitleUpdate::Remove => trimmed(title@).len() == 0,
        },
{
    match normalize_title(title) {
        Ok(t) => TitleUpdate::Rename(t),
        Err(_) => TitleUpdate::Remove,
    }
}

} // verus!
