//! What holds of the table operations and of the list's views across calls.
use vstd::prelude::*;
use crate::todo::{TodoView, order_after, is_white_space, trimmed, trim_start, trim_end};
use crate::rows::{
    display_le, display_sorted, valid_rows, without_id, active_only, completed_only,
    with_completed, toggled, all_set, renamed, max_order, lemma_retain_rows, lemma_max_order,
};
use crate::ui::{Filter, Key, shown, filter_name, filter_named, key_named};

verus! {

/// Toggling a todo twice leaves the table as it was.
pub proof fn law_toggle_twice_restores(s: Seq<TodoView>, id: i64)
    ensures
        toggled(toggled(s, id), id) == s,
{
    assert(toggled(toggled(s, id), id) =~= s);
}

/// After "toggle all" with a flag, every todo has that flag and nothing else changed;
/// doing it again changes nothing.
pub proof fn law_toggle_all_sets_every_flag(s: Seq<TodoView>, c: bool)
    ensures
        all_set(s, c).len() == s.len(),
        forall|i: int| 0 <= i < s.len() ==> (#[trigger] all_set(s, c)[i]) == with_completed(s[i], c),
        forall|i: int| 0 <= i < s.len() ==> (#[trigger] all_set(s, c)[i]).completed == c,
        all_set(all_set(s, c), c) == all_set(s, c),
{
    assert(all_set(all_set(s, c), c) =~= all_set(s, c));
}

/// After "clear completed", no completed todo is left, every active one is still there
/// in its place, and clearing again changes nothing.
pub proof fn law_clear_completed_keeps_active(s: Seq<TodoView>)
    ensures
        forall|i: int| 0 <= i < active_only(s).len() ==> !(#[trigger] active_only(s)[i]).completed,
        forall|i: int| 0 <= i < s.len() && !s[i].completed ==> active_only(s).contains(#[trigger] s[i]),
        active_only(active_only(s)) == active_only(s),
        completed_only(active_only(s)).len() == 0,
{
    lemma_retain_rows(s, |t: TodoView| !t.completed);
    lemma_retain_all_kept(active_only(s), |t: TodoView| !t.completed);
    lemma_retain_none_kept(active_only(s), |t: TodoView| t.completed);
}

/// After deleting an id, no row has it, and every row with another id is still there.
/// Deleting an id that no row has changes nothing.
pub proof fn law_delete_removes_only_that_id(s: Seq<TodoView>, id: i64)
    ensures
        forall|i: int| 0 <= i < without_id(s, id).len() ==> (#[trigger] without_id(s, id)[i]).id != id,
        forall|i: int| 0 <= i < without_id(s, id).len() ==> s.contains(#[trigger] without_id(s, id)[i]),
        forall|i: int| 0 <= i < s.len() && s[i].id != id ==> without_id(s, id).contains(#[trigger] s[i]),
        (forall|i: int| 0 <= i < s.len() ==> (#[trigger] s[i]).id != id) ==> without_id(s, id) == s,
{
    lemma_retain_rows(s, |t: TodoView| t.id != id);
    if forall|i: int| 0 <= i < s.len() ==> (#[trigger] s[i]).id != id {
        lemma_retain_all_kept(s, |t: TodoView| t.id != id);
    }
}

/// In a valid table, deleting an id removes exactly the one row that has it and keeps
/// the others in their order; when no row has it, the table is unchanged.
pub proof fn law_delete_removes_exactly_one_row(s: Seq<TodoView>, last_id: i64, id: i64, i: int)
    requires
        valid_rows(s, last_id),
        0 <= i < s.len(),
        s[i].id == id,
    ensures
        without_id(s, id) == s.remove(i),
        without_id(s, id).len() == s.len() - 1,
    decreases s.len(),
{
    let p = s.drop_last();
    if i == s.len() - 1 {
        assert forall|k: int| 0 <= k < p.len() implies (#[trigger] p[k]).id != id by {
            assert(s[k].id < s[i].id);
        }
        lemma_retain_all_kept(p, |t: TodoView| t.id != id);
        assert(s.remove(i) =~= p);
    } else {
        assert(p[i] == s[i]);
        assert forall|a: int, b: int| 0 <= a < b < p.len() implies (#[trigger] p[a]).id < (
        #[trigger] p[b]).id by {
            assert(s[a].id < s[b].id);
        }
        law_delete_removes_exactly_one_row(p, last_id, id, i);
        assert(s.last().id != id) by {
            assert(s[i].id < s[s.len() - 1].id);
        }
        assert(s.remove(i) =~= p.remove(i).push(s.last()));
    }
}

/// Toggling an id flips the completion flag of the rows with that id, changes nothing
/// else in them, and leaves every other row as it was.
pub proof fn law_toggle_changes_only_that_row(s: Seq<TodoView>, id: i64)
    ensures
        toggled(s, id).len() == s.len(),
        forall|i: int| 0 <= i < s.len() && s[i].id != id ==> #[trigger] toggled(s, id)[i] == s[i],
        forall|i: int|
            0 <= i < s.len() && s[i].id == id ==> {
                let r = #[trigger] toggled(s, id)[i];
                &&& r.completed == !s[i].completed
                &&& r.id == s[i].id
                &&& r.title == s[i].title
                &&& r.display_order == s[i].display_order
            },
{
}

/// Only the name `Enter` names the Enter key and only `Escape` the Escape key; every
/// other key name is another key.
pub proof fn law_key_names(n: Seq<char>)
    ensures
        key_named(n) == Key::Enter <==> n == "Enter"@,
        key_named(n) == Key::Escape <==> n == "Escape"@,
        key_named(n) == Key::Other <==> (n != "Enter"@ && n != "Escape"@),
{
    reveal_strlit("Enter");
    reveal_strlit("Escape");
    assert("Enter"@.len() == 5 && "Escape"@.len() == 6);
    assert("Enter"@ != "Escape"@);
}

/// The display order compares the display order first and the id only between rows of
/// the same display order.
pub proof fn law_display_order_compares_order_then_id(a: TodoView, b: TodoView)
    ensures
        a.display_order < b.display_order ==> display_le(a, b) && !display_le(b, a),
        a.display_order == b.display_order ==> (display_le(a, b) <==> a.id <= b.id),
        display_le(a, b) || display_le(b, a),
{
}

/// A list in display order has non-decreasing display orders, and among rows of the same
/// display order, non-decreasing ids.
pub proof fn law_display_sorted_lists(r: Seq<TodoView>)
    requires
        display_sorted(r),
    ensures
        forall|i: int, j: int|
            0 <= i < j < r.len() ==> (#[trigger] r[i]).display_order <= (#[trigger] r[j]).display_order
                && (r[i].display_order == r[j].display_order ==> r[i].id <= r[j].id),
{
    assert forall|i: int, j: int| 0 <= i < j < r.len() implies (#[trigger] r[i]).display_order <= (
    #[trigger] r[j]).display_order && (r[i].display_order == r[j].display_order ==> r[i].id
        <= r[j].id) by {
        assert(display_le(r[i], r[j]));
    }
}

/// The whitespace that titles lose: the ASCII controls tab to carriage return and the
/// space are whitespace, no other printable ASCII character is, and neither are letters,
/// digits or punctuation.
pub proof fn law_whitespace_characters(c: char)
    ensures
        (c == ' ' || c == '\t' || c == '\n' || c == '\r' || c == '\u{0B}' || c == '\u{0C}')
            ==> is_white_space(c),
        0x21 <= c as u32 <= 0x7E ==> !is_white_space(c),
        c as u32 <= 0x08 ==> !is_white_space(c),
        0x0E <= c as u32 <= 0x1F ==> !is_white_space(c),
{
}

/// Trimming removes whitespace at both ends and nothing else: the result is a contiguous
/// part of the title, everything cut off before and after it is whitespace, and it neither
/// starts nor ends with whitespace.
pub proof fn law_trim_removes_only_surrounding_whitespace(s: Seq<char>)
    ensures
        exists|a: int, b: int|
            0 <= a <= b <= s.len() && trimmed(s) == s.subrange(a, b) && (forall|k: int|
                0 <= k < a ==> is_white_space(#[trigger] s[k])) && (forall|k: int|
                b <= k < s.len() ==> is_white_space(#[trigger] s[k])) && (a < b ==> !is_white_space(s[a])
                && !is_white_space(s[b - 1])),
{
    lemma_trim_start_cut(s);
    let a = choose|a: int|
        0 <= a <= s.len() && trim_start(s) == s.subrange(a, s.len() as int) && (forall|k: int|
            0 <= k < a ==> is_white_space(#[trigger] s[k])) && (a < s.len() ==> !is_white_space(s[a]));
    let u = trim_start(s);
    lemma_trim_end_cut(u);
    let m = choose|m: int|
        0 <= m <= u.len() && trim_end(u) == u.subrange(0, m) && (forall|k: int|
            m <= k < u.len() ==> is_white_space(#[trigger] u[k])) && (m > 0 ==> !is_white_space(u[m - 1]));
    let b = a + m;
    assert(trimmed(s) =~= s.subrange(a, b));
    assert forall|k: int| b <= k < s.len() implies is_white_space(#[trigger] s[k]) by {
        assert(u[k - a] == s[k]);
    }
    if a < b {
        assert(u[0] == s[a]);
        assert(u[m - 1] == s[b - 1]);
    }
}

proof fn lemma_trim_start_cut(s: Seq<char>)
    ensures
        exists|a: int|
            0 <= a <= s.len() && trim_start(s) == s.subrange(a, s.len() as int) && (forall|k: int|
                0 <= k < a ==> is_white_space(#[trigger] s[k])) && (a < s.len() ==> !is_white_space(s[a])),
    decreases s.len(),
{
    if s.len() > 0 && is_white_space(s[0]) {
        let t = s.drop_first();
        lemma_trim_start_cut(t);
        let a = choose|a: int|
            0 <= a <= t.len() && trim_start(t) == t.subrange(a, t.len() as int) && (forall|k: int|
                0 <= k < a ==> is_white_space(#[trigger] t[k])) && (a < t.len() ==> !is_white_space(t[a]));
        assert(t.subrange(a, t.len() as int) =~= s.subrange(a + 1, s.len() as int));
        assert forall|k: int| 0 <= k < a + 1 implies is_white_space(#[trigger] s[k]) by {
            if k > 0 {
                assert(s[k] == t[k - 1]);
            }
        }
        if a + 1 < s.len() {
            assert(s[a + 1] == t[a]);
        }
    } else {
        assert(s.subrange(0, s.len() as int) =~= s);
    }
}

proof fn lemma_trim_end_cut(s: Seq<char>)
    ensures
        exists|m: int|
            0 <= m <= s.len() && trim_end(s) == s.subrange(0, m) && (forall|k: int|
                m <= k < s.len() ==> is_white_space(#[trigger] s[k])) && (m > 0 ==> !is_white_space(s[m - 1])),
    decreases s.len(),
{
    if s.len() > 0 && is_white_space(s.last()) {
        let t = s.drop_last();
        lemma_trim_end_cut(t);
        let m = choose|m: int|
            0 <= m <= t.len() && trim_end(t) == t.subrange(0, m) && (forall|k: int|
                m <= k < t.len() ==> is_white_space(#[trigger] t[k])) && (m > 0 ==> !is_white_space(t[m - 1]));
        assert(t.subrange(0, m) =~= s.subrange(0, m));
        assert forall|k: int| m <= k < s.len() implies is_white_space(#[trigger] s[k]) by {
            if k < s.len() - 1 {
                assert(s[k] == t[k]);
            }
        }
        if m > 0 {
            assert(s[m - 1] == t[m - 1]);
        }
    } else {
        assert(s.subrange(0, s.len() as int) =~= s);
    }
}

/// Renaming changes the title of the row with that id and nothing else.
pub proof fn law_rename_changes_only_title(s: Seq<TodoView>, id: i64, title: Seq<char>)
    ensures
        renamed(s, id, title).len() == s.len(),
        forall|i: int|
            0 <= i < s.len() ==> {
                let r = #[trigger] renamed(s, id, title)[i];
                &&& r.id == s[i].id
                &&& r.completed == s[i].completed
                &&& r.display_order == s[i].display_order
                &&& r.title == (if s[i].id == id { title } else { s[i].title })
            },
{
}

/// A todo that `add_todo` creates on a valid table comes after every existing todo in
/// display order, and its id is new: the list shows it last.
pub proof fn law_added_todo_sorts_last(s: Seq<TodoView>, last_id: i64, t: TodoView)
    requires
        valid_rows(s, last_id),
        t.id == last_id + 1,
        t.display_order == order_after(max_order(s)),
    ensures
        forall|i: int| 0 <= i < s.len() ==> display_le(#[trigger] s[i], t) && s[i].id != t.id,
{
    lemma_max_order(s);
}

/// Reading the list after `add_todo` (rows in display order, as `get_todos` returns them)
/// gives every earlier row and, last, the new todo.
pub proof fn law_read_after_add_shows_it_last(
    s: Seq<TodoView>,
    last_id: i64,
    t: TodoView,
    r: Seq<TodoView>,
)
    requires
        valid_rows(s, last_id),
        t.id == last_id + 1,
        t.display_order == order_after(max_order(s)),
        display_sorted(r),
        r.to_multiset() == s.push(t).to_multiset(),
    ensures
        r.len() == s.len() + 1,
        r.last() == t,
{
    broadcast use vstd::seq_lib::group_to_multiset_ensures;

    law_added_todo_sorts_last(s, last_id, t);
    r.to_multiset_ensures();
    s.push(t).to_multiset_ensures();
    assert(r.len() == s.push(t).len());
    let x = r.last();
    assert(r[r.len() - 1] == x);
    assert(r.to_multiset().count(x) > 0);
    assert(s.push(t).contains(x));
    assert(s.push(t)[s.len() as int] == t);
    assert(s.push(t).to_multiset().count(t) > 0);
    assert(r.contains(t));
    let k = choose|k: int| 0 <= k < r.len() && r[k] == t;
    if x != t {
        let i = choose|i: int| 0 <= i < s.push(t).len() && s.push(t)[i] == x;
        assert(i < s.len());
        assert(s[i] == x);
        assert(display_le(x, t) && x.id != t.id);
        assert(k < r.len() - 1);
        assert(display_le(r[k], r[r.len() - 1]));
    }
}

/// After "toggle all" on, no todo is active; after "toggle all" off, none is completed.
pub proof fn law_toggle_all_empties_a_filter(s: Seq<TodoView>)
    ensures
        shown(all_set(s, true), Filter::Active).len() == 0,
        shown(all_set(s, false), Filter::Completed).len() == 0,
{
    lemma_retain_none_kept(all_set(s, true), |t: TodoView| crate::ui::shows(Filter::Active, t));
    lemma_retain_none_kept(all_set(s, false), |t: TodoView| crate::ui::shows(Filter::Completed, t));
}

/// The display order is determined: two lists of the same rows with distinct ids, both
/// sorted by display order then id, are the same list.
pub proof fn law_display_order_unique(x: Seq<TodoView>, y: Seq<TodoView>)
    requires
        display_sorted(x),
        display_sorted(y),
        x.to_multiset() == y.to_multiset(),
        forall|i: int, j: int| 0 <= i < j < x.len() ==> (#[trigger] x[i]).id != (#[trigger] x[j]).id,
    ensures
        x == y,
    decreases x.len(),
{
    broadcast use vstd::seq_lib::group_to_multiset_ensures;

    x.to_multiset_ensures();
    y.to_multiset_ensures();
    if x.len() == 0 || y.len() == 0 {
        assert(x.len() == y.len());
        assert(x =~= y);
    } else {
        assert(x.to_multiset().count(x[0]) > 0);
        assert(y.contains(x[0]));
        let i = choose|i: int| 0 <= i < y.len() && y[i] == x[0];
        assert(y.to_multiset().count(y[0]) > 0);
        assert(x.contains(y[0]));
        let k = choose|k: int| 0 <= k < x.len() && x[k] == y[0];
        if i > 0 {
            assert(display_le(y[0], y[i]));
        }
        if k > 0 {
            assert(display_le(x[0], x[k]));
        }
        assert(x[k].id == x[0].id);
        assert(k == 0);
        assert(x[0] == y[0]);
        assert(x.remove(0) =~= x.drop_first());
        assert(y.remove(0) =~= y.drop_first());
        assert(x.drop_first().to_multiset() =~= x.to_multiset().remove(x[0]));
        assert(y.drop_first().to_multiset() =~= y.to_multiset().remove(y[0]));
        let xs = x.drop_first();
        let ys = y.drop_first();
        assert forall|p: int, q: int| 0 <= p < q < xs.len() implies display_le(
            #[trigger] xs[p],
            #[trigger] xs[q],
        ) by {
            assert(display_le(x[p + 1], x[q + 1]));
        }
        assert forall|p: int, q: int| 0 <= p < q < ys.len() implies display_le(
            #[trigger] ys[p],
            #[trigger] ys[q],
        ) by {
            assert(display_le(y[p + 1], y[q + 1]));
        }
        assert forall|p: int, q: int| 0 <= p < q < xs.len() implies (#[trigger] xs[p]).id != (
        #[trigger] xs[q]).id by {
            assert(x[p + 1].id != x[q + 1].id);
        }
        law_display_order_unique(xs, ys);
        assert(x.len() == y.len());
        assert forall|p: int| 0 <= p < x.len() implies x[p] == y[p] by {
            if p > 0 {
                assert(x[p] == xs[p - 1] && y[p] == ys[p - 1]);
            }
        }
        assert(x =~= y);
    }
}

/// Every todo is either active or completed: the two filtered lists together are as long
/// as the whole list, and "all" shows the whole list.
pub proof fn law_filters_partition(s: Seq<TodoView>)
    ensures
        shown(s, Filter::Active).len() + shown(s, Filter::Completed).len() == s.len(),
        shown(s, Filter::Active) == active_only(s),
        shown(s, Filter::All) == s,
    decreases s.len(),
{
    if s.len() > 0 {
        law_filters_partition(s.drop_last());
    }
    lemma_retain_same(s, |t: TodoView| !t.completed, |t: TodoView| crate::ui::shows(Filter::Active, t));
    lemma_retain_all_kept(s, |t: TodoView| crate::ui::shows(Filter::All, t));
}

/// Each filter's name selects that filter.
pub proof fn law_filter_name_round_trip(f: Filter)
    ensures
        filter_named(filter_name(f)) == f,
{
    reveal_strlit("all");
    reveal_strlit("active");
    reveal_strlit("completed");
    assert("all"@.len() == 3 && "active"@.len() == 6 && "completed"@.len() == 9);
    assert("all"@ != "active"@ && "all"@ != "completed"@ && "active"@ != "completed"@);
}

proof fn lemma_retain_all_kept(s: Seq<TodoView>, keep: spec_fn(TodoView) -> bool)
    requires
        forall|i: int| 0 <= i < s.len() ==> keep(#[trigger] s[i]),
    ensures
        crate::rows::retain_rows(s, keep) == s,
    decreases s.len(),
{
    if s.len() > 0 {
        lemma_retain_all_kept(s.drop_last(), keep);
        assert(s.drop_last().push(s.last()) =~= s);
    }
}

proof fn lemma_retain_none_kept(s: Seq<TodoView>, keep: spec_fn(TodoView) -> bool)
    requires
        forall|i: int| 0 <= i < s.len() ==> !keep(#[trigger] s[i]),
    ensures
        crate::rows::retain_rows(s, keep).len() == 0,
    decreases s.len(),
{
    if s.len() > 0 {
        lemma_retain_none_kept(s.drop_last(), keep);
    }
}

proof fn lemma_retain_same(
    s: Seq<TodoView>,
    a: spec_fn(TodoView) -> bool,
    b: spec_fn(TodoView) -> bool,
)
    requires
        forall|t: TodoView| #[trigger] a(t) == b(t),
    ensures
        crate::rows::retain_rows(s, a) == crate::rows::retain_rows(s, b),
    decreases s.len(),
{
    if s.len() > 0 {
        lemma_retain_same(s.drop_last(), a, b);
    }
}

} // verus!
