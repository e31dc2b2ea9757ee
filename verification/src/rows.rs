use vstd::prelude::*;
use crate::todo::{Todo, TodoView, is_stored_title};

verus! {

/// The values of a sequence of todos.
pub open spec fn rows_view(v: Seq<Todo>) -> Seq<TodoView> {
    v.map_values(|t: Todo| t@)
}

/// `a` comes no later than `b` under `ORDER BY display_order ASC, id ASC`.
pub open spec fn display_le(a: TodoView, b: TodoView) -> bool {
    a.display_order < b.display_order || (a.display_order == b.display_order && a.id <= b.id)
}

/// `s` is in display order.
pub open spec fn display_sorted(s: Seq<TodoView>) -> bool {
    forall|i: int, j: int| 0 <= i < j < s.len() ==> display_le(#[trigger] s[i], #[trigger] s[j])
}

/// The ids of `s` strictly increase: rows are in insertion (rowid) order, each id once.
pub open spec fn ids_increasing(s: Seq<TodoView>) -> bool {
    forall|i: int, j: int| 0 <= i < j < s.len() ==> (#[trigger] s[i]).id < (#[trigger] s[j]).id
}

/// A state of the `todos` table that the operations of the library produce:
/// rows in rowid order with distinct ids in `1..=last_id` (the largest id ever handed
/// out), and every title stored trimmed and not empty.
pub open spec fn valid_rows(s: Seq<TodoView>, last_id: i64) -> bool {
    &&& last_id >= 0
    &&& ids_increasing(s)
    &&& forall|i: int| 0 <= i < s.len() ==> 1 <= (#[trigger] s[i]).id <= last_id
    &&& forall|i: int| 0 <= i < s.len() ==> is_stored_title((#[trigger] s[i]).title)
}

/// The rows of `s` for which `keep` holds, in their order (a `WHERE` clause).
pub open spec fn retain_rows(s: Seq<TodoView>, keep: spec_fn(TodoView) -> bool) -> Seq<TodoView>
    decreases s.len(),
{
    if s.len() == 0 {
        s
    } else {
        let r = retain_rows(s.drop_last(), keep);
        if keep(s.last()) {
            r.push(s.last())
        } else {
            r
        }
    }
}

/// `DELETE FROM todos WHERE id = ?`
pub open spec fn without_id(s: Seq<TodoView>, id: i64) -> Seq<TodoView> {
    retain_rows(s, |t: TodoView| t.id != id)
}

/// `DELETE FROM todos WHERE completed = TRUE`
pub open spec fn active_only(s: Seq<TodoView>) -> Seq<TodoView> {
    retain_rows(s, |t: TodoView| !t.completed)
}

/// The completed rows of `s`.
pub open spec fn completed_only(s: Seq<TodoView>) -> Seq<TodoView> {
    retain_rows(s, |t: TodoView| t.completed)
}

/// `t` with its completion flag set to `c`.
pub open spec fn with_completed(t: TodoView, c: bool) -> TodoView {
    TodoView { completed: c, ..t }
}

/// `UPDATE todos SET completed = NOT completed WHERE id = ?`
pub open spec fn toggled(s: Seq<TodoView>, id: i64) -> Seq<TodoView> {
    s.map_values(|t: TodoView| if t.id == id { with_completed(t, !t.completed) } else { t })
}

/// `UPDATE todos SET completed = ?`
pub open spec fn all_set(s: Seq<TodoView>, c: bool) -> Seq<TodoView> {
    s.map_values(|t: TodoView| with_completed(t, c))
}

/// `UPDATE todos SET title = ? WHERE id = ?`
pub open spec fn renamed(s: Seq<TodoView>, id: i64, title: Seq<char>) -> Seq<TodoView> {
    s.map_values(|t: TodoView| if t.id == id { TodoView { title, ..t } } else { t })
}

/// `SELECT MAX(display_order) FROM todos`: `None` for an empty table.
pub open spec fn max_order(s: Seq<TodoView>) -> Option<i64>
    decreases s.len(),
{
    if s.len() == 0 {
        None
    } else {
        match max_order(s.drop_last()) {
            Some(m) => Some(if m >= s.last().display_order { m } else { s.last().display_order }),
            None => Some(s.last().display_order),
        }
    }
}

/// The rows of `retain_rows(s, keep)` are rows of `s` that `keep` accepts, every row of
/// `s` that `keep` accepts is among them, and they keep the order of `s`.
pub proof fn lemma_retain_rows(s: Seq<TodoView>, keep: spec_fn(TodoView) -> bool)
    ensures
        retain_rows(s, keep).len() <= s.len(),
        forall|i: int|
            0 <= i < retain_rows(s, keep).len() ==> s.contains(#[trigger] retain_rows(s, keep)[i])
                && keep(retain_rows(s, keep)[i]),
        forall|i: int| 0 <= i < s.len() && keep(s[i]) ==> retain_rows(s, keep).contains(#[trigger] s[i]),
        ids_increasing(s) ==> ids_increasing(retain_rows(s, keep)),
    decreases s.len(),
{
    if s.len() > 0 {
        let p = s.drop_last();
        let r = retain_rows(p, keep);
        lemma_retain_rows(p, keep);
        assert forall|i: int| 0 <= i < s.len() && keep(s[i]) implies retain_rows(s, keep).contains(
            #[trigger] s[i],
        ) by {
            if i < s.len() - 1 {
                assert(p[i] == s[i]);
                assert(r.contains(s[i]));
                if keep(s.last()) {
                    let k = choose|k: int| 0 <= k < r.len() && r[k] == s[i];
                    assert(r.push(s.last())[k] == s[i]);
                }
            } else {
                assert(r.push(s.last())[r.len() as int] == s[i]);
            }
        }
        assert forall|i: int| 0 <= i < retain_rows(s, keep).len() implies s.contains(
            #[trigger] retain_rows(s, keep)[i],
        ) && keep(retain_rows(s, keep)[i]) by {
            if i < r.len() {
                assert(retain_rows(s, keep)[i] == r[i]);
                assert(p.contains(r[i]));
                let k = choose|k: int| 0 <= k < p.len() && p[k] == r[i];
                assert(s[k] == r[i]);
            } else {
                assert(s[s.len() - 1] == s.last());
            }
        }
        if ids_increasing(s) {
            assert forall|i: int, j: int|
                0 <= i < j < retain_rows(s, keep).len() implies (#[trigger] retain_rows(
                s,
                keep,
            )[i]).id < (#[trigger] retain_rows(s, keep)[j]).id by {
                if j < r.len() {
                    assert(retain_rows(s, keep)[i] == r[i]);
                    assert(retain_rows(s, keep)[j] == r[j]);
                } else {
                    assert(retain_rows(s, keep)[i] == r[i]);
                    assert(p.contains(r[i]));
                    let k = choose|k: int| 0 <= k < p.len() && p[k] == r[i];
                    assert(s[k] == r[i]);
                    assert(s[s.len() - 1] == s.last());
                }
            }
        }
    }
}

/// Keeping a subset of the rows of a valid table leaves a valid table.
pub proof fn lemma_retain_valid(s: Seq<TodoView>, last_id: i64, keep: spec_fn(TodoView) -> bool)
    requires
        valid_rows(s, last_id),
    ensures
        valid_rows(retain_rows(s, keep), last_id),
{
    lemma_retain_rows(s, keep);
    let r = retain_rows(s, keep);
    assert forall|i: int| 0 <= i < r.len() implies 1 <= (#[trigger] r[i]).id <= last_id
        && is_stored_title(r[i].title) by {
        assert(s.contains(r[i]));
        let k = choose|k: int| 0 <= k < s.len() && s[k] == r[i];
        assert(s[k] == r[i]);
    }
}

/// A stored row is never larger than `max_order`, and `max_order` is one of the rows.
pub proof fn lemma_max_order(s: Seq<TodoView>)
    ensures
        s.len() == 0 <==> max_order(s) is None,
        max_order(s) matches Some(m) ==> (forall|i: int|
            0 <= i < s.len() ==> (#[trigger] s[i]).display_order <= m) && exists|i: int|
            0 <= i < s.len() && (#[trigger] s[i]).display_order == m,
    decreases s.len(),
{
    if s.len() > 0 {
        let p = s.drop_last();
        lemma_max_order(p);
        let m = max_order(s)->0;
        assert forall|i: int| 0 <= i < s.len() implies (#[trigger] s[i]).display_order <= m by {
            if i < s.len() - 1 {
                assert(p[i] == s[i]);
            }
        }
        if max_order(p) is Some && max_order(p)->0 >= s.last().display_order {
            let k = choose|k: int| 0 <= k < p.len() && (#[trigger] p[k]).display_order == max_order(p)->0;
            assert(s[k] == p[k]);
        } else {
            assert(s[s.len() - 1] == s.last());
        }
    }
}

/// Rewriting rows in place, keeping each id and storing only trimmed, non-empty titles,
/// leaves a valid table.
pub proof fn lemma_same_ids_valid(s: Seq<TodoView>, r: Seq<TodoView>, last_id: i64)
    requires
        valid_rows(s, last_id),
        r.len() == s.len(),
        forall|k: int| 0 <= k < r.len() ==> (#[trigger] r[k]).id == s[k].id,
        forall|k: int| 0 <= k < r.len() ==> is_stored_title((#[trigger] r[k]).title),
    ensures
        valid_rows(r, last_id),
{
    assert forall|i: int, j: int| 0 <= i < j < r.len() implies (#[trigger] r[i]).id < (
    #[trigger] r[j]).id by {
        assert(s[i].id < s[j].id);
    }
    assert forall|i: int| 0 <= i < r.len() implies 1 <= (#[trigger] r[i]).id <= last_id by {
        assert(r[i].id == s[i].id);
    }
}

} // verus!
