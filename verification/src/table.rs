use vstd::prelude::*;
use crate::todo::{
    Todo, TodoView, TodoError, TitleUpdate, trimmed, is_stored_title, order_after,
    normalize_title, next_display_order, plan_title_update, is_storable_title,
};
use crate::rows::{
    lemma_same_ids_valid,
    rows_view, display_le, display_sorted, valid_rows, without_id, active_only, toggled, all_set, renamed,
    max_order, lemma_retain_valid,
};

verus! {

/// The `todos` table: its rows in rowid order, and the largest id ever handed out
/// (ids come from an `AUTOINCREMENT` key and are never reused).
pub struct TodoTable {
    rows: Vec<Todo>,
    last_id: i64,
}

impl View for TodoTable {
    type V = Seq<TodoView>;

    closed spec fn view(&self) -> Seq<TodoView> {
        rows_view(self.rows@)
    }
}

/// `ORDER BY display_order ASC, id ASC` on two rows.
pub fn display_le_exec(a: &Todo, b: &Todo) -> (r: bool)
    ensures
        r == display_le(a@, b@),
{
    a.display_order < b.display_order || (a.display_order == b.display_order && a.id <= b.id)
}

/// `rows` in display order: sorted by `display_order`, then by `id`, and holding the
/// same rows.
pub fn sort_for_display(rows: &Vec<Todo>) -> (r: Vec<Todo>)
    ensures
        display_sorted(rows_view(r@)),
        rows_view(r@).to_multiset() == rows_view(rows@).to_multiset(),
{
    broadcast use vstd::seq_lib::group_to_multiset_ensures;

    let mut out: Vec<Todo> = Vec::new();
    let n = rows.len();
    let mut i: usize = 0;
    while i < n
        invariant
            n == rows.len(),
            i <= n,
            display_sorted(rows_view(out@)),
            rows_view(out@).to_multiset() == rows_view(rows@).take(i as int).to_multiset(),
        decreases n - i,
    {
        let t = rows[i].duplicate();
        let mut j: usize = 0;
        while j < out.len() && display_le_exec(&out[j], &t)
            invariant
                j <= out.len(),
                forall|k: int| 0 <= k < j ==> display_le(out@[k]@, t@),
            decreases out.len() - j,
        {
            j += 1;
        }
        let ghost ov = rows_view(out@);
        let ghost tv = t@;
        assert(j == ov.len() || !display_le(ov[j as int], tv));
        out.insert(j, t);
        assert(rows_view(out@) =~= ov.insert(j as int, tv));
        assert forall|p: int, q: int| 0 <= p < q < rows_view(out@).len() implies display_le(
            #[trigger] rows_view(out@)[p],
            #[trigger] rows_view(out@)[q],
        ) by {
            let nv = rows_view(out@);
            if q < j {
                assert(nv[p] == ov[p] && nv[q] == ov[q]);
            } else if q == j {
                assert(nv[p] == ov[p] && nv[q] == tv);
                assert(display_le(out@[p]@, tv));
            } else if p < j {
                assert(nv[p] == ov[p] && nv[q] == ov[q - 1]);
            } else if p == j {
                assert(nv[p] == tv && nv[q] == ov[q - 1]);
                assert(display_le(tv, ov[j as int]));
                if q - 1 > j {
                    assert(display_le(ov[j as int], ov[q - 1]));
                }
            } else {
                assert(nv[p] == ov[p - 1] && nv[q] == ov[q - 1]);
            }
        }
        proof {
            let src = rows_view(rows@);
            vstd::seq_lib::to_multiset_insert(ov, j as int, tv);
            assert(src[i as int] == tv);
            assert(src.take(i + 1) =~= src.take(i as int).push(tv));
            src.take(i as int).to_multiset_ensures();
            assert(src.take(i + 1).to_multiset() =~= src.take(i as int).to_multiset().insert(tv));
        }
        i += 1;
    }
    assert(rows_view(rows@).take(n as int) =~= rows_view(rows@));
    out
}

impl TodoTable {
    /// The largest id handed out so far (`0` before the first insert).
    pub closed spec fn last_id(&self) -> i64 {
        self.last_id
    }

    /// The table is in a state that its operations produce.
    pub open spec fn wf(&self) -> bool {
        valid_rows(self@, self.last_id())
    }

    /// An empty table (`CREATE TABLE todos`).
    pub fn new() -> (t: TodoTable)
        ensures
            t.wf(),
            t@ == Seq::<TodoView>::empty(),
            t.last_id() == 0,
    {
        let t = TodoTable { rows: Vec::new(), last_id: 0 };
        assert(t@ =~= Seq::<TodoView>::empty());
        t
    }

    /// The table holding `rows` (in rowid order) whose largest id ever handed out is
    /// `last_id`, when that is a state the operations can produce; `None` otherwise.
    pub fn restore(rows: Vec<Todo>, last_id: i64) -> (r: Option<TodoTable>)
        ensures
            match r {
                Some(t) => t@ == rows_view(rows@) && t.last_id() == last_id && t.wf(),
                None => !valid_rows(rows_view(rows@), last_id),
            },
    {
        if last_id < 0 {
            return None;
        }
        let ghost s = rows_view(rows@);
        let n = rows.len();
        let mut i: usize = 0;
        while i < n
            invariant
                n == rows.len(),
                i <= n,
                s == rows_view(rows@),
                last_id >= 0,
                valid_rows(s.take(i as int), last_id),
            decreases n - i,
        {
            let id = rows[i].id;
            if id < 1 || id > last_id {
                assert(s[i as int].id == id);
                return None;
            }
            if i > 0 && rows[i - 1].id >= id {
                assert(s[i - 1].id >= s[i as int].id);
                return None;
            }
            if !is_storable_title(&rows[i].title) {
                assert(s[i as int].title == rows@[i as int].title@);
                return None;
            }
            assert forall|p: int, q: int| 0 <= p < q < i + 1 implies (#[trigger] s.take(i + 1)[p]).id < (
            #[trigger] s.take(i + 1)[q]).id by {
                if q < i {
                    assert(s.take(i as int)[p] == s[p] && s.take(i as int)[q] == s[q]);
                } else if p < i - 1 {
                    assert(s.take(i as int)[p] == s[p] && s.take(i as int)[i - 1] == s[i - 1]);
                }
            }
            assert forall|p: int| 0 <= p < i + 1 implies 1 <= (#[trigger] s.take(i + 1)[p]).id <= last_id
                && crate::todo::is_stored_title(s.take(i + 1)[p].title) by {
                if p < i {
                    assert(s.take(i as int)[p] == s[p]);
                }
            }
            i += 1;
        }
        assert(s.take(n as int) =~= s);
        Some(TodoTable { rows, last_id })
    }

    /// `SELECT id, title, completed, display_order FROM todos`: the rows in rowid order.
    pub fn all_rows(&self) -> (r: Vec<Todo>)
        ensures
            rows_view(r@) == self@,
    {
        let mut out: Vec<Todo> = Vec::new();
        let n = self.rows.len();
        let mut i: usize = 0;
        while i < n
            invariant
                n == self.rows.len(),
                i <= n,
                out.len() == i,
                forall|k: int| 0 <= k < i ==> (#[trigger] out@[k])@ == self.rows@[k]@,
            decreases n - i,
        {
            let t = self.rows[i].duplicate();
            out.push(t);
            i += 1;
        }
        assert(rows_view(out@) =~= rows_view(self.rows@));
        out
    }

    /// `SELECT ... FROM todos WHERE id = ?`: the row with this id, if there is one.
    pub fn find(&self, id: i64) -> (r: Option<Todo>)
        ensures
            match r {
                Some(t) => t.id == id && self@.contains(t@),
                None => forall|i: int| 0 <= i < self@.len() ==> (#[trigger] self@[i]).id != id,
            },
    {
        let n = self.rows.len();
        let mut i: usize = 0;
        while i < n
            invariant
                n == self.rows.len(),
                i <= n,
                forall|k: int| 0 <= k < i ==> (#[trigger] self@[k]).id != id,
            decreases n - i,
        {
            if self.rows[i].id == id {
                let t = self.rows[i].duplicate();
                assert(self@[i as int] == t@);
                return Some(t);
            }
            i += 1;
        }
        None
    }

    /// `get_todos`: every row, in display order (`ORDER BY display_order ASC, id ASC`).
    pub fn get_todos(&self) -> (r: Vec<Todo>)
        ensures
            display_sorted(rows_view(r@)),
            rows_view(r@).to_multiset() == self@.to_multiset(),
    {
        sort_for_display(&self.rows)
    }

    /// `SELECT MAX(display_order) FROM todos`.
    pub fn max_display_order(&self) -> (r: Option<i64>)
        ensures
            r == max_order(self@),
    {
        let n = self.rows.len();
        let mut m: Option<i64> = None;
        let mut i: usize = 0;
        while i < n
            invariant
                n == self.rows.len(),
                i <= n,
                m == max_order(self@.take(i as int)),
            decreases n - i,
        {
            let o = self.rows[i].display_order;
            assert(self@.take(i + 1).drop_last() =~= self@.take(i as int));
            m = match m {
                Some(x) => Some(if x >= o { x } else { o }),
                None => Some(o),
            };
            i += 1;
        }
        assert(self@.take(n as int) =~= self@);
        m
    }

    /// `add_todo`: stores a new, not completed row with the trimmed title, the next id
    /// and a display order one past the largest one, and returns it. A blank title is
    /// refused, and so is a new row once the id space is used up.
    pub fn add_todo(&mut self, title: &str) -> (r: Result<Todo, TodoError>)
        requires
            old(self).wf(),
            max_order(old(self)@) matches Some(m) ==> m < i64::MAX,
        ensures
            final(self).wf(),
            match r {
                Ok(t) => {
                    &&& t@ == (TodoView {
                        id: (old(self).last_id() + 1) as i64,
                        title: trimmed(title@),
                        completed: false,
                        display_order: order_after(max_order(old(self)@)) as i64,
                    })
                    &&& final(self)@ == old(self)@.push(t@)
                    &&& final(self).last_id() == t.id
                },
                Err(TodoError::EmptyTitle) => {
                    &&& trimmed(title@).len() == 0
                    &&& final(self)@ == old(self)@
                    &&& final(self).last_id() == old(self).last_id()
                },
                Err(TodoError::StorageFull) => {
                    &&& trimmed(title@).len() > 0
                    &&& old(self).last_id() == i64::MAX
                    &&& final(self)@ == old(self)@
                    &&& final(self).last_id() == old(self).last_id()
                },
            },
    {
        let title = match normalize_title(title) {
            Ok(t) => t,
            Err(e) => {
                return Err(e);
            },
        };
        let max = self.max_display_order();
        let order = next_display_order(max);
        if self.last_id == i64::MAX {
            return Err(TodoError::StorageFull);
        }
        let id = self.last_id + 1;
        let copy = Todo { id, title: title.clone(), completed: false, display_order: order };
        let t = Todo { id, title, completed: false, display_order: order };
        let ghost before = self@;
        self.rows.push(copy);
        self.last_id = id;
        assert(self@ =~= before.push(t@));
        Ok(t)
    }

    /// `DELETE FROM todos WHERE id = ?`.
    pub fn delete_todo(&mut self, id: i64)
        requires
            old(self).wf(),
        ensures
            final(self).wf(),
            final(self)@ == without_id(old(self)@, id),
            final(self).last_id() == old(self).last_id(),
    {
        let ghost s = self@;
        let mut out: Vec<Todo> = Vec::new();
        let n = self.rows.len();
        let mut i: usize = 0;
        while i < n
            invariant
                n == self.rows.len(),
                i <= n,
                s == self@,
                rows_view(out@) == without_id(s.take(i as int), id),
            decreases n - i,
        {
            assert(s.take(i + 1).drop_last() =~= s.take(i as int));
            if self.rows[i].id != id {
                let t = self.rows[i].duplicate();
                out.push(t);
                assert(rows_view(out@) =~= without_id(s.take(i + 1), id));
            }
            i += 1;
        }
        assert(s.take(n as int) =~= s);
        self.rows = out;
        proof {
            lemma_retain_valid(s, self.last_id, |t: TodoView| t.id != id);
        }
    }

    /// `DELETE FROM todos WHERE completed = TRUE`.
    pub fn clear_completed(&mut self)
        requires
            old(self).wf(),
        ensures
            final(self).wf(),
            final(self)@ == active_only(old(self)@),
            final(self).last_id() == old(self).last_id(),
    {
        let ghost s = self@;
        let mut out: Vec<Todo> = Vec::new();
        let n = self.rows.len();
        let mut i: usize = 0;
        while i < n
            invariant
                n == self.rows.len(),
                i <= n,
                s == self@,
                rows_view(out@) == active_only(s.take(i as int)),
            decreases n - i,
        {
            assert(s.take(i + 1).drop_last() =~= s.take(i as int));
            if !self.rows[i].completed {
                let t = self.rows[i].duplicate();
                out.push(t);
                assert(rows_view(out@) =~= active_only(s.take(i + 1)));
            }
            i += 1;
        }
        assert(s.take(n as int) =~= s);
        self.rows = out;
        proof {
            lemma_retain_valid(s, self.last_id, |t: TodoView| !t.completed);
        }
    }

    /// `UPDATE todos SET completed = NOT completed WHERE id = ?`.
    pub fn toggle_todo(&mut self, id: i64)
        requires
            old(self).wf(),
        ensures
            final(self).wf(),
            final(self)@ == toggled(old(self)@, id),
            final(self).last_id() == old(self).last_id(),
    {
        let ghost s = self@;
        let ghost last = self.last_id;
        let n = self.rows.len();
        let mut i: usize = 0;
        while i < n
            invariant
                n == self.rows.len(),
                i <= n,
                s.len() == n,
                self.last_id == last,
                forall|k: int| 0 <= k < i ==> (#[trigger] self.rows@[k])@ == toggled(s, id)[k],
                forall|k: int| i <= k < n ==> (#[trigger] self.rows@[k])@ == s[k],
            decreases n - i,
        {
            if self.rows[i].id == id {
                let mut t = self.rows[i].duplicate();
                t.completed = !t.completed;
                self.rows.set(i, t);
            }
            i += 1;
        }
        assert(self@ =~= toggled(s, id));
        proof {
            lemma_same_ids_valid(s, self@, last);
        }
    }

    /// `UPDATE todos SET completed = ?`: every row gets this completion flag.
    pub fn toggle_all(&mut self, completed: bool)
        requires
            old(self).wf(),
        ensures
            final(self).wf(),
            final(self)@ == all_set(old(self)@, completed),
            final(self).last_id() == old(self).last_id(),
    {
        let ghost s = self@;
        let ghost last = self.last_id;
        let n = self.rows.len();
        let mut i: usize = 0;
        while i < n
            invariant
                n == self.rows.len(),
                i <= n,
                s.len() == n,
                self.last_id == last,
                forall|k: int| 0 <= k < i ==> (#[trigger] self.rows@[k])@ == all_set(s, completed)[k],
                forall|k: int| i <= k < n ==> (#[trigger] self.rows@[k])@ == s[k],
            decreases n - i,
        {
            let mut t = self.rows[i].duplicate();
            t.completed = completed;
            self.rows.set(i, t);
            i += 1;
        }
        assert(self@ =~= all_set(s, completed));
        proof {
            lemma_same_ids_valid(s, self@, last);
        }
    }

    /// `update_todo`: a blank title deletes the row; any other title is stored trimmed
    /// (`UPDATE todos SET title = ? WHERE id = ?`).
    pub fn update_todo(&mut self, id: i64, title: &str)
        requires
            old(self).wf(),
        ensures
            final(self).wf(),
            trimmed(title@).len() == 0 ==> final(self)@ == without_id(old(self)@, id),
            trimmed(title@).len() > 0 ==> final(self)@ == renamed(old(self)@, id, trimmed(title@)),
            final(self).last_id() == old(self).last_id(),
    {
        match plan_title_update(title) {
            TitleUpdate::Remove => self.delete_todo(id),
            TitleUpdate::Rename(new_title) => {
                let ghost s = self@;
                let ghost last = self.last_id;
                let n = self.rows.len();
                let mut i: usize = 0;
                while i < n
                    invariant
                        n == self.rows.len(),
                        i <= n,
                        s.len() == n,
                        self.last_id == last,
                        is_stored_title(new_title@),
                        forall|k: int|
                            0 <= k < i ==> (#[trigger] self.rows@[k])@ == renamed(s, id, new_title@)[k],
                        forall|k: int| i <= k < n ==> (#[trigger] self.rows@[k])@ == s[k],
                    decreases n - i,
                {
                    if self.rows[i].id == id {
                        let mut t = self.rows[i].duplicate();
                        t.title = new_title.clone();
                        self.rows.set(i, t);
                    }
                    i += 1;
                }
                assert(self@ =~= renamed(s, id, new_title@));
                proof {
                    lemma_same_ids_valid(s, self@, last);
                }
            },
        }
    }
}

} // verus!
