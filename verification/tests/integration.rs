use todomvc::table::{display_le_exec, sort_for_display, TodoTable};
use todomvc::todo::{
    added_todo, is_storable_title, next_display_order, normalize_title, plan_title_update,
    trim_text, TitleUpdate, Todo, TodoError,
};

fn row(id: i64, title: &str, completed: bool, display_order: i64) -> Todo {
    Todo { id, title: title.to_string(), completed, display_order }
}

fn table_of(rows: Vec<Todo>, last_id: i64) -> TodoTable {
    TodoTable::restore(rows, last_id).expect("a valid table")
}

#[test]
fn test_create_and_read_todo() {
    let mut table = TodoTable::new();
    let todo = table.add_todo("Test todo").expect("Failed to insert todo");

    assert_eq!(todo.title, "Test todo");
    assert!(!todo.completed);

    let todos = table.all_rows();
    assert_eq!(todos.len(), 1);
    assert_eq!(todos[0].title, "Test todo");
}

#[test]
fn test_toggle_todo() {
    let mut table = TodoTable::new();
    let todo = table.add_todo("Toggle me").expect("Failed to insert todo");
    let id = todo.id;

    table.toggle_todo(id);
    let updated = table.find(id).expect("Failed to toggle todo");

    assert!(updated.completed);
}

#[test]
fn test_delete_todo() {
    let mut table = TodoTable::new();
    let todo = table.add_todo("Delete me").expect("Failed to insert todo");
    let id = todo.id;

    table.delete_todo(id);
    let todos: Vec<Todo> = table.all_rows().into_iter().filter(|t| t.id == id).collect();

    assert!(todos.is_empty());
}

#[test]
fn test_clear_completed() {
    let mut table = table_of(vec![row(1, "Active", false, 1), row(2, "Done", true, 2)], 2);

    table.clear_completed();

    let todos = table.all_rows();
    assert_eq!(todos.len(), 1);
    assert_eq!(todos[0].title, "Active");
}

#[test]
fn test_toggle_all() {
    let mut table = table_of(vec![row(1, "A", false, 1), row(2, "B", false, 2)], 2);

    table.toggle_all(true);

    let todos = table.all_rows();
    assert!(todos.iter().all(|t| t.completed));
}

#[test]
fn test_update_todo_title() {
    let mut table = TodoTable::new();
    let todo = table.add_todo("Old title").expect("Failed to insert todo");
    let id = todo.id;

    table.update_todo(id, "New title");
    let updated = table.find(id).expect("Failed to update todo");

    assert_eq!(updated.title, "New title");
}

#[test]
fn add_todo_numbers_ids_and_orders_from_the_largest() {
    let mut table = TodoTable::new();
    let a = table.add_todo("first").unwrap();
    let b = table.add_todo("second").unwrap();
    assert_eq!((a.id, a.display_order), (1, 0));
    assert_eq!((b.id, b.display_order), (2, 1));
    assert_eq!(table.max_display_order(), Some(1));
}

#[test]
fn add_todo_never_reuses_a_deleted_id() {
    let mut table = TodoTable::new();
    let a = table.add_todo("a").unwrap();
    let b = table.add_todo("b").unwrap();
    table.delete_todo(b.id);
    let c = table.add_todo("c").unwrap();
    assert_eq!(c.id, 3);
    assert_eq!(c.display_order, a.display_order + 1);
}

#[test]
fn add_todo_trims_the_title() {
    let mut table = TodoTable::new();
    let t = table.add_todo("  buy milk \n").unwrap();
    assert_eq!(t.title, "buy milk");
    assert_eq!(table.all_rows(), vec![t]);
}

#[test]
fn add_todo_refuses_a_blank_title() {
    let mut table = TodoTable::new();
    assert_eq!(table.add_todo(" \t\n"), Err(TodoError::EmptyTitle));
    assert_eq!(table.add_todo(""), Err(TodoError::EmptyTitle));
    assert!(table.all_rows().is_empty());
    assert_eq!(table.add_todo("x").unwrap().id, 1);
}

#[test]
fn add_todo_reports_full_storage() {
    let mut table = table_of(vec![], i64::MAX);
    assert_eq!(table.add_todo("one more"), Err(TodoError::StorageFull));
    assert!(table.all_rows().is_empty());
    assert_eq!(table.add_todo("  "), Err(TodoError::EmptyTitle));
}

#[test]
fn add_todo_after_rows_with_orders() {
    let mut table = table_of(vec![row(4, "a", false, 7), row(9, "b", true, 3)], 12);
    let t = table.add_todo("c").unwrap();
    assert_eq!(t, row(13, "c", false, 8));
}

#[test]
fn get_todos_orders_by_display_order_then_id() {
    let table = table_of(
        vec![row(1, "x", false, 5), row(2, "y", true, 1), row(3, "z", false, 1), row(4, "w", false, -2)],
        4,
    );
    let ids: Vec<i64> = table.get_todos().iter().map(|t| t.id).collect();
    assert_eq!(ids, vec![4, 2, 3, 1]);
    let stored: Vec<i64> = table.all_rows().iter().map(|t| t.id).collect();
    assert_eq!(stored, vec![1, 2, 3, 4]);
}

#[test]
fn get_todos_shows_a_new_todo_last() {
    let mut table = table_of(vec![row(1, "x", false, 5), row(2, "y", true, 1)], 2);
    let t = table.add_todo("new").unwrap();
    assert_eq!(table.get_todos().last(), Some(&t));
}

#[test]
fn update_todo_with_a_blank_title_deletes() {
    let mut table = TodoTable::new();
    let a = table.add_todo("a").unwrap();
    let b = table.add_todo("b").unwrap();
    table.update_todo(a.id, "   ");
    assert_eq!(table.all_rows(), vec![b]);
}

#[test]
fn update_todo_trims_and_keeps_the_rest() {
    let mut table = table_of(vec![row(1, "a", true, 3), row(2, "b", false, 4)], 2);
    table.update_todo(1, "  renamed ");
    assert_eq!(table.all_rows(), vec![row(1, "renamed", true, 3), row(2, "b", false, 4)]);
    table.update_todo(7, "nobody");
    assert_eq!(table.all_rows(), vec![row(1, "renamed", true, 3), row(2, "b", false, 4)]);
}

#[test]
fn toggle_todo_twice_restores() {
    let mut table = table_of(vec![row(1, "a", true, 0), row(2, "b", false, 1)], 2);
    let before = table.all_rows();
    table.toggle_todo(2);
    assert_eq!(table.all_rows(), vec![row(1, "a", true, 0), row(2, "b", true, 1)]);
    table.toggle_todo(2);
    assert_eq!(table.all_rows(), before);
}

#[test]
fn toggle_all_sets_every_flag_and_is_idempotent() {
    let mut table = table_of(vec![row(1, "a", true, 0), row(2, "b", false, 1)], 2);
    table.toggle_all(false);
    assert_eq!(table.all_rows(), vec![row(1, "a", false, 0), row(2, "b", false, 1)]);
    table.toggle_all(false);
    assert_eq!(table.all_rows(), vec![row(1, "a", false, 0), row(2, "b", false, 1)]);
    table.toggle_all(true);
    assert!(table.all_rows().iter().all(|t| t.completed));
}

#[test]
fn clear_completed_keeps_active_in_order() {
    let mut table = table_of(
        vec![row(1, "a", false, 0), row(2, "b", true, 1), row(3, "c", false, 2), row(4, "d", true, 3)],
        4,
    );
    table.clear_completed();
    assert_eq!(table.all_rows(), vec![row(1, "a", false, 0), row(3, "c", false, 2)]);
    table.clear_completed();
    assert_eq!(table.all_rows().len(), 2);
}

#[test]
fn delete_todo_of_an_absent_id_changes_nothing() {
    let mut table = table_of(vec![row(1, "a", false, 0)], 1);
    table.delete_todo(5);
    assert_eq!(table.all_rows(), vec![row(1, "a", false, 0)]);
}

#[test]
fn find_returns_the_row_with_that_id() {
    let table = table_of(vec![row(2, "a", false, 0), row(5, "b", true, 1)], 5);
    assert_eq!(table.find(5), Some(row(5, "b", true, 1)));
    assert_eq!(table.find(3), None);
}

#[test]
fn restore_refuses_states_the_table_cannot_reach() {
    assert!(TodoTable::restore(vec![row(2, "a", false, 0), row(1, "b", false, 0)], 2).is_none());
    assert!(TodoTable::restore(vec![row(1, "a", false, 0), row(1, "b", false, 0)], 2).is_none());
    assert!(TodoTable::restore(vec![row(3, "a", false, 0)], 2).is_none());
    assert!(TodoTable::restore(vec![row(0, "a", false, 0)], 2).is_none());
    assert!(TodoTable::restore(vec![row(1, " a", false, 0)], 2).is_none());
    assert!(TodoTable::restore(vec![row(1, "", false, 0)], 2).is_none());
    assert!(TodoTable::restore(vec![], -1).is_none());
    assert!(TodoTable::restore(vec![row(1, "a b", false, 0)], 2).is_some());
}

#[test]
fn normalize_title_trims_unicode_whitespace() {
    assert_eq!(normalize_title("  hello world\t"), Ok("hello world".to_string()));
    assert_eq!(normalize_title("\u{3000}a\u{00A0}\u{2028}"), Ok("a".to_string()));
    assert_eq!(normalize_title("\u{85}\u{1680}"), Err(TodoError::EmptyTitle));
    assert_eq!(normalize_title("x"), Ok("x".to_string()));
    assert_eq!(trim_text("  \n"), "");
    assert_eq!(trim_text(" a b "), "a b");
}

#[test]
fn storable_titles() {
    assert!(is_storable_title(&"a b".to_string()));
    assert!(!is_storable_title(&" a".to_string()));
    assert!(!is_storable_title(&"a\n".to_string()));
    assert!(!is_storable_title(&String::new()));
}

#[test]
fn next_display_order_after_the_largest() {
    assert_eq!(next_display_order(None), 0);
    assert_eq!(next_display_order(Some(4)), 5);
    assert_eq!(next_display_order(Some(-1)), 0);
}

#[test]
fn added_todo_is_not_completed() {
    assert_eq!(added_todo(7, "t".to_string(), 3), row(7, "t", false, 3));
}

#[test]
fn plan_title_update_decides_rename_or_remove() {
    match plan_title_update("  new ") {
        TitleUpdate::Rename(t) => assert_eq!(t, "new"),
        TitleUpdate::Remove => panic!("a title that is not blank renames"),
    }
    assert!(matches!(plan_title_update(" \t "), TitleUpdate::Remove));
}

#[test]
fn duplicate_copies_every_field() {
    let t = row(3, "abc", true, -4);
    assert_eq!(t.duplicate(), t);
}

#[test]
fn display_ordering_compares_order_then_id() {
    assert!(display_le_exec(&row(9, "a", false, 1), &row(1, "b", false, 2)));
    assert!(display_le_exec(&row(1, "a", false, 2), &row(2, "b", false, 2)));
    assert!(!display_le_exec(&row(3, "a", false, 2), &row(2, "b", false, 2)));
    assert!(display_le_exec(&row(2, "a", false, 2), &row(2, "b", false, 2)));
    let sorted = sort_for_display(&vec![row(3, "c", false, 0), row(1, "a", false, 0), row(2, "b", false, -5)]);
    let ids: Vec<i64> = sorted.iter().map(|t| t.id).collect();
    assert_eq!(ids, vec![2, 1, 3]);
    assert!(sort_for_display(&vec![]).is_empty());
}
