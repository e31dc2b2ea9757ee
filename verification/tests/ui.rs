use todomvc::todo::Todo;
use todomvc::ui::{
    active_count, all_completed, edit_step, filter_todos, has_completed, item_class, item_label,
    new_todo_entry, EditEvent, EditorState, Filter, Key,
};

fn row(id: i64, title: &str, completed: bool) -> Todo {
    Todo { id, title: title.to_string(), completed, display_order: id }
}

fn sample() -> Vec<Todo> {
    vec![row(1, "a", false), row(2, "b", true), row(3, "c", false)]
}

#[test]
fn filter_names_select_filters() {
    assert_eq!(Filter::from_name("all"), Filter::All);
    assert_eq!(Filter::from_name("active"), Filter::Active);
    assert_eq!(Filter::from_name("completed"), Filter::Completed);
    assert_eq!(Filter::from_name("Active"), Filter::All);
    assert_eq!(Filter::from_name(""), Filter::All);
    for f in [Filter::All, Filter::Active, Filter::Completed] {
        assert_eq!(Filter::from_name(f.name()), f);
    }
    assert_eq!(Filter::Completed.name(), "completed");
}

#[test]
fn filter_todos_keeps_order() {
    let todos = sample();
    assert_eq!(filter_todos(&todos, Filter::All), todos);
    assert_eq!(filter_todos(&todos, Filter::Active), vec![row(1, "a", false), row(3, "c", false)]);
    assert_eq!(filter_todos(&todos, Filter::Completed), vec![row(2, "b", true)]);
    assert!(filter_todos(&vec![], Filter::Active).is_empty());
}

#[test]
fn active_and_completed_partition_the_list() {
    let todos = sample();
    assert_eq!(active_count(&todos), 2);
    assert_eq!(
        filter_todos(&todos, Filter::Active).len() + filter_todos(&todos, Filter::Completed).len(),
        todos.len()
    );
    assert_eq!(active_count(&vec![]), 0);
}

#[test]
fn completion_summaries() {
    let todos = sample();
    assert!(has_completed(&todos));
    assert!(!all_completed(&todos));
    assert!(!has_completed(&vec![row(1, "a", false)]));
    assert!(all_completed(&vec![row(1, "a", true), row(2, "b", true)]));
    assert!(!all_completed(&vec![]));
    assert!(!has_completed(&vec![]));
}

#[test]
fn item_label_is_singular_for_one() {
    assert_eq!(item_label(1), "item");
    assert_eq!(item_label(0), "items");
    assert_eq!(item_label(2), "items");
}

#[test]
fn item_class_combines_flags() {
    assert_eq!(item_class(true, true), "completed editing");
    assert_eq!(item_class(true, false), "completed");
    assert_eq!(item_class(false, true), "editing");
    assert_eq!(item_class(false, false), "");
}

#[test]
fn key_names() {
    assert_eq!(Key::from_name("Enter"), Key::Enter);
    assert_eq!(Key::from_name("Escape"), Key::Escape);
    assert_eq!(Key::from_name("a"), Key::Other);
    assert_eq!(Key::from_name("enter"), Key::Other);
}

#[test]
fn new_todo_entry_on_enter_with_text() {
    assert_eq!(new_todo_entry(Key::Enter, "  milk "), Some("milk".to_string()));
    assert_eq!(new_todo_entry(Key::Enter, "   "), None);
    assert_eq!(new_todo_entry(Key::Escape, "milk"), None);
    assert_eq!(new_todo_entry(Key::Other, "milk"), None);
}

fn state(editing: bool, value: &str) -> EditorState {
    EditorState { editing, value: value.to_string() }
}

#[test]
fn editing_starts_with_the_title() {
    let r = edit_step(state(false, "old"), "title", EditEvent::Start);
    assert!(r.state.editing);
    assert_eq!(r.state.value, "title");
    assert_eq!(r.submitted, None);
}

#[test]
fn editing_input_replaces_the_text() {
    let r = edit_step(state(true, "title"), "title", EditEvent::Input("titlex".to_string()));
    assert!(r.state.editing);
    assert_eq!(r.state.value, "titlex");
    assert_eq!(r.submitted, None);
}

#[test]
fn editing_enter_and_blur_submit_trimmed_text() {
    let r = edit_step(state(true, "  new  "), "title", EditEvent::Key(Key::Enter));
    assert!(!r.state.editing);
    assert_eq!(r.state.value, "  new  ");
    assert_eq!(r.submitted, Some("new".to_string()));
    let r = edit_step(state(true, "  "), "title", EditEvent::Blur);
    assert!(!r.state.editing);
    assert_eq!(r.submitted, Some(String::new()));
}

#[test]
fn editing_escape_restores_the_title() {
    let r = edit_step(state(true, "changed"), "title", EditEvent::Key(Key::Escape));
    assert!(!r.state.editing);
    assert_eq!(r.state.value, "title");
    assert_eq!(r.submitted, None);
}

#[test]
fn editing_other_keys_change_nothing() {
    let r = edit_step(state(true, "abc"), "title", EditEvent::Key(Key::Other));
    assert!(r.state.editing);
    assert_eq!(r.state.value, "abc");
    assert_eq!(r.submitted, None);
}
