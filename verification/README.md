# todomvc

The logic of a TodoMVC application (Leptos front end, Axum server, SQLite storage),
written in Verus with its contracts proved.

- `src/todo.rs` — the todo record, title trimming and validation, the display order of a
  new todo, and what an update does with a title.
- `src/rows.rs` — the `todos` table as a sequence of rows: what each SQL statement of the
  server functions does to it, and the table's invariant.
- `src/table.rs` — `TodoTable`, an executable table whose operations (`get_todos`,
  `add_todo`, `update_todo`, `delete_todo`, `toggle_todo`, `toggle_all`,
  `clear_completed`) are proved against those statements.
- `src/ui.rs` — the decisions of the user interface: filters, counts, labels, the new-todo
  input and the editing of an entry.
- `src/laws.rs` — properties across calls (toggling twice, reading after adding, …).
- `app/` — the server and the Leptos components, which run the SQL against SQLite and
  call the library for every decision.
