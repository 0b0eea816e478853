use todo_list_manager::app::{App, Mode, Todo, TodoList};

fn todo(text: &str) -> Todo {
    Todo {
        selected: false,
        value: text.to_string(),
        completed: false,
        description: String::new(),
        editing: false,
    }
}

fn list_of(texts: &[&str]) -> TodoList {
    TodoList {
        todos: texts.iter().map(|t| todo(t)).collect(),
        title: String::from("L"),
    }
}

fn texts(l: &TodoList) -> Vec<String> {
    l.todos.iter().map(|t| t.value.clone()).collect()
}

fn selected_rows(l: &TodoList) -> Vec<usize> {
    (0..l.todos.len()).filter(|&j| l.todos[j].selected).collect()
}

fn type_str(app: &mut App, s: &str) {
    for c in s.chars() {
        app.type_char(c);
    }
}

/// An engine whose single list holds tasks with the given texts, back in
/// normal mode with the cursor on the last task.
fn app_with(items: &[&str]) -> App {
    let mut app = App::new();
    for t in items {
        app.add_todo();
        type_str(&mut app, t);
        app.toggle_editing();
    }
    app
}

#[test]
fn move_todo_forward_and_back() {
    let mut l = list_of(&["A", "B", "C", "D"]);
    l.move_todo(0, 2);
    assert_eq!(texts(&l), vec!["B", "C", "A", "D"]);
    l.move_todo(2, 0);
    assert_eq!(texts(&l), vec!["A", "B", "C", "D"]);
}

#[test]
fn move_todo_backward_and_forward() {
    let mut l = list_of(&["A", "B", "C", "D"]);
    l.move_todo(3, 1);
    assert_eq!(texts(&l), vec!["A", "D", "B", "C"]);
    l.move_todo(1, 3);
    assert_eq!(texts(&l), vec!["A", "B", "C", "D"]);
}

#[test]
fn move_todo_to_same_place() {
    let mut l = list_of(&["A", "B"]);
    l.move_todo(1, 1);
    assert_eq!(texts(&l), vec!["A", "B"]);
}

#[test]
fn list_add_at_position() {
    let mut l = list_of(&["A", "C"]);
    l.add_todo(todo("B"), 1);
    assert_eq!(texts(&l), vec!["A", "B", "C"]);
    l.add_todo(todo("D"), 3);
    assert_eq!(texts(&l), vec!["A", "B", "C", "D"]);
    l.add_todo(todo("Z"), 0);
    assert_eq!(texts(&l), vec!["Z", "A", "B", "C", "D"]);
}

#[test]
fn list_delete_in_and_past_range() {
    let mut l = list_of(&["A", "B", "C"]);
    l.delete(1);
    assert_eq!(texts(&l), vec!["A", "C"]);
    l.delete(5);
    assert_eq!(texts(&l), vec!["A", "C"]);
    l.delete(1);
    l.delete(0);
    assert!(l.todos.is_empty());
}

#[test]
fn new_engine() {
    let app = App::new();
    assert_eq!(app.todolists.len(), 1);
    assert_eq!(app.todolists[0].title, "Todo List");
    assert!(app.todolists[0].todos.is_empty());
    assert_eq!(app.current_todolist, Some(0));
    assert_eq!(app.line_num, None);
    assert_eq!(app.visual_begin, None);
    assert!(app.mode == Mode::Normal);
    assert_eq!(app.command.value, "");
}

#[test]
fn add_edit_complete_and_clean_scenario() {
    let mut app = App::new();
    app.add_todo();
    assert!(app.mode == Mode::Insert);
    assert_eq!(app.line_num, Some(0));
    assert!(app.todolists[0].todos[0].editing);
    app.toggle_editing();
    app.add_todo();
    assert_eq!(app.todolists[0].todos.len(), 2);
    assert_eq!(app.line_num, Some(1));
    assert!(app.todolists[0].todos[1].editing);
    assert!(!app.todolists[0].todos[0].editing);
    app.toggle_editing();
    app.move_up();
    app.toggle_editing();
    type_str(&mut app, "foo");
    app.toggle_editing();
    assert_eq!(texts(&app.todolists[0]), vec!["foo", ""]);
    assert!(app.todolists[0].todos[0].selected);
    app.toggle_completetion();
    assert!(app.todolists[0].todos[0].completed);
    assert!(!app.todolists[0].todos[1].completed);
    app.toggle_command();
    type_str(&mut app, "clean");
    assert_eq!(app.command.value, ":clean");
    assert!(!app.execute());
    assert_eq!(texts(&app.todolists[0]), vec![""]);
    assert!(app.mode == Mode::Normal);
    assert_eq!(app.command.value, "");
    assert_eq!(app.line_num, Some(0));
    assert!(app.todolists[0].todos[0].selected);
}

#[test]
fn visual_block_at_both_bounds_does_not_move() {
    let mut app = app_with(&["A", "B", "C"]);
    app.move_up();
    app.move_up();
    assert_eq!(app.line_num, Some(0));
    app.toggle_visual();
    assert!(app.mode == Mode::Visual);
    assert_eq!(app.visual_begin, Some(0));
    app.visual_move_down();
    app.visual_move_down();
    assert_eq!(app.line_num, Some(2));
    assert_eq!(selected_rows(&app.todolists[0]), vec![0, 1, 2]);
    app.visual_move_todo_down();
    assert_eq!(texts(&app.todolists[0]), vec!["A", "B", "C"]);
    app.visual_move_todo_up();
    assert_eq!(texts(&app.todolists[0]), vec!["A", "B", "C"]);
    assert_eq!(app.line_num, Some(2));
    assert_eq!(app.visual_begin, Some(0));
    assert_eq!(selected_rows(&app.todolists[0]), vec![0, 1, 2]);
}

#[test]
fn deleting_last_list_then_adding_a_task_does_nothing() {
    let mut app = App::new();
    app.add_todolist();
    assert_eq!(app.todolists.len(), 2);
    app.delete_todolist();
    assert_eq!(app.todolists.len(), 1);
    assert_eq!(app.current_todolist, Some(0));
    app.delete_todolist();
    assert!(app.todolists.is_empty());
    assert_eq!(app.current_todolist, None);
    assert_eq!(app.line_num, None);
    app.add_todo();
    assert!(app.todolists.is_empty());
    assert!(app.mode == Mode::Normal);
    app.add_todolist();
    assert_eq!(app.current_todolist, Some(0));
    assert_eq!(app.todolists[0].title, "Todo List");
}

#[test]
fn delete_full_visual_range_empties_list() {
    let mut app = app_with(&["A", "B", "C"]);
    app.toggle_visual();
    app.visual_move_up();
    app.visual_move_up();
    assert_eq!(selected_rows(&app.todolists[0]), vec![0, 1, 2]);
    app.delete();
    assert!(app.todolists[0].todos.is_empty());
    assert_eq!(app.line_num, None);
    assert_eq!(app.visual_begin, None);
    assert!(app.mode == Mode::Normal);
}

#[test]
fn delete_part_of_range_clamps_row() {
    let mut app = app_with(&["A", "B", "C", "D"]);
    app.toggle_visual();
    app.visual_move_up();
    app.delete();
    assert_eq!(texts(&app.todolists[0]), vec!["A", "B"]);
    assert_eq!(app.line_num, Some(1));
    assert_eq!(selected_rows(&app.todolists[0]), vec![1]);
}

#[test]
fn delete_single_row_in_normal_mode() {
    let mut app = app_with(&["A", "B", "C"]);
    app.move_up();
    app.delete();
    assert_eq!(texts(&app.todolists[0]), vec!["A", "C"]);
    assert_eq!(app.line_num, Some(1));
    assert_eq!(selected_rows(&app.todolists[0]), vec![1]);
}

#[test]
fn delete_with_title_focused_removes_nothing() {
    let mut app = app_with(&["A", "B"]);
    app.move_up();
    app.move_up();
    app.move_up();
    assert_eq!(app.line_num, None);
    app.delete();
    assert_eq!(texts(&app.todolists[0]), vec!["A", "B"]);
    assert_eq!(app.line_num, None);
}

#[test]
fn normal_navigation_selects_one_row() {
    let mut app = app_with(&["A", "B", "C"]);
    assert_eq!(app.line_num, Some(2));
    assert_eq!(selected_rows(&app.todolists[0]), vec![2]);
    app.move_down();
    assert_eq!(app.line_num, Some(2));
    app.move_up();
    assert_eq!(selected_rows(&app.todolists[0]), vec![1]);
    app.move_up();
    app.move_up();
    assert_eq!(app.line_num, None);
    assert!(selected_rows(&app.todolists[0]).is_empty());
    app.move_up();
    assert_eq!(app.line_num, None);
    app.move_down();
    assert_eq!(app.line_num, Some(0));
    assert_eq!(selected_rows(&app.todolists[0]), vec![0]);
}

#[test]
fn move_down_on_empty_list_keeps_title_focus() {
    let mut app = App::new();
    app.move_down();
    assert_eq!(app.line_num, None);
}

#[test]
fn drag_row_in_normal_mode() {
    let mut app = app_with(&["A", "B", "C"]);
    app.move_todo_up();
    assert_eq!(texts(&app.todolists[0]), vec!["A", "C", "B"]);
    assert_eq!(app.line_num, Some(1));
    app.move_todo_up();
    assert_eq!(texts(&app.todolists[0]), vec!["C", "A", "B"]);
    app.move_todo_up();
    assert_eq!(texts(&app.todolists[0]), vec!["C", "A", "B"]);
    assert_eq!(app.line_num, Some(0));
    assert_eq!(selected_rows(&app.todolists[0]), vec![0]);
    app.move_todo_down();
    assert_eq!(texts(&app.todolists[0]), vec!["A", "C", "B"]);
    assert_eq!(app.line_num, Some(1));
    assert_eq!(selected_rows(&app.todolists[0]), vec![1]);
    app.move_todo_down();
    app.move_todo_down();
    assert_eq!(texts(&app.todolists[0]), vec!["A", "B", "C"]);
    assert_eq!(app.line_num, Some(2));
}

#[test]
fn visual_block_slides_as_a_whole() {
    let mut app = app_with(&["A", "B", "C", "D"]);
    app.move_up();
    app.move_up();
    app.move_up();
    app.toggle_visual();
    app.visual_move_down();
    assert_eq!(selected_rows(&app.todolists[0]), vec![0, 1]);
    app.visual_move_todo_down();
    assert_eq!(texts(&app.todolists[0]), vec!["C", "A", "B", "D"]);
    assert_eq!(app.line_num, Some(2));
    assert_eq!(app.visual_begin, Some(1));
    assert_eq!(selected_rows(&app.todolists[0]), vec![1, 2]);
    app.visual_move_todo_down();
    assert_eq!(texts(&app.todolists[0]), vec!["C", "D", "A", "B"]);
    assert_eq!(selected_rows(&app.todolists[0]), vec![2, 3]);
    app.visual_move_todo_down();
    assert_eq!(texts(&app.todolists[0]), vec!["C", "D", "A", "B"]);
    app.visual_move_todo_up();
    assert_eq!(texts(&app.todolists[0]), vec!["C", "A", "B", "D"]);
    assert_eq!(selected_rows(&app.todolists[0]), vec![1, 2]);
}

#[test]
fn visual_move_up_stops_at_first_row() {
    let mut app = app_with(&["A", "B"]);
    app.toggle_visual();
    app.visual_move_up();
    app.visual_move_up();
    assert_eq!(app.line_num, Some(0));
    assert_eq!(app.visual_begin, Some(1));
    assert_eq!(selected_rows(&app.todolists[0]), vec![0, 1]);
}

#[test]
fn visual_from_title_anchors_first_row() {
    let mut app = app_with(&["A", "B"]);
    app.move_up();
    app.move_up();
    app.toggle_visual();
    assert_eq!(app.visual_begin, None);
    app.visual_move_down();
    assert_eq!(app.line_num, Some(0));
    assert_eq!(app.visual_begin, Some(0));
    assert_eq!(selected_rows(&app.todolists[0]), vec![0]);
    app.visual_move_down();
    assert_eq!(selected_rows(&app.todolists[0]), vec![0, 1]);
}

#[test]
fn leaving_visual_mode_restores_single_selection() {
    let mut app = app_with(&["A", "B", "C"]);
    app.toggle_visual();
    app.visual_move_up();
    app.visual_move_up();
    app.toggle_visual();
    assert!(app.mode == Mode::Normal);
    assert_eq!(app.visual_begin, None);
    assert_eq!(selected_rows(&app.todolists[0]), vec![0]);
}

#[test]
fn toggle_completion_over_visual_range() {
    let mut app = app_with(&["A", "B", "C"]);
    app.toggle_visual();
    app.visual_move_up();
    app.toggle_completetion();
    let done: Vec<bool> = app.todolists[0].todos.iter().map(|t| t.completed).collect();
    assert_eq!(done, vec![false, true, true]);
    app.toggle_completetion();
    let done: Vec<bool> = app.todolists[0].todos.iter().map(|t| t.completed).collect();
    assert_eq!(done, vec![false, false, false]);
}

#[test]
fn switching_lists_clamps_row_and_moves_selection() {
    let mut app = app_with(&["A", "B", "C"]);
    app.add_todolist();
    assert_eq!(app.current_todolist, Some(1));
    assert_eq!(app.line_num, None);
    assert!(selected_rows(&app.todolists[0]).is_empty());
    app.add_todo();
    type_str(&mut app, "X");
    app.toggle_editing();
    assert_eq!(app.line_num, Some(0));
    app.move_left();
    assert_eq!(app.current_todolist, Some(0));
    assert_eq!(app.line_num, Some(0));
    assert!(selected_rows(&app.todolists[1]).is_empty());
    assert_eq!(selected_rows(&app.todolists[0]), vec![0]);
    app.move_down();
    app.move_down();
    app.move_right();
    assert_eq!(app.current_todolist, Some(1));
    assert_eq!(app.line_num, Some(0));
    assert!(selected_rows(&app.todolists[0]).is_empty());
    assert_eq!(selected_rows(&app.todolists[1]), vec![0]);
    app.move_right();
    assert_eq!(app.current_todolist, Some(1));
}

#[test]
fn switching_to_empty_list_drops_row() {
    let mut app = app_with(&["A"]);
    app.add_todolist();
    app.move_left();
    assert_eq!(app.line_num, None);
    app.move_down();
    assert_eq!(app.line_num, Some(0));
    app.move_right();
    assert_eq!(app.line_num, None);
    assert!(selected_rows(&app.todolists[0]).is_empty());
}

#[test]
fn dragging_lists_keeps_focus_on_them() {
    let mut app = App::new();
    type_list_title(&mut app, "1");
    app.add_todolist();
    type_list_title(&mut app, "2");
    app.add_todolist();
    type_list_title(&mut app, "3");
    assert_eq!(titles(&app), vec!["Todo List1", "Todo List2", "Todo List3"]);
    app.move_todolist_left();
    assert_eq!(titles(&app), vec!["Todo List1", "Todo List3", "Todo List2"]);
    assert_eq!(app.current_todolist, Some(1));
    app.move_todolist_left();
    app.move_todolist_left();
    assert_eq!(titles(&app), vec!["Todo List3", "Todo List1", "Todo List2"]);
    assert_eq!(app.current_todolist, Some(0));
    app.move_todolist_right();
    assert_eq!(titles(&app), vec!["Todo List1", "Todo List3", "Todo List2"]);
    assert_eq!(app.current_todolist, Some(1));
}

fn type_list_title(app: &mut App, s: &str) {
    app.toggle_editing();
    type_str(app, s);
    app.toggle_editing();
}

fn titles(app: &App) -> Vec<String> {
    app.todolists.iter().map(|l| l.title.clone()).collect()
}

#[test]
fn move_todolist_directly() {
    let mut app = App::new();
    app.add_todolist();
    app.add_todolist();
    app.todolists[0].title = String::from("a");
    app.todolists[1].title = String::from("b");
    app.todolists[2].title = String::from("c");
    app.move_todolist(0, 2);
    assert_eq!(titles(&app), vec!["b", "c", "a"]);
    app.move_todolist(2, 0);
    assert_eq!(titles(&app), vec!["a", "b", "c"]);
}

#[test]
fn deleting_a_middle_list_activates_the_next() {
    let mut app = App::new();
    app.add_todolist();
    app.add_todolist();
    app.move_left();
    assert_eq!(app.current_todolist, Some(1));
    app.delete_todolist();
    assert_eq!(app.todolists.len(), 2);
    assert_eq!(app.current_todolist, Some(1));
    app.delete_todolist();
    assert_eq!(app.current_todolist, Some(0));
}

#[test]
fn deleting_a_list_clamps_row_to_new_active_list() {
    let mut app = app_with(&["A", "B", "C"]);
    app.add_todolist();
    app.add_todo();
    app.toggle_editing();
    app.move_left();
    assert_eq!(app.line_num, Some(0));
    app.move_down();
    app.move_down();
    assert_eq!(app.line_num, Some(2));
    app.delete_todolist();
    assert_eq!(app.current_todolist, Some(0));
    assert_eq!(app.line_num, Some(0));
    assert_eq!(selected_rows(&app.todolists[0]), vec![0]);
}

#[test]
fn insert_mode_edits_title_without_row() {
    let mut app = App::new();
    app.toggle_editing();
    assert!(app.mode == Mode::Insert);
    app.backspace();
    app.backspace();
    type_str(&mut app, "ks");
    assert_eq!(app.todolists[0].title, "Todo Liks");
    app.toggle_editing();
    assert!(app.mode == Mode::Normal);
    app.type_char('z');
    assert_eq!(app.todolists[0].title, "Todo Liks");
}

#[test]
fn backspace_on_task_text() {
    let mut app = app_with(&["abc"]);
    app.toggle_editing();
    app.backspace();
    assert_eq!(app.todolists[0].todos[0].value, "ab");
    app.backspace();
    app.backspace();
    app.backspace();
    assert_eq!(app.todolists[0].todos[0].value, "");
}

#[test]
fn command_buffer_editing_and_unknown_verb() {
    let mut app = app_with(&["A"]);
    app.toggle_command();
    assert!(app.mode == Mode::Command);
    assert_eq!(app.command.value, ":");
    type_str(&mut app, "xy");
    app.backspace();
    assert_eq!(app.command.value, ":x");
    assert!(!app.execute());
    assert!(app.mode == Mode::Normal);
    assert_eq!(app.command.value, "");
    assert_eq!(texts(&app.todolists[0]), vec!["A"]);
}

#[test]
fn write_command_asks_for_save() {
    let mut app = app_with(&["A"]);
    app.toggle_command();
    app.type_char('w');
    assert!(app.execute());
    assert!(app.mode == Mode::Normal);
    assert_eq!(app.command.value, "");
    assert!(!app.execute());
}

#[test]
fn command_from_visual_returns_to_single_selection() {
    let mut app = app_with(&["A", "B"]);
    app.toggle_visual();
    app.visual_move_up();
    app.toggle_command();
    assert_eq!(selected_rows(&app.todolists[0]), vec![0, 1]);
    app.execute();
    assert_eq!(app.visual_begin, None);
    assert_eq!(selected_rows(&app.todolists[0]), vec![0]);
}

#[test]
fn mode_gates_commands() {
    let mut app = app_with(&["A", "B"]);
    app.toggle_editing();
    app.move_up();
    assert_eq!(app.line_num, Some(1));
    app.toggle_visual();
    assert!(app.mode == Mode::Insert);
    app.toggle_command();
    assert!(app.mode == Mode::Insert);
    app.toggle_editing();
    app.visual_move_up();
    assert_eq!(app.line_num, Some(1));
    assert!(!app.execute());
}

#[test]
fn clean_removes_completed_in_every_list() {
    let mut app = app_with(&["A", "B"]);
    app.toggle_completetion();
    app.add_todolist();
    app.add_todo();
    app.toggle_editing();
    app.toggle_completetion();
    app.clean();
    assert_eq!(texts(&app.todolists[0]), vec!["A"]);
    assert!(app.todolists[1].todos.is_empty());
    assert_eq!(app.line_num, None);
    assert!(app.mode == Mode::Normal);
}

#[test]
fn reset_after_load_clears_transient_state() {
    let mut app = app_with(&["A", "B"]);
    app.toggle_visual();
    app.visual_move_up();
    app.toggle_command();
    app.todolists[0].todos[1].editing = true;
    app.current_todolist = Some(7);
    app.reset_transient();
    assert!(app.mode == Mode::Normal);
    assert_eq!(app.line_num, None);
    assert_eq!(app.visual_begin, None);
    assert_eq!(app.command.value, "");
    assert_eq!(app.current_todolist, Some(0));
    assert_eq!(texts(&app.todolists[0]), vec!["A", "B"]);
    assert!(app.todolists[0].todos.iter().all(|t| !t.selected && !t.editing));
}

#[test]
fn reset_with_no_lists() {
    let mut app = App::new();
    app.delete_todolist();
    app.current_todolist = Some(0);
    app.reset_transient();
    assert_eq!(app.current_todolist, None);
}

#[test]
fn refresh_line_num_clamps() {
    let mut app = app_with(&["A", "B", "C"]);
    app.line_num = Some(9);
    app.refresh_line_num();
    assert_eq!(app.line_num, Some(2));
    app.todolists[0].todos.clear();
    app.refresh_line_num();
    assert_eq!(app.line_num, None);
}

#[test]
fn selection_helpers() {
    let mut app = app_with(&["A", "B", "C"]);
    app.toggle_selection();
    assert!(selected_rows(&app.todolists[0]).is_empty());
    app.refresh_normal_selection();
    assert_eq!(selected_rows(&app.todolists[0]), vec![2]);
    app.visual_begin = Some(0);
    app.refresh_visual_selection();
    assert_eq!(selected_rows(&app.todolists[0]), vec![0, 1, 2]);
    app.toggle_todo_editing();
    assert!(app.todolists[0].todos[2].editing);
}

#[test]
fn current_todolist_gives_active_list() {
    let mut app = App::new();
    app.add_todolist();
    if let Some(l) = app.current_todolist() {
        l.title = String::from("second");
    }
    assert_eq!(app.todolists[1].title, "second");
    app.delete_todolist();
    app.delete_todolist();
    assert!(app.current_todolist().is_none());
}

#[test]
fn mode_labels() {
    assert_eq!(Mode::Insert.label(), "Insert Mode");
    assert_eq!(Mode::Normal.label(), "Normal Mode");
    assert_eq!(Mode::Visual.label(), "Visual Mode");
    assert_eq!(Mode::Command.label(), "Command Mode");
}
