use vstd::prelude::*;

use crate::reorder::{move_within, seq_move};

verus! {

/// One task entry.
pub struct Todo {
    /// Derived from the cursor: whether the task is in the current selection.
    pub selected: bool,
    /// The task's text.
    pub value: String,
    pub completed: bool,
    /// Set when the task is created; no command reads or changes it.
    pub description: String,
    /// Derived from the cursor and mode: whether its text is being typed.
    pub editing: bool,
}

/// A titled, ordered sequence of tasks; a task's position is its only identity.
pub struct TodoList {
    pub todos: Vec<Todo>,
    pub title: String,
}

/// The text typed while in command mode.
pub struct Command {
    pub value: String,
}

/// The input mode, one for the whole engine.
#[derive(PartialEq, Eq, Structural, Clone, Copy, Debug)]
pub enum Mode {
    Insert,
    Normal,
    Visual,
    Command,
}

/// What a task holds apart from the flags the engine derives from the cursor.
pub struct ItemView {
    pub text: Seq<char>,
    pub description: Seq<char>,
    pub completed: bool,
}

/// What a list holds apart from the derived flags of its tasks.
pub struct ListView {
    pub title: Seq<char>,
    pub items: Seq<ItemView>,
}

impl Todo {
    /// The task without its derived flags.
    pub open spec fn content(self) -> ItemView {
        ItemView { text: self.value@, description: self.description@, completed: self.completed }
    }

    /// A blank task.
    pub(crate) fn new() -> (r: Todo)
        ensures
            r.content() == blank_item(),
            !r.selected,
            !r.editing,
    {
        Todo {
            selected: false,
            value: String::new(),
            completed: false,
            description: String::new(),
            editing: false,
        }
    }
}

/// The content of a freshly added task.
pub open spec fn blank_item() -> ItemView {
    ItemView { text: Seq::empty(), description: Seq::empty(), completed: false }
}

/// The task `t` with its selection flag set to `b`.
pub open spec fn with_selected(t: Todo, b: bool) -> Todo {
    Todo { selected: b, ..t }
}

/// The task `t` with its editing flag set to `b`.
pub open spec fn with_editing(t: Todo, b: bool) -> Todo {
    Todo { editing: b, ..t }
}

/// The task `t` with its completion flag set to `b`.
pub open spec fn with_completed(t: Todo, b: bool) -> Todo {
    Todo { completed: b, ..t }
}

/// The contents of a sequence of tasks.
pub open spec fn contents(s: Seq<Todo>) -> Seq<ItemView> {
    s.map_values(|t: Todo| t.content())
}

/// The title every new list starts with.
pub open spec fn default_title() -> Seq<char> {
    "Todo List"@
}

/// Which flag picks the tasks that a bulk removal takes out.
pub enum Mark {
    Selected,
    Completed,
}

/// Whether `m` picks the task `t`.
pub open spec fn marked(t: Todo, m: Mark) -> bool {
    match m {
        Mark::Selected => t.selected,
        Mark::Completed => t.completed,
    }
}

/// The tasks of `s` that `m` does not pick, in their order.
pub open spec fn without(s: Seq<Todo>, m: Mark) -> Seq<Todo> {
    s.filter(|t: Todo| !marked(t, m))
}

/// Taking one more task into account adds it to the removal's result unless `m` picks it.
proof fn lemma_without_step(s: Seq<Todo>, m: Mark, n: int)
    requires
        0 <= n < s.len(),
    ensures
        without(s.take(n + 1), m) == if marked(s[n], m) {
            without(s.take(n), m)
        } else {
            without(s.take(n), m).push(s[n])
        },
{
    reveal(Seq::filter);
    assert(s.take(n + 1).drop_last() =~= s.take(n));
}

impl TodoList {
    /// The list without the derived flags of its tasks.
    pub open spec fn content(self) -> ListView {
        ListView { title: self.title@, items: contents(self.todos@) }
    }

    /// An empty list with the default title.
    pub(crate) fn new() -> (r: TodoList)
        ensures
            r.title@ == default_title(),
            r.todos@.len() == 0,
    {
        TodoList { todos: Vec::new(), title: "Todo List".to_string() }
    }

    /// Puts `todo` at position `pos`, shifting the tasks from `pos` on by one.
    pub fn add_todo(&mut self, todo: Todo, pos: usize)
        requires
            pos <= old(self).todos@.len(),
        ensures
            final(self).todos@ == old(self).todos@.insert(pos as int, todo),
            final(self).title == old(self).title,
    {
        let ghost s = self.todos@;
        self.todos.push(todo);
        let last = self.todos.len() - 1;
        move_within(&mut self.todos, last, pos);
        assert(self.todos@ =~= s.insert(pos as int, todo));
    }

    /// Removes the task at `pos`; a position past the end changes nothing.
    pub fn delete(&mut self, pos: usize)
        ensures
            final(self).todos@ == if pos < old(self).todos@.len() {
                old(self).todos@.remove(pos as int)
            } else {
                old(self).todos@
            },
            final(self).title == old(self).title,
    {
        if pos < self.todos.len() {
            let ghost s = self.todos@;
            let last = self.todos.len() - 1;
            move_within(&mut self.todos, pos, last);
            self.todos.pop();
            assert(self.todos@ =~= s.remove(pos as int));
        }
    }

    /// Moves the task at `a` to `b`; the tasks in between shift by one.
    pub fn move_todo(&mut self, a: usize, b: usize)
        requires
            a < old(self).todos@.len(),
            b < old(self).todos@.len(),
        ensures
            final(self).todos@ == seq_move(old(self).todos@, a as int, b as int),
            final(self).title == old(self).title,
    {
        move_within(&mut self.todos, a, b);
    }

    /// Removes every task that `m` picks, keeping the others in order.
    pub(crate) fn remove_marked(&mut self, m: Mark)
        ensures
            final(self).todos@ == without(old(self).todos@, m),
            final(self).title == old(self).title,
    {
        let ghost s = self.todos@;
        let ghost mut n: int = 0;
        let mut i: usize = 0;
        proof {
            reveal(Seq::filter);
            assert(s.take(0) =~= Seq::<Todo>::empty());
            assert(s.skip(0) =~= s);
            assert(without(s.take(0), m) =~= Seq::<Todo>::empty());
        }
        while i < self.todos.len()
            invariant
                0 <= n <= s.len(),
                i == without(s.take(n), m).len(),
                self.todos@ == without(s.take(n), m) + s.skip(n),
                self.title == old(self).title,
            decreases s.len() - n,
        {
            proof {
                lemma_without_step(s, m, n);
                assert(self.todos@[i as int] == s[n]);
            }
            let pick = match m {
                Mark::Selected => self.todos[i].selected,
                Mark::Completed => self.todos[i].completed,
            };
            if pick {
                self.delete(i);
                proof {
                    assert(self.todos@ =~= without(s.take(n + 1), m) + s.skip(n + 1));
                }
            } else {
                i = i + 1;
                proof {
                    assert(self.todos@ =~= without(s.take(n + 1), m) + s.skip(n + 1));
                }
            }
            proof {
                n = n + 1;
            }
        }
        proof {
            assert(s.take(n) =~= s);
            assert(self.todos@ =~= without(s, m));
        }
    }
}

/// The whole engine: lists, cursor, selection, mode and command buffer.
pub struct App {
    /// The index of the active list; `None` only when there are no lists.
    pub current_todolist: Option<usize>,
    pub mode: Mode,
    pub todolists: Vec<TodoList>,
    /// The focused row of the active list; `None` when its title has the focus.
    pub line_num: Option<usize>,
    /// Where a visual range started; the range runs from it to the focused row.
    pub visual_begin: Option<usize>,
    pub command: Command,
}

/// The smaller of `a` and `b`.
pub open spec fn min_int(a: int, b: int) -> int {
    if a <= b { a } else { b }
}

/// The larger of `a` and `b`.
pub open spec fn max_int(a: int, b: int) -> int {
    if a <= b { b } else { a }
}

impl App {
    /// The contents of every list, in display order.
    pub open spec fn board(self) -> Seq<ListView> {
        self.todolists@.map_values(|l: TodoList| l.content())
    }

    /// The tasks of the active list (empty when there is none).
    pub open spec fn active_todos(self) -> Seq<Todo> {
        match self.current_todolist {
            Some(i) => if i < self.todolists@.len() { self.todolists@[i as int].todos@ } else { Seq::empty() },
            None => Seq::empty(),
        }
    }

    /// The active list index is present exactly when there are lists, and in bounds.
    pub open spec fn list_ok(self) -> bool {
        &&& (self.current_todolist is None <==> self.todolists@.len() == 0)
        &&& (self.current_todolist matches Some(i) ==> i < self.todolists@.len())
    }

    /// The focused row and the range anchor lie within the active list, and an
    /// anchor is only set together with a focused row.
    pub open spec fn rows_ok(self) -> bool {
        &&& (self.line_num matches Some(r) ==> r < self.active_todos().len())
        &&& (self.visual_begin matches Some(v) ==> v < self.active_todos().len()
            && self.line_num is Some)
    }

    /// A range anchor exists only in visual mode or in a command begun from it,
    /// and in visual mode it is set exactly when a row is focused.
    pub open spec fn mode_ok(self) -> bool {
        &&& (self.mode == Mode::Normal || self.mode == Mode::Insert) ==> self.visual_begin is None
        &&& self.mode == Mode::Visual ==> (self.visual_begin is Some <==> self.line_num is Some)
    }

    /// Whether row `j` of the active list falls in the current selection: the
    /// closed range between anchor and row when an anchor is set, else the row.
    pub open spec fn in_selection(self, j: int) -> bool {
        match self.line_num {
            None => false,
            Some(r) => match self.visual_begin {
                None => j == r,
                Some(v) => min_int(r as int, v as int) <= j <= max_int(r as int, v as int),
            },
        }
    }

    /// Whether list `k` is the active one.
    pub open spec fn is_active(self, k: int) -> bool {
        self.current_todolist matches Some(c) && c as int == k
    }

    /// Whether row `j` is the focused one.
    pub open spec fn is_row(self, j: int) -> bool {
        self.line_num matches Some(r) && r as int == j
    }

    /// Whether row `j` of list `k` is the one whose text is being typed.
    pub open spec fn is_editing_row(self, k: int, j: int) -> bool {
        &&& self.mode == Mode::Insert
        &&& self.is_active(k)
        &&& self.is_row(j)
    }

    /// The selection and editing flags of every task are those the cursor and
    /// mode determine.
    pub open spec fn flags_ok(self) -> bool {
        forall|k: int, j: int|
            0 <= k < self.todolists@.len() && 0 <= j < self.todolists@[k].todos@.len() ==> {
                &&& (#[trigger] self.todolists@[k].todos@[j]).selected == (self.is_active(k)
                    && self.in_selection(j))
                &&& self.todolists@[k].todos@[j].editing == self.is_editing_row(k, j)
            }
    }

    /// No task outside list `i` is selected or being edited.
    pub open spec fn others_clear(self, i: int) -> bool {
        forall|k: int, j: int|
            0 <= k < self.todolists@.len() && k != i && 0 <= j < self.todolists@[k].todos@.len()
                ==> !(#[trigger] self.todolists@[k].todos@[j]).selected
                && !self.todolists@[k].todos@[j].editing
    }

    /// Every task of list `i` carries the flags that the cursor and mode give it.
    pub open spec fn active_flags_ok(self, i: int) -> bool {
        forall|j: int| 0 <= j < self.todolists@[i].todos@.len() ==> {
            &&& (#[trigger] self.todolists@[i].todos@[j]).selected == self.in_selection(j)
            &&& self.todolists@[i].todos@[j].editing == self.is_editing_row(i, j)
        }
    }

    /// The invariant every command keeps: a valid active list, rows in bounds,
    /// an anchor only where the mode allows one, and flags that match the cursor.
    pub open spec fn wf(self) -> bool {
        &&& self.list_ok()
        &&& self.rows_ok()
        &&& self.mode_ok()
        &&& self.flags_ok()
    }

    /// `self` differs from `o` at most in the tasks of list `i`.
    pub open spec fn only_list_changed(self, o: App, i: int) -> bool {
        &&& self.todolists@.len() == o.todolists@.len()
        &&& forall|k: int| 0 <= k < o.todolists@.len() && k != i ==> self.todolists@[k] == o.todolists@[k]
        &&& self.todolists@[i].title == o.todolists@[i].title
        &&& self.current_todolist == o.current_todolist
        &&& self.mode == o.mode
        &&& self.line_num == o.line_num
        &&& self.visual_begin == o.visual_begin
        &&& self.command == o.command
    }

    /// A fresh engine: one empty list, focused on its title, in normal mode.
    pub fn new() -> (r: App)
        ensures
            r.wf(),
            r.todolists@.len() == 1,
            r.todolists@[0].title@ == default_title(),
            r.todolists@[0].todos@.len() == 0,
            r.current_todolist == Some(0usize),
            r.line_num is None,
            r.visual_begin is None,
            r.mode == Mode::Normal,
            r.command.value@.len() == 0,
    {
        App {
            mode: Mode::Normal,
            line_num: None,
            visual_begin: None,
            current_todolist: Some(0),
            todolists: vec![TodoList::new()],
            command: Command::new(),
        }
    }

    /// Sets the selection flag of each task of the active list to whether it is
    /// the focused row.
    pub fn refresh_normal_selection(&mut self)
        requires
            old(self).list_ok(),
        ensures
            match old(self).current_todolist {
                Some(i) => {
                    &&& final(self).only_list_changed(*old(self), i as int)
                    &&& final(self).todolists@[i as int].todos@.len() == old(self).todolists@[i as int].todos@.len()
                    &&& forall|j: int| 0 <= j < old(self).todolists@[i as int].todos@.len()
                        ==> #[trigger] final(self).todolists@[i as int].todos@[j] == with_selected(
                        old(self).todolists@[i as int].todos@[j],
                        old(self).is_row(j),
                    )
                },
                None => *final(self) == *old(self),
            },
    {
        if let Some(i) = self.current_todolist {
            let n = self.todolists[i].todos.len();
            let mut j: usize = 0;
            while j < n
                invariant
                    self.list_ok(),
                    i < self.todolists@.len(),
                    self.only_list_changed(*old(self), i as int),
                    self.todolists@[i as int].todos@.len() == n,
                    n == old(self).todolists@[i as int].todos@.len(),
                    forall|q: int| 0 <= q < n ==> #[trigger] self.todolists@[i as int].todos@[q]
                        == if q < j {
                        with_selected(
                            old(self).todolists@[i as int].todos@[q],
                            old(self).is_row(q),
                        )
                    } else {
                        old(self).todolists@[i as int].todos@[q]
                    },
                decreases n - j,
            {
                let on = match self.line_num {
                    Some(r) => r == j,
                    None => false,
                };
                self.todolists[i].todos[j].selected = on;
                j = j + 1;
            }
        }
    }

    /// Sets the selection flag of each task of the active list to whether it lies
    /// in the range between anchor and focused row; without both, nothing changes.
    pub fn refresh_visual_selection(&mut self)
        requires
            old(self).list_ok(),
        ensures
            match (old(self).current_todolist, old(self).line_num, old(self).visual_begin) {
                (Some(i), Some(r), Some(v)) => {
                    &&& final(self).only_list_changed(*old(self), i as int)
                    &&& final(self).todolists@[i as int].todos@.len() == old(self).todolists@[i as int].todos@.len()
                    &&& forall|j: int| 0 <= j < old(self).todolists@[i as int].todos@.len()
                        ==> #[trigger] final(self).todolists@[i as int].todos@[j] == with_selected(
                        old(self).todolists@[i as int].todos@[j],
                        old(self).in_selection(j),
                    )
                },
                _ => *final(self) == *old(self),
            },
    {
        if let Some(v) = self.visual_begin {
            if let Some(r) = self.line_num {
                if let Some(i) = self.current_todolist {
                    let lo = if r <= v { r } else { v };
                    let hi = if r <= v { v } else { r };
                    let n = self.todolists[i].todos.len();
                    let mut j: usize = 0;
                    while j < n
                        invariant
                            old(self).current_todolist == Some(i),
                            old(self).line_num == Some(r),
                            old(self).visual_begin == Some(v),
                            lo == min_int(r as int, v as int),
                            hi == max_int(r as int, v as int),
                            i < self.todolists@.len(),
                            self.only_list_changed(*old(self), i as int),
                            self.todolists@[i as int].todos@.len() == n,
                            n == old(self).todolists@[i as int].todos@.len(),
                            forall|q: int| 0 <= q < n ==> #[trigger] self.todolists@[i as int].todos@[q]
                                == if q < j {
                                with_selected(
                                    old(self).todolists@[i as int].todos@[q],
                                    old(self).in_selection(q),
                                )
                            } else {
                                old(self).todolists@[i as int].todos@[q]
                            },
                        decreases n - j,
                    {
                        self.todolists[i].todos[j].selected = lo <= j && j <= hi;
                        j = j + 1;
                    }
                }
            }
        }
    }

    /// Flips the selection flag of the focused task, if there is one.
    pub fn toggle_selection(&mut self)
        requires
            old(self).list_ok(),
            old(self).line_num matches Some(r) ==> r < old(self).active_todos().len(),
        ensures
            match (old(self).current_todolist, old(self).line_num) {
                (Some(i), Some(r)) => {
                    &&& final(self).only_list_changed(*old(self), i as int)
                    &&& final(self).todolists@[i as int].todos@ == old(self).todolists@[i as int].todos@.update(
                        r as int,
                        with_selected(
                            old(self).todolists@[i as int].todos@[r as int],
                            !old(self).todolists@[i as int].todos@[r as int].selected,
                        ),
                    )
                },
                _ => *final(self) == *old(self),
            },
    {
        if let Some(r) = self.line_num {
            if let Some(i) = self.current_todolist {
                let b = self.todolists[i].todos[r].selected;
                self.todolists[i].todos[r].selected = !b;
                assert(self.todolists@[i as int].todos@ =~= old(self).todolists@[i as int].todos@.update(
                    r as int,
                    with_selected(old(self).todolists@[i as int].todos@[r as int], !b),
                ));
            }
        }
    }

    /// Flips the editing flag of the focused task, if there is one.
    pub fn toggle_todo_editing(&mut self)
        requires
            old(self).list_ok(),
            old(self).line_num matches Some(r) ==> r < old(self).active_todos().len(),
        ensures
            match (old(self).current_todolist, old(self).line_num) {
                (Some(i), Some(r)) => {
                    &&& final(self).only_list_changed(*old(self), i as int)
                    &&& final(self).todolists@[i as int].todos@ == old(self).todolists@[i as int].todos@.update(
                        r as int,
                        with_editing(
                            old(self).todolists@[i as int].todos@[r as int],
                            !old(self).todolists@[i as int].todos@[r as int].editing,
                        ),
                    )
                },
                _ => *final(self) == *old(self),
            },
    {
        if let Some(r) = self.line_num {
            if let Some(i) = self.current_todolist {
                let b = self.todolists[i].todos[r].editing;
                self.todolists[i].todos[r].editing = !b;
                assert(self.todolists@[i as int].todos@ =~= old(self).todolists@[i as int].todos@.update(
                    r as int,
                    with_editing(old(self).todolists@[i as int].todos@[r as int], !b),
                ));
            }
        }
    }

    /// Pulls the focused row back inside the active list: onto its last task
    /// when it lies past the end, and off every task when the list is empty.
    pub fn refresh_line_num(&mut self)
        requires
            old(self).list_ok(),
        ensures
            final(self).line_num == match old(self).current_todolist {
                Some(i) => clamped(old(self).line_num, old(self).todolists@[i as int].todos@.len()),
                None => old(self).line_num,
            },
            final(self).todolists == old(self).todolists,
            final(self).current_todolist == old(self).current_todolist,
            final(self).mode == old(self).mode,
            final(self).visual_begin == old(self).visual_begin,
            final(self).command == old(self).command,
    {
        if let Some(r) = self.line_num {
            if let Some(i) = self.current_todolist {
                let n = self.todolists[i].todos.len();
                if n == 0 {
                    self.line_num = None;
                } else {
                    self.line_num = Some(if r < n - 1 { r } else { n - 1 });
                }
            }
        }
    }

    /// Moves the list at `a` to `b`; the lists in between shift by one.
    pub fn move_todolist(&mut self, a: usize, b: usize)
        requires
            a < old(self).todolists@.len(),
            b < old(self).todolists@.len(),
        ensures
            final(self).todolists@ == seq_move(old(self).todolists@, a as int, b as int),
            final(self).current_todolist == old(self).current_todolist,
            final(self).mode == old(self).mode,
            final(self).line_num == old(self).line_num,
            final(self).visual_begin == old(self).visual_begin,
            final(self).command == old(self).command,
    {
        move_within(&mut self.todolists, a, b);
    }

    /// The active list, for the caller to change in place.
    pub fn current_todolist(&mut self) -> (r: Option<&mut TodoList>)
        requires
            old(self).list_ok(),
        ensures
            r is Some <==> old(self).current_todolist is Some,
            final(self).current_todolist == old(self).current_todolist,
            final(self).mode == old(self).mode,
            final(self).line_num == old(self).line_num,
            final(self).visual_begin == old(self).visual_begin,
            final(self).command == old(self).command,
            match (old(self).current_todolist, r) {
                (Some(i), Some(l)) => {
                    &&& *l == old(self).todolists@[i as int]
                    &&& final(self).todolists@ == old(self).todolists@.update(i as int, *final(l))
                },
                _ => *final(self) == *old(self),
            },
    {
        match self.current_todolist {
            Some(i) => Some(&mut self.todolists[i]),
            None => None,
        }
    }
}

/// The row `line` pulled inside a list of `len` tasks.
pub open spec fn clamped(line: Option<usize>, len: nat) -> Option<usize> {
    match line {
        None => None,
        Some(r) => if len == 0 {
            None
        } else {
            Some(min_int(r as int, len - 1) as usize)
        },
    }
}

/// The board with the tasks of list `i` replaced by `items`.
pub open spec fn with_items(board: Seq<ListView>, i: int, items: Seq<ItemView>) -> Seq<ListView> {
    board.update(i, ListView { title: board[i].title, items })
}

/// The content of a freshly added list.
pub open spec fn blank_list() -> ListView {
    ListView { title: default_title(), items: Seq::empty() }
}

/// The item contents that remain once the completed ones are gone.
pub open spec fn open_items(items: Seq<ItemView>) -> Seq<ItemView> {
    items.filter(|x: ItemView| !x.completed)
}

/// The board with every completed task gone from every list.
pub open spec fn cleaned(board: Seq<ListView>) -> Seq<ListView> {
    board.map_values(|l: ListView| ListView { title: l.title, items: open_items(l.items) })
}

/// The characters `s` without its last one; nothing when it is empty.
pub open spec fn drop_last_char(s: Seq<char>) -> Seq<char> {
    if s.len() == 0 { s } else { s.drop_last() }
}

impl Mode {
    /// The name of the mode as the status line shows it.
    pub fn label(&self) -> (r: String)
        ensures
            r@ == mode_label(*self),
    {
        match self {
            Mode::Insert => "Insert Mode".to_string(),
            Mode::Normal => "Normal Mode".to_string(),
            Mode::Visual => "Visual Mode".to_string(),
            Mode::Command => "Command Mode".to_string(),
        }
    }
}

/// The status-line name of mode `m`.
pub open spec fn mode_label(m: Mode) -> Seq<char> {
    match m {
        Mode::Insert => "Insert Mode"@,
        Mode::Normal => "Normal Mode"@,
        Mode::Visual => "Visual Mode"@,
        Mode::Command => "Command Mode"@,
    }
}

impl Command {
    /// An empty buffer.
    fn new() -> (r: Command)
        ensures
            r.value@.len() == 0,
    {
        Command { value: String::new() }
    }
}

/// In a well-formed state a focused row exists only with an active list, and
/// lies within that list.
pub proof fn lemma_row_in_bounds(app: App)
    requires
        app.wf(),
    ensures
        app.line_num matches Some(r) ==> {
            &&& app.current_todolist matches Some(i)
            &&& r < app.todolists@[i as int].todos@.len()
        },
{
}

/// In a well-formed state the selected tasks are exactly those the mode's rule
/// picks: in normal and insert mode the focused row of the active list, in
/// visual mode the closed range between anchor and focused row; no task of
/// another list is selected.
pub proof fn lemma_selection_rule(app: App, k: int, j: int)
    requires
        app.wf(),
        0 <= k < app.todolists@.len(),
        0 <= j < app.todolists@[k].todos@.len(),
    ensures
        !app.is_active(k) ==> !app.todolists@[k].todos@[j].selected,
        (app.mode == Mode::Normal || app.mode == Mode::Insert) ==> app.todolists@[k].todos@[j].selected
            == (app.is_active(k) && app.is_row(j)),
        app.mode == Mode::Visual ==> app.todolists@[k].todos@[j].selected == (app.is_active(k) && match (
            app.line_num,
            app.visual_begin,
        ) {
            (Some(r), Some(v)) => min_int(r as int, v as int) <= j <= max_int(r as int, v as int),
            _ => false,
        }),
{
    assert(app.todolists@[k].todos@[j].selected == (app.is_active(k) && app.in_selection(j)));
}

} // verus!
