use vstd::prelude::*;

use crate::app::{App, Mode, Todo, clamped, max_int, min_int, with_items, with_selected};
use crate::lemmas::{
    lemma_block_dragged,
    lemma_board_update,
    lemma_contents_flags,
    lemma_flags_from_active,
    lemma_flags_ok,
    lemma_list_moved,
    lemma_others_clear_frame,
    lemma_same_board,
    lemma_switched,
    lemma_visual_refreshed,
    lemma_wf_others_clear,
};
use crate::reorder::seq_move;

verus! {

impl App {
    /// Normal mode: focuses the row above; from the top row, focuses the title.
    pub fn move_up(&mut self)
        requires
            old(self).wf(),
        ensures
            final(self).wf(),
            final(self).board() == old(self).board(),
            final(self).current_todolist == old(self).current_todolist,
            final(self).mode == old(self).mode,
            final(self).visual_begin == old(self).visual_begin,
            final(self).command == old(self).command,
            final(self).line_num == if old(self).mode == Mode::Normal {
                match old(self).line_num {
                    Some(r) => if r > 0 { Some((r - 1) as usize) } else { None },
                    None => None,
                }
            } else {
                old(self).line_num
            },
            old(self).mode != Mode::Normal ==> *final(self) == *old(self),
    {
        if self.mode != Mode::Normal {
            return ;
        }
        if let Some(line_num) = self.line_num {
            if line_num > 0 {
                self.line_num = Some(line_num - 1);
            } else {
                self.line_num = None;
            }
        }
        self.refresh_normal_selection();
        proof {
            lemma_same_board(*self, *old(self));
            if let Some(i) = self.current_todolist {
                assert forall|j: int| 0 <= j < self.todolists@[i as int].todos@.len() implies {
                    &&& (#[trigger] self.todolists@[i as int].todos@[j]).selected == self.in_selection(j)
                    &&& self.todolists@[i as int].todos@[j].editing == self.is_editing_row(i as int, j)
                } by {
                    assert(old(self).todolists@[i as int].todos@[j].editing == old(self).is_editing_row(
                        i as int,
                        j,
                    ));
                }
                lemma_flags_from_active(*old(self), *self, i as int);
            }
        }
    }

    /// Normal mode: focuses the row below, stopping at the last; from the title,
    /// focuses the first row of a non-empty list.
    pub fn move_down(&mut self)
        requires
            old(self).wf(),
        ensures
            final(self).wf(),
            final(self).board() == old(self).board(),
            final(self).current_todolist == old(self).current_todolist,
            final(self).mode == old(self).mode,
            final(self).visual_begin == old(self).visual_begin,
            final(self).command == old(self).command,
            final(self).line_num == if old(self).mode == Mode::Normal {
                match old(self).line_num {
                    Some(r) => if r + 1 < old(self).active_todos().len() {
                        Some((r + 1) as usize)
                    } else {
                        Some(r)
                    },
                    None => if old(self).active_todos().len() > 0 {
                        Some(0usize)
                    } else {
                        None
                    },
                }
            } else {
                old(self).line_num
            },
            old(self).mode != Mode::Normal ==> *final(self) == *old(self),
    {
        if self.mode != Mode::Normal {
            return ;
        }
        if let Some(i) = self.current_todolist {
            let n = self.todolists[i].todos.len();
            if let Some(line_num) = self.line_num {
                if line_num + 1 < n {
                    self.line_num = Some(line_num + 1);
                }
            } else if n > 0 {
                self.line_num = Some(0);
            }
        }
        self.refresh_normal_selection();
        proof {
            lemma_same_board(*self, *old(self));
            if let Some(i) = self.current_todolist {
                assert forall|j: int| 0 <= j < self.todolists@[i as int].todos@.len() implies {
                    &&& (#[trigger] self.todolists@[i as int].todos@[j]).selected == self.in_selection(j)
                    &&& self.todolists@[i as int].todos@[j].editing == self.is_editing_row(i as int, j)
                } by {
                    assert(old(self).todolists@[i as int].todos@[j].editing == old(self).is_editing_row(
                        i as int,
                        j,
                    ));
                }
                lemma_flags_from_active(*old(self), *self, i as int);
            }
        }
    }

    /// Normal mode: drags the focused task one row up, the cursor following it.
    pub fn move_todo_up(&mut self)
        requires
            old(self).wf(),
        ensures
            final(self).wf(),
            final(self).current_todolist == old(self).current_todolist,
            final(self).mode == old(self).mode,
            final(self).visual_begin == old(self).visual_begin,
            final(self).command == old(self).command,
            match (old(self).mode, old(self).current_todolist, old(self).line_num) {
                (Mode::Normal, Some(i), Some(r)) => if r > 0 {
                    &&& final(self).board() == with_items(
                        old(self).board(),
                        i as int,
                        seq_move(old(self).board()[i as int].items, r as int, r - 1),
                    )
                    &&& final(self).line_num == Some((r - 1) as usize)
                } else {
                    *final(self) == *old(self)
                },
                _ => *final(self) == *old(self),
            },
    {
        if self.mode != Mode::Normal {
            return ;
        }
        if let Some(line_num) = self.line_num {
            if let Some(i) = self.current_todolist {
                if line_num > 0 {
                    self.todolists[i].move_todo(line_num, line_num - 1);
                    self.line_num = Some(line_num - 1);
                    proof {
                        self.lemma_dragged_row(*old(self), i as int, line_num as int, line_num - 1);
                    }
                    self.refresh_normal_selection();
                    proof {
                        self.lemma_after_drag(*old(self), i as int, line_num as int, line_num - 1);
                    }
                }
            }
        }
    }

    /// Normal mode: drags the focused task one row down, the cursor following it.
    pub fn move_todo_down(&mut self)
        requires
            old(self).wf(),
        ensures
            final(self).wf(),
            final(self).current_todolist == old(self).current_todolist,
            final(self).mode == old(self).mode,
            final(self).visual_begin == old(self).visual_begin,
            final(self).command == old(self).command,
            match (old(self).mode, old(self).current_todolist, old(self).line_num) {
                (Mode::Normal, Some(i), Some(r)) => if r + 1 < old(self).active_todos().len() {
                    &&& final(self).board() == with_items(
                        old(self).board(),
                        i as int,
                        seq_move(old(self).board()[i as int].items, r as int, r + 1),
                    )
                    &&& final(self).line_num == Some((r + 1) as usize)
                } else {
                    *final(self) == *old(self)
                },
                _ => *final(self) == *old(self),
            },
    {
        if self.mode != Mode::Normal {
            return ;
        }
        if let Some(line_num) = self.line_num {
            if let Some(i) = self.current_todolist {
                let n = self.todolists[i].todos.len();
                if line_num + 1 < n {
                    self.todolists[i].move_todo(line_num, line_num + 1);
                    self.line_num = Some(line_num + 1);
                    proof {
                        self.lemma_dragged_row(*old(self), i as int, line_num as int, line_num + 1);
                    }
                    self.refresh_normal_selection();
                    proof {
                        self.lemma_after_drag(*old(self), i as int, line_num as int, line_num + 1);
                    }
                }
            }
        }
    }

    /// The state right after the task at `a` of the active list moved to `b` and
    /// the row followed it is ready for a selection refresh.
    proof fn lemma_dragged_row(self, pre: App, i: int, a: int, b: int)
        requires
            pre.wf(),
            pre.mode == Mode::Normal,
            pre.is_active(i),
            0 <= a < pre.todolists@[i].todos@.len(),
            0 <= b < pre.todolists@[i].todos@.len(),
            self.todolists@.len() == pre.todolists@.len(),
            forall|k: int| 0 <= k < pre.todolists@.len() && k != i ==> self.todolists@[k] == pre.todolists@[k],
            self.todolists@[i].todos@ == seq_move(pre.todolists@[i].todos@, a, b),
            self.todolists@[i].title == pre.todolists@[i].title,
            self.current_todolist == pre.current_todolist,
            self.mode == pre.mode,
            self.visual_begin == pre.visual_begin,
            self.command == pre.command,
            self.line_num == Some(b as usize),
        ensures
            self.list_ok(),
            self.rows_ok(),
            self.mode_ok(),
            self.others_clear(i),
            forall|j: int| 0 <= j < self.todolists@[i].todos@.len() ==> !(#[trigger] self.todolists@[i].todos@[j]).editing,
    {
        lemma_wf_others_clear(pre, i);
        lemma_others_clear_frame(pre, self, i);
        assert forall|j: int| 0 <= j < self.todolists@[i].todos@.len() implies !(
        #[trigger] self.todolists@[i].todos@[j]).editing by {
            crate::reorder::lemma_seq_move_index(pre.todolists@[i].todos@, a, b, j);
            let s = pre.todolists@[i].todos@;
            if j == b {
                assert(!s[a].editing);
            } else if a <= b && a <= j < b {
                assert(!s[j + 1].editing);
            } else if b < a && b < j <= a {
                assert(!s[j - 1].editing);
            } else {
                assert(!s[j].editing);
            }
        }
    }

    /// After the selection refresh that follows a drag, the state is well formed
    /// and shows the moved tasks.
    proof fn lemma_after_drag(self, pre: App, i: int, a: int, b: int)
        requires
            pre.wf(),
            pre.mode == Mode::Normal,
            pre.is_active(i),
            0 <= a < pre.todolists@[i].todos@.len(),
            0 <= b < pre.todolists@[i].todos@.len(),
            self.is_active(i),
            self.list_ok(),
            self.rows_ok(),
            self.mode_ok(),
            self.mode == Mode::Normal,
            self.visual_begin is None,
            self.is_row(b),
            self.todolists@.len() == pre.todolists@.len(),
            forall|k: int| 0 <= k < pre.todolists@.len() && k != i ==> self.todolists@[k] == pre.todolists@[k],
            self.todolists@[i].title == pre.todolists@[i].title,
            self.todolists@[i].todos@.len() == pre.todolists@[i].todos@.len(),
            forall|j: int| 0 <= j < self.todolists@[i].todos@.len() ==> !(#[trigger] self.todolists@[i].todos@[j]).editing,
            forall|j: int| 0 <= j < self.todolists@[i].todos@.len() ==> (#[trigger] self.todolists@[i].todos@[j]).selected == self.is_row(j),
            forall|j: int| 0 <= j < self.todolists@[i].todos@.len() ==> (#[trigger] self.todolists@[i].todos@[j]).content()
                == seq_move(pre.todolists@[i].todos@, a, b)[j].content(),
        ensures
            self.wf(),
            self.board() == with_items(pre.board(), i, seq_move(pre.board()[i].items, a, b)),
    {
        lemma_wf_others_clear(pre, i);
        lemma_others_clear_frame(pre, self, i);
        lemma_flags_ok(self, i);
        lemma_contents_flags(self.todolists@[i].todos@, seq_move(pre.todolists@[i].todos@, a, b));
        crate::reorder::lemma_seq_move_map(pre.todolists@[i].todos@, a, b, |t: Todo| t.content());
        lemma_board_update(self, pre, i);
    }

    /// Normal mode: makes the list on the left active, the row clamped to its length.
    pub fn move_left(&mut self)
        requires
            old(self).wf(),
        ensures
            final(self).wf(),
            final(self).board() == old(self).board(),
            final(self).mode == old(self).mode,
            final(self).visual_begin == old(self).visual_begin,
            final(self).command == old(self).command,
            match (old(self).mode, old(self).current_todolist) {
                (Mode::Normal, Some(i)) => if i > 0 {
                    &&& final(self).current_todolist == Some((i - 1) as usize)
                    &&& final(self).line_num == clamped(
                        old(self).line_num,
                        old(self).todolists@[i - 1].todos@.len(),
                    )
                } else {
                    *final(self) == *old(self)
                },
                _ => *final(self) == *old(self),
            },
    {
        if self.mode != Mode::Normal {
            return ;
        }
        if let Some(i) = self.current_todolist {
            if i > 0 {
                self.toggle_selection();
                self.current_todolist = Some(i - 1);
                self.refresh_line_num();
                self.toggle_selection();
                proof {
                    self.lemma_switch_done(*old(self), i as int, i - 1);
                }
            }
        }
    }

    /// Normal mode: makes the list on the right active, the row clamped to its length.
    pub fn move_right(&mut self)
        requires
            old(self).wf(),
        ensures
            final(self).wf(),
            final(self).board() == old(self).board(),
            final(self).mode == old(self).mode,
            final(self).visual_begin == old(self).visual_begin,
            final(self).command == old(self).command,
            match (old(self).mode, old(self).current_todolist) {
                (Mode::Normal, Some(i)) => if i + 1 < old(self).todolists@.len() {
                    &&& final(self).current_todolist == Some((i + 1) as usize)
                    &&& final(self).line_num == clamped(
                        old(self).line_num,
                        old(self).todolists@[i + 1].todos@.len(),
                    )
                } else {
                    *final(self) == *old(self)
                },
                _ => *final(self) == *old(self),
            },
    {
        if self.mode != Mode::Normal {
            return ;
        }
        if let Some(i) = self.current_todolist {
            let n = self.todolists.len();
            if i + 1 < n {
                self.toggle_selection();
                self.current_todolist = Some(i + 1);
                self.refresh_line_num();
                self.toggle_selection();
                proof {
                    self.lemma_switch_done(*old(self), i as int, i + 1);
                }
            }
        }
    }

    /// What the deselect, switch, clamp and reselect steps of a list switch
    /// leave behind.
    proof fn lemma_switch_done(self, pre: App, from: int, to: int)
        requires
            pre.wf(),
            pre.mode == Mode::Normal,
            pre.is_active(from),
            0 <= to < pre.todolists@.len(),
            from != to,
            self.is_active(to),
            self.mode == pre.mode,
            self.visual_begin == pre.visual_begin,
            self.command == pre.command,
            self.line_num == clamped(pre.line_num, pre.todolists@[to].todos@.len()),
            self.todolists@.len() == pre.todolists@.len(),
            forall|k: int| 0 <= k < pre.todolists@.len() && k != from && k != to ==> self.todolists@[k] == pre.todolists@[k],
            self.todolists@[from].title == pre.todolists@[from].title,
            self.todolists@[to].title == pre.todolists@[to].title,
            pre.line_num matches Some(r) ==> self.todolists@[from].todos@ == pre.todolists@[from].todos@.update(
                r as int,
                with_selected(pre.todolists@[from].todos@[r as int], !pre.todolists@[from].todos@[r as int].selected),
            ),
            pre.line_num is None ==> self.todolists@[from].todos@ == pre.todolists@[from].todos@,
            match self.line_num {
                Some(r) => self.todolists@[to].todos@ == pre.todolists@[to].todos@.update(
                    r as int,
                    with_selected(pre.todolists@[to].todos@[r as int], !pre.todolists@[to].todos@[r as int].selected),
                ),
                None => self.todolists@[to].todos@ == pre.todolists@[to].todos@,
            },
        ensures
            self.wf(),
            self.board() == pre.board(),
    {
        lemma_wf_others_clear(pre, from);
        assert(self.list_ok());
        assert forall|j: int| 0 <= j < self.todolists@[from].todos@.len() implies {
            &&& !(#[trigger] self.todolists@[from].todos@[j]).selected
            &&& self.todolists@[from].todos@[j].content() == pre.todolists@[from].todos@[j].content()
            &&& self.todolists@[from].todos@[j].editing == pre.todolists@[from].todos@[j].editing
        } by {
            assert(pre.todolists@[from].todos@[j].selected == pre.in_selection(j));
        }
        assert forall|j: int| 0 <= j < self.todolists@[to].todos@.len() implies {
            &&& (#[trigger] self.todolists@[to].todos@[j]).selected == self.is_row(j)
            &&& self.todolists@[to].todos@[j].content() == pre.todolists@[to].todos@[j].content()
            &&& self.todolists@[to].todos@[j].editing == pre.todolists@[to].todos@[j].editing
        } by {
            assert(!pre.todolists@[to].todos@[j].selected);
        }
        lemma_switched(pre, self, from, to);
    }

    /// Normal mode: drags the active list one place to the left, staying on it.
    pub fn move_todolist_left(&mut self)
        requires
            old(self).wf(),
        ensures
            final(self).wf(),
            final(self).mode == old(self).mode,
            final(self).line_num == old(self).line_num,
            final(self).visual_begin == old(self).visual_begin,
            final(self).command == old(self).command,
            match (old(self).mode, old(self).current_todolist) {
                (Mode::Normal, Some(i)) => if i > 0 {
                    &&& final(self).current_todolist == Some((i - 1) as usize)
                    &&& final(self).board() == seq_move(old(self).board(), i as int, i - 1)
                } else {
                    *final(self) == *old(self)
                },
                _ => *final(self) == *old(self),
            },
    {
        if self.mode != Mode::Normal {
            return ;
        }
        if let Some(i) = self.current_todolist {
            if i > 0 {
                self.move_todolist(i, i - 1);
                self.current_todolist = Some(i - 1);
                proof {
                    lemma_list_moved(*old(self), *self, i as int, i - 1);
                }
            }
        }
    }

    /// Normal mode: drags the active list one place to the right, staying on it.
    pub fn move_todolist_right(&mut self)
        requires
            old(self).wf(),
        ensures
            final(self).wf(),
            final(self).mode == old(self).mode,
            final(self).line_num == old(self).line_num,
            final(self).visual_begin == old(self).visual_begin,
            final(self).command == old(self).command,
            match (old(self).mode, old(self).current_todolist) {
                (Mode::Normal, Some(i)) => if i + 1 < old(self).todolists@.len() {
                    &&& final(self).current_todolist == Some((i + 1) as usize)
                    &&& final(self).board() == seq_move(old(self).board(), i as int, i + 1)
                } else {
                    *final(self) == *old(self)
                },
                _ => *final(self) == *old(self),
            },
    {
        if self.mode != Mode::Normal {
            return ;
        }
        if let Some(i) = self.current_todolist {
            let n = self.todolists.len();
            if i + 1 < n {
                self.move_todolist(i, i + 1);
                self.current_todolist = Some(i + 1);
                proof {
                    lemma_list_moved(*old(self), *self, i as int, i + 1);
                }
            }
        }
    }

    /// Visual mode: moves the row up, stopping at the first, and selects the range
    /// between anchor and row.
    pub fn visual_move_up(&mut self)
        requires
            old(self).wf(),
        ensures
            final(self).wf(),
            final(self).board() == old(self).board(),
            final(self).current_todolist == old(self).current_todolist,
            final(self).mode == old(self).mode,
            final(self).visual_begin == old(self).visual_begin,
            final(self).command == old(self).command,
            final(self).line_num == match (old(self).mode, old(self).line_num) {
                (Mode::Visual, Some(r)) => if r > 0 { Some((r - 1) as usize) } else { Some(r) },
                _ => old(self).line_num,
            },
            !(old(self).mode == Mode::Visual) ==> *final(self) == *old(self),
    {
        if self.mode != Mode::Visual {
            return ;
        }
        if let Some(line_num) = self.line_num {
            if line_num > 0 {
                self.line_num = Some(line_num - 1);
                let ghost mid = *self;
                self.refresh_visual_selection();
                proof {
                    let i = self.current_todolist->0 as int;
                    lemma_visual_refreshed(*old(self), mid, *self, i);
                }
            }
        }
    }

    /// Visual mode: moves the row down, stopping at the last, and selects the
    /// range between anchor and row; from the title, focuses and anchors the first
    /// row of a non-empty list.
    pub fn visual_move_down(&mut self)
        requires
            old(self).wf(),
        ensures
            final(self).wf(),
            final(self).board() == old(self).board(),
            final(self).current_todolist == old(self).current_todolist,
            final(self).mode == old(self).mode,
            final(self).command == old(self).command,
            old(self).mode == Mode::Visual ==> match old(self).line_num {
                Some(r) => {
                    &&& final(self).visual_begin == old(self).visual_begin
                    &&& final(self).line_num == if r + 1 < old(self).active_todos().len() {
                        Some((r + 1) as usize)
                    } else {
                        Some(r)
                    }
                },
                None => if old(self).active_todos().len() > 0 {
                    final(self).line_num == Some(0usize) && final(self).visual_begin == Some(0usize)
                } else {
                    *final(self) == *old(self)
                },
            },
            !(old(self).mode == Mode::Visual) ==> *final(self) == *old(self),
    {
        if self.mode != Mode::Visual {
            return ;
        }
        if let Some(i) = self.current_todolist {
            let n = self.todolists[i].todos.len();
            if let Some(line_num) = self.line_num {
                if line_num + 1 < n {
                    self.line_num = Some(line_num + 1);
                    let ghost mid = *self;
                    self.refresh_visual_selection();
                    proof {
                        lemma_visual_refreshed(*old(self), mid, *self, i as int);
                    }
                }
            } else if n > 0 {
                self.line_num = Some(0);
                self.visual_begin = Some(0);
                let ghost mid = *self;
                self.refresh_visual_selection();
                proof {
                    lemma_visual_refreshed(*old(self), mid, *self, i as int);
                }
            }
        }
    }

    /// Visual mode: slides the selected block one row up by moving the task just
    /// above it to just below it; row and anchor follow. Nothing happens at the top.
    pub fn visual_move_todo_up(&mut self)
        requires
            old(self).wf(),
        ensures
            final(self).wf(),
            final(self).current_todolist == old(self).current_todolist,
            final(self).mode == old(self).mode,
            final(self).command == old(self).command,
            match (old(self).mode, old(self).current_todolist, old(self).line_num, old(self).visual_begin) {
                (Mode::Visual, Some(i), Some(r), Some(v)) => {
                    let lo = min_int(r as int, v as int);
                    let hi = max_int(r as int, v as int);
                    if lo > 0 {
                        &&& final(self).board() == with_items(
                            old(self).board(),
                            i as int,
                            seq_move(old(self).board()[i as int].items, lo - 1, hi),
                        )
                        &&& final(self).line_num == Some((r - 1) as usize)
                        &&& final(self).visual_begin == Some((v - 1) as usize)
                    } else {
                        *final(self) == *old(self)
                    }
                },
                _ => *final(self) == *old(self),
            },
    {
        if self.mode != Mode::Visual {
            return ;
        }
        if let Some(line_num) = self.line_num {
            if let Some(visual_begin) = self.visual_begin {
                if let Some(i) = self.current_todolist {
                    let a = if line_num <= visual_begin { line_num } else { visual_begin };
                    let b = if line_num <= visual_begin { visual_begin } else { line_num };
                    if a > 0 {
                        self.todolists[i].move_todo(a - 1, b);
                        self.line_num = Some(line_num - 1);
                        self.visual_begin = Some(visual_begin - 1);
                        proof {
                            assert forall|j: int| 0 <= j < old(self).todolists@[i as int].todos@.len()
                                implies self.in_selection(
                                #[trigger] crate::reorder::seq_move_index(a - 1, b as int, j),
                            ) == old(self).in_selection(j) by {}
                            lemma_block_dragged(*old(self), *self, i as int, a - 1, b as int);
                        }
                    }
                }
            }
        }
    }

    /// Visual mode: slides the selected block one row down by moving the task just
    /// below it to just above it; row and anchor follow. Nothing happens at the bottom.
    pub fn visual_move_todo_down(&mut self)
        requires
            old(self).wf(),
        ensures
            final(self).wf(),
            final(self).current_todolist == old(self).current_todolist,
            final(self).mode == old(self).mode,
            final(self).command == old(self).command,
            match (old(self).mode, old(self).current_todolist, old(self).line_num, old(self).visual_begin) {
                (Mode::Visual, Some(i), Some(r), Some(v)) => {
                    let lo = min_int(r as int, v as int);
                    let hi = max_int(r as int, v as int);
                    if hi + 1 < old(self).active_todos().len() {
                        &&& final(self).board() == with_items(
                            old(self).board(),
                            i as int,
                            seq_move(old(self).board()[i as int].items, hi + 1, lo),
                        )
                        &&& final(self).line_num == Some((r + 1) as usize)
                        &&& final(self).visual_begin == Some((v + 1) as usize)
                    } else {
                        *final(self) == *old(self)
                    }
                },
                _ => *final(self) == *old(self),
            },
    {
        if self.mode != Mode::Visual {
            return ;
        }
        if let Some(visual_begin) = self.visual_begin {
            if let Some(line_num) = self.line_num {
                if let Some(i) = self.current_todolist {
                    let n = self.todolists[i].todos.len();
                    let a = if line_num <= visual_begin { line_num } else { visual_begin };
                    let b = if line_num <= visual_begin { visual_begin } else { line_num };
                    if b + 1 < n {
                        self.todolists[i].move_todo(b + 1, a);
                        self.line_num = Some(line_num + 1);
                        self.visual_begin = Some(visual_begin + 1);
                        proof {
                            assert forall|j: int| 0 <= j < old(self).todolists@[i as int].todos@.len()
                                implies self.in_selection(
                                #[trigger] crate::reorder::seq_move_index(b + 1, a as int, j),
                            ) == old(self).in_selection(j) by {}
                            lemma_block_dragged(*old(self), *self, i as int, b + 1, a as int);
                        }
                    }
                }
            }
        }
    }
}

} // verus!
