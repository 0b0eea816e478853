use vstd::prelude::*;

use crate::app::{
    App,
    ItemView,
    ListView,
    Mark,
    Mode,
    Todo,
    TodoList,
    blank_item,
    blank_list,
    clamped,
    cleaned,
    contents,
    drop_last_char,
    marked,
    min_int,
    with_completed,
    with_items,
    without,
};
use crate::lemmas::{
    lemma_board_update,
    lemma_contents_flags,
    lemma_contents_without_completed,
    lemma_flags_from_active,
    lemma_flags_ok,
    lemma_others_clear_frame,
    lemma_same_board,
    lemma_wf_others_clear,
    lemma_without_all,
    lemma_without_from,
};
use crate::text::{is_word, pop_char, push_char};

verus! {

impl App {
    /// Normal mode enters insert mode, marking the focused task as being edited
    /// (or, with no focused row, the active list's title); insert mode returns to
    /// normal mode. Other modes are left alone.
    pub fn toggle_editing(&mut self)
        requires
            old(self).wf(),
        ensures
            final(self).wf(),
            final(self).board() == old(self).board(),
            final(self).current_todolist == old(self).current_todolist,
            final(self).line_num == old(self).line_num,
            final(self).visual_begin == old(self).visual_begin,
            final(self).command == old(self).command,
            final(self).mode == match old(self).mode {
                Mode::Normal => Mode::Insert,
                Mode::Insert => Mode::Normal,
                m => m,
            },
    {
        match self.mode {
            Mode::Normal => {
                self.mode = Mode::Insert;
            },
            Mode::Insert => {
                self.mode = Mode::Normal;
            },
            _ => {
                return ;
            },
        }
        self.toggle_todo_editing();
        proof {
            if let Some(i) = self.current_todolist {
                let ii = i as int;
                lemma_wf_others_clear(*old(self), ii);
                lemma_others_clear_frame(*old(self), *self, ii);
                assert forall|j: int| 0 <= j < self.todolists@[ii].todos@.len() implies {
                    &&& (#[trigger] self.todolists@[ii].todos@[j]).selected == self.in_selection(j)
                    &&& self.todolists@[ii].todos@[j].editing == self.is_editing_row(ii, j)
                } by {
                    assert(old(self).todolists@[ii].todos@[j].editing == old(self).is_editing_row(ii, j));
                }
                lemma_flags_ok(*self, ii);
                assert forall|j: int| 0 <= j < self.todolists@[ii].todos@.len() implies (
                #[trigger] self.todolists@[ii].todos@[j]).content()
                    == old(self).todolists@[ii].todos@[j].content() by {}
                lemma_contents_flags(self.todolists@[ii].todos@, old(self).todolists@[ii].todos@);
                lemma_board_update(*self, *old(self), ii);
                assert(self.board() =~= old(self).board());
            }
        }
    }

    /// Normal mode enters visual mode with the range anchored at the focused row;
    /// visual mode returns to normal mode, the selection back to that row.
    pub fn toggle_visual(&mut self)
        requires
            old(self).wf(),
        ensures
            final(self).wf(),
            final(self).board() == old(self).board(),
            final(self).current_todolist == old(self).current_todolist,
            final(self).line_num == old(self).line_num,
            final(self).command == old(self).command,
            match old(self).mode {
                Mode::Normal => final(self).mode == Mode::Visual && final(self).visual_begin
                    == old(self).line_num,
                Mode::Visual => final(self).mode == Mode::Normal && final(self).visual_begin is None,
                _ => *final(self) == *old(self),
            },
    {
        match self.mode {
            Mode::Visual => {
                self.mode = Mode::Normal;
                self.visual_begin = None;
                self.refresh_normal_selection();
                proof {
                    if let Some(i) = self.current_todolist {
                        let ii = i as int;
                        lemma_wf_others_clear(*old(self), ii);
                        lemma_others_clear_frame(*old(self), *self, ii);
                        assert forall|j: int| 0 <= j < self.todolists@[ii].todos@.len() implies {
                            &&& (#[trigger] self.todolists@[ii].todos@[j]).selected == self.in_selection(j)
                            &&& self.todolists@[ii].todos@[j].editing == self.is_editing_row(ii, j)
                        } by {
                            assert(old(self).todolists@[ii].todos@[j].editing == old(self).is_editing_row(
                                ii,
                                j,
                            ));
                        }
                        lemma_flags_ok(*self, ii);
                        lemma_same_board(*self, *old(self));
                    }
                }
            },
            Mode::Normal => {
                self.mode = Mode::Visual;
                if let Some(line_num) = self.line_num {
                    self.visual_begin = Some(line_num);
                }
                proof {
                    if let Some(i) = self.current_todolist {
                        let ii = i as int;
                        lemma_wf_others_clear(*old(self), ii);
                        lemma_others_clear_frame(*old(self), *self, ii);
                        assert forall|j: int| 0 <= j < self.todolists@[ii].todos@.len() implies {
                            &&& (#[trigger] self.todolists@[ii].todos@[j]).selected == self.in_selection(j)
                            &&& self.todolists@[ii].todos@[j].editing == self.is_editing_row(ii, j)
                        } by {
                            assert(old(self).todolists@[ii].todos@[j].selected == old(self).in_selection(j));
                            assert(old(self).todolists@[ii].todos@[j].editing == old(self).is_editing_row(
                                ii,
                                j,
                            ));
                        }
                        lemma_flags_ok(*self, ii);
                    }
                }
            },
            _ => {},
        }
    }

    /// Normal and visual mode enter command mode with the buffer holding the
    /// prompt `:`; other modes are left alone.
    pub fn toggle_command(&mut self)
        requires
            old(self).wf(),
        ensures
            final(self).wf(),
            final(self).todolists == old(self).todolists,
            final(self).current_todolist == old(self).current_todolist,
            final(self).line_num == old(self).line_num,
            final(self).visual_begin == old(self).visual_begin,
            old(self).mode == Mode::Normal || old(self).mode == Mode::Visual ==> {
                &&& final(self).mode == Mode::Command
                &&& final(self).command.value@ == seq![':']
            },
            !(old(self).mode == Mode::Normal || old(self).mode == Mode::Visual) ==> *final(self)
                == *old(self),
    {
        match self.mode {
            Mode::Normal | Mode::Visual => {
                self.mode = Mode::Command;
                self.command.value = ":".to_string();
                proof {
                    reveal_strlit(":");
                    assert(self.command.value@ =~= seq![':']);
                    if let Some(i) = self.current_todolist {
                        let ii = i as int;
                        lemma_wf_others_clear(*old(self), ii);
                        assert forall|j: int| 0 <= j < self.todolists@[ii].todos@.len() implies {
                            &&& (#[trigger] self.todolists@[ii].todos@[j]).selected == self.in_selection(j)
                            &&& self.todolists@[ii].todos@[j].editing == self.is_editing_row(ii, j)
                        } by {
                            assert(old(self).todolists@[ii].todos@[j].editing == old(self).is_editing_row(
                                ii,
                                j,
                            ));
                        }
                        lemma_flags_ok(*self, ii);
                    }
                }
            },
            _ => {},
        }
    }

    /// Normal mode: adds an empty list right after the active one (first, when
    /// there is none) and makes it active, focused on its title.
    pub fn add_todolist(&mut self)
        requires
            old(self).wf(),
        ensures
            final(self).wf(),
            final(self).visual_begin == old(self).visual_begin,
            final(self).mode == old(self).mode,
            final(self).command == old(self).command,
            old(self).mode == Mode::Normal ==> {
                let p = match old(self).current_todolist {
                    Some(i) => i + 1,
                    None => 0,
                };
                &&& final(self).board() == old(self).board().insert(p, blank_list())
                &&& final(self).current_todolist == Some(p as usize)
                &&& final(self).line_num is None
            },
            old(self).mode != Mode::Normal ==> *final(self) == *old(self),
    {
        if self.mode != Mode::Normal {
            return ;
        }
        self.toggle_selection();
        let ghost mid = *self;
        let fresh = TodoList::new();
        self.todolists.push(fresh);
        let n = self.todolists.len();
        let p: usize = match self.current_todolist {
            Some(i) => i + 1,
            None => 0,
        };
        self.move_todolist(n - 1, p);
        self.current_todolist = Some(p);
        self.line_num = None;
        proof {
            let q = p as int;
            assert(self.todolists@ =~= mid.todolists@.insert(q, fresh));
            assert forall|k: int, j: int|
                0 <= k < self.todolists@.len() && k != q && 0 <= j < self.todolists@[k].todos@.len()
                    implies !(#[trigger] self.todolists@[k].todos@[j]).selected
                && !self.todolists@[k].todos@[j].editing by {
                let k0 = if k < q { k } else { k - 1 };
                assert(self.todolists@[k] == mid.todolists@[k0]);
                if old(self).is_active(k0) {
                    let r = old(self).line_num;
                    if r is Some && j == r->0 {
                    } else {
                        assert(mid.todolists@[k0].todos@[j] == old(self).todolists@[k0].todos@[j]);
                    }
                    assert(old(self).todolists@[k0].todos@[j].editing == old(self).is_editing_row(k0, j));
                } else {
                    assert(mid.todolists@[k0] == old(self).todolists@[k0]);
                    assert(old(self).todolists@[k0].todos@[j].selected == (old(self).is_active(k0)
                        && old(self).in_selection(j)));
                    assert(old(self).todolists@[k0].todos@[j].editing == old(self).is_editing_row(k0, j));
                }
            }
            lemma_flags_ok(*self, q);
            assert(self.board() =~= old(self).board().insert(q, blank_list())) by {
                assert forall|k: int| 0 <= k < self.todolists@.len() implies #[trigger] self.board()[k]
                    == old(self).board().insert(q, blank_list())[k] by {
                    if k == q {
                        assert(contents(fresh.todos@) =~= Seq::<ItemView>::empty());
                    } else {
                        let k0 = if k < q { k } else { k - 1 };
                        assert(self.todolists@[k] == mid.todolists@[k0]);
                        assert forall|j: int| 0 <= j < mid.todolists@[k0].todos@.len() implies (
                        #[trigger] mid.todolists@[k0].todos@[j]).content()
                            == old(self).todolists@[k0].todos@[j].content() by {}
                        lemma_contents_flags(mid.todolists@[k0].todos@, old(self).todolists@[k0].todos@);
                    }
                }
            }
        }
    }

    /// Normal mode: removes the active list. The list that takes its place (or
    /// the new last one) becomes active with the row clamped to it; with no list
    /// left there is no active list and no row.
    pub fn delete_todolist(&mut self)
        requires
            old(self).wf(),
        ensures
            final(self).wf(),
            final(self).visual_begin == old(self).visual_begin,
            final(self).mode == old(self).mode,
            final(self).command == old(self).command,
            match (old(self).mode, old(self).current_todolist) {
                (Mode::Normal, Some(i)) => {
                    let n = old(self).todolists@.len() - 1;
                    let c = min_int(i as int, n - 1);
                    &&& final(self).board() == old(self).board().remove(i as int)
                    &&& n == 0 ==> final(self).current_todolist is None && final(self).line_num is None
                    &&& n > 0 ==> final(self).current_todolist == Some(c as usize) && final(self).line_num
                        == clamped(old(self).line_num, final(self).todolists@[c].todos@.len())
                },
                _ => *final(self) == *old(self),
            },
    {
        if self.mode != Mode::Normal {
            return ;
        }
        if let Some(i) = self.current_todolist {
            let ghost pre = *self;
            let last = self.todolists.len() - 1;
            self.move_todolist(i, last);
            let _ = self.todolists.pop();
            proof {
                assert(self.todolists@ =~= pre.todolists@.remove(i as int)) by {
                    assert forall|k: int| 0 <= k < self.todolists@.len() implies self.todolists@[k]
                        == pre.todolists@.remove(i as int)[k] by {
                        crate::reorder::lemma_seq_move_index(pre.todolists@, i as int, last as int, k);
                    }
                }
                crate::reorder::lemma_seq_move_map(pre.todolists@, i as int, last as int, |l: TodoList| l.content());
                assert(self.board() =~= pre.board().remove(i as int));
            }
            let n = self.todolists.len();
            if n == 0 {
                self.current_todolist = None;
                self.line_num = None;
            } else {
                let c = if n - 1 < i { n - 1 } else { i };
                self.current_todolist = Some(c);
                self.refresh_line_num();
                let ghost before = *self;
                self.refresh_normal_selection();
                proof {
                    let cc = c as int;
                    lemma_wf_others_clear(pre, i as int);
                    assert forall|k: int, j: int|
                        0 <= k < self.todolists@.len() && 0 <= j < self.todolists@[k].todos@.len()
                            implies !(#[trigger] before.todolists@[k].todos@[j]).selected
                        && !before.todolists@[k].todos@[j].editing by {
                        let k0 = if k < i { k } else { k + 1 };
                        assert(before.todolists@[k] == pre.todolists@[k0]);
                    }
                    assert forall|k: int, j: int|
                        0 <= k < self.todolists@.len() && k != cc && 0 <= j < self.todolists@[k].todos@.len()
                            implies !(#[trigger] self.todolists@[k].todos@[j]).selected
                        && !self.todolists@[k].todos@[j].editing by {
                        assert(self.todolists@[k] == before.todolists@[k]);
                    }
                    assert forall|j: int| 0 <= j < self.todolists@[cc].todos@.len() implies {
                        &&& (#[trigger] self.todolists@[cc].todos@[j]).selected == self.in_selection(j)
                        &&& self.todolists@[cc].todos@[j].editing == self.is_editing_row(cc, j)
                    } by {
                        assert(!before.todolists@[cc].todos@[j].editing);
                    }
                    lemma_flags_ok(*self, cc);
                    lemma_same_board(*self, before);
                }
            }
        }
    }

    /// Normal mode: inserts a blank task right after the focused row (first, when
    /// no row is focused), focuses it and enters insert mode to type its text.
    /// Nothing happens without an active list.
    pub fn add_todo(&mut self)
        requires
            old(self).wf(),
        ensures
            final(self).wf(),
            final(self).current_todolist == old(self).current_todolist,
            final(self).visual_begin == old(self).visual_begin,
            final(self).command == old(self).command,
            match (old(self).mode, old(self).current_todolist) {
                (Mode::Normal, Some(i)) => {
                    let p = match old(self).line_num {
                        Some(r) => r + 1,
                        None => 0,
                    };
                    &&& final(self).board() == with_items(
                        old(self).board(),
                        i as int,
                        old(self).board()[i as int].items.insert(p, blank_item()),
                    )
                    &&& final(self).line_num == Some(p as usize)
                    &&& final(self).mode == Mode::Insert
                },
                _ => *final(self) == *old(self),
            },
    {
        if self.mode != Mode::Normal {
            return ;
        }
        if let Some(i) = self.current_todolist {
            let n = self.todolists[i].todos.len();
            let p: usize = match self.line_num {
                Some(r) => {
                    assert(r < n);
                    r + 1
                },
                None => 0,
            };
            let fresh = Todo::new();
            self.todolists[i].add_todo(fresh, p);
            self.line_num = Some(p);
            self.refresh_normal_selection();
            proof {
                let ii = i as int;
                let s = old(self).todolists@[ii].todos@;
                lemma_wf_others_clear(*old(self), ii);
                lemma_others_clear_frame(*old(self), *self, ii);
                assert forall|j: int| 0 <= j < self.todolists@[ii].todos@.len() implies {
                    &&& (#[trigger] self.todolists@[ii].todos@[j]).selected == self.in_selection(j)
                    &&& self.todolists@[ii].todos@[j].editing == self.is_editing_row(ii, j)
                } by {
                    if j < p {
                        assert(!s[j].editing);
                    } else if j > p {
                        assert(!s[j - 1].editing);
                    }
                }
                lemma_flags_ok(*self, ii);
                assert forall|j: int| 0 <= j < self.todolists@[ii].todos@.len() implies (
                #[trigger] self.todolists@[ii].todos@[j]).content() == s.insert(p as int, fresh)[j].content() by {}
                lemma_contents_flags(self.todolists@[ii].todos@, s.insert(p as int, fresh));
                assert(contents(s.insert(p as int, fresh)) =~= contents(s).insert(p as int, blank_item()));
                lemma_board_update(*self, *old(self), ii);
            }
            self.toggle_editing();
        }
    }

    /// Removes every selected task of the active list (the focused one, or the
    /// whole visual range), clamps the row to what is left, and returns to normal
    /// mode with no range anchor.
    pub fn delete(&mut self)
        requires
            old(self).wf(),
        ensures
            final(self).wf(),
            final(self).mode == Mode::Normal,
            final(self).visual_begin is None,
            final(self).current_todolist == old(self).current_todolist,
            final(self).command == old(self).command,
            final(self).line_num == clamped(old(self).line_num, final(self).active_todos().len()),
            match old(self).current_todolist {
                Some(i) => final(self).board() == with_items(
                    old(self).board(),
                    i as int,
                    contents(without(old(self).todolists@[i as int].todos@, Mark::Selected)),
                ),
                None => final(self).board() == old(self).board(),
            },
            old(self).active_todos().len() > 0 && (forall|j: int|
                0 <= j < old(self).active_todos().len() ==> old(self).in_selection(j)) ==> {
                &&& final(self).active_todos().len() == 0
                &&& final(self).line_num is None
            },
    {
        let ghost pre = *self;
        if let Some(i) = self.current_todolist {
            self.todolists[i].remove_marked(Mark::Selected);
            let n = self.todolists[i].todos.len();
            if n == 0 {
                self.line_num = None;
            } else if let Some(r) = self.line_num {
                self.line_num = Some(if r < n - 1 { r } else { n - 1 });
            }
            proof {
                let ii = i as int;
                let s = pre.todolists@[ii].todos@;
                lemma_wf_others_clear(pre, ii);
                assert forall|j: int| 0 <= j < self.todolists@[ii].todos@.len() implies !(
                #[trigger] self.todolists@[ii].todos@[j]).editing by {
                    lemma_without_from(s, Mark::Selected, j);
                    let q = choose|q: int| 0 <= q < s.len() && #[trigger] s[q] == without(s, Mark::Selected)[j]
                        && !marked(s[q], Mark::Selected);
                    assert(s[q].selected == pre.in_selection(q));
                }
                if pre.active_todos().len() > 0 && (forall|j: int|
                    0 <= j < pre.active_todos().len() ==> pre.in_selection(j)) {
                    assert forall|j: int| 0 <= j < s.len() implies marked(#[trigger] s[j], Mark::Selected) by {
                        assert(s[j].selected == pre.in_selection(j));
                    }
                    lemma_without_all(s, Mark::Selected);
                }
                lemma_board_update(*self, pre, ii);
            }
        }
        self.mode = Mode::Normal;
        self.visual_begin = None;
        let ghost before = *self;
        self.refresh_normal_selection();
        proof {
            if let Some(i) = self.current_todolist {
                let ii = i as int;
                lemma_others_clear_frame(pre, before, ii);
                lemma_others_clear_frame(before, *self, ii);
                assert forall|j: int| 0 <= j < self.todolists@[ii].todos@.len() implies {
                    &&& (#[trigger] self.todolists@[ii].todos@[j]).selected == self.in_selection(j)
                    &&& self.todolists@[ii].todos@[j].editing == self.is_editing_row(ii, j)
                } by {
                    assert(!before.todolists@[ii].todos@[j].editing);
                }
                lemma_flags_ok(*self, ii);
                lemma_contents_flags(self.todolists@[ii].todos@, before.todolists@[ii].todos@);
                lemma_board_update(*self, before, ii);
                assert(self.board() =~= before.board());
            }
        }
    }

    /// Removes every completed task from every list, clamps the row, clears the
    /// command buffer and returns to normal mode with no range anchor.
    pub fn clean(&mut self)
        requires
            old(self).wf(),
        ensures
            final(self).wf(),
            final(self).mode == Mode::Normal,
            final(self).visual_begin is None,
            final(self).command.value@.len() == 0,
            final(self).current_todolist == old(self).current_todolist,
            final(self).board() == cleaned(old(self).board()),
            final(self).line_num == clamped(old(self).line_num, final(self).active_todos().len()),
    {
        if self.mode == Mode::Insert {
            self.toggle_editing();
        }
        let ghost pre = *self;
        let n = self.todolists.len();
        let mut k: usize = 0;
        while k < n
            invariant
                n == self.todolists@.len(),
                n == pre.todolists@.len(),
                k <= n,
                self.current_todolist == pre.current_todolist,
                self.mode == pre.mode,
                self.line_num == pre.line_num,
                self.visual_begin == pre.visual_begin,
                self.command == pre.command,
                forall|q: int| 0 <= q < n ==> (#[trigger] self.todolists@[q]).title == pre.todolists@[q].title,
                forall|q: int| 0 <= q < n ==> #[trigger] self.todolists@[q].todos@ == if q < k {
                    without(pre.todolists@[q].todos@, Mark::Completed)
                } else {
                    pre.todolists@[q].todos@
                },
            decreases n - k,
        {
            self.todolists[k].remove_marked(Mark::Completed);
            k = k + 1;
        }
        proof {
            assert forall|q: int| 0 <= q < n implies #[trigger] self.board()[q] == cleaned(pre.board())[q] by {
                lemma_contents_without_completed(pre.todolists@[q].todos@);
            }
            assert(self.board() =~= cleaned(pre.board()));
        }
        self.refresh_line_num();
        self.mode = Mode::Normal;
        self.visual_begin = None;
        self.command.value = String::new();
        let ghost before = *self;
        self.refresh_normal_selection();
        proof {
            if let Some(i) = self.current_todolist {
                let ii = i as int;
                lemma_wf_others_clear(pre, ii);
                assert forall|q: int, j: int|
                    0 <= q < n && 0 <= j < before.todolists@[q].todos@.len() implies !(
                    #[trigger] before.todolists@[q].todos@[j]).editing && (q != ii
                    ==> !before.todolists@[q].todos@[j].selected) by {
                    let s = pre.todolists@[q].todos@;
                    lemma_without_from(s, Mark::Completed, j);
                    let w = choose|w: int| 0 <= w < s.len() && #[trigger] s[w] == without(s, Mark::Completed)[j]
                        && !marked(s[w], Mark::Completed);
                    assert(s[w].editing == pre.is_editing_row(q, w));
                    assert(s[w].selected == (pre.is_active(q) && pre.in_selection(w)));
                }
                lemma_others_clear_frame(before, *self, ii);
                assert forall|j: int| 0 <= j < self.todolists@[ii].todos@.len() implies {
                    &&& (#[trigger] self.todolists@[ii].todos@[j]).selected == self.in_selection(j)
                    &&& self.todolists@[ii].todos@[j].editing == self.is_editing_row(ii, j)
                } by {
                    assert(!before.todolists@[ii].todos@[j].editing);
                }
                lemma_flags_ok(*self, ii);
                lemma_contents_flags(self.todolists@[ii].todos@, before.todolists@[ii].todos@);
                lemma_board_update(*self, before, ii);
                assert(self.board() =~= before.board());
            }
        }
    }

    /// Command mode: runs the buffer and returns to normal mode with no range
    /// anchor and an empty buffer. `:clean` removes the completed tasks; `:w`
    /// asks the caller to save, which the result reports; anything else does
    /// nothing more. Other modes are left alone and ask for nothing.
    pub fn execute(&mut self) -> (save: bool)
        requires
            old(self).wf(),
        ensures
            final(self).wf(),
            final(self).current_todolist == old(self).current_todolist,
            old(self).mode == Mode::Command ==> {
                &&& save == (old(self).command.value@ == ":w"@)
                &&& final(self).mode == Mode::Normal
                &&& final(self).visual_begin is None
                &&& final(self).command.value@.len() == 0
                &&& if old(self).command.value@ == ":clean"@ {
                    &&& final(self).board() == cleaned(old(self).board())
                    &&& final(self).line_num == clamped(old(self).line_num, final(self).active_todos().len())
                } else {
                    &&& final(self).board() == old(self).board()
                    &&& final(self).line_num == old(self).line_num
                }
            },
            old(self).mode != Mode::Command ==> !save && *final(self) == *old(self),
    {
        if self.mode != Mode::Command {
            return false;
        }
        let save = is_word(&self.command.value, ":w");
        if is_word(&self.command.value, ":clean") {
            self.clean();
        } else {
            self.mode = Mode::Normal;
            self.visual_begin = None;
            self.command.value = String::new();
            let ghost before = *self;
            self.refresh_normal_selection();
            proof {
                if let Some(i) = self.current_todolist {
                    let ii = i as int;
                    lemma_wf_others_clear(*old(self), ii);
                    lemma_others_clear_frame(*old(self), *self, ii);
                    assert forall|j: int| 0 <= j < self.todolists@[ii].todos@.len() implies {
                        &&& (#[trigger] self.todolists@[ii].todos@[j]).selected == self.in_selection(j)
                        &&& self.todolists@[ii].todos@[j].editing == self.is_editing_row(ii, j)
                    } by {
                        assert(old(self).todolists@[ii].todos@[j].editing == old(self).is_editing_row(ii, j));
                    }
                    lemma_flags_ok(*self, ii);
                    lemma_same_board(*self, *old(self));
                }
            }
        }
        save
    }

    /// Flips the completion flag of every selected task of the active list.
    pub fn toggle_completetion(&mut self)
        requires
            old(self).wf(),
        ensures
            final(self).wf(),
            final(self).current_todolist == old(self).current_todolist,
            final(self).mode == old(self).mode,
            final(self).line_num == old(self).line_num,
            final(self).visual_begin == old(self).visual_begin,
            final(self).command == old(self).command,
            match old(self).current_todolist {
                Some(i) => final(self).board() == with_items(
                    old(self).board(),
                    i as int,
                    old(self).board()[i as int].items.map(
                        |j: int, x: ItemView|
                            ItemView { completed: x.completed != old(self).in_selection(j), ..x },
                    ),
                ),
                None => *final(self) == *old(self),
            },
    {
        if let Some(i) = self.current_todolist {
            let n = self.todolists[i].todos.len();
            let mut j: usize = 0;
            while j < n
                invariant
                    old(self).current_todolist == Some(i),
                    i < self.todolists@.len(),
                    self.only_list_changed(*old(self), i as int),
                    self.todolists@[i as int].todos@.len() == n,
                    n == old(self).todolists@[i as int].todos@.len(),
                    forall|q: int| 0 <= q < n ==> #[trigger] self.todolists@[i as int].todos@[q]
                        == if q < j && old(self).todolists@[i as int].todos@[q].selected {
                        with_completed(
                            old(self).todolists@[i as int].todos@[q],
                            !old(self).todolists@[i as int].todos@[q].completed,
                        )
                    } else {
                        old(self).todolists@[i as int].todos@[q]
                    },
                decreases n - j,
            {
                if self.todolists[i].todos[j].selected {
                    let c = self.todolists[i].todos[j].completed;
                    self.todolists[i].todos[j].completed = !c;
                }
                j = j + 1;
            }
            proof {
                let ii = i as int;
                let s = old(self).todolists@[ii].todos@;
                lemma_wf_others_clear(*old(self), ii);
                lemma_others_clear_frame(*old(self), *self, ii);
                assert forall|q: int| 0 <= q < n implies {
                    &&& (#[trigger] self.todolists@[ii].todos@[q]).selected == self.in_selection(q)
                    &&& self.todolists@[ii].todos@[q].editing == self.is_editing_row(ii, q)
                } by {
                    assert(s[q].selected == old(self).in_selection(q));
                }
                lemma_flags_ok(*self, ii);
                assert forall|q: int| 0 <= q < n implies s[q].selected == old(self).in_selection(q) by {}
                lemma_board_update(*self, *old(self), ii);
                assert(contents(self.todolists@[ii].todos@) =~= old(self).board()[ii].items.map(
                    |j: int, x: ItemView| ItemView { completed: x.completed != old(self).in_selection(j), ..x },
                ));
            }
        }
    }

    /// Insert mode: appends `c` to the focused task's text, or to the active
    /// list's title when no row is focused. Command mode: appends `c` to the
    /// buffer. Other modes ignore it.
    pub fn type_char(&mut self, c: char)
        requires
            old(self).wf(),
        ensures
            final(self).wf(),
            final(self).current_todolist == old(self).current_todolist,
            final(self).mode == old(self).mode,
            final(self).line_num == old(self).line_num,
            final(self).visual_begin == old(self).visual_begin,
            match (old(self).mode, old(self).current_todolist, old(self).line_num) {
                (Mode::Insert, Some(i), Some(r)) => {
                    let it = old(self).board()[i as int].items[r as int];
                    &&& final(self).board() == with_items(
                        old(self).board(),
                        i as int,
                        old(self).board()[i as int].items.update(r as int, ItemView { text: it.text.push(c), ..it }),
                    )
                    &&& final(self).command == old(self).command
                },
                (Mode::Insert, Some(i), None) => {
                    &&& final(self).board() == old(self).board().update(
                        i as int,
                        ListView { title: old(self).board()[i as int].title.push(c), ..old(self).board()[i as int] },
                    )
                    &&& final(self).command == old(self).command
                },
                (Mode::Command, _, _) => {
                    &&& final(self).board() == old(self).board()
                    &&& final(self).command.value@ == old(self).command.value@.push(c)
                },
                _ => *final(self) == *old(self),
            },
    {
        match self.mode {
            Mode::Insert => {
                if let Some(i) = self.current_todolist {
                    if let Some(r) = self.line_num {
                        push_char(&mut self.todolists[i].todos[r].value, c);
                        proof {
                            self.lemma_text_edited(*old(self), i as int, r as int);
                        }
                    } else {
                        push_char(&mut self.todolists[i].title, c);
                        proof {
                            self.lemma_title_edited(*old(self), i as int);
                        }
                    }
                }
            },
            Mode::Command => {
                push_char(&mut self.command.value, c);
                proof {
                    if let Some(i) = self.current_todolist {
                        lemma_flags_from_active(*old(self), *self, i as int);
                    }
                }
            },
            _ => {},
        }
    }

    /// Insert mode: removes the last character of the focused task's text, or of
    /// the active list's title when no row is focused. Command mode: removes the
    /// last character of the buffer. Other modes ignore it.
    pub fn backspace(&mut self)
        requires
            old(self).wf(),
        ensures
            final(self).wf(),
            final(self).current_todolist == old(self).current_todolist,
            final(self).mode == old(self).mode,
            final(self).line_num == old(self).line_num,
            final(self).visual_begin == old(self).visual_begin,
            match (old(self).mode, old(self).current_todolist, old(self).line_num) {
                (Mode::Insert, Some(i), Some(r)) => {
                    let it = old(self).board()[i as int].items[r as int];
                    &&& final(self).board() == with_items(
                        old(self).board(),
                        i as int,
                        old(self).board()[i as int].items.update(r as int, ItemView { text: drop_last_char(it.text), ..it }),
                    )
                    &&& final(self).command == old(self).command
                },
                (Mode::Insert, Some(i), None) => {
                    &&& final(self).board() == old(self).board().update(
                        i as int,
                        ListView { title: drop_last_char(old(self).board()[i as int].title), ..old(self).board()[i as int] },
                    )
                    &&& final(self).command == old(self).command
                },
                (Mode::Command, _, _) => {
                    &&& final(self).board() == old(self).board()
                    &&& final(self).command.value@ == drop_last_char(old(self).command.value@)
                },
                _ => *final(self) == *old(self),
            },
    {
        match self.mode {
            Mode::Insert => {
                if let Some(i) = self.current_todolist {
                    if let Some(r) = self.line_num {
                        let _ = pop_char(&mut self.todolists[i].todos[r].value);
                        proof {
                            self.lemma_text_edited(*old(self), i as int, r as int);
                        }
                    } else {
                        let _ = pop_char(&mut self.todolists[i].title);
                        proof {
                            self.lemma_title_edited(*old(self), i as int);
                        }
                    }
                }
            },
            Mode::Command => {
                let _ = pop_char(&mut self.command.value);
                proof {
                    if let Some(i) = self.current_todolist {
                        lemma_flags_from_active(*old(self), *self, i as int);
                    }
                }
            },
            _ => {},
        }
    }

    /// Changing only the text of task `r` of the active list keeps the state well
    /// formed and changes the board in that one text.
    proof fn lemma_text_edited(self, pre: App, i: int, r: int)
        requires
            pre.wf(),
            pre.is_active(i),
            0 <= r < pre.todolists@[i].todos@.len(),
            self.current_todolist == pre.current_todolist,
            self.mode == pre.mode,
            self.line_num == pre.line_num,
            self.visual_begin == pre.visual_begin,
            self.todolists@.len() == pre.todolists@.len(),
            forall|k: int| 0 <= k < pre.todolists@.len() && k != i ==> self.todolists@[k] == pre.todolists@[k],
            self.todolists@[i].title == pre.todolists@[i].title,
            self.todolists@[i].todos@.len() == pre.todolists@[i].todos@.len(),
            forall|j: int| 0 <= j < pre.todolists@[i].todos@.len() && j != r ==> self.todolists@[i].todos@[j]
                == pre.todolists@[i].todos@[j],
            self.todolists@[i].todos@[r] == (Todo { value: self.todolists@[i].todos@[r].value, ..pre.todolists@[i].todos@[r] }),
        ensures
            self.wf(),
            self.board() == with_items(
                pre.board(),
                i,
                pre.board()[i].items.update(r, ItemView { text: self.todolists@[i].todos@[r].value@, ..pre.board()[i].items[r] }),
            ),
    {
        lemma_wf_others_clear(pre, i);
        lemma_others_clear_frame(pre, self, i);
        assert forall|j: int| 0 <= j < self.todolists@[i].todos@.len() implies {
            &&& (#[trigger] self.todolists@[i].todos@[j]).selected == self.in_selection(j)
            &&& self.todolists@[i].todos@[j].editing == self.is_editing_row(i, j)
        } by {
            assert(pre.todolists@[i].todos@[j].selected == pre.in_selection(j));
            assert(pre.todolists@[i].todos@[j].editing == pre.is_editing_row(i, j));
        }
        lemma_flags_ok(self, i);
        lemma_board_update(self, pre, i);
        assert(contents(self.todolists@[i].todos@) =~= pre.board()[i].items.update(
            r,
            ItemView { text: self.todolists@[i].todos@[r].value@, ..pre.board()[i].items[r] },
        ));
    }

    /// Changing only the title of the active list keeps the state well formed.
    proof fn lemma_title_edited(self, pre: App, i: int)
        requires
            pre.wf(),
            pre.is_active(i),
            self.current_todolist == pre.current_todolist,
            self.mode == pre.mode,
            self.line_num == pre.line_num,
            self.visual_begin == pre.visual_begin,
            self.command == pre.command,
            self.todolists@.len() == pre.todolists@.len(),
            forall|k: int| 0 <= k < pre.todolists@.len() && k != i ==> self.todolists@[k] == pre.todolists@[k],
            self.todolists@[i].todos == pre.todolists@[i].todos,
        ensures
            self.wf(),
            self.board() == pre.board().update(
                i,
                ListView { title: self.todolists@[i].title@, ..pre.board()[i] },
            ),
    {
        lemma_wf_others_clear(pre, i);
        lemma_others_clear_frame(pre, self, i);
        lemma_flags_ok(self, i);
        assert(self.board() =~= pre.board().update(
            i,
            ListView { title: self.todolists@[i].title@, ..pre.board()[i] },
        ));
    }

    /// Prepares a state read back from storage for use: normal mode, no focused
    /// row, no range anchor, an empty buffer, no task selected or being edited,
    /// and an active list whenever there is a list. Lists and tasks stay as they were.
    pub fn reset_transient(&mut self)
        ensures
            final(self).wf(),
            final(self).board() == old(self).board(),
            final(self).mode == Mode::Normal,
            final(self).line_num is None,
            final(self).visual_begin is None,
            final(self).command.value@.len() == 0,
            final(self).current_todolist == if old(self).todolists@.len() == 0 {
                None
            } else {
                match old(self).current_todolist {
                    Some(i) => Some(min_int(i as int, old(self).todolists@.len() - 1) as usize),
                    None => Some(0usize),
                }
            },
            forall|k: int, j: int|
                0 <= k < final(self).todolists@.len() && 0 <= j < final(self).todolists@[k].todos@.len()
                    ==> !(#[trigger] final(self).todolists@[k].todos@[j]).selected
                    && !final(self).todolists@[k].todos@[j].editing,
    {
        self.mode = Mode::Normal;
        self.line_num = None;
        self.visual_begin = None;
        self.command.value = String::new();
        let n = self.todolists.len();
        if n == 0 {
            self.current_todolist = None;
        } else {
            self.current_todolist = match self.current_todolist {
                Some(i) => Some(if i < n - 1 { i } else { n - 1 }),
                None => Some(0),
            };
        }
        let ghost pre = *self;
        let mut k: usize = 0;
        while k < n
            invariant
                n == self.todolists@.len(),
                n == pre.todolists@.len(),
                k <= n,
                self.current_todolist == pre.current_todolist,
                self.mode == pre.mode,
                self.line_num == pre.line_num,
                self.visual_begin == pre.visual_begin,
                self.command == pre.command,
                forall|q: int| 0 <= q < n ==> (#[trigger] self.todolists@[q]).title == pre.todolists@[q].title,
                forall|q: int| 0 <= q < n ==> (#[trigger] self.todolists@[q]).todos@.len() == pre.todolists@[q].todos@.len(),
                forall|q: int, j: int| 0 <= q < n && 0 <= j < pre.todolists@[q].todos@.len() ==>
                    (#[trigger] self.todolists@[q].todos@[j]).content() == pre.todolists@[q].todos@[j].content(),
                forall|q: int, j: int| 0 <= q < k && 0 <= j < pre.todolists@[q].todos@.len() ==>
                    !(#[trigger] self.todolists@[q].todos@[j]).selected && !self.todolists@[q].todos@[j].editing,
            decreases n - k,
        {
            let m = self.todolists[k].todos.len();
            let mut j: usize = 0;
            while j < m
                invariant
                    n == self.todolists@.len(),
                    k < n,
                    m == self.todolists@[k as int].todos@.len(),
                    j <= m,
                    self.current_todolist == pre.current_todolist,
                    self.mode == pre.mode,
                    self.line_num == pre.line_num,
                    self.visual_begin == pre.visual_begin,
                    self.command == pre.command,
                    forall|q: int| 0 <= q < n ==> (#[trigger] self.todolists@[q]).title == pre.todolists@[q].title,
                    forall|q: int| 0 <= q < n ==> (#[trigger] self.todolists@[q]).todos@.len() == pre.todolists@[q].todos@.len(),
                    forall|q: int, p: int| 0 <= q < n && 0 <= p < pre.todolists@[q].todos@.len() ==>
                        (#[trigger] self.todolists@[q].todos@[p]).content() == pre.todolists@[q].todos@[p].content(),
                    forall|q: int, p: int| (0 <= q < k && 0 <= p < pre.todolists@[q].todos@.len()) || (q == k && 0 <= p < j) ==>
                        !(#[trigger] self.todolists@[q].todos@[p]).selected && !self.todolists@[q].todos@[p].editing,
                decreases m - j,
            {
                self.todolists[k].todos[j].selected = false;
                self.todolists[k].todos[j].editing = false;
                j = j + 1;
            }
            k = k + 1;
        }
        proof {
            lemma_same_board(*self, *old(self));
        }
    }
}

} // verus!
