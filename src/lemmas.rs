use vstd::prelude::*;

use crate::app::{
    App,
    ListView,
    Mark,
    Mode,
    Todo,
    TodoList,
    contents,
    marked,
    open_items,
    with_items,
    with_selected,
    without,
};
use crate::reorder::seq_move;

verus! {

/// Two engines whose lists hold the same titles and task contents, whatever
/// their flags, show the same board.
pub(crate) proof fn lemma_same_board(a: App, b: App)
    requires
        a.todolists@.len() == b.todolists@.len(),
        forall|k: int| 0 <= k < a.todolists@.len() ==> {
            &&& (#[trigger] a.todolists@[k]).title@ == b.todolists@[k].title@
            &&& a.todolists@[k].todos@.len() == b.todolists@[k].todos@.len()
        },
        forall|k: int, j: int|
            0 <= k < a.todolists@.len() && 0 <= j < a.todolists@[k].todos@.len()
                ==> (#[trigger] a.todolists@[k].todos@[j]).content() == b.todolists@[k].todos@[j].content(),
    ensures
        a.board() == b.board(),
{
    assert forall|k: int| 0 <= k < a.todolists@.len() implies a.board()[k] == b.board()[k] by {
        assert(contents(a.todolists@[k].todos@) =~= contents(b.todolists@[k].todos@));
    }
    assert(a.board() =~= b.board());
}

/// Flags are in order once the lists other than the active one are untouched
/// since a well-formed state `pre` that had the same active list, and each task
/// of the active list carries the flags the cursor and mode of `a` give it.
pub(crate) proof fn lemma_flags_from_active(pre: App, a: App, i: int)
    requires
        pre.wf(),
        a.list_ok(),
        0 <= i < pre.todolists@.len(),
        pre.is_active(i),
        a.is_active(i),
        a.todolists@.len() == pre.todolists@.len(),
        forall|k: int| 0 <= k < pre.todolists@.len() && k != i ==> a.todolists@[k] == pre.todolists@[k],
        forall|j: int| 0 <= j < a.todolists@[i].todos@.len() ==> {
            &&& (#[trigger] a.todolists@[i].todos@[j]).selected == a.in_selection(j)
            &&& a.todolists@[i].todos@[j].editing == a.is_editing_row(i, j)
        },
    ensures
        a.flags_ok(),
{
    assert forall|k: int, j: int|
        0 <= k < a.todolists@.len() && 0 <= j < a.todolists@[k].todos@.len() implies {
            &&& (#[trigger] a.todolists@[k].todos@[j]).selected == (a.is_active(k) && a.in_selection(j))
            &&& a.todolists@[k].todos@[j].editing == a.is_editing_row(k, j)
        } by {
        if k != i {
            assert(a.todolists@[k].todos@[j] == pre.todolists@[k].todos@[j]);
            assert(pre.todolists@[k].todos@[j].selected == (pre.is_active(k) && pre.in_selection(j)));
            assert(pre.todolists@[k].todos@[j].editing == pre.is_editing_row(k, j));
        }
    }
}

/// In a well-formed state only the active list has flags set, and those follow
/// the cursor.
pub(crate) proof fn lemma_wf_others_clear(a: App, i: int)
    requires
        a.wf(),
        a.is_active(i),
    ensures
        a.others_clear(i),
        a.active_flags_ok(i),
{
    assert forall|k: int, j: int|
        0 <= k < a.todolists@.len() && k != i && 0 <= j < a.todolists@[k].todos@.len() implies !(
        #[trigger] a.todolists@[k].todos@[j]).selected && !a.todolists@[k].todos@[j].editing by {
        assert(a.todolists@[k].todos@[j].selected == (a.is_active(k) && a.in_selection(j)));
        assert(a.todolists@[k].todos@[j].editing == a.is_editing_row(k, j));
    }
    assert forall|j: int| 0 <= j < a.todolists@[i].todos@.len() implies {
        &&& (#[trigger] a.todolists@[i].todos@[j]).selected == a.in_selection(j)
        &&& a.todolists@[i].todos@[j].editing == a.is_editing_row(i, j)
    } by {
        assert(a.todolists@[i].todos@[j].selected == (a.is_active(i) && a.in_selection(j)));
    }
}

/// Flags follow the cursor everywhere once they do in the active list and no
/// other list has any set.
pub(crate) proof fn lemma_flags_ok(a: App, i: int)
    requires
        a.is_active(i),
        a.others_clear(i),
        a.active_flags_ok(i),
    ensures
        a.flags_ok(),
{
    assert forall|k: int, j: int|
        0 <= k < a.todolists@.len() && 0 <= j < a.todolists@[k].todos@.len() implies {
            &&& (#[trigger] a.todolists@[k].todos@[j]).selected == (a.is_active(k) && a.in_selection(j))
            &&& a.todolists@[k].todos@[j].editing == a.is_editing_row(k, j)
        } by {
        if k != i {
            assert(!a.todolists@[k].todos@[j].selected);
        } else {
            assert(a.todolists@[i].todos@[j].selected == a.in_selection(j));
        }
    }
}

/// Lists other than `i` that are untouched stay clear.
pub(crate) proof fn lemma_others_clear_frame(pre: App, a: App, i: int)
    requires
        pre.others_clear(i),
        a.todolists@.len() == pre.todolists@.len(),
        forall|k: int| 0 <= k < pre.todolists@.len() && k != i ==> a.todolists@[k] == pre.todolists@[k],
    ensures
        a.others_clear(i),
{
    assert forall|k: int, j: int|
        0 <= k < a.todolists@.len() && k != i && 0 <= j < a.todolists@[k].todos@.len() implies !(
        #[trigger] a.todolists@[k].todos@[j]).selected && !a.todolists@[k].todos@[j].editing by {
        assert(a.todolists@[k].todos@[j] == pre.todolists@[k].todos@[j]);
    }
}

/// Flags do not enter into a task's content.
pub(crate) proof fn lemma_contents_flags(a: Seq<Todo>, b: Seq<Todo>)
    requires
        a.len() == b.len(),
        forall|j: int| 0 <= j < a.len() ==> (#[trigger] a[j]).content() == b[j].content(),
    ensures
        contents(a) == contents(b),
{
    assert(contents(a) =~= contents(b));
}

/// When only the tasks of list `i` changed, the board changes in that list's
/// items alone.
pub(crate) proof fn lemma_board_update(a: App, b: App, i: int)
    requires
        0 <= i < b.todolists@.len(),
        a.todolists@.len() == b.todolists@.len(),
        forall|k: int| 0 <= k < b.todolists@.len() && k != i ==> a.todolists@[k] == b.todolists@[k],
        a.todolists@[i].title == b.todolists@[i].title,
    ensures
        a.board() == b.board().update(
            i,
            ListView { title: b.todolists@[i].title@, items: contents(a.todolists@[i].todos@) },
        ),
{
    assert(a.board() =~= b.board().update(
        i,
        ListView { title: b.todolists@[i].title@, items: contents(a.todolists@[i].todos@) },
    ));
}

/// A normal-mode switch of the active list from `from` to `to` that cleared the
/// flags of `from` and selected only the focused row of `to` leaves the state well
/// formed with the same board.
pub(crate) proof fn lemma_switched(pre: App, post: App, from: int, to: int)
    requires
        pre.wf(),
        pre.mode == Mode::Normal,
        pre.is_active(from),
        post.is_active(to),
        0 <= to < pre.todolists@.len(),
        from != to,
        post.list_ok(),
        post.rows_ok(),
        post.mode == Mode::Normal,
        post.visual_begin is None,
        post.todolists@.len() == pre.todolists@.len(),
        forall|k: int| 0 <= k < pre.todolists@.len() && k != from && k != to ==> post.todolists@[k] == pre.todolists@[k],
        post.todolists@[from].title == pre.todolists@[from].title,
        post.todolists@[to].title == pre.todolists@[to].title,
        post.todolists@[from].todos@.len() == pre.todolists@[from].todos@.len(),
        post.todolists@[to].todos@.len() == pre.todolists@[to].todos@.len(),
        forall|j: int| 0 <= j < post.todolists@[from].todos@.len() ==> {
            &&& !(#[trigger] post.todolists@[from].todos@[j]).selected
            &&& post.todolists@[from].todos@[j].content() == pre.todolists@[from].todos@[j].content()
            &&& post.todolists@[from].todos@[j].editing == pre.todolists@[from].todos@[j].editing
        },
        forall|j: int| 0 <= j < post.todolists@[to].todos@.len() ==> {
            &&& (#[trigger] post.todolists@[to].todos@[j]).selected == post.is_row(j)
            &&& post.todolists@[to].todos@[j].content() == pre.todolists@[to].todos@[j].content()
            &&& post.todolists@[to].todos@[j].editing == pre.todolists@[to].todos@[j].editing
        },
    ensures
        post.wf(),
        post.board() == pre.board(),
{
    lemma_wf_others_clear(pre, from);
    assert forall|k: int, j: int|
        0 <= k < post.todolists@.len() && k != to && 0 <= j < post.todolists@[k].todos@.len() implies !(
        #[trigger] post.todolists@[k].todos@[j]).selected && !post.todolists@[k].todos@[j].editing by {
        if k != from {
            assert(post.todolists@[k].todos@[j] == pre.todolists@[k].todos@[j]);
        } else {
            assert(pre.todolists@[from].todos@[j].editing == pre.is_editing_row(from, j));
        }
    }
    assert forall|j: int| 0 <= j < post.todolists@[to].todos@.len() implies {
        &&& (#[trigger] post.todolists@[to].todos@[j]).selected == post.in_selection(j)
        &&& post.todolists@[to].todos@[j].editing == post.is_editing_row(to, j)
    } by {
        assert(!pre.todolists@[to].todos@[j].editing);
    }
    lemma_flags_ok(post, to);
    assert forall|k: int| 0 <= k < post.todolists@.len() implies {
        &&& (#[trigger] post.todolists@[k]).title@ == pre.todolists@[k].title@
        &&& post.todolists@[k].todos@.len() == pre.todolists@[k].todos@.len()
    } by {}
    assert forall|k: int, j: int|
        0 <= k < post.todolists@.len() && 0 <= j < post.todolists@[k].todos@.len() implies (
        #[trigger] post.todolists@[k].todos@[j]).content() == pre.todolists@[k].todos@[j].content() by {
        if k != from && k != to {
            assert(post.todolists@[k] == pre.todolists@[k]);
        }
    }
    lemma_same_board(post, pre);
}

/// Moving the active list from `a` to `b` and following it with the cursor keeps
/// the state well formed, and the board moves the same way.
pub(crate) proof fn lemma_list_moved(pre: App, post: App, a: int, b: int)
    requires
        pre.wf(),
        pre.is_active(a),
        0 <= b < pre.todolists@.len(),
        post.todolists@ == seq_move(pre.todolists@, a, b),
        post.is_active(b),
        post.mode == pre.mode,
        post.line_num == pre.line_num,
        post.visual_begin == pre.visual_begin,
    ensures
        post.wf(),
        post.board() == seq_move(pre.board(), a, b),
{
    lemma_wf_others_clear(pre, a);
    crate::reorder::lemma_seq_move_index(pre.todolists@, a, b, b);
    assert(post.todolists@[b] == pre.todolists@[a]);
    assert(post.active_todos() == pre.active_todos());
    assert forall|k: int, j: int|
        0 <= k < post.todolists@.len() && k != b && 0 <= j < post.todolists@[k].todos@.len() implies !(
        #[trigger] post.todolists@[k].todos@[j]).selected && !post.todolists@[k].todos@[j].editing by {
        crate::reorder::lemma_seq_move_index(pre.todolists@, a, b, k);
        if a <= b && a <= k < b {
            assert(post.todolists@[k].todos@[j] == pre.todolists@[k + 1].todos@[j]);
        } else if b < a && b < k <= a {
            assert(post.todolists@[k].todos@[j] == pre.todolists@[k - 1].todos@[j]);
        } else {
            assert(post.todolists@[k].todos@[j] == pre.todolists@[k].todos@[j]);
        }
    }
    assert forall|j: int| 0 <= j < post.todolists@[b].todos@.len() implies {
        &&& (#[trigger] post.todolists@[b].todos@[j]).selected == post.in_selection(j)
        &&& post.todolists@[b].todos@[j].editing == post.is_editing_row(b, j)
    } by {
        assert(pre.todolists@[a].todos@[j].selected == pre.in_selection(j));
        assert(pre.todolists@[a].todos@[j].editing == pre.is_editing_row(a, j));
    }
    lemma_flags_ok(post, b);
    crate::reorder::lemma_seq_move_map(pre.todolists@, a, b, |l: TodoList| l.content());
}

/// After a visual-mode step that changed only the row or anchor, refreshing the
/// range selection leaves the state well formed with the same board.
pub(crate) proof fn lemma_visual_refreshed(pre: App, mid: App, post: App, i: int)
    requires
        pre.wf(),
        pre.mode == Mode::Visual,
        pre.is_active(i),
        mid.list_ok(),
        mid.rows_ok(),
        mid.mode_ok(),
        mid.is_active(i),
        mid.mode == Mode::Visual,
        mid.line_num is Some,
        mid.todolists == pre.todolists,
        post.only_list_changed(mid, i),
        post.todolists@[i].todos@.len() == mid.todolists@[i].todos@.len(),
        forall|j: int| 0 <= j < mid.todolists@[i].todos@.len() ==> #[trigger] post.todolists@[i].todos@[j]
            == with_selected(mid.todolists@[i].todos@[j], mid.in_selection(j)),
    ensures
        post.wf(),
        post.board() == pre.board(),
{
    lemma_wf_others_clear(pre, i);
    lemma_others_clear_frame(pre, post, i);
    assert forall|j: int| 0 <= j < post.todolists@[i].todos@.len() implies {
        &&& (#[trigger] post.todolists@[i].todos@[j]).selected == post.in_selection(j)
        &&& post.todolists@[i].todos@[j].editing == post.is_editing_row(i, j)
    } by {
        assert(pre.todolists@[i].todos@[j].editing == pre.is_editing_row(i, j));
    }
    lemma_flags_ok(post, i);
    lemma_same_board(post, pre);
}

/// After moving the task at `a` of the active list to `b`, a visual range whose
/// selected tasks all travelled together is in order without a refresh.
pub(crate) proof fn lemma_block_dragged(pre: App, post: App, i: int, a: int, b: int)
    requires
        pre.wf(),
        pre.mode == Mode::Visual,
        pre.is_active(i),
        0 <= a < pre.todolists@[i].todos@.len(),
        0 <= b < pre.todolists@[i].todos@.len(),
        post.list_ok(),
        post.rows_ok(),
        post.mode_ok(),
        post.is_active(i),
        post.mode == Mode::Visual,
        post.todolists@.len() == pre.todolists@.len(),
        forall|k: int| 0 <= k < pre.todolists@.len() && k != i ==> post.todolists@[k] == pre.todolists@[k],
        post.todolists@[i].title == pre.todolists@[i].title,
        post.todolists@[i].todos@ == seq_move(pre.todolists@[i].todos@, a, b),
        forall|j: int| 0 <= j < pre.todolists@[i].todos@.len() ==> post.in_selection(
            #[trigger] crate::reorder::seq_move_index(a, b, j),
        ) == pre.in_selection(j),
    ensures
        post.wf(),
        post.board() == with_items(pre.board(), i, seq_move(pre.board()[i].items, a, b)),
{
    let s = pre.todolists@[i].todos@;
    lemma_wf_others_clear(pre, i);
    lemma_others_clear_frame(pre, post, i);
    assert forall|j: int| 0 <= j < post.todolists@[i].todos@.len() implies {
        &&& (#[trigger] post.todolists@[i].todos@[j]).selected == post.in_selection(j)
        &&& post.todolists@[i].todos@[j].editing == post.is_editing_row(i, j)
    } by {
        let src = crate::reorder::seq_move_source(a, b, j);
        crate::reorder::lemma_seq_move_source(s, a, b, j);
        assert(post.todolists@[i].todos@[j] == s[src]);
        assert(s[src].selected == pre.in_selection(src));
        assert(!s[src].editing);
    }
    lemma_flags_ok(post, i);
    crate::reorder::lemma_seq_move_map(s, a, b, |t: Todo| t.content());
    lemma_board_update(post, pre, i);
}

/// Every task that a removal keeps was a task of `s` that `m` did not pick.
pub(crate) proof fn lemma_without_from(s: Seq<Todo>, m: Mark, i: int)
    requires
        0 <= i < without(s, m).len(),
    ensures
        exists|j: int| 0 <= j < s.len() && #[trigger] s[j] == without(s, m)[i] && !marked(s[j], m),
    decreases s.len(),
{
    reveal(Seq::filter);
    let rest = s.drop_last();
    if i < without(rest, m).len() {
        lemma_without_from(rest, m, i);
        let j = choose|j: int| 0 <= j < rest.len() && #[trigger] rest[j] == without(rest, m)[i] && !marked(rest[j], m);
        assert(s[j] == rest[j]);
    } else {
        assert(s[s.len() - 1] == without(s, m)[i]);
    }
}

/// A removal that picks every task leaves nothing.
pub(crate) proof fn lemma_without_all(s: Seq<Todo>, m: Mark)
    requires
        forall|j: int| 0 <= j < s.len() ==> marked(#[trigger] s[j], m),
    ensures
        without(s, m).len() == 0,
    decreases s.len(),
{
    reveal(Seq::filter);
    if s.len() > 0 {
        lemma_without_all(s.drop_last(), m);
    }
}

pub(crate) proof fn lemma_contents_without_completed(s: Seq<Todo>)
    ensures
        contents(without(s, Mark::Completed)) == open_items(contents(s)),
    decreases s.len(),
{
    reveal(Seq::filter);
    if s.len() > 0 {
        lemma_contents_without_completed(s.drop_last());
        assert(contents(s).drop_last() =~= contents(s.drop_last()));
        let w = without(s.drop_last(), Mark::Completed);
        assert(contents(w.push(s.last())) =~= contents(w).push(s.last().content()));
    }
}

} // verus!
