use vstd::prelude::*;

verus! {

/// The sequence `s` with the element at `a` taken out and put back at `b`;
/// every element strictly between the two positions shifts by one toward `a`.
pub open spec fn seq_move<A>(s: Seq<A>, a: int, b: int) -> Seq<A> {
    s.remove(a).insert(b, s[a])
}

/// Element-wise description of `seq_move`.
pub proof fn lemma_seq_move_index<A>(s: Seq<A>, a: int, b: int, k: int)
    requires
        0 <= a < s.len(),
        0 <= b < s.len(),
        0 <= k < s.len(),
    ensures
        seq_move(s, a, b).len() == s.len(),
        seq_move(s, a, b)[k] == if k == b {
            s[a]
        } else if a <= b && a <= k < b {
            s[k + 1]
        } else if b < a && b < k <= a {
            s[k - 1]
        } else {
            s[k]
        },
{
}

/// Swapping the neighbours at `i` and `i + 1` once the moving element sits at `i`
/// carries it one step further up.
proof fn lemma_step_up<A>(s: Seq<A>, a: int, i: int)
    requires
        0 <= a <= i,
        i + 1 < s.len(),
    ensures
        seq_move(s, a, i).update(i, seq_move(s, a, i)[i + 1]).update(i + 1, seq_move(s, a, i)[i])
            =~= seq_move(s, a, i + 1),
{
    let t = seq_move(s, a, i);
    let u = seq_move(s, a, i + 1);
    assert forall|k: int| 0 <= k < s.len() implies t.update(i, t[i + 1]).update(i + 1, t[i])[k]
        == u[k] by {
        lemma_seq_move_index(s, a, i, k);
        lemma_seq_move_index(s, a, i + 1, k);
        if k == i || k == i + 1 {
            lemma_seq_move_index(s, a, i, i + 1);
            lemma_seq_move_index(s, a, i, i);
        }
    }
}

/// Swapping the neighbours at `i` and `i + 1` once the moving element sits at `i + 1`
/// carries it one step further down.
proof fn lemma_step_down<A>(s: Seq<A>, a: int, i: int)
    requires
        0 <= i < a < s.len(),
    ensures
        seq_move(s, a, i + 1).update(i, seq_move(s, a, i + 1)[i + 1]).update(
            i + 1,
            seq_move(s, a, i + 1)[i],
        ) =~= seq_move(s, a, i),
{
    let t = seq_move(s, a, i + 1);
    let u = seq_move(s, a, i);
    assert forall|k: int| 0 <= k < s.len() implies t.update(i, t[i + 1]).update(i + 1, t[i])[k]
        == u[k] by {
        lemma_seq_move_index(s, a, i + 1, k);
        lemma_seq_move_index(s, a, i, k);
        if k == i || k == i + 1 {
            lemma_seq_move_index(s, a, i + 1, i + 1);
            lemma_seq_move_index(s, a, i + 1, i);
        }
    }
}

/// Moving an element to where it already is changes nothing.
pub proof fn lemma_seq_move_same<A>(s: Seq<A>, a: int)
    requires
        0 <= a < s.len(),
    ensures
        seq_move(s, a, a) =~= s,
{
    assert forall|k: int| 0 <= k < s.len() implies seq_move(s, a, a)[k] == s[k] by {
        lemma_seq_move_index(s, a, a, k);
    }
}

/// Moving an element from `a` to `b` and then from `b` back to `a` restores the
/// original order, in either direction.
pub proof fn lemma_move_round_trip<A>(s: Seq<A>, a: int, b: int)
    requires
        0 <= a < s.len(),
        0 <= b < s.len(),
    ensures
        seq_move(seq_move(s, a, b), b, a) =~= s,
{
    let t = seq_move(s, a, b);
    assert forall|k: int| 0 <= k < s.len() implies seq_move(t, b, a)[k] == s[k] by {
        lemma_seq_move_index(t, b, a, k);
        lemma_seq_move_index(s, a, b, b);
        if k != a {
            if b <= k < a {
                lemma_seq_move_index(s, a, b, k + 1);
            } else if a < k <= b {
                lemma_seq_move_index(s, a, b, k - 1);
            } else {
                lemma_seq_move_index(s, a, b, k);
            }
        }
    }
}

/// Where the element at `k` goes when the element at `a` moves to `b`.
pub open spec fn seq_move_index(a: int, b: int, k: int) -> int {
    if k == a {
        b
    } else if a < b && a < k <= b {
        k - 1
    } else if b < a && b <= k < a {
        k + 1
    } else {
        k
    }
}

/// Where the element that ends up at `j` came from when the element at `a`
/// moves to `b`.
pub open spec fn seq_move_source(a: int, b: int, j: int) -> int {
    if j == b {
        a
    } else if a <= b && a <= j < b {
        j + 1
    } else if b < a && b < j <= a {
        j - 1
    } else {
        j
    }
}

pub proof fn lemma_seq_move_source<A>(s: Seq<A>, a: int, b: int, j: int)
    requires
        0 <= a < s.len(),
        0 <= b < s.len(),
        0 <= j < s.len(),
    ensures
        0 <= seq_move_source(a, b, j) < s.len(),
        seq_move(s, a, b)[j] == s[seq_move_source(a, b, j)],
        seq_move_index(a, b, seq_move_source(a, b, j)) == j,
{
    lemma_seq_move_index(s, a, b, j);
}

/// Moving commutes with mapping every element.
pub proof fn lemma_seq_move_map<A, B>(s: Seq<A>, a: int, b: int, f: spec_fn(A) -> B)
    requires
        0 <= a < s.len(),
        0 <= b < s.len(),
    ensures
        seq_move(s, a, b).map_values(f) == seq_move(s.map_values(f), a, b),
{
    assert forall|k: int| 0 <= k < s.len() implies seq_move(s, a, b).map_values(f)[k] == seq_move(
        s.map_values(f),
        a,
        b,
    )[k] by {
        lemma_seq_move_index(s, a, b, k);
        lemma_seq_move_index(s.map_values(f), a, b, k);
    }
    assert(seq_move(s, a, b).map_values(f) =~= seq_move(s.map_values(f), a, b));
}

/// Exchanges the neighbours at `i` and `i + 1`.
fn swap_adjacent<T>(v: &mut Vec<T>, i: usize)
    requires
        i + 1 < old(v)@.len(),
        i < usize::MAX,
    ensures
        final(v)@ == old(v)@.update(i as int, old(v)@[i + 1]).update(i + 1, old(v)@[i as int]),
{
    let x = v.remove(i + 1);
    v.insert(i, x);
    assert(final(v)@ =~= old(v)@.update(i as int, old(v)@[i + 1]).update(i + 1, old(v)@[i as int]));
}

/// Relocates the element at `a` to `b` by a chain of adjacent swaps, keeping the
/// relative order of every other element.
pub fn move_within<T>(v: &mut Vec<T>, a: usize, b: usize)
    requires
        a < old(v)@.len(),
        b < old(v)@.len(),
    ensures
        final(v)@ == seq_move(old(v)@, a as int, b as int),
{
    let ghost s = v@;
    if a == b {
        proof {
            lemma_seq_move_same(s, a as int);
        }
        return ;
    }
    if a < b {
        let mut i: usize = a;
        proof {
            lemma_seq_move_same(s, a as int);
        }
        while i < b
            invariant
                a <= i <= b,
                b < s.len(),
                v@ == seq_move(s, a as int, i as int),
            decreases b - i,
        {
            proof {
                lemma_step_up(s, a as int, i as int);
            }
            swap_adjacent(v, i);
            i = i + 1;
        }
    } else {
        let mut i: usize = a;
        proof {
            lemma_seq_move_same(s, a as int);
        }
        while i > b
            invariant
                b <= i <= a,
                a < s.len(),
                v@ == seq_move(s, a as int, i as int),
            decreases i - b,
        {
            proof {
                lemma_step_down(s, a as int, (i - 1) as int);
            }
            swap_adjacent(v, i - 1);
            i = i - 1;
        }
    }
}

} // verus!
