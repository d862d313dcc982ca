//! What holds of the attachment state machine over every collection and
//! every run of actions.

use vstd::prelude::*;
use crate::attachment::{
    claimable, claimed, collection_wf, confirmed_paths, has_id, index_of,
    lemma_index_of_unique, lemma_step_wf, moved, step, target_of, touched, upload_jobs,
    ActionView, EntryView, UploadJobView,
};

verus! {

broadcast use vstd::seq_lib::group_to_multiset_ensures, vstd::multiset::group_multiset_axioms;

/// The collection after the moves of `moves`, in order.
pub open spec fn apply_moves(s: Seq<EntryView>, moves: Seq<(usize, usize)>) -> Seq<EntryView>
    decreases moves.len(),
{
    if moves.len() == 0 {
        s
    } else {
        let m = moves.last();
        step(apply_moves(s, moves.drop_last()), ActionView::Move(m.0, m.1))
    }
}

/// The collection after the actions of `acts`, in order.
pub open spec fn run(s: Seq<EntryView>, acts: Seq<ActionView>) -> Seq<EntryView>
    decreases acts.len(),
{
    if acts.len() == 0 {
        s
    } else {
        step(run(s, acts.drop_last()), acts.last())
    }
}

proof fn lemma_move_keeps_multiset(s: Seq<EntryView>, from: int, to: int)
    ensures
        moved(s, from, to).to_multiset() == s.to_multiset(),
{
    if 0 <= from < s.len() && 0 <= to < s.len() {
        let r = s.remove(from);
        assert(r.insert(to, s[from]).to_multiset() == r.to_multiset().insert(s[from]));
        assert(r.to_multiset() == s.to_multiset().remove(s[from]));
        assert(s.contains(s[from]));
        assert(s.to_multiset().count(s[from]) > 0);
        assert(s.to_multiset().remove(s[from]).insert(s[from]) =~= s.to_multiset());
    }
}

/// Moves change positions only: whatever moves are applied, the collection
/// holds the same entries, each with its id, bytes and remote path, as
/// often as before.
pub proof fn lemma_moves_keep_entries(s: Seq<EntryView>, moves: Seq<(usize, usize)>)
    ensures
        apply_moves(s, moves).to_multiset() == s.to_multiset(),
        apply_moves(s, moves).len() == s.len(),
        forall|e: EntryView| apply_moves(s, moves).contains(e) <==> s.contains(e),
    decreases moves.len(),
{
    if moves.len() > 0 {
        lemma_moves_keep_entries(s, moves.drop_last());
        let m = moves.last();
        lemma_move_keeps_multiset(apply_moves(s, moves.drop_last()), m.0 as int, m.1 as int);
    }
    let t = apply_moves(s, moves);
    assert forall|e: EntryView| t.contains(e) <==> s.contains(e) by {
        assert(t.to_multiset().count(e) == s.to_multiset().count(e));
    }
}

/// Whether `e` counts in the confirmed-paths view.
pub open spec fn is_confirmed(e: EntryView) -> bool {
    e.status is Uploaded
}

/// The confirmed-paths view is exactly the remote paths of the entries in
/// status `Uploaded`, in collection order; entries in any other status
/// are left out.
pub proof fn lemma_confirmed_paths_exact(s: Seq<EntryView>)
    requires
        collection_wf(s),
    ensures
        confirmed_paths(s) == s.filter(|e: EntryView| is_confirmed(e)).map_values(
            |e: EntryView| e.remote_path->Some_0,
        ),
    decreases s.len(),
{
    let f = |e: EntryView| is_confirmed(e);
    let g = |e: EntryView| e.remote_path->Some_0;
    if s.len() > 0 {
        let init = s.drop_last();
        assert forall|i: int, j: int| 0 <= i < init.len() && 0 <= j < init.len() && i != j implies
            #[trigger] init[i].id != #[trigger] init[j].id by {
            assert(init[i] == s[i] && init[j] == s[j]);
        }
        assert forall|k: int| 0 <= k < init.len() && (#[trigger] init[k].status is Uploaded) implies
            init[k].remote_path is Some by {
            assert(init[k] == s[k]);
        }
        assert forall|k: int| 0 <= k < init.len() && (#[trigger] init[k].status is Loaded) implies
            init[k].bytes is Some by {
            assert(init[k] == s[k]);
        }
        lemma_confirmed_paths_exact(init);
        assert(s.last() == s[s.len() - 1]);
        reveal_with_fuel(Seq::filter, 2);
        if is_confirmed(s.last()) {
            assert(s.filter(f) == init.filter(f).push(s.last()));
            assert(s.filter(f).map_values(g) =~= init.filter(f).map_values(g).push(g(s.last())));
        } else {
            assert(s.filter(f) == init.filter(f));
        }
    } else {
        assert(s.filter(f).map_values(g) =~= Seq::<Seq<char>>::empty());
    }
}

/// Completions for an id that is not in the collection change nothing.
pub proof fn lemma_absent_id_ignored(s: Seq<EntryView>, a: ActionView)
    requires
        target_of(a) matches Some(id) && !has_id(s, id),
    ensures
        step(s, a) == s,
{
    let id = target_of(a)->Some_0;
    assert forall|k: int| 0 <= k < s.len() implies touched(#[trigger] s[k], a) == s[k] by {
        assert(s[k].id != id);
    }
    assert(step(s, a) =~= s);
}

proof fn lemma_no_claimable_no_jobs(s: Seq<EntryView>)
    requires
        forall|k: int| 0 <= k < s.len() ==> !claimable(#[trigger] s[k]),
    ensures
        upload_jobs(s) == Seq::<UploadJobView>::empty(),
    decreases s.len(),
{
    if s.len() > 0 {
        assert(!claimable(s[s.len() - 1]));
        lemma_no_claimable_no_jobs(s.drop_last());
    }
}

/// Claiming uploads twice hands out nothing the second time: an upload is
/// started at most once per entry, however often the collection is looked at.
pub proof fn lemma_claim_once(s: Seq<EntryView>)
    ensures
        upload_jobs(s.map_values(|e: EntryView| claimed(e))) == Seq::<UploadJobView>::empty(),
{
    let t = s.map_values(|e: EntryView| claimed(e));
    assert forall|k: int| 0 <= k < t.len() implies !claimable(#[trigger] t[k]) by {
        assert(t[k] == claimed(s[k]));
    }
    lemma_no_claimable_no_jobs(t);
}

/// Once an entry's upload is claimed, no later action clears the claim: as
/// long as the entry is in the collection it is never claimable again.
pub proof fn lemma_claim_kept(s: Seq<EntryView>, a: ActionView, i: int, j: int)
    requires
        collection_wf(s),
        0 <= i < s.len(),
        s[i].upload_started,
        0 <= j < step(s, a).len(),
        step(s, a)[j].id == s[i].id,
    ensures
        step(s, a)[j].upload_started,
        !claimable(step(s, a)[j]),
{
    let t = step(s, a);
    let id = s[i].id;
    match a {
        ActionView::Add(x, name, mime) => {
            if !has_id(s, x) && j == s.len() {
                assert(s[i].id != x);
            }
            if j < s.len() {
                assert(t[j] == s[j]);
                if j != i {
                    assert(s[j].id != s[i].id);
                }
            }
        },
        ActionView::Move(from, to) => {
            lemma_move_keeps_multiset(s, from as int, to as int);
            assert(t.contains(t[j]));
            assert(t.to_multiset().count(t[j]) == s.to_multiset().count(t[j]));
            assert(s.contains(t[j]));
            let k = choose|k: int| 0 <= k < s.len() && s[k] == t[j];
            if k != i {
                assert(s[k].id != s[i].id);
            }
        },
        ActionView::Remove(x) => {
            if has_id(s, x) {
                let r = index_of(s, x);
                let j0 = if j < r { j } else { j + 1 };
                assert(t[j] == s[j0]);
                if j0 != i {
                    assert(s[j0].id != s[i].id);
                }
            }
        },
        _ => {
            assert(t[j] == touched(s[j], a));
            if j != i {
                assert(s[j].id != s[i].id);
            }
        },
    }
}

/// Whether `a` may change the relative order of the entries `x` and `y`.
pub open spec fn reorders(a: ActionView, x: u128, y: u128) -> bool {
    a is Move || a == ActionView::Remove(x) || a == ActionView::Remove(y)
}

proof fn lemma_step_keeps_order(s: Seq<EntryView>, a: ActionView, x: u128, y: u128)
    requires
        collection_wf(s),
        has_id(s, x),
        has_id(s, y),
        index_of(s, x) < index_of(s, y),
        !reorders(a, x, y),
    ensures
        has_id(step(s, a), x),
        has_id(step(s, a), y),
        index_of(step(s, a), x) < index_of(step(s, a), y),
{
    let t = step(s, a);
    let i = index_of(s, x);
    let j = index_of(s, y);
    lemma_step_wf(s, a);
    match a {
        ActionView::Add(z, name, mime) => {
            if !has_id(s, z) {
                assert(t[i] == s[i]);
                assert(t[j] == s[j]);
            }
            lemma_index_of_unique(t, x, i);
            lemma_index_of_unique(t, y, j);
        },
        ActionView::Remove(z) => {
            if has_id(s, z) {
                let r = index_of(s, z);
                assert(r != i);
                assert(r != j);
                let i1 = if i < r { i } else { i - 1 };
                let j1 = if j < r { j } else { j - 1 };
                assert(t[i1] == s[i]);
                assert(t[j1] == s[j]);
                lemma_index_of_unique(t, x, i1);
                lemma_index_of_unique(t, y, j1);
            } else {
                lemma_index_of_unique(t, x, i);
                lemma_index_of_unique(t, y, j);
            }
        },
        ActionView::Move(_, _) => {},
        _ => {
            assert(t[i] == touched(s[i], a));
            assert(t[j] == touched(s[j], a));
            lemma_index_of_unique(t, x, i);
            lemma_index_of_unique(t, y, j);
        },
    }
}

/// Without a move and without removing either of them, two entries keep
/// their relative order through any run of actions, whatever the order in
/// which their reads and uploads complete.
pub proof fn lemma_order_kept(s: Seq<EntryView>, acts: Seq<ActionView>, x: u128, y: u128)
    requires
        collection_wf(s),
        has_id(s, x),
        has_id(s, y),
        index_of(s, x) < index_of(s, y),
        forall|k: int| 0 <= k < acts.len() ==> !reorders(#[trigger] acts[k], x, y),
    ensures
        collection_wf(run(s, acts)),
        has_id(run(s, acts), x),
        has_id(run(s, acts), y),
        index_of(run(s, acts), x) < index_of(run(s, acts), y),
    decreases acts.len(),
{
    if acts.len() > 0 {
        let init = acts.drop_last();
        assert forall|k: int| 0 <= k < init.len() implies !reorders(#[trigger] init[k], x, y) by {
            assert(init[k] == acts[k]);
        }
        lemma_order_kept(s, init, x, y);
        assert(!reorders(acts[acts.len() - 1], x, y));
        lemma_step_wf(run(s, init), acts.last());
        lemma_step_keeps_order(run(s, init), acts.last(), x, y);
    }
}

proof fn lemma_confirmed_prefix(s: Seq<EntryView>, m: int, n: int)
    requires
        0 <= m <= n <= s.len(),
    ensures
        confirmed_paths(s.subrange(0, m)).len() <= confirmed_paths(s.subrange(0, n)).len(),
        confirmed_paths(s.subrange(0, n)).subrange(0, confirmed_paths(s.subrange(0, m)).len() as int)
            == confirmed_paths(s.subrange(0, m)),
    decreases n - m,
{
    if m < n {
        lemma_confirmed_prefix(s, m, n - 1);
        assert(s.subrange(0, n).drop_last() =~= s.subrange(0, n - 1));
        let a = confirmed_paths(s.subrange(0, n - 1));
        let b = confirmed_paths(s.subrange(0, m));
        assert(confirmed_paths(s.subrange(0, n)).subrange(0, b.len() as int) =~= a.subrange(0, b.len() as int));
    } else {
        assert(confirmed_paths(s.subrange(0, n)).subrange(0, confirmed_paths(s.subrange(0, n)).len() as int)
            =~= confirmed_paths(s.subrange(0, n)));
    }
}

/// In the confirmed-paths view, the path of an uploaded entry stands before
/// the path of every uploaded entry placed after it.
pub proof fn lemma_confirmed_in_order(s: Seq<EntryView>, i: int, j: int)
    requires
        0 <= i < j < s.len(),
        s[i].status is Uploaded && s[i].remote_path is Some,
        s[j].status is Uploaded && s[j].remote_path is Some,
    ensures
        exists|p: int, q: int|
            0 <= p < q < confirmed_paths(s).len() && confirmed_paths(s)[p] == s[i].remote_path->Some_0
                && confirmed_paths(s)[q] == s[j].remote_path->Some_0,
{
    let c = confirmed_paths(s);
    assert(s.subrange(0, s.len() as int) =~= s);
    assert(s.subrange(0, i + 1).drop_last() =~= s.subrange(0, i));
    assert(s.subrange(0, j + 1).drop_last() =~= s.subrange(0, j));
    let p = confirmed_paths(s.subrange(0, i)).len() as int;
    let q = confirmed_paths(s.subrange(0, j)).len() as int;
    lemma_confirmed_prefix(s, i + 1, j);
    lemma_confirmed_prefix(s, j + 1, s.len() as int);
    lemma_confirmed_prefix(s, i + 1, s.len() as int);
    let ci = confirmed_paths(s.subrange(0, i + 1));
    let cj = confirmed_paths(s.subrange(0, j + 1));
    assert(ci[p] == s[i].remote_path->Some_0);
    assert(cj[q] == s[j].remote_path->Some_0);
    assert(c.subrange(0, ci.len() as int)[p] == c[p]);
    assert(c.subrange(0, cj.len() as int)[q] == c[q]);
}

/// Completion order does not decide display order: of two entries `x`
/// before `y`, with no move and no removal of either in between, once both
/// are uploaded the path of `x` precedes the path of `y` in the
/// confirmed-paths view, whichever upload finished first.
pub proof fn lemma_completion_order_irrelevant(s: Seq<EntryView>, acts: Seq<ActionView>, x: u128, y: u128)
    requires
        collection_wf(s),
        has_id(s, x),
        has_id(s, y),
        index_of(s, x) < index_of(s, y),
        forall|k: int| 0 <= k < acts.len() ==> !reorders(#[trigger] acts[k], x, y),
        run(s, acts)[index_of(run(s, acts), x)].status is Uploaded,
        run(s, acts)[index_of(run(s, acts), y)].status is Uploaded,
    ensures
        ({
            let t = run(s, acts);
            exists|p: int, q: int|
                0 <= p < q < confirmed_paths(t).len()
                    && confirmed_paths(t)[p] == t[index_of(t, x)].remote_path->Some_0
                    && confirmed_paths(t)[q] == t[index_of(t, y)].remote_path->Some_0
        }),
{
    lemma_order_kept(s, acts, x, y);
    let t = run(s, acts);
    let i = index_of(t, x);
    let j = index_of(t, y);
    assert(0 <= i < t.len() && t[i].id == x);
    assert(0 <= j < t.len() && t[j].id == y);
    lemma_confirmed_in_order(t, i, j);
}

} // verus!
