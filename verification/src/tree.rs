//! Weighted trees of actions: every state, the action generators of a
//! specification contribute branches, and one leaf is picked at random with
//! probability proportional to the weights along its path.
use vstd::prelude::*;

use std::collections::VecDeque;

use rand::rngs::ThreadRng;
use rand::RngExt;

verus! {

/// The weight of a branch.
pub type Weight = u16;

/// A tree of values with weighted branches.
#[derive(PartialEq, Eq, Debug)]
pub enum Tree<T> {
    Leaf { value: T },
    Branch { branches: Vec<(Weight, Tree<T>)> },
}

/// The mathematical shape of a tree.
pub enum TreeView<T> {
    Leaf(T),
    Branch(Seq<(Weight, TreeView<T>)>),
}

/// Why no value was picked.
#[derive(Debug, Clone, Copy, PartialEq, Eq)]
pub enum PickError {
    /// A branch that was reached has no weight at all.
    ZeroTotalWeight,
}

#[verifier::external_type_specification]
#[verifier::external_body]
pub struct ExThreadRng(ThreadRng);

/// A number drawn uniformly from `0..total` with `rand`'s `random_range`.
/// Which number comes out is left open; only that it lies in the range is
/// stated.
#[verifier::external_body]
fn random_below(rng: &mut ThreadRng, total: u128) -> (r: u128)
    requires
        total > 0,
    ensures
        r < total,
{
    rng.random_range(0..total)
}

/// A source of random draws that remembers, as ghost state, every number it
/// has drawn, so that contracts can say what was done with each draw.
pub struct RandomSource {
    rng: ThreadRng,
    drawn: Ghost<Seq<u128>>,
}

impl RandomSource {
    /// The numbers drawn so far, in order.
    pub closed spec fn drawn(&self) -> Seq<u128> {
        self.drawn@
    }

    /// A source that draws from `rng`, with nothing drawn yet.
    pub fn new(rng: ThreadRng) -> (r: Self)
        ensures
            r.drawn() == Seq::<u128>::empty(),
    {
        RandomSource { rng, drawn: Ghost(Seq::empty()) }
    }

    /// A number drawn uniformly from `0..total`.
    pub fn below(&mut self, total: u128) -> (r: u128)
        requires
            total > 0,
        ensures
            r < total,
            final(self).drawn() == old(self).drawn().push(r),
    {
        let r = random_below(&mut self.rng, total);
        self.drawn = Ghost(self.drawn@.push(r));
        r
    }
}

/// The draws made between two states of a source.
pub open spec fn draws_between(before: RandomSource, after: RandomSource) -> Seq<u128> {
    after.drawn().skip(before.drawn().len() as int)
}

/// `after` is `before` with more draws.
pub open spec fn drew_more(before: RandomSource, after: RandomSource) -> bool {
    &&& before.drawn().len() <= after.drawn().len()
    &&& after.drawn().take(before.drawn().len() as int) == before.drawn()
}

/// A source that drew nothing more has the same draws.
pub proof fn lemma_drew_nothing(source: RandomSource)
    ensures
        drew_more(source, source),
        draws_between(source, source).len() == 0,
{
    assert(source.drawn().take(source.drawn().len() as int) =~= source.drawn());
}

impl<T> Tree<T> {
    /// The shape of this tree.
    pub open spec fn model(self) -> TreeView<T>
        decreases self, 1nat,
    {
        match self {
            Tree::Leaf { value } => TreeView::Leaf(value),
            Tree::Branch { branches } => {
                proof {
                    assert(decreases_to!(self => branches@));
                }
                TreeView::Branch(Self::models(branches@))
            },
        }
    }

    /// The shapes of a list of weighted subtrees.
    pub open spec fn models(branches: Seq<(Weight, Tree<T>)>) -> Seq<(Weight, TreeView<T>)>
        decreases branches, 0nat,
    {
        if branches.len() == 0 {
            Seq::empty()
        } else {
            let last = branches.last();
            proof {
                assert(decreases_to!(branches => last));
            }
            Self::models(branches.drop_last()).push((last.0, last.1.model()))
        }
    }

    pub proof fn lemma_models(branches: Seq<(Weight, Tree<T>)>)
        ensures
            Self::models(branches).len() == branches.len(),
            forall|i: int|
                0 <= i < branches.len() ==> #[trigger] Self::models(branches)[i] == (
                    branches[i].0,
                    branches[i].1.model(),
                ),
        decreases branches.len(),
    {
        if branches.len() > 0 {
            Self::lemma_models(branches.drop_last());
        }
    }
}

// ---------------------------------------------------------------------------
// What the operations give.

/// `after` is `before` with every leaf value `v` replaced by a `u` for which
/// `f` answered `Ok(u)`.
pub open spec fn mapped<T, U, E, G: Fn(T) -> Result<U, E>>(before: TreeView<T>, after: TreeView<U>, f: G) -> bool
    decreases before, 1nat,
{
    match before {
        TreeView::Leaf(v) => match after {
            TreeView::Leaf(u) => f.ensures((v,), Ok(u)),
            _ => false,
        },
        TreeView::Branch(bs) => match after {
            TreeView::Branch(cs) => mapped_list(bs, cs, f),
            _ => false,
        },
    }
}

/// The branches correspond one to one, with equal weights and mapped
/// subtrees.
pub open spec fn mapped_list<T, U, E, G: Fn(T) -> Result<U, E>>(
    bs: Seq<(Weight, TreeView<T>)>,
    cs: Seq<(Weight, TreeView<U>)>,
    f: G,
) -> bool
    decreases bs, 0nat,
{
    if bs.len() == 0 {
        cs.len() == 0
    } else {
        let last = bs.last();
        proof {
            assert(decreases_to!(bs => last));
        }
        &&& cs.len() > 0
        &&& mapped_list(bs.drop_last(), cs.drop_last(), f)
        &&& last.0 == cs.last().0
        &&& mapped(last.1, cs.last().1, f)
    }
}

/// Every subtree of `bs` maps, leaf by leaf, to values for which `f` answered
/// `Ok`.
pub open spec fn maps_ok_list<T, U, E, G: Fn(T) -> Result<U, E>>(bs: Seq<(Weight, TreeView<T>)>, f: G) -> bool {
    exists|cs: Seq<(Weight, TreeView<U>)>| #[trigger] mapped_list(bs, cs, f)
}

/// Taking the leaves from left to right, depth first, `f` answers `Ok` for
/// every leaf before some leaf `v`, and `Err(e)` for `v`.
pub open spec fn fails_first<T, U, E, G: Fn(T) -> Result<U, E>>(tree: TreeView<T>, f: G, e: E) -> bool
    decreases tree, 1nat,
{
    match tree {
        TreeView::Leaf(v) => f.ensures((v,), Err(e)),
        TreeView::Branch(bs) => fails_first_list(bs, f, e),
    }
}

/// The first failure of `f` lies in some branch of `bs`, every branch before
/// it mapping without one.
pub open spec fn fails_first_list<T, U, E, G: Fn(T) -> Result<U, E>>(bs: Seq<(Weight, TreeView<T>)>, f: G, e: E) -> bool
    decreases bs, 0nat,
{
    if bs.len() == 0 {
        false
    } else {
        let last = bs.last();
        proof {
            assert(decreases_to!(bs => last));
        }
        ||| fails_first_list(bs.drop_last(), f, e)
        ||| (maps_ok_list::<T, U, E, G>(bs.drop_last(), f) && fails_first(last.1, f, e))
    }
}

/// `after` is `before` with every leaf for which `predicate` answered false
/// replaced by an empty branch.
pub open spec fn filtered<T, P: Fn(&T) -> bool>(before: TreeView<T>, after: TreeView<T>, predicate: P) -> bool
    decreases before, 1nat,
{
    match before {
        TreeView::Leaf(v) => {
            ||| (after == TreeView::Leaf(v) && predicate.ensures((&v,), true))
            ||| (after == TreeView::<T>::Branch(Seq::empty()) && predicate.ensures((&v,), false))
        },
        TreeView::Branch(bs) => match after {
            TreeView::Branch(cs) => filtered_list(bs, cs, predicate),
            _ => false,
        },
    }
}

pub open spec fn filtered_list<T, P: Fn(&T) -> bool>(
    bs: Seq<(Weight, TreeView<T>)>,
    cs: Seq<(Weight, TreeView<T>)>,
    predicate: P,
) -> bool
    decreases bs, 0nat,
{
    if bs.len() == 0 {
        cs.len() == 0
    } else {
        let last = bs.last();
        proof {
            assert(decreases_to!(bs => last));
        }
        &&& cs.len() > 0
        &&& filtered_list(bs.drop_last(), cs.drop_last(), predicate)
        &&& last.0 == cs.last().0
        &&& filtered(last.1, cs.last().1, predicate)
    }
}

/// The number of entries at the top: 1 for a leaf, the number of branches
/// otherwise.
pub open spec fn top_size<T>(t: TreeView<T>) -> nat {
    match t {
        TreeView::Leaf(_) => 1,
        TreeView::Branch(bs) => bs.len(),
    }
}

/// The tree without the subtrees that hold no leaf.
pub open spec fn pruned<T>(t: TreeView<T>) -> TreeView<T>
    decreases t, 1nat,
{
    match t {
        TreeView::Leaf(v) => TreeView::Leaf(v),
        TreeView::Branch(bs) => TreeView::Branch(pruned_list(bs)),
    }
}

/// The branches, each pruned, without those that are left empty.
pub open spec fn pruned_list<T>(bs: Seq<(Weight, TreeView<T>)>) -> Seq<(Weight, TreeView<T>)>
    decreases bs, 0nat,
{
    if bs.len() == 0 {
        Seq::empty()
    } else {
        let last = bs.last();
        proof {
            assert(decreases_to!(bs => last));
        }
        let rest = pruned_list(bs.drop_last());
        let p = pruned(last.1);
        if top_size(p) == 0 {
            rest
        } else {
            rest.push((last.0, p))
        }
    }
}

/// The sum of the weights of the branches.
pub open spec fn total_weight<T>(bs: Seq<(Weight, TreeView<T>)>) -> nat
    decreases bs.len(),
{
    if bs.len() == 0 {
        0
    } else {
        total_weight(bs.drop_last()) + bs.last().0 as nat
    }
}

/// `v` is a leaf that can be reached through branches of positive weight.
pub open spec fn reachable<T>(t: TreeView<T>, v: T) -> bool
    decreases t, 1nat,
{
    match t {
        TreeView::Leaf(x) => x == v,
        TreeView::Branch(bs) => reachable_list(bs, v),
    }
}

pub open spec fn reachable_list<T>(bs: Seq<(Weight, TreeView<T>)>, v: T) -> bool
    decreases bs, 0nat,
{
    if bs.len() == 0 {
        false
    } else {
        let last = bs.last();
        proof {
            assert(decreases_to!(bs => last));
        }
        reachable_list(bs.drop_last(), v) || (last.0 > 0 && reachable(last.1, v))
    }
}

/// Every branch point that can be reached through branches of positive
/// weight has positive total weight.
pub open spec fn weights_positive<T>(t: TreeView<T>) -> bool
    decreases t, 1nat,
{
    match t {
        TreeView::Leaf(_) => true,
        TreeView::Branch(bs) => total_weight(bs) > 0 && weights_positive_list(bs),
    }
}

pub open spec fn weights_positive_list<T>(bs: Seq<(Weight, TreeView<T>)>) -> bool
    decreases bs, 0nat,
{
    if bs.len() == 0 {
        true
    } else {
        let last = bs.last();
        proof {
            assert(decreases_to!(bs => last));
        }
        weights_positive_list(bs.drop_last()) && (last.0 > 0 ==> weights_positive(last.1))
    }
}

pub proof fn lemma_fails_first_prefix<T, U, E, G: Fn(T) -> Result<U, E>>(bs: Seq<(Weight, TreeView<T>)>, k: int, f: G, e: E)
    requires
        0 <= k <= bs.len(),
        fails_first_list(bs.take(k), f, e),
    ensures
        fails_first_list(bs, f, e),
    decreases bs.len() - k,
{
    if k < bs.len() {
        assert(bs.take(k + 1).drop_last() =~= bs.take(k));
        lemma_fails_first_prefix(bs, k + 1, f, e);
    } else {
        assert(bs.take(k) =~= bs);
    }
}

pub proof fn lemma_reachable_index<T>(bs: Seq<(Weight, TreeView<T>)>, j: int, v: T)
    requires
        0 <= j < bs.len(),
        bs[j].0 > 0,
        reachable(bs[j].1, v),
    ensures
        reachable_list(bs, v),
    decreases bs.len(),
{
    if j < bs.len() - 1 {
        assert(bs.drop_last()[j] == bs[j]);
        lemma_reachable_index(bs.drop_last(), j, v);
    }
}

pub proof fn lemma_positive_index<T>(bs: Seq<(Weight, TreeView<T>)>, j: int)
    requires
        0 <= j < bs.len(),
        bs[j].0 > 0,
        weights_positive_list(bs),
    ensures
        weights_positive(bs[j].1),
    decreases bs.len(),
{
    if j < bs.len() - 1 {
        assert(bs.drop_last()[j] == bs[j]);
        lemma_positive_index(bs.drop_last(), j);
    }
}

/// The weights of a list of branches.
pub open spec fn weights_of<T>(bs: Seq<(Weight, TreeView<T>)>) -> Seq<Weight> {
    bs.map_values(|b: (Weight, TreeView<T>)| b.0)
}

/// The sum of a list of weights.
pub open spec fn weight_sum(ws: Seq<Weight>) -> nat
    decreases ws.len(),
{
    if ws.len() == 0 {
        0
    } else {
        weight_sum(ws.drop_last()) + ws.last() as nat
    }
}

pub proof fn lemma_weight_sum_of<T>(bs: Seq<(Weight, TreeView<T>)>)
    ensures
        weight_sum(weights_of(bs)) == total_weight(bs),
    decreases bs.len(),
{
    if bs.len() > 0 {
        assert(weights_of(bs).drop_last() =~= weights_of(bs.drop_last()));
        lemma_weight_sum_of(bs.drop_last());
    }
}

pub proof fn lemma_weight_sum_step(ws: Seq<Weight>, i: int)
    requires
        0 <= i < ws.len(),
    ensures
        weight_sum(ws.take(i + 1)) == weight_sum(ws.take(i)) + ws[i] as nat,
{
    assert(ws.take(i + 1).drop_last() =~= ws.take(i));
}

/// Sums of longer prefixes are no smaller.
pub proof fn lemma_weight_sum_monotone(ws: Seq<Weight>, i: int, j: int)
    requires
        0 <= i <= j <= ws.len(),
    ensures
        weight_sum(ws.take(i)) <= weight_sum(ws.take(j)),
    decreases j - i,
{
    if i < j {
        lemma_weight_sum_monotone(ws, i, j - 1);
        lemma_weight_sum_step(ws, j - 1);
    }
}

/// The draw `c` falls into the cumulative range of the weight at `i`.
pub open spec fn falls_in(ws: Seq<Weight>, c: nat, i: int) -> bool {
    0 <= i < ws.len() && weight_sum(ws.take(i)) <= c < weight_sum(ws.take(i + 1))
}

/// The branch that the draw `c` selects: the one whose cumulative range of
/// weight holds `c`.
pub open spec fn selection(ws: Seq<Weight>, c: nat) -> int {
    choose|i: int| falls_in(ws, c, i)
}

/// At most one branch holds a draw in its range.
pub proof fn lemma_selection_unique(ws: Seq<Weight>, c: nat, i: int)
    requires
        falls_in(ws, c, i),
    ensures
        selection(ws, c) == i,
{
    let j = selection(ws, c);
    assert(falls_in(ws, c, j));
    if j < i {
        lemma_weight_sum_monotone(ws, j + 1, i);
    } else if i < j {
        lemma_weight_sum_monotone(ws, i + 1, j);
    }
}

/// What picking from `t` gives when the draws made are `draws`, and how many
/// draws it takes: a leaf gives its value with no draw; a branch point with
/// no weight fails with no draw; any other takes one draw, below its total
/// weight, and goes on in the branch that the draw selects.
pub open spec fn pick_outcome<T>(t: TreeView<T>, draws: Seq<u128>) -> Option<(Result<T, PickError>, nat)>
    decreases t,
{
    match t {
        TreeView::Leaf(v) => Some((Ok(v), 0)),
        TreeView::Branch(bs) => if total_weight(bs) == 0 {
            Some((Err(PickError::ZeroTotalWeight), 0))
        } else if draws.len() == 0 || draws[0] >= total_weight(bs) {
            None
        } else {
            let i = selection(weights_of(bs), draws[0] as nat);
            if 0 <= i < bs.len() {
                proof {
                    assert(decreases_to!(bs => bs[i]));
                    assert(decreases_to!(bs[i] => bs[i].1));
                }
                match pick_outcome(bs[i].1, draws.skip(1)) {
                    Some((r, k)) => Some((r, k + 1)),
                    None => None,
                }
            } else {
                None
            }
        },
    }
}

/// The branch that `choice` selects among `weights`: the one whose
/// cumulative range of weight holds it.
pub fn select(weights: &Vec<Weight>, choice: u128) -> (i: usize)
    requires
        choice < weight_sum(weights@),
    ensures
        falls_in(weights@, choice as nat, i as int),
{
    let mut rest = choice;
    let mut j: usize = 0;
    assert(weights@.take(0) =~= Seq::<Weight>::empty());
    while j < weights.len()
        invariant
            j <= weights@.len(),
            choice < weight_sum(weights@),
            rest + weight_sum(weights@.take(j as int)) == choice,
        decreases weights@.len() - j,
    {
        proof {
            lemma_weight_sum_step(weights@, j as int);
        }
        let w = weights[j] as u128;
        if rest < w {
            return j;
        }
        rest = rest - w;
        j = j + 1;
    }
    assert(weights@.take(weights@.len() as int) =~= weights@);
    assert(false);
    0
}

/// No branch point below the top is empty, at any depth.
pub open spec fn no_empty_subtrees<T>(t: TreeView<T>) -> bool
    decreases t, 1nat,
{
    match t {
        TreeView::Leaf(_) => true,
        TreeView::Branch(bs) => no_empty_subtrees_list(bs),
    }
}

pub open spec fn no_empty_subtrees_list<T>(bs: Seq<(Weight, TreeView<T>)>) -> bool
    decreases bs, 0nat,
{
    if bs.len() == 0 {
        true
    } else {
        let last = bs.last();
        proof {
            assert(decreases_to!(bs => last));
        }
        no_empty_subtrees_list(bs.drop_last()) && top_size(last.1) > 0 && no_empty_subtrees(last.1)
    }
}

/// Pruning leaves no empty branch point below the top, and pruning again
/// changes nothing.
pub proof fn law_pruned_has_no_empty_subtrees<T>(t: TreeView<T>)
    ensures
        no_empty_subtrees(pruned(t)),
        pruned(pruned(t)) == pruned(t),
    decreases t, 1nat,
{
    match t {
        TreeView::Leaf(_) => {},
        TreeView::Branch(bs) => {
            lemma_pruned_list_clean(bs);
        },
    }
}

proof fn lemma_pruned_list_clean<T>(bs: Seq<(Weight, TreeView<T>)>)
    ensures
        no_empty_subtrees_list(pruned_list(bs)),
        pruned_list(pruned_list(bs)) == pruned_list(bs),
    decreases bs, 0nat,
{
    if bs.len() > 0 {
        let last = bs.last();
        assert(decreases_to!(bs => last));
        lemma_pruned_list_clean(bs.drop_last());
        law_pruned_has_no_empty_subtrees(last.1);
        let rest = pruned_list(bs.drop_last());
        let p = pruned(last.1);
        if top_size(p) != 0 {
            let out = rest.push((last.0, p));
            assert(out.drop_last() =~= rest);
            assert(out.last() == (last.0, p));
        }
    }
}

/// The size of a tree: one for every leaf and every branch point.
pub open spec fn tree_size<T>(t: TreeView<T>) -> nat
    decreases t, 1nat,
{
    match t {
        TreeView::Leaf(_) => 1,
        TreeView::Branch(bs) => 1 + list_size(bs),
    }
}

pub open spec fn list_size<T>(bs: Seq<(Weight, TreeView<T>)>) -> nat
    decreases bs, 0nat,
{
    if bs.len() == 0 {
        0
    } else {
        let last = bs.last();
        proof {
            assert(decreases_to!(bs => last));
        }
        list_size(bs.drop_last()) + tree_size(last.1)
    }
}

pub open spec fn queue_size<T>(q: Seq<TreeView<T>>) -> nat
    decreases q.len(),
{
    if q.len() == 0 {
        0
    } else {
        queue_size(q.drop_last()) + tree_size(q.last())
    }
}

pub proof fn lemma_queue_size_concat<T>(a: Seq<TreeView<T>>, b: Seq<TreeView<T>>)
    ensures
        queue_size(a + b) == queue_size(a) + queue_size(b),
    decreases b.len(),
{
    if b.len() == 0 {
        assert(a + b =~= a);
    } else {
        assert((a + b).drop_last() =~= a + b.drop_last());
        lemma_queue_size_concat(a, b.drop_last());
    }
}

pub proof fn lemma_queue_size_first<T>(q: Seq<TreeView<T>>)
    requires
        q.len() > 0,
    ensures
        queue_size(q) == tree_size(q[0]) + queue_size(q.skip(1)),
{
    assert(q =~= seq![q[0]] + q.skip(1));
    lemma_queue_size_concat(seq![q[0]], q.skip(1));
    assert(seq![q[0]].drop_last() =~= Seq::<TreeView<T>>::empty());
    assert(queue_size(seq![q[0]]) == queue_size(Seq::<TreeView<T>>::empty()) + tree_size(q[0]));
}

/// The shapes of the trees in a queue.
pub open spec fn queue_models<T>(q: Seq<&Tree<T>>) -> Seq<TreeView<T>> {
    q.map_values(|t: &Tree<T>| t.model())
}

/// The subtrees of a list of branches.
pub open spec fn subtrees<T>(bs: Seq<(Weight, TreeView<T>)>) -> Seq<TreeView<T>> {
    bs.map_values(|p: (Weight, TreeView<T>)| p.1)
}

pub proof fn lemma_subtrees_size<T>(bs: Seq<(Weight, TreeView<T>)>)
    ensures
        queue_size(subtrees(bs)) == list_size(bs),
    decreases bs.len(),
{
    if bs.len() > 0 {
        assert(subtrees(bs).drop_last() =~= subtrees(bs.drop_last()));
        lemma_subtrees_size(bs.drop_last());
    }
}

/// The leaves of the trees in `queue`, breadth first: the trees of the queue
/// are taken in order, a leaf gives its value and a branch point puts its
/// subtrees at the end of the queue.
pub open spec fn breadth_first<T>(queue: Seq<TreeView<T>>) -> Seq<T>
    decreases queue_size(queue),
{
    if queue.len() == 0 {
        Seq::empty()
    } else {
        proof {
            lemma_queue_size_first(queue);
        }
        match queue[0] {
            TreeView::Leaf(v) => seq![v] + breadth_first(queue.skip(1)),
            TreeView::Branch(bs) => {
                proof {
                    lemma_subtrees_size(bs);
                    lemma_queue_size_concat(queue.skip(1), subtrees(bs));
                }
                breadth_first(queue.skip(1) + subtrees(bs))
            },
        }
    }
}


// ---------------------------------------------------------------------------
// The operations.

impl<T> Tree<T> {
    /// The tree with `f` applied to every leaf value, or the first error that
    /// `f` gives.
    pub fn try_map<U, E, G: Fn(T) -> Result<U, E>>(self, f: &G) -> (r: Result<Tree<U>, E>)
        requires
            forall|v: T| f.requires((v,)),
        ensures
            r matches Ok(t) ==> mapped(self.model(), t.model(), *f),
            r matches Err(e) ==> fails_first(self.model(), *f, e),
        decreases self,
    {
        let ghost whole = self;
        match self {
            Tree::Leaf { value } => match f(value) {
                Ok(u) => Ok(Tree::Leaf { value: u }),
                Err(e) => Err(e),
            },
            Tree::Branch { branches } => {
                let ghost bvec = branches;
                let ghost orig = branches@;
                let mut out: Vec<(Weight, Tree<U>)> = Vec::new();
                assert(orig.take(0) =~= Seq::<(Weight, Tree<T>)>::empty());
                #[verifier::loop_isolation(false)]
                for item in it: branches.into_iter()
                    invariant
                        whole == (Tree::Branch { branches: bvec }),
                        bvec@ == orig,
                        it.seq() == orig,
                        it.index() <= orig.len(),
                        forall|v: T| f.requires((v,)),
                        mapped_list(Self::models(orig.take(it.index() as int)), Tree::<U>::models(out@), *f),
                {
                    let ghost j = it.index();
                    let (w, sub) = item;
                    proof {
                        assert(decreases_to!(whole => whole->branches));
                        assert(decreases_to!(whole->branches => whole->branches@));
                        assert(decreases_to!(whole->branches@ => whole->branches@[j]));
                        assert(decreases_to!(whole->branches@[j] => whole->branches@[j].1));
                        assert(item == orig[j]);
                        assert(sub == whole->branches@[j].1);
                        assert(decreases_to!(whole => sub));
                    }
                    let ghost mt = Self::models(orig.take(j as int));
                    let ghost entry = (orig[j as int].0, orig[j as int].1.model());
                    proof {
                        assert(orig.take(j + 1).drop_last() =~= orig.take(j as int));
                        assert(orig.take(j + 1).last() == orig[j as int]);
                        assert(Self::models(orig.take(j + 1)) == mt.push(entry));
                        assert(mt.push(entry).drop_last() =~= mt);
                        assert(mt.push(entry).last() == entry);
                    }
                    match sub.try_map(f) {
                        Ok(mapped_sub) => {
                            let ghost before = out@;
                            out.push((w, mapped_sub));
                            proof {
                                assert(out@.drop_last() =~= before);
                                assert(Tree::<U>::models(out@) == Tree::<U>::models(before).push((w, mapped_sub.model())));
                                assert(Tree::<U>::models(before).push((w, mapped_sub.model())).drop_last() =~= Tree::<U>::models(before));
                            }
                        },
                        Err(e) => {
                            proof {
                                assert(mapped_list(mt, Tree::<U>::models(out@), *f));
                                assert(maps_ok_list::<T, U, E, G>(mt, *f));
                                assert(fails_first_list(mt.push(entry), *f, e));
                                Self::lemma_models(orig);
                                assert(Self::models(orig).take(j + 1) =~= mt.push(entry)) by {
                                    Self::lemma_models(orig.take(j + 1));
                                }
                                lemma_fails_first_prefix(Self::models(orig), j + 1, *f, e);
                            }
                            return Err(e);
                        },
                    }
                }
                assert(orig.take(orig.len() as int) =~= orig);
                Ok(Tree::Branch { branches: out })
            },
        }
    }

    /// The tree with every leaf for which `predicate` is false replaced by an
    /// empty branch.
    pub fn filter<P: Fn(&T) -> bool>(self, predicate: &P) -> (r: Self)
        requires
            forall|v: &T| predicate.requires((v,)),
        ensures
            filtered(self.model(), r.model(), *predicate),
        decreases self,
    {
        let ghost whole = self;
        match self {
            Tree::Leaf { value } => {
                if predicate(&value) {
                    Tree::Leaf { value }
                } else {
                    let empty: Vec<(Weight, Tree<T>)> = Vec::new();
                    assert(Self::models(empty@) =~= Seq::<(Weight, TreeView<T>)>::empty());
                    Tree::Branch { branches: empty }
                }
            },
            Tree::Branch { branches } => {
                let ghost bvec = branches;
                let ghost orig = branches@;
                let mut out: Vec<(Weight, Tree<T>)> = Vec::new();
                assert(orig.take(0) =~= Seq::<(Weight, Tree<T>)>::empty());
                #[verifier::loop_isolation(false)]
                for item in it: branches.into_iter()
                    invariant
                        whole == (Tree::Branch { branches: bvec }),
                        bvec@ == orig,
                        it.seq() == orig,
                        it.index() <= orig.len(),
                        forall|v: &T| predicate.requires((v,)),
                        filtered_list(Self::models(orig.take(it.index() as int)), Self::models(out@), *predicate),
                {
                    let ghost j = it.index();
                    let (w, sub) = item;
                    proof {
                        assert(decreases_to!(whole => whole->branches));
                        assert(decreases_to!(whole->branches => whole->branches@));
                        assert(decreases_to!(whole->branches@ => whole->branches@[j]));
                        assert(decreases_to!(whole->branches@[j] => whole->branches@[j].1));
                        assert(item == orig[j]);
                        assert(sub == whole->branches@[j].1);
                        assert(decreases_to!(whole => sub));
                    }
                    let ghost mt = Self::models(orig.take(j as int));
                    let ghost entry = (orig[j as int].0, orig[j as int].1.model());
                    proof {
                        assert(orig.take(j + 1).drop_last() =~= orig.take(j as int));
                        assert(orig.take(j + 1).last() == orig[j as int]);
                        assert(Self::models(orig.take(j + 1)) == mt.push(entry));
                        assert(mt.push(entry).drop_last() =~= mt);
                        assert(mt.push(entry).last() == entry);
                    }
                    let filtered_sub = sub.filter(predicate);
                    let ghost before = out@;
                    out.push((w, filtered_sub));
                    proof {
                        assert(out@.drop_last() =~= before);
                        assert(Self::models(out@) == Self::models(before).push((w, filtered_sub.model())));
                        assert(Self::models(before).push((w, filtered_sub.model())).drop_last() =~= Self::models(before));
                    }
                }
                assert(orig.take(orig.len() as int) =~= orig);
                Tree::Branch { branches: out }
            },
        }
    }

    /// The tree without its empty subtrees, with its number of top entries.
    fn prune_to_size(self) -> (r: (Self, usize))
        ensures
            r.0.model() == pruned(self.model()),
            r.1 == top_size(pruned(self.model())),
        decreases self,
    {
        let ghost whole = self;
        match self {
            Tree::Leaf { value } => (Tree::Leaf { value }, 1),
            Tree::Branch { branches } => {
                let ghost bvec = branches;
                let ghost orig = branches@;
                proof {
                    Self::lemma_models(orig);
                }
                let mut out: Vec<(Weight, Tree<T>)> = Vec::new();
                assert(orig.take(0) =~= Seq::<(Weight, Tree<T>)>::empty());
                #[verifier::loop_isolation(false)]
                for item in it: branches.into_iter()
                    invariant
                        whole == (Tree::Branch { branches: bvec }),
                        bvec@ == orig,
                        it.seq() == orig,
                        it.index() <= orig.len(),
                        Self::models(out@) == pruned_list(Self::models(orig.take(it.index() as int))),
                {
                    let ghost j = it.index();
                    let (w, sub) = item;
                    proof {
                        assert(decreases_to!(whole => whole->branches));
                        assert(decreases_to!(whole->branches => whole->branches@));
                        assert(decreases_to!(whole->branches@ => whole->branches@[j]));
                        assert(decreases_to!(whole->branches@[j] => whole->branches@[j].1));
                        assert(item == orig[j]);
                        assert(sub == whole->branches@[j].1);
                        assert(decreases_to!(whole => sub));
                    }
                    let ghost before = out@;
                    let (p, n) = sub.prune_to_size();
                    let ghost mt = Self::models(orig.take(j as int));
                    let ghost entry = (orig[j as int].0, orig[j as int].1.model());
                    proof {
                        assert(orig.take(j + 1).drop_last() =~= orig.take(j as int));
                        assert(orig.take(j + 1).last() == orig[j as int]);
                        assert(Self::models(orig.take(j + 1)) == mt.push(entry));
                        assert(mt.push(entry).drop_last() =~= mt);
                        assert(mt.push(entry).last() == entry);
                        assert(pruned_list(mt.push(entry)) == (if top_size(pruned(entry.1)) == 0 {
                            pruned_list(mt)
                        } else {
                            pruned_list(mt).push((entry.0, pruned(entry.1)))
                        }));
                    }
                    if n != 0 {
                        out.push((w, p));
                        proof {
                            assert(out@.drop_last() =~= before);
                            assert(Self::models(out@) == Self::models(before).push((w, p.model())));
                        }
                    }
                }
                assert(orig.take(orig.len() as int) =~= orig);
                proof {
                    Self::lemma_models(out@);
                }
                let n = out.len();
                (Tree::Branch { branches: out }, n)
            },
        }
    }

    /// The tree without its empty subtrees, or `None` when nothing is left.
    pub fn prune(self) -> (r: Option<Self>)
        ensures
            top_size(pruned(self.model())) == 0 ==> r is None,
            top_size(pruned(self.model())) != 0 ==> (r matches Some(t) && t.model() == pruned(self.model())),
    {
        let (tree, size) = self.prune_to_size();
        if size == 0 {
            None
        } else {
            Some(tree)
        }
    }

    /// The leaf values, breadth first: the values at the top come before those
    /// further down, and values at the same depth come in the order of their
    /// branches.
    pub fn values(&self) -> (r: Vec<T>)
        where T: Clone,
        ensures
            r.len() == breadth_first(seq![self.model()]).len(),
            forall|i: int| 0 <= i < r.len() ==> cloned(breadth_first(seq![self.model()])[i], #[trigger] r@[i]),
    {
        let ghost all = breadth_first(seq![self.model()]);
        let mut result: Vec<T> = Vec::new();
        let mut queue: VecDeque<&Tree<T>> = VecDeque::new();
        queue.push_back(self);
        let ghost mut done: Seq<T> = Seq::empty();
        assert(queue_models(queue@) =~= seq![self.model()]);
        assert(done + breadth_first(queue_models(queue@)) =~= all);
        while queue.len() > 0
            invariant
                done + breadth_first(queue_models(queue@)) == all,
                result.len() == done.len(),
                forall|i: int| 0 <= i < result.len() ==> cloned(done[i], #[trigger] result@[i]),
            decreases queue_size(queue_models(queue@)),
        {
            let ghost q = queue_models(queue@);
            let next = queue.pop_front().unwrap();
            let ghost rest = queue_models(queue@);
            proof {
                assert(rest =~= q.skip(1));
                lemma_queue_size_first(q);
            }
            match next {
                Tree::Leaf { value } => {
                    let v = value.clone();
                    result.push(v);
                    proof {
                        assert(q[0] == TreeView::Leaf(*value));
                        assert(breadth_first(q) == seq![*value] + breadth_first(rest));
                        assert(done.push(*value) + breadth_first(rest) =~= done + breadth_first(q));
                        done = done.push(*value);
                    }
                },
                Tree::Branch { branches } => {
                    proof {
                        Self::lemma_models(branches@);
                    }
                    let ghost bs = Self::models(branches@);
                    let mut k: usize = 0;
                    while k < branches.len()
                        invariant
                            k <= branches.len(),
                            bs == Self::models(branches@),
                            bs.len() == branches@.len(),
                            forall|j: int| 0 <= j < branches@.len() ==> #[trigger] bs[j] == (branches@[j].0, branches@[j].1.model()),
                            queue_models(queue@) == rest + subtrees(bs.take(k as int)),
                        decreases branches.len() - k,
                    {
                        let ghost before = queue@;
                        queue.push_back(&branches[k].1);
                        proof {
                            assert(queue_models(queue@) =~= queue_models(before).push(branches@[k as int].1.model()));
                            assert(subtrees(bs.take(k + 1)) =~= subtrees(bs.take(k as int)).push(bs[k as int].1));
                        }
                        k = k + 1;
                    }
                    proof {
                        assert(bs.take(branches.len() as int) =~= bs);
                        assert(q[0] == TreeView::Branch(bs));
                        assert(breadth_first(q) == breadth_first(rest + subtrees(bs)));
                        lemma_subtrees_size(bs);
                        lemma_queue_size_concat(rest, subtrees(bs));
                    }
                },
            }
        }
        assert(done =~= all);
        result
    }

    /// A leaf value picked at random: at every branch point, a branch is
    /// taken with probability proportional to its weight. Each branch point
    /// draws one number below its total weight from `rng`, and takes the
    /// branch whose cumulative range of weight holds it.
    pub fn pick(&self, rng: &mut RandomSource) -> (r: Result<&T, PickError>)
        ensures
            drew_more(*old(rng), *final(rng)),
            pick_outcome(self.model(), draws_between(*old(rng), *final(rng))) matches Some((out, k)) && {
                &&& k == draws_between(*old(rng), *final(rng)).len()
                &&& match r {
                    Ok(v) => out == Ok::<T, PickError>(*v),
                    Err(e) => out == Err::<T, PickError>(e),
                }
            },
            r matches Ok(v) ==> reachable(self.model(), *v),
            weights_positive(self.model()) ==> r is Ok,
            (self.model() matches TreeView::Branch(bs) && total_weight(bs) == 0) ==> r is Err,
        decreases self,
    {
        let ghost before = *rng;
        proof {
            lemma_drew_nothing(before);
        }
        match self {
            Tree::Leaf { value } => Ok(value),
            Tree::Branch { branches } => {
                proof {
                    Self::lemma_models(branches@);
                }
                let ghost bs = Self::models(branches@);
                let mut weights: Vec<Weight> = Vec::new();
                let mut total: u128 = 0;
                let mut i: usize = 0;
                while i < branches.len()
                    invariant
                        i <= branches.len(),
                        bs == Self::models(branches@),
                        bs.len() == branches@.len(),
                        forall|j: int| 0 <= j < branches@.len() ==> #[trigger] bs[j] == (branches@[j].0, branches@[j].1.model()),
                        weights@.len() == i,
                        forall|j: int| 0 <= j < i ==> #[trigger] weights@[j] == branches@[j].0,
                        total == weight_sum(weights@),
                        total <= i * 65535,
                    decreases branches.len() - i,
                {
                    let ghost old_weights = weights@;
                    weights.push(branches[i].0);
                    assert(weights@.drop_last() =~= old_weights);
                    total = total + branches[i].0 as u128;
                    i = i + 1;
                }
                proof {
                    assert(weights@ =~= weights_of(bs));
                    lemma_weight_sum_of(bs);
                }
                if total == 0 {
                    proof {
                        lemma_drew_nothing(*rng);
                    }
                    return Err(PickError::ZeroTotalWeight);
                }
                let choice = rng.below(total);
                let k = select(&weights, choice);
                proof {
                    lemma_selection_unique(weights@, choice as nat, k as int);
                    lemma_weight_sum_step(weights@, k as int);
                    assert(decreases_to!(*self => branches@[k as int].1));
                }
                let ghost middle = *rng;
                let picked = branches[k].1.pick(rng);
                proof {
                    let all = draws_between(before, *rng);
                    let sub = draws_between(middle, *rng);
                    assert(middle.drawn() == before.drawn().push(choice));
                    assert(rng.drawn().take(middle.drawn().len() as int) == middle.drawn());
                    assert(all.len() > 0);
                    assert(all[0] == rng.drawn()[before.drawn().len() as int]);
                    assert(rng.drawn()[before.drawn().len() as int] == middle.drawn()[before.drawn().len() as int]);
                    assert(all.skip(1) =~= sub);
                    assert(rng.drawn().take(before.drawn().len() as int) =~= middle.drawn().take(before.drawn().len() as int));
                    assert(middle.drawn().take(before.drawn().len() as int) =~= before.drawn());
                    assert(bs[k as int].1 == branches@[k as int].1.model());
                    if let Ok(v) = picked {
                        assert(reachable(bs[k as int].1, *v));
                        lemma_reachable_index(bs, k as int, *v);
                    }
                    if weights_positive(self.model()) {
                        lemma_positive_index(bs, k as int);
                    }
                }
                picked
            },
        }
    }
}

} // verus!
