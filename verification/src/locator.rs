//! Locators: selectors bound to a scope, resolved against a snapshot of the
//! tree, with a wait-and-retry protocol around the resolution.

use vstd::prelude::*;
use vstd::string::*;
use crate::element::{ElementView, UIElement};
use crate::errors::{AutomationError, ErrorKind};
use crate::platforms::{element_value, AccessibilityEngine};
use crate::selector::{parse_selector, selector_matches, ConditionView, Selector};
use crate::tree::{TreeView, UiTree};

verus! {

/// The test that a selector puts to the nodes of a tree.
pub open spec fn is_match(t: TreeView, s: Seq<ConditionView>) -> spec_fn(usize) -> bool {
    |x: usize| selector_matches(s, t.nodes[x as int].element)
}

/// The nodes of the subtree rooted at `root` that the selector matches, in
/// depth-first pre-order.
pub open spec fn matches_in(t: TreeView, s: Seq<ConditionView>, root: int) -> Seq<usize> {
    t.preorder(root).filter(is_match(t, s))
}

/// The first item of a sequence, if it has one.
pub open spec fn first_of(s: Seq<usize>) -> Option<usize> {
    if s.len() > 0 {
        Some(s[0])
    } else {
        None
    }
}

/// Filtering a single item keeps it or leaves nothing.
pub proof fn lemma_filter_one(x: usize, p: spec_fn(usize) -> bool)
    ensures
        seq![x].filter(p) == if p(x) {
            seq![x]
        } else {
            Seq::<usize>::empty()
        },
{
    reveal(Seq::filter);
    let one = seq![x];
    assert(one.drop_last() =~= Seq::<usize>::empty());
    assert(one.last() == x);
    assert(one.drop_last().filter(p) =~= Seq::<usize>::empty());
    if p(x) {
        assert(one.filter(p) =~= seq![x]);
    } else {
        assert(one.filter(p) =~= Seq::<usize>::empty());
    }
}

/// The matches of a subtree are the root, if it matches, then the matches
/// among its descendants.
pub proof fn lemma_matches_root(t: TreeView, s: Seq<ConditionView>, i: int)
    requires
        t.wf(),
        0 <= i < t.len(),
    ensures
        matches_in(t, s, i) == seq![i as usize].filter(is_match(t, s)) + t.walk(i, 0).filter(
            is_match(t, s),
        ),
{
    Seq::filter_distributes_over_add(seq![i as usize], t.walk(i, 0), is_match(t, s));
}

/// The matches of a walk are those of the subtree of its first child, then
/// those of the rest of the walk.
pub proof fn lemma_matches_step(t: TreeView, s: Seq<ConditionView>, i: int, k: int)
    requires
        t.wf(),
        0 <= i < t.len(),
        0 <= k < t.arity(i),
    ensures
        t.walk(i, k).filter(is_match(t, s)) == matches_in(t, s, t.child(i, k) as int) + t.walk(
            i,
            k + 1,
        ).filter(is_match(t, s)),
{
    t.lemma_walk_step(i, k);
    Seq::filter_distributes_over_add(
        t.preorder(t.child(i, k) as int),
        t.walk(i, k + 1),
        is_match(t, s),
    );
}

/// Every match of a subtree is a node of the tree, at or after the subtree's
/// root, and the selector matches its element.
pub proof fn lemma_matches_sound(t: TreeView, s: Seq<ConditionView>, root: int)
    requires
        t.wf(),
        0 <= root < t.len(),
    ensures
        forall|x: int|
            0 <= x < matches_in(t, s, root).len() ==> root <= (#[trigger] matches_in(t, s, root)[x])
                < t.len() && selector_matches(
                s,
                t.nodes[matches_in(t, s, root)[x] as int].element,
            ),
{
    let p = is_match(t, s);
    let all = t.preorder(root);
    t.lemma_preorder_bounds(root);
    assert forall|x: int| 0 <= x < matches_in(t, s, root).len() implies root <= (
    #[trigger] matches_in(t, s, root)[x]) < t.len() && selector_matches(
        s,
        t.nodes[matches_in(t, s, root)[x] as int].element,
    ) by {
        let m = all.filter(p)[x];
        all.lemma_filter_pred(p, x);
        assert(all.filter(p).contains(m));
        all.lemma_filter_contains_rev(p, m);
        assert(p(m));
    }
}

/// Appends to `out` the matches of the subtree rooted at `i`.
#[verifier::rlimit(50)]
fn collect(tree: &UiTree, selector: &Selector, i: usize, out: &mut Vec<usize>)
    requires
        tree@.wf(),
        i < tree@.len(),
    ensures
        final(out)@ == old(out)@ + matches_in(tree@, selector@, i as int),
    decreases tree@.len() - i,
{
    let ghost start = out@;
    let ghost p = is_match(tree@, selector@);
    proof {
        lemma_matches_root(tree@, selector@, i as int);
        lemma_filter_one(i, p);
    }
    if selector.matches(tree.element(i)) {
        out.push(i);
        assert(out@ =~= start + seq![i]);
    } else {
        assert(out@ =~= start + Seq::<usize>::empty());
    }
    let kids = tree.children(i);
    let mut k: usize = 0;
    while k < kids.len()
        invariant
            tree@.wf(),
            i < tree@.len(),
            kids@ == tree@.nodes[i as int].children,
            k <= kids@.len(),
            p == is_match(tree@, selector@),
            out@ + tree@.walk(i as int, k as int).filter(p) == start + matches_in(
                tree@,
                selector@,
                i as int,
            ),
        decreases kids@.len() - k,
    {
        let ghost before = out@;
        proof {
            lemma_matches_step(tree@, selector@, i as int, k as int);
            assert(tree@.child(i as int, k as int) == kids@[k as int]);
        }
        collect(tree, selector, kids[k], out);
        proof {
            let sub = matches_in(tree@, selector@, kids@[k as int] as int);
            let rest = tree@.walk(i as int, k + 1).filter(p);
            assert((before + sub) + rest =~= before + (sub + rest));
        }
        k += 1;
    }
    proof {
        tree@.lemma_walk_end(i as int, k as int);
        assert(tree@.walk(i as int, k as int).filter(p) =~= Seq::<usize>::empty());
        assert(out@ + Seq::<usize>::empty() =~= out@);
    }
}

/// The first match of the subtree rooted at `i`, found without walking past
/// it.
#[verifier::rlimit(50)]
fn find_first(tree: &UiTree, selector: &Selector, i: usize) -> (r: Option<usize>)
    requires
        tree@.wf(),
        i < tree@.len(),
    ensures
        r == first_of(matches_in(tree@, selector@, i as int)),
    decreases tree@.len() - i,
{
    let ghost p = is_match(tree@, selector@);
    proof {
        lemma_matches_root(tree@, selector@, i as int);
        lemma_filter_one(i, p);
    }
    if selector.matches(tree.element(i)) {
        return Some(i);
    }
    let kids = tree.children(i);
    let mut k: usize = 0;
    while k < kids.len()
        invariant
            tree@.wf(),
            i < tree@.len(),
            kids@ == tree@.nodes[i as int].children,
            k <= kids@.len(),
            p == is_match(tree@, selector@),
            tree@.walk(i as int, k as int).filter(p) =~= matches_in(tree@, selector@, i as int),
        decreases kids@.len() - k,
    {
        proof {
            lemma_matches_step(tree@, selector@, i as int, k as int);
            assert(tree@.child(i as int, k as int) == kids@[k as int]);
        }
        let found = find_first(tree, selector, kids[k]);
        if found.is_some() {
            return found;
        }
        k += 1;
    }
    proof {
        tree@.lemma_walk_end(i as int, k as int);
        assert(tree@.walk(i as int, k as int).filter(p) =~= Seq::<usize>::empty());
    }
    None
}

/// The matches of the subtrees rooted at `roots[k]`, `roots[k + 1]`, ... in
/// that order, one subtree after the other.
pub open spec fn matches_under(t: TreeView, s: Seq<ConditionView>, roots: Seq<usize>, k: int) -> Seq<
    usize,
>
    decreases roots.len() - k,
    when 0 <= k
{
    if k >= roots.len() {
        Seq::empty()
    } else {
        matches_in(t, s, roots[k] as int) + matches_under(t, s, roots, k + 1)
    }
}

/// What a chain of selectors resolves to from its `j`-th link on, when the
/// links before it have resolved to `roots`: each link is matched in the
/// subtrees of the matches of the link before it.
pub open spec fn resolve(
    t: TreeView,
    chain: Seq<Seq<ConditionView>>,
    j: int,
    roots: Seq<usize>,
) -> Seq<usize>
    decreases chain.len() - j,
    when 0 <= j
{
    if j >= chain.len() {
        roots
    } else {
        resolve(t, chain, j + 1, matches_under(t, chain[j], roots, 0))
    }
}

/// Whether every item of `roots` is a node of the tree.
pub open spec fn all_nodes(t: TreeView, roots: Seq<usize>) -> bool {
    forall|k: int| 0 <= k < roots.len() ==> (#[trigger] roots[k]) < t.len()
}

/// Matches under nodes of the tree are nodes of the tree that the selector
/// matches.
pub proof fn lemma_matches_under_sound(
    t: TreeView,
    s: Seq<ConditionView>,
    roots: Seq<usize>,
    k: int,
)
    requires
        t.wf(),
        all_nodes(t, roots),
        0 <= k,
    ensures
        all_nodes(t, matches_under(t, s, roots, k)),
        forall|x: int|
            0 <= x < matches_under(t, s, roots, k).len() ==> selector_matches(
                s,
                t.nodes[(#[trigger] matches_under(t, s, roots, k)[x]) as int].element,
            ),
    decreases roots.len() - k,
{
    if k < roots.len() {
        lemma_matches_sound(t, s, roots[k] as int);
        lemma_matches_under_sound(t, s, roots, k + 1);
        let head = matches_in(t, s, roots[k] as int);
        let tail = matches_under(t, s, roots, k + 1);
        let whole = matches_under(t, s, roots, k);
        assert(whole == head + tail);
        assert forall|x: int| 0 <= x < whole.len() implies (#[trigger] whole[x]) < t.len()
            && selector_matches(s, t.nodes[whole[x] as int].element) by {
            if x < head.len() {
                assert(whole[x] == head[x]);
            } else {
                assert(whole[x] == tail[x - head.len()]);
            }
        }
    }
}

/// The matches of `selector` in the subtrees rooted at `roots`, one subtree
/// after the other.
fn collect_under(tree: &UiTree, selector: &Selector, roots: &Vec<usize>) -> (out: Vec<usize>)
    requires
        tree@.wf(),
        all_nodes(tree@, roots@),
    ensures
        out@ == matches_under(tree@, selector@, roots@, 0),
        all_nodes(tree@, out@),
{
    let mut out: Vec<usize> = Vec::new();
    let mut k: usize = 0;
    while k < roots.len()
        invariant
            tree@.wf(),
            all_nodes(tree@, roots@),
            k <= roots@.len(),
            out@ + matches_under(tree@, selector@, roots@, k as int) == matches_under(
                tree@,
                selector@,
                roots@,
                0,
            ),
        decreases roots@.len() - k,
    {
        let ghost before = out@;
        collect(tree, selector, roots[k], &mut out);
        proof {
            let sub = matches_in(tree@, selector@, roots@[k as int] as int);
            let rest = matches_under(tree@, selector@, roots@, k + 1);
            assert((before + sub) + rest =~= before + (sub + rest));
        }
        k += 1;
    }
    proof {
        assert(out@ + Seq::<usize>::empty() =~= out@);
        lemma_matches_under_sound(tree@, selector@, roots@, 0);
    }
    out
}

/// The first match of `selector` in the subtrees rooted at `roots`, found
/// without walking past it.
fn first_under(tree: &UiTree, selector: &Selector, roots: &Vec<usize>) -> (r: Option<usize>)
    requires
        tree@.wf(),
        all_nodes(tree@, roots@),
    ensures
        r == first_of(matches_under(tree@, selector@, roots@, 0)),
{
    let mut k: usize = 0;
    while k < roots.len()
        invariant
            tree@.wf(),
            all_nodes(tree@, roots@),
            k <= roots@.len(),
            matches_under(tree@, selector@, roots@, k as int) =~= matches_under(
                tree@,
                selector@,
                roots@,
                0,
            ),
        decreases roots@.len() - k,
    {
        let found = find_first(tree, selector, roots[k]);
        if found.is_some() {
            return found;
        }
        k += 1;
    }
    None
}

/// The wait between two attempts of a locator, in milliseconds.
pub const POLL_INTERVAL_MS: u64 = 100;

/// The wait budget of a locator that was given none, in milliseconds.
pub const DEFAULT_TIMEOUT_MS: u64 = 5000;

/// What a locator does after an attempt.
#[derive(Debug, Clone, Copy, PartialEq, Eq, Structural)]
pub enum PollStep {
    /// The attempt found something: return it.
    Done,
    /// The wait budget is used up: give up.
    GiveUp,
    /// Wait this many milliseconds, then try again.
    Wait(u64),
}

/// What follows an attempt that found something or nothing, after
/// `waited_ms` milliseconds of waiting, under a budget of `budget_ms`.
pub open spec fn poll_step_of(found: bool, waited_ms: u128, budget_ms: u64) -> PollStep {
    if found {
        PollStep::Done
    } else if waited_ms >= budget_ms {
        PollStep::GiveUp
    } else {
        PollStep::Wait(POLL_INTERVAL_MS)
    }
}

/// Decides what follows an attempt. A caller that cannot block runs the
/// protocol with this function and waits in its own way.
pub fn poll_step(found: bool, waited_ms: u128, budget_ms: u64) -> (step: PollStep)
    ensures
        step == poll_step_of(found, waited_ms, budget_ms),
{
    if found {
        PollStep::Done
    } else if waited_ms >= budget_ms as u128 {
        PollStep::GiveUp
    } else {
        PollStep::Wait(POLL_INTERVAL_MS)
    }
}

/// The time waited when a locator that finds nothing gives up, from
/// `waited_ms` on: it waits one interval after another until the budget is
/// reached.
pub open spec fn waited_at_give_up(waited_ms: nat, budget_ms: u64) -> nat
    decreases budget_ms + 100 - waited_ms,
{
    if waited_ms >= budget_ms {
        waited_ms
    } else {
        waited_at_give_up(waited_ms + 100, budget_ms)
    }
}

/// A locator that finds nothing gives up after it has waited at least its
/// budget, and less than its budget and one polling interval.
pub proof fn lemma_give_up_in_time(waited_ms: nat, budget_ms: u64)
    requires
        waited_ms < budget_ms + POLL_INTERVAL_MS,
    ensures
        budget_ms <= waited_at_give_up(waited_ms, budget_ms) < budget_ms + POLL_INTERVAL_MS,
    decreases budget_ms + 100 - waited_ms,
{
    if waited_ms < budget_ms {
        lemma_give_up_in_time(waited_ms + 100, budget_ms);
    }
}

/// The values of a chain of selectors.
pub open spec fn chain_view(chain: Seq<Selector>) -> Seq<Seq<ConditionView>> {
    Seq::new(chain.len(), |j: int| chain[j]@)
}

/// What a chain resolves to in a tree, from the tree's root.
pub open spec fn resolution(t: TreeView, chain: Seq<Selector>) -> Seq<usize> {
    resolve(t, chain_view(chain), 0, seq![0usize])
}

/// At most the first item of a sequence.
pub open spec fn head_of(s: Seq<usize>) -> Seq<usize> {
    if s.len() > 0 {
        seq![s[0]]
    } else {
        Seq::empty()
    }
}

/// Every resolution of a chain with at least one link consists of nodes that
/// the last link matches.
pub proof fn lemma_resolve_sound(t: TreeView, chain: Seq<Seq<ConditionView>>, j: int, roots: Seq<usize>)
    requires
        t.wf(),
        all_nodes(t, roots),
        0 <= j < chain.len(),
    ensures
        all_nodes(t, resolve(t, chain, j, roots)),
        forall|x: int|
            0 <= x < resolve(t, chain, j, roots).len() ==> selector_matches(
                chain.last(),
                t.nodes[(#[trigger] resolve(t, chain, j, roots)[x]) as int].element,
            ),
    decreases chain.len() - j,
{
    lemma_matches_under_sound(t, chain[j], roots, 0);
    if j + 1 < chain.len() {
        lemma_resolve_sound(t, chain, j + 1, matches_under(t, chain[j], roots, 0));
    } else {
        assert(resolve(t, chain, j + 1, matches_under(t, chain[j], roots, 0)) == matches_under(
            t,
            chain[j],
            roots,
            0,
        ));
    }
}

/// Filtering a sequence without repetitions leaves one without
/// repetitions.
pub proof fn lemma_filter_distinct(s: Seq<usize>, p: spec_fn(usize) -> bool)
    requires
        s.no_duplicates(),
    ensures
        s.filter(p).no_duplicates(),
    decreases s.len(),
{
    reveal(Seq::filter);
    if s.len() > 0 {
        let front = s.drop_last();
        lemma_filter_distinct(front, p);
        if p(s.last()) {
            let kept = front.filter(p);
            if kept.contains(s.last()) {
                front.lemma_filter_contains_rev(p, s.last());
                let q = choose|q: int| 0 <= q < front.len() && front[q] == s.last();
                assert(s[q] == s[s.len() - 1]);
            }
            assert forall|a: int, b: int|
                0 <= a < kept.push(s.last()).len() && 0 <= b < kept.push(s.last()).len() && a
                    != b implies kept.push(s.last())[a] != kept.push(s.last())[b] by {
                if a < kept.len() && b < kept.len() {
                } else if a < kept.len() {
                    assert(kept.contains(kept[a]));
                } else {
                    assert(kept.contains(kept[b]));
                }
            }
        }
    }
}

/// A locator of one selector resolves, in the whole tree, to exactly the
/// nodes that the selector matches: every such node, each once, in
/// depth-first pre-order.
pub proof fn lemma_all_exact(t: TreeView, chain: Seq<Selector>)
    requires
        t.wf(),
        chain.len() == 1,
    ensures
        resolution(t, chain) == t.preorder(0).filter(is_match(t, chain[0]@)),
        resolution(t, chain).no_duplicates(),
        forall|j: int|
            0 <= j < t.len() ==> (resolution(t, chain).contains(j as usize) <==> selector_matches(
                chain[0]@,
                t.nodes[j].element,
            )),
{
    let c = chain_view(chain);
    let s = chain[0]@;
    let p = is_match(t, s);
    let roots = seq![0usize];
    let all = t.preorder(0);
    assert(c[0] == s);
    assert(matches_under(t, s, roots, 1) == Seq::<usize>::empty());
    assert(matches_under(t, s, roots, 0) == matches_in(t, s, 0) + matches_under(t, s, roots, 1));
    assert(matches_in(t, s, 0) + Seq::<usize>::empty() =~= matches_in(t, s, 0));
    assert(resolve(t, c, 1, matches_in(t, s, 0)) == matches_in(t, s, 0));
    assert(resolution(t, chain) == all.filter(p));
    t.lemma_preorder_distinct(0);
    lemma_filter_distinct(all, p);
    assert forall|j: int| 0 <= j < t.len() implies (all.filter(p).contains(j as usize)
        <==> selector_matches(s, t.nodes[j].element)) by {
        if all.filter(p).contains(j as usize) {
            let q = choose|q: int| 0 <= q < all.filter(p).len() && all.filter(p)[q] == j as usize;
            all.lemma_filter_pred(p, q);
        }
        if selector_matches(s, t.nodes[j].element) {
            t.lemma_preorder_complete(j);
            let q = choose|q: int| 0 <= q < all.len() && all[q] == j as usize;
            all.lemma_filter_contains(p, q);
        }
    }
}

/// Resolving a chain twice in an unchanged tree gives the same nodes in the
/// same order.
pub proof fn lemma_resolution_repeatable(
    t: TreeView,
    chain: Seq<Selector>,
    once: Seq<usize>,
    again: Seq<usize>,
)
    requires
        once == resolution(t, chain),
        again == resolution(t, chain),
    ensures
        once == again,
{
}

/// Resolves every link of `chain`, or only the first match of the last link.
fn resolve_chain(tree: &UiTree, chain: &Vec<Selector>, only_first: bool) -> (found: Vec<usize>)
    ensures
        found@ == if only_first {
            head_of(resolution(tree@, chain@))
        } else {
            resolution(tree@, chain@)
        },
        all_nodes(tree@, found@),
        tree@.wf(),
{
    let n = chain.len();
    let nodes = tree.len();
    let ghost c = chain_view(chain@);
    let mut roots: Vec<usize> = Vec::new();
    roots.push(0);
    assert(roots@ =~= seq![0usize]);
    let mut j: usize = 0;
    while j < n
        invariant
            n == chain@.len(),
            c == chain_view(chain@),
            tree@.wf(),
            j <= n,
            all_nodes(tree@, roots@),
            resolve(tree@, c, j as int, roots@) == resolution(tree@, chain@),
        decreases n - j,
    {
        assert(c[j as int] == chain@[j as int]@);
        if only_first && j + 1 == n {
            let first = first_under(tree, &chain[j], &roots);
            proof {
                lemma_matches_under_sound(tree@, c[j as int], roots@, 0);
                assert(resolve(tree@, c, j + 1, matches_under(tree@, c[j as int], roots@, 0))
                    == matches_under(tree@, c[j as int], roots@, 0));
            }
            let mut found: Vec<usize> = Vec::new();
            match first {
                Some(i) => {
                    found.push(i);
                    assert(found@ =~= seq![i]);
                },
                None => {
                    assert(found@ =~= Seq::<usize>::empty());
                },
            }
            return found;
        }
        roots = collect_under(tree, &chain[j], &roots);
        j += 1;
    }
    if only_first {
        let mut found: Vec<usize> = Vec::new();
        if roots.len() > 0 {
            found.push(roots[0]);
            assert(found@ =~= seq![roots@[0]]);
        } else {
            assert(found@ =~= Seq::<usize>::empty());
        }
        found
    } else {
        roots
    }
}

/// The last snapshot that a locator took, what it found there, and how long
/// it had waited by then.
pub struct Resolution {
    /// The snapshot in which the locator looked last.
    pub tree: UiTree,
    /// The nodes of `tree` that were found, in depth-first pre-order.
    pub found: Vec<usize>,
    /// The sum of the waits between the attempts, in milliseconds.
    pub waited_ms: u128,
}

/// A query bound to an engine: a chain of selectors, an optional scope, and
/// a wait budget.
pub struct Locator<'a, E: AccessibilityEngine> {
    /// The engine that takes the snapshots.
    pub engine: &'a E,
    /// The selectors, outermost first. Each is matched in the subtrees of
    /// the matches of the one before it; the first in the whole scope.
    pub chain: Vec<Selector>,
    /// The first selector text that could not be read, if there was one.
    pub invalid: Option<String>,
    /// The selector texts, for diagnostics.
    pub description: String,
    /// The element under which the locator looks; the desktop where `None`.
    pub root: Option<UIElement>,
    /// The wait budget of a call that names none, in milliseconds.
    pub timeout_ms: u64,
}

/// The separator of selector texts in a locator's description.
pub open spec fn chain_separator() -> Seq<char> {
    seq![' ', '>', '>', ' ']
}

impl<'a, E: AccessibilityEngine> Locator<'a, E> {
    /// A locator for the selector that `text` denotes, over the whole
    /// desktop. Text that is not in the grammar gives a locator whose every
    /// retrieval fails with `InvalidSelector`; the engine is not asked.
    pub fn new(engine: &'a E, text: &str) -> (l: Locator<'a, E>)
        ensures
            l.engine == engine,
            l.root is None,
            l.timeout_ms == DEFAULT_TIMEOUT_MS,
            l.description@ == text@,
            match parse_selector(text@) {
                Some(conditions) => l.invalid is None && chain_view(l.chain@) == seq![conditions],
                None => l.invalid is Some && l.invalid.unwrap()@ == text@ && l.chain@.len() == 0,
            },
    {
        let mut chain: Vec<Selector> = Vec::new();
        let invalid = match Selector::parse(text) {
            Ok(selector) => {
                let ghost v = selector@;
                chain.push(selector);
                assert(chain_view(chain@) =~= seq![v]);
                None
            },
            Err(_) => Some(text.to_owned()),
        };
        Locator {
            engine,
            chain,
            invalid,
            description: text.to_owned(),
            root: None,
            timeout_ms: DEFAULT_TIMEOUT_MS,
        }
    }

    /// Whether the locator's selector text could be read.
    pub fn is_valid(&self) -> (b: bool)
        ensures
            b == (self.invalid is None),
    {
        self.invalid.is_none()
    }

    /// The nodes of `tree` that the chain resolves to, in the order in which
    /// a depth-first walk meets them.
    pub fn all_in(&self, tree: &UiTree) -> (found: Vec<usize>)
        ensures
            found@ == resolution(tree@, self.chain@),
            all_nodes(tree@, found@),
    {
        resolve_chain(tree, &self.chain, false)
    }

    /// The first node of `tree` that the chain resolves to.
    pub fn first_in(&self, tree: &UiTree) -> (found: Option<usize>)
        ensures
            found == first_of(resolution(tree@, self.chain@)),
            found is Some ==> found.unwrap() < tree@.len(),
    {
        let found = resolve_chain(tree, &self.chain, true);
        if found.len() > 0 {
            Some(found[0])
        } else {
            None
        }
    }

    /// The same locator with another default wait budget.
    pub fn with_timeout(self, timeout_ms: u64) -> (l: Locator<'a, E>)
        ensures
            l.engine == self.engine,
            l.chain == self.chain,
            l.invalid == self.invalid,
            l.description == self.description,
            l.root == self.root,
            l.timeout_ms == timeout_ms,
    {
        Locator {
            engine: self.engine,
            chain: self.chain,
            invalid: self.invalid,
            description: self.description,
            root: self.root,
            timeout_ms,
        }
    }

    /// The same locator, looking under `root` only.
    pub fn within(self, root: UIElement) -> (l: Locator<'a, E>)
        ensures
            l.engine == self.engine,
            l.chain == self.chain,
            l.invalid == self.invalid,
            l.description == self.description,
            l.root == Some(root),
            l.timeout_ms == self.timeout_ms,
    {
        Locator {
            engine: self.engine,
            chain: self.chain,
            invalid: self.invalid,
            description: self.description,
            root: Some(root),
            timeout_ms: self.timeout_ms,
        }
    }

    /// A locator that looks for `text` in the subtrees of this locator's
    /// matches. An unreadable text makes the new locator invalid; the first
    /// unreadable text of a chain is the one that it reports.
    pub fn locator(&self, text: &str) -> (l: Locator<'a, E>)
        ensures
            l.engine == self.engine,
            l.timeout_ms == self.timeout_ms,
            l.description@ == self.description@ + chain_separator() + text@,
            match self.root {
                Some(e) => l.root is Some && l.root.unwrap()@ == e@,
                None => l.root is None,
            },
            match (self.invalid, parse_selector(text@)) {
                (Some(bad), _) => l.invalid is Some && l.invalid.unwrap()@ == bad@ && l.chain@.len()
                    == 0,
                (None, None) => l.invalid is Some && l.invalid.unwrap()@ == text@ && l.chain@.len()
                    == 0,
                (None, Some(conditions)) => l.invalid is None && chain_view(l.chain@) == chain_view(
                    self.chain@,
                ).push(conditions),
            },
    {
        let mut description = self.description.clone();
        proof {
            reveal_strlit(" >> ");
            assert(" >> "@ =~= chain_separator());
        }
        description.append(" >> ");
        description.append(text);
        let root = match &self.root {
            Some(e) => Some(e.clone()),
            None => None,
        };
        let mut chain: Vec<Selector> = Vec::new();
        let invalid = match &self.invalid {
            Some(bad) => Some(bad.clone()),
            None => match Selector::parse(text) {
                Err(_) => Some(text.to_owned()),
                Ok(selector) => {
                    let mut j: usize = 0;
                    while j < self.chain.len()
                        invariant
                            j <= self.chain@.len(),
                            chain@.len() == j,
                            forall|x: int| 0 <= x < j ==> (#[trigger] chain@[x])@ == self.chain@[x]@,
                        decreases self.chain@.len() - j,
                    {
                        chain.push(self.chain[j].clone());
                        j += 1;
                    }
                    let ghost v = selector@;
                    chain.push(selector);
                    assert(chain_view(chain@) =~= chain_view(self.chain@).push(v));
                    None
                },
            },
        };
        Locator { engine: self.engine, chain, invalid, description, root, timeout_ms: self.timeout_ms }
    }

    /// The wait budget of a call: the one it names, or the locator's own.
    pub open spec fn budget(&self, timeout_ms: Option<u64>) -> u64 {
        match timeout_ms {
            Some(t) => t,
            None => self.timeout_ms,
        }
    }

    /// Whether `t` is a snapshot that the engine took of the locator's
    /// scope.
    pub open spec fn sees(&self, t: TreeView) -> bool {
        t.wf() && self.engine.captures(element_value(self.root), t)
    }

    /// Whether `e` is the first element, in depth-first pre-order, that the
    /// chain resolves to in the snapshot `t`.
    pub open spec fn is_first_in(&self, t: TreeView, e: ElementView) -> bool {
        &&& self.sees(t)
        &&& resolution(t, self.chain@).len() > 0
        &&& resolution(t, self.chain@)[0] < t.len()
        &&& e == t.nodes[resolution(t, self.chain@)[0] as int].element
    }

    /// Whether `found` are the elements that the chain resolves to in the
    /// snapshot `t`, in depth-first pre-order.
    pub open spec fn are_all_in(&self, t: TreeView, found: Seq<UIElement>) -> bool {
        &&& self.sees(t)
        &&& found.len() == resolution(t, self.chain@).len()
        &&& forall|k: int|
            0 <= k < found.len() ==> (#[trigger] resolution(t, self.chain@)[k]) < t.len()
                && found[k]@ == t.nodes[resolution(t, self.chain@)[k] as int].element
    }

    /// Whether `polls` are the snapshots that one call took, in order,
    /// when it ended after `waited_ms` milliseconds of waiting: every one is
    /// a snapshot of the locator's scope; the chain resolved to nothing in
    /// every one but the last, so that the call went on; and between any
    /// two the engine was asked to pause for one polling interval.
    pub open spec fn polled(&self, polls: Seq<TreeView>, waited_ms: nat) -> bool {
        &&& polls.len() >= 1
        &&& (polls.len() - 1) * POLL_INTERVAL_MS == waited_ms
        &&& polls.len() > 1 ==> self.engine.pauses(POLL_INTERVAL_MS)
        &&& forall|i: int| 0 <= i < polls.len() ==> self.sees(#[trigger] polls[i])
        &&& forall|i: int|
            0 <= i < polls.len() - 1 ==> resolution(#[trigger] polls[i], self.chain@).len() == 0
    }

    /// Whether `polls` are the snapshots that one call under a budget of
    /// `budget_ms` took, in order: as `polled` says, and with waits that
    /// stay below the budget and one polling interval.
    pub open spec fn walked(&self, polls: Seq<TreeView>, budget_ms: u64) -> bool {
        &&& polls.len() >= 1
        &&& self.polled(polls, ((polls.len() - 1) * POLL_INTERVAL_MS) as nat)
        &&& (polls.len() - 1) * POLL_INTERVAL_MS < budget_ms + POLL_INTERVAL_MS
    }

    /// Whether a call that took `polls` had waited at least its budget when
    /// it took the last of them.
    pub open spec fn waited_out(polls: Seq<TreeView>, budget_ms: u64) -> bool {
        (polls.len() - 1) * POLL_INTERVAL_MS >= budget_ms
    }

    /// Looks in snapshot after snapshot until the chain resolves to
    /// something or the wait budget is used up.
    ///
    /// Each attempt takes one snapshot and resolves the chain in it: to all
    /// its matches, or with `only_first` to the first of them, without
    /// walking past it. An attempt that finds something ends the call. After
    /// an attempt that finds nothing, the call ends if the waits so far have
    /// reached the budget; otherwise it waits one polling interval and tries
    /// again. So a call that finds nothing has waited at least the budget,
    /// and less than the budget and one interval; and a call ends at the
    /// first snapshot in which the chain resolves to something.
    pub fn resolve_with_retry(&self, timeout_ms: Option<u64>, only_first: bool) -> (r: Resolution)
        ensures
            exists|polls: Seq<TreeView>| #[trigger]
                self.polled(polls, r.waited_ms as nat) && polls.last() == r.tree@,
            self.engine.captures(element_value(self.root), r.tree@),
            r.found@ == if only_first {
                head_of(resolution(r.tree@, self.chain@))
            } else {
                resolution(r.tree@, self.chain@)
            },
            all_nodes(r.tree@, r.found@),
            r.waited_ms % (POLL_INTERVAL_MS as u128) == 0,
            r.waited_ms < self.budget(timeout_ms) + POLL_INTERVAL_MS,
            r.found@.len() == 0 ==> r.waited_ms >= self.budget(timeout_ms),
    {
        let budget: u64 = match timeout_ms {
            Some(t) => t,
            None => self.timeout_ms,
        };
        let mut waited: u128 = 0;
        let ghost mut before: Seq<TreeView> = Seq::empty();
        loop
            invariant
                budget == self.budget(timeout_ms),
                waited % (POLL_INTERVAL_MS as u128) == 0,
                waited < budget + POLL_INTERVAL_MS,
                before.len() * POLL_INTERVAL_MS == waited,
                before.len() > 0 ==> self.engine.pauses(POLL_INTERVAL_MS),
                forall|i: int|
                    0 <= i < before.len() ==> self.sees(#[trigger] before[i]) && resolution(
                        before[i],
                        self.chain@,
                    ).len() == 0,
            decreases budget + POLL_INTERVAL_MS - waited,
        {
            let tree = self.engine.snapshot(self.root.as_ref());
            let found = resolve_chain(&tree, &self.chain, only_first);
            let ghost polls = before.push(tree@);
            proof {
                assert(self.sees(tree@));
                assert forall|i: int| 0 <= i < polls.len() implies self.sees(
                    #[trigger] polls[i],
                ) by {
                    if i < before.len() {
                        assert(polls[i] == before[i]);
                    }
                }
                assert forall|i: int| 0 <= i < polls.len() - 1 implies resolution(
                    #[trigger] polls[i],
                    self.chain@,
                ).len() == 0 by {
                    assert(polls[i] == before[i]);
                }
            }
            match poll_step(found.len() > 0, waited, budget) {
                PollStep::Wait(millis) => {
                    self.engine.pause(millis);
                    assert((waited + 100) % 100 == 0) by (nonlinear_arith)
                        requires
                            waited % 100 == 0,
                    ;
                    waited = waited + millis as u128;
                    proof {
                        before = polls;
                    }
                },
                _ => {
                    assert(self.polled(polls, waited as nat));
                    let r = Resolution { tree, found, waited_ms: waited };
                    assert(self.polled(polls, r.waited_ms as nat) && polls.last() == r.tree@);
                    return r;
                },
            }
        }
    }

    /// The first element, in depth-first pre-order, that the chain resolves
    /// to, waiting for it to appear for at most `timeout_ms` milliseconds, or
    /// the locator's own budget where that is `None`.
    ///
    /// A locator whose selector text could not be read fails with
    /// `InvalidSelector`, which carries that text, and asks nothing of the
    /// engine. A wait that ends with nothing found fails with `Timeout`,
    /// which carries the locator's description.
    ///
    /// The call takes snapshots one polling interval apart and ends at the
    /// first in which the chain resolves to something, with the first
    /// element that it resolves to there. It fails exactly if the chain
    /// resolved to nothing in every snapshot that it took, the last of them
    /// taken when the waits had reached the budget.
    pub fn first(&self, timeout_ms: Option<u64>) -> (r: Result<UIElement, AutomationError>)
        ensures
            self.invalid is None && r is Err ==> exists|polls: Seq<TreeView>| #[trigger]
                self.walked(polls, self.budget(timeout_ms)) && Self::waited_out(
                    polls,
                    self.budget(timeout_ms),
                ) && resolution(polls.last(), self.chain@).len() == 0,
            self.invalid is None && r is Ok ==> exists|polls: Seq<TreeView>| #[trigger]
                self.walked(polls, self.budget(timeout_ms)) && self.is_first_in(
                    polls.last(),
                    r.unwrap()@,
                ),
            self.invalid is Some ==> r is Err && r.unwrap_err().kind_spec()
                == ErrorKind::InvalidSelector && r.unwrap_err().message_spec()
                == self.invalid.unwrap()@,
            self.invalid is None && r is Err ==> r.unwrap_err().kind_spec() == ErrorKind::Timeout
                && r.unwrap_err().message_spec() == self.description@ && exists|t: TreeView|
                #[trigger] self.sees(t) && resolution(t, self.chain@).len() == 0,
            self.invalid is None && r is Ok ==> exists|t: TreeView| #[trigger]
                self.is_first_in(t, r.unwrap()@),
            self.invalid is None && r is Ok && self.chain@.len() > 0 ==> selector_matches(
                self.chain@.last()@,
                r.unwrap()@,
            ),
    {
        match &self.invalid {
            Some(bad) => {
                return Err(AutomationError::InvalidSelector(bad.clone()));
            },
            None => {},
        }
        let r = self.resolve_with_retry(timeout_ms, true);
        let n = r.tree.len();
        let ghost polls = choose|polls: Seq<TreeView>| #[trigger]
            self.polled(polls, r.waited_ms as nat) && polls.last() == r.tree@;
        assert(self.walked(polls, self.budget(timeout_ms)));
        if r.found.len() == 0 {
            assert(self.sees(r.tree@));
            assert(Self::waited_out(polls, self.budget(timeout_ms)));
            return Err(AutomationError::Timeout(self.description.clone()));
        }
        proof {
            assert(r.found@[0] == resolution(r.tree@, self.chain@)[0]);
            if self.chain@.len() > 0 {
                lemma_resolve_sound(r.tree@, chain_view(self.chain@), 0, seq![0usize]);
            }
        }
        let element = r.tree.element(r.found[0]).clone();
        let found: Result<UIElement, AutomationError> = Ok(element);
        assert(self.is_first_in(r.tree@, found.unwrap()@));
        assert(self.is_first_in(polls.last(), found.unwrap()@));
        found
    }

    /// All elements that the chain resolves to, in depth-first pre-order,
    /// waiting for a first one to appear for at most `timeout_ms`
    /// milliseconds, or the locator's own budget where that is `None`. A
    /// wait that ends with nothing found gives the empty list.
    ///
    /// A locator whose selector text could not be read fails with
    /// `InvalidSelector`, which carries that text, and asks nothing of the
    /// engine. There is no other failure.
    pub fn all(&self, timeout_ms: Option<u64>) -> (r: Result<Vec<UIElement>, AutomationError>)
        ensures
            self.invalid is Some ==> r is Err && r.unwrap_err().kind_spec()
                == ErrorKind::InvalidSelector && r.unwrap_err().message_spec()
                == self.invalid.unwrap()@,
            self.invalid is None ==> r is Ok && exists|t: TreeView| #[trigger]
                self.are_all_in(t, r.unwrap()@),
            self.invalid is None ==> exists|polls: Seq<TreeView>| #[trigger]
                self.walked(polls, self.budget(timeout_ms)) && self.are_all_in(
                    polls.last(),
                    r.unwrap()@,
                ) && (r.unwrap()@.len() == 0 ==> Self::waited_out(polls, self.budget(timeout_ms))),
            self.invalid is None && self.chain@.len() > 0 ==> forall|k: int|
                0 <= k < r.unwrap()@.len() ==> selector_matches(
                    self.chain@.last()@,
                    (#[trigger] r.unwrap()@[k])@,
                ),
    {
        match &self.invalid {
            Some(bad) => {
                return Err(AutomationError::InvalidSelector(bad.clone()));
            },
            None => {},
        }
        let r = self.resolve_with_retry(timeout_ms, false);
        let n = r.tree.len();
        proof {
            if self.chain@.len() > 0 {
                lemma_resolve_sound(r.tree@, chain_view(self.chain@), 0, seq![0usize]);
            }
        }
        let mut elements: Vec<UIElement> = Vec::new();
        let mut k: usize = 0;
        while k < r.found.len()
            invariant
                k <= r.found@.len(),
                elements@.len() == k,
                all_nodes(r.tree@, r.found@),
                forall|x: int|
                    0 <= x < k ==> (#[trigger] elements@[x])@
                        == r.tree@.nodes[r.found@[x] as int].element,
            decreases r.found@.len() - k,
        {
            elements.push(r.tree.element(r.found[k]).clone());
            k += 1;
        }
        proof {
            if self.chain@.len() > 0 {
                assert forall|k: int| 0 <= k < elements@.len() implies selector_matches(
                    self.chain@.last()@,
                    (#[trigger] elements@[k])@,
                ) by {
                    assert(r.found@[k] == resolution(r.tree@, self.chain@)[k]);
                }
            }
        }
        let found: Result<Vec<UIElement>, AutomationError> = Ok(elements);
        assert(self.are_all_in(r.tree@, found.unwrap()@));
        proof {
            let polls = choose|polls: Seq<TreeView>| #[trigger]
                self.polled(polls, r.waited_ms as nat) && polls.last() == r.tree@;
            assert(self.walked(polls, self.budget(timeout_ms)));
            assert(self.are_all_in(polls.last(), found.unwrap()@));
            if found.unwrap()@.len() == 0 {
                assert(Self::waited_out(polls, self.budget(timeout_ms)));
            }
        }
        found
    }
}

} // verus!
