//! Cleaning up resources at shutdown, highest priority first.

use vstd::prelude::*;
use crate::shutdown::error::Result;
use crate::text::string_of;

verus! {

/// The cleanup actions, in registration order. The closures live in a
/// `Vec<Box<dyn Fn() -> Result<()> + Send + Sync>>`; Verus refuses a
/// trait object of that kind in a verified struct, so the list is held
/// here out of its sight and known only by its length, `action_count`.
#[verifier::external_body]
pub struct ActionList {
    actions: Vec<Box<dyn Fn() -> Result<()> + Send + Sync>>,
}

/// How many actions an `ActionList` holds.
pub uninterp spec fn action_count(list: ActionList) -> nat;

impl ActionList {
    /// An empty list: `Vec::new()`.
    #[verifier::external_body]
    fn new() -> (r: Self)
        ensures
            action_count(r) == 0,
    {
        ActionList { actions: Vec::new() }
    }

    /// Boxes `action` and appends it with `Vec::push`.
    #[verifier::external_body]
    fn push<F>(&mut self, action: F)
        where
            F: Fn() -> Result<()> + Send + Sync + 'static,
        ensures
            action_count(*final(self)) == action_count(*old(self)) + 1,
    {
        self.actions.push(Box::new(action));
    }

    /// Calls the action at position `i`. What it returns is up to the
    /// action; nothing is stated about it.
    #[verifier::external_body]
    fn run(&self, i: usize) -> Result<()>
        requires
            i < action_count(*self),
    {
        (self.actions[i])()
    }

    /// Empties the list with `Vec::clear`.
    #[verifier::external_body]
    fn clear(&mut self)
        ensures
            action_count(*final(self)) == 0,
    {
        self.actions.clear();
    }
}

/// A registered cleanup, without its action.
#[derive(Debug, Clone)]
pub struct CleanupItem {
    /// Name.
    pub name: String,
    /// Priority: higher runs first.
    pub priority: u32,
}

/// Whether item `a` runs before item `b`: a higher priority first, and
/// among equal priorities the one registered first.
pub open spec fn runs_before(prios: Seq<u32>, a: int, b: int) -> bool {
    prios[a] > prios[b] || (prios[a] == prios[b] && a < b)
}

/// Whether `order` lists the positions `0..prios.len()` each once, in the
/// order the cleanup runs them: by priority, highest first, and in
/// registration order among equal priorities.
pub open spec fn is_cleanup_order(prios: Seq<u32>, order: Seq<usize>) -> bool {
    &&& order.len() == prios.len()
    &&& forall|k: int| 0 <= k < order.len() ==> (#[trigger] order[k]) < prios.len()
    &&& forall|k: int, l: int|
        0 <= k < l < order.len() ==> runs_before(prios, #[trigger] order[k] as int, #[trigger] order[l] as int)
    &&& forall|j: int| 0 <= j < prios.len() ==> #[trigger] lists(order, j)
}

/// Whether `j` appears in `order`.
pub open spec fn lists(order: Seq<usize>, j: int) -> bool {
    exists|k: int| 0 <= k < order.len() && order[k] == j
}

/// The priorities of the items.
pub open spec fn priorities(items: Seq<CleanupItem>) -> Seq<u32> {
    items.map_values(|c: CleanupItem| c.priority)
}

/// Runs registered cleanups once, highest priority first.
pub struct ResourceCleaner {
    cleanup_items: Vec<CleanupItem>,
    actions: ActionList,
    cleaned: bool,
    ran: Ghost<Seq<Seq<char>>>,
}

/// The names of the cleanups at the positions of `order`, in that order.
pub open spec fn names_in_order(items: Seq<CleanupItem>, order: Seq<usize>) -> Seq<Seq<char>> {
    order.map_values(|i: usize| items[i as int].name@)
}

impl ResourceCleaner {
    /// The registered cleanups, in registration order.
    pub closed spec fn items(&self) -> Seq<CleanupItem> {
        self.cleanup_items@
    }

    /// Whether the cleanup has run.
    pub closed spec fn done(&self) -> bool {
        self.cleaned
    }

    /// The names of the cleanups run so far, in the order they ran.
    pub closed spec fn history(&self) -> Seq<Seq<char>> {
        self.ran@
    }

    /// The cleaner's invariant: one action per item.
    pub closed spec fn wf(&self) -> bool {
        action_count(self.actions) == self.cleanup_items@.len()
    }

    /// A cleaner with nothing registered.
    pub fn new() -> (r: Self)
        ensures
            r.wf(),
            r.items().len() == 0,
            !r.done(),
            r.history().len() == 0,
    {
        ResourceCleaner {
            cleanup_items: Vec::new(),
            actions: ActionList::new(),
            cleaned: false,
            ran: Ghost(Seq::empty()),
        }
    }

    /// Registers a cleanup.
    pub fn register<F>(&mut self, name: &str, priority: u32, action: F)
        where
            F: Fn() -> Result<()> + Send + Sync + 'static,
        requires
            old(self).wf(),
        ensures
            final(self).wf(),
            final(self).items().len() == old(self).items().len() + 1,
            final(self).items().drop_last() == old(self).items(),
            final(self).items().last().name@ == name@,
            final(self).items().last().priority == priority,
            final(self).done() == old(self).done(),
            final(self).history() == old(self).history(),
    {
        self.cleanup_items.push(CleanupItem { name: string_of(name), priority });
        self.actions.push(action);
        assert(self.cleanup_items@.drop_last() =~= old(self).cleanup_items@);
    }

    /// The order in which the registered cleanups run.
    pub fn cleanup_order(&self) -> (r: Vec<usize>)
        ensures
            is_cleanup_order(priorities(self.items()), r@),
    {
        let ghost prios = priorities(self.items());
        let n = self.cleanup_items.len();
        let mut order: Vec<usize> = Vec::new();
        let mut i: usize = 0;
        while i < n
            invariant
                n == self.cleanup_items@.len(),
                prios == priorities(self.cleanup_items@),
                i <= n,
                order@.len() == i,
                forall|k: int| 0 <= k < order@.len() ==> (#[trigger] order@[k]) < i,
                forall|k: int, l: int|
                    0 <= k < l < order@.len() ==> runs_before(prios, #[trigger] order@[k] as int, #[trigger] order@[l] as int),
                forall|j: int| 0 <= j < i ==> #[trigger] lists(order@, j),
            decreases n - i,
        {
            let p = self.cleanup_items[i].priority;
            assert(prios[i as int] == p);
            let mut pos: usize = 0;
            while pos < order.len() && self.cleanup_items[order[pos]].priority >= p
                invariant
                    n == self.cleanup_items@.len(),
                    prios == priorities(self.cleanup_items@),
                    i < n,
                    p == prios[i as int],
                    pos <= order@.len(),
                    forall|k: int| 0 <= k < order@.len() ==> (#[trigger] order@[k]) < i,
                    forall|k: int| 0 <= k < pos ==> prios[#[trigger] order@[k] as int] >= p,
                decreases order.len() - pos,
            {
                assert(prios[order@[pos as int] as int] == self.cleanup_items@[order@[pos as int] as int].priority);
                pos = pos + 1;
            }
            proof {
                if pos < order@.len() {
                    assert(prios[order@[pos as int] as int] == self.cleanup_items@[order@[pos as int] as int].priority);
                    assert(prios[order@[pos as int] as int] < p);
                }
            }
            let ghost before = order@;
            order.insert(pos, i);
            assert(order@ == before.insert(pos as int, i));
            assert forall|k: int, l: int|
                0 <= k < l < order@.len() implies runs_before(prios, #[trigger] order@[k] as int, #[trigger] order@[l] as int) by {
                if l < pos {
                    assert(order@[k] == before[k] && order@[l] == before[l]);
                } else if l == pos {
                    assert(order@[k] == before[k]);
                    assert(prios[before[k] as int] >= p);
                } else if k == pos {
                    assert(order@[l] == before[l - 1]);
                    assert(runs_before(prios, before[pos as int] as int, before[l - 1] as int) || l - 1 == pos);
                } else if k < pos {
                    assert(order@[k] == before[k] && order@[l] == before[l - 1]);
                } else {
                    assert(order@[k] == before[k - 1] && order@[l] == before[l - 1]);
                }
            }
            assert forall|j: int| 0 <= j < i + 1 implies #[trigger] lists(order@, j) by {
                if j == i {
                    assert(order@[pos as int] == i);
                } else {
                    assert(lists(before, j));
                    let k0 = choose|k: int| 0 <= k < before.len() && before[k] == j;
                    if k0 < pos {
                        assert(order@[k0] == j);
                    } else {
                        assert(order@[k0 + 1] == j);
                    }
                }
            }
            i = i + 1;
        }
        order
    }

    /// Runs every registered cleanup once, in `cleanup_order`, ignoring
    /// their failures, and then forgets them; a second call does nothing.
    pub fn cleanup_all(&mut self) -> (r: Result<()>)
        requires
            old(self).wf(),
        ensures
            r is Ok,
            final(self).wf(),
            final(self).done(),
            old(self).done() ==> final(self).items() == old(self).items() && final(self).history()
                == old(self).history(),
            !old(self).done() ==> final(self).items().len() == 0,
            !old(self).done() ==> exists|order: Seq<usize>|
                is_cleanup_order(priorities(old(self).items()), order) && final(self).history()
                    == old(self).history() + #[trigger] names_in_order(old(self).items(), order),
    {
        if self.cleaned {
            return Ok(());
        }
        let order = self.cleanup_order();
        let mut k: usize = 0;
        while k < order.len()
            invariant
                action_count(self.actions) == self.cleanup_items@.len(),
                self.cleanup_items@ == old(self).cleanup_items@,
                is_cleanup_order(priorities(self.cleanup_items@), order@),
                k <= order@.len(),
                self.ran@ == old(self).ran@ + names_in_order(self.cleanup_items@, order@.subrange(0, k as int)),
            decreases order.len() - k,
        {
            let i = order[k];
            let _ = self.actions.run(i);
            proof {
                assert(order@.subrange(0, k as int + 1) =~= order@.subrange(0, k as int).push(i));
                assert(names_in_order(self.cleanup_items@, order@.subrange(0, k as int + 1)) =~= names_in_order(
                    self.cleanup_items@,
                    order@.subrange(0, k as int),
                ).push(self.cleanup_items@[i as int].name@));
            }
            self.ran = Ghost(self.ran@.push(self.cleanup_items@[i as int].name@));
            k = k + 1;
        }
        assert(order@.subrange(0, order@.len() as int) =~= order@);
        self.cleanup_items.clear();
        self.actions.clear();
        self.cleaned = true;
        Ok(())
    }

    /// Whether the cleanup has run.
    pub fn is_cleaned(&self) -> (r: bool)
        ensures
            r == self.done(),
    {
        self.cleaned
    }

    /// How many cleanups wait to run.
    pub fn pending_count(&self) -> (r: usize)
        ensures
            r == self.items().len(),
    {
        self.cleanup_items.len()
    }

    /// Forgets every registered cleanup.
    pub fn clear(&mut self)
        ensures
            final(self).wf(),
            final(self).items().len() == 0,
            final(self).done() == old(self).done(),
            final(self).history() == old(self).history(),
    {
        self.cleanup_items.clear();
        self.actions.clear();
    }
}

impl Default for ResourceCleaner {
    fn default() -> (r: Self)
        ensures
            r.wf(),
            r.items().len() == 0,
            !r.done(),
    {
        Self::new()
    }
}

} // verus!
