//! FIFO wait lists for blocked producers and consumers.
//!
//! A waiter is identified by the task that enrolled it. A list holds two
//! groups: tasks still parked (`waiting`, in arrival order), and tasks that
//! have been handed a wake token and are scheduled to be re-polled
//! (`woken`). Waking detaches the front parked task and hands it the single
//! wake token for one state transition.
//!
//! Cancelling a waiter that already holds a wake token forwards the token
//! to the next parked task of the same kind, so no wake is ever lost.

use vstd::prelude::*;
use vstd::seq_lib::*;

verus! {

/// Abstract state of a wait list: parked tasks in arrival order, and tasks
/// holding a wake token in the order the tokens were issued.
pub struct WaitListModel {
    pub waiting: Seq<u64>,
    pub woken: Seq<u64>,
}

/// A task appears at most once across the whole list: once enrolled it is
/// either parked or woken, never both, and never twice.
pub open spec fn wait_list_model_wf(w: WaitListModel) -> bool {
    &&& w.waiting.no_duplicates()
    &&& w.woken.no_duplicates()
    &&& forall|t: u64| !(w.waiting.contains(t) && #[trigger] w.woken.contains(t))
}

/// Enrollment: the task parks at the tail of the list.
pub open spec fn insert_m(w: WaitListModel, task: u64) -> WaitListModel {
    WaitListModel { waiting: w.waiting.push(task), woken: w.woken }
}

/// Waking: the front parked task, if any, is detached and handed the wake
/// token; it will be re-polled. A wake on an empty list is a no-op.
pub open spec fn wake_one_m(w: WaitListModel) -> WaitListModel {
    if w.waiting.len() == 0 {
        w
    } else {
        (WaitListModel { waiting: w.waiting.drop_first(), woken: w.woken.push(w.waiting[0]) })
    }
}

/// Token consumption: a woken task that is re-polled gives its token back
/// before retrying.
pub open spec fn acknowledge_m(w: WaitListModel, task: u64) -> WaitListModel {
    WaitListModel { waiting: w.waiting, woken: w.woken.remove_value(task) }
}

/// Cancellation: a parked task simply leaves the list; a woken task leaves
/// and forwards its wake token to the next parked task, so the token is not
/// lost. A task that is in neither group leaves the list unchanged.
pub open spec fn cancel_m(w: WaitListModel, task: u64) -> WaitListModel {
    if w.waiting.contains(task) {
        (WaitListModel { waiting: w.waiting.remove_value(task), woken: w.woken })
    } else if w.woken.contains(task) {
        wake_one_m(WaitListModel { waiting: w.waiting, woken: w.woken.remove_value(task) })
    } else {
        w
    }
}

/// A FIFO list of waiting tasks with single-token wake hand-off.
pub struct WaitList {
    waiting: Vec<u64>,
    woken: Vec<u64>,
}

impl View for WaitList {
    type V = WaitListModel;

    closed spec fn view(&self) -> WaitListModel {
        WaitListModel { waiting: self.waiting@, woken: self.woken@ }
    }
}

/// Removes the first occurrence of `task` from `v`, reporting whether it
/// was present.
fn remove_task(v: &mut Vec<u64>, task: u64) -> (found: bool)
    ensures
        final(v)@ == old(v)@.remove_value(task),
        found == old(v)@.contains(task),
{
    let ghost orig = old(v)@;
    let mut i: usize = 0;
    while i < v.len()
        invariant
            i <= v@.len(),
            v@ == orig,
            orig == old(v)@,
            forall|j: int| 0 <= j < i ==> v@[j] != task,
        decreases v@.len() - i,
    {
        if v[i] == task {
            proof {
                assert(orig.contains(task)) by {
                    assert(orig[i as int] == task);
                }
                orig.index_of_first_ensures(task);
                let idx = orig.index_of_first(task);
                assert(idx is Some);
                assert(idx.unwrap() == i as int) by {
                    if idx.unwrap() < i as int {
                        assert(orig[idx.unwrap()] == task);
                    }
                    if idx.unwrap() > i as int {
                        assert(orig[i as int] != task);
                    }
                }
            }
            v.remove(i);
            return true;
        }
        i = i + 1;
    }
    proof {
        orig.index_of_first_ensures(task);
    }
    false
}

/// In a duplicate-free sequence, removing a value removes it entirely.
pub proof fn lemma_remove_value_removes(s: Seq<u64>, val: u64)
    requires
        s.no_duplicates(),
    ensures
        !s.remove_value(val).contains(val),
{
    s.index_of_first_ensures(val);
    if s.index_of_first(val) is Some {
        let i = s.index_of_first(val).unwrap();
        let r = s.remove(i);
        if r.contains(val) {
            let j = choose|j: int| 0 <= j < r.len() && r[j] == val;
            if j < i {
                assert(s[j] == val);
            } else {
                assert(s[j + 1] == val);
            }
        }
    }
}

/// Removing an absent value leaves a sequence unchanged.
proof fn lemma_remove_value_absent(s: Seq<u64>, val: u64)
    requires
        !s.contains(val),
    ensures
        s.remove_value(val) == s,
{
    s.index_of_first_ensures(val);
}

impl WaitList {
    /// List well-formedness: see [`wait_list_model_wf`].
    pub open spec fn wf(&self) -> bool {
        wait_list_model_wf(self@)
    }

    /// Creates an empty list.
    pub fn new() -> (r: Self)
        ensures
            r@.waiting == Seq::<u64>::empty(),
            r@.woken == Seq::<u64>::empty(),
            r.wf(),
    {
        WaitList { waiting: Vec::new(), woken: Vec::new() }
    }

    /// True while `task` is parked in the list.
    pub fn contains_waiting(&self, task: u64) -> (r: bool)
        ensures
            r == self@.waiting.contains(task),
    {
        let mut i: usize = 0;
        while i < self.waiting.len()
            invariant
                i <= self@.waiting.len(),
                forall|j: int| 0 <= j < i ==> self@.waiting[j] != task,
            decreases self@.waiting.len() - i,
        {
            if self.waiting[i] == task {
                return true;
            }
            i = i + 1;
        }
        false
    }

    /// True while `task` holds a wake token.
    pub fn contains_woken(&self, task: u64) -> (r: bool)
        ensures
            r == self@.woken.contains(task),
    {
        let mut i: usize = 0;
        while i < self.woken.len()
            invariant
                i <= self@.woken.len(),
                forall|j: int| 0 <= j < i ==> self@.woken[j] != task,
            decreases self@.woken.len() - i,
        {
            if self.woken[i] == task {
                return true;
            }
            i = i + 1;
        }
        false
    }

    /// The task holding the oldest outstanding wake token, if any; this is
    /// the waiter the executor should re-poll next.
    pub fn first_woken(&self) -> (r: Option<u64>)
        ensures
            r == if self@.woken.len() == 0 {
                Option::<u64>::None
            } else {
                Option::Some(self@.woken[0])
            },
    {
        if self.woken.len() == 0 {
            None
        } else {
            Some(self.woken[0])
        }
    }

    /// Number of parked tasks.
    pub fn waiting_len(&self) -> (r: usize)
        ensures
            r == self@.waiting.len(),
    {
        self.waiting.len()
    }

    /// Enrolls `task` at the tail of the list.
    pub fn insert(&mut self, task: u64)
        requires
            old(self).wf(),
            !old(self)@.waiting.contains(task),
            !old(self)@.woken.contains(task),
        ensures
            final(self)@ == insert_m(old(self)@, task),
            final(self).wf(),
    {
        self.waiting.push(task);
        proof {
            let w = old(self)@.waiting;
            assert forall|i: int, j: int|
                0 <= i < self@.waiting.len() && 0 <= j < self@.waiting.len() && i != j implies self@.waiting[i]
                != self@.waiting[j] by {
                if i < w.len() && j < w.len() {
                    assert(w[i] == self@.waiting[i] && w[j] == self@.waiting[j]);
                } else if i < w.len() {
                    assert(w.contains(w[i]));
                } else if j < w.len() {
                    assert(w.contains(w[j]));
                }
            }
            assert forall|t: u64| !(self@.waiting.contains(t) && #[trigger] self@.woken.contains(
                t,
            )) by {
                if self@.waiting.contains(t) && self@.woken.contains(t) {
                    let i = choose|i: int| 0 <= i < self@.waiting.len() && self@.waiting[i] == t;
                    if i < w.len() {
                        assert(w.contains(t));
                    }
                }
            }
        }
    }

    /// Detaches the front parked task, if any, and hands it the wake token.
    pub fn wake_one(&mut self)
        requires
            old(self).wf(),
        ensures
            final(self)@ == wake_one_m(old(self)@),
            final(self).wf(),
    {
        if self.waiting.len() > 0 {
            let t = self.waiting.remove(0);
            proof {
                assert(old(self)@.waiting.remove(0) =~= old(self)@.waiting.drop_first());
            }
            self.woken.push(t);
            proof {
                let oldw = old(self)@;
                assert(oldw.waiting.contains(t)) by {
                    assert(oldw.waiting[0] == t);
                }
                assert forall|i: int, j: int|
                    0 <= i < self@.woken.len() && 0 <= j < self@.woken.len() && i != j implies self@.woken[i]
                    != self@.woken[j] by {
                    if i < oldw.woken.len() && j < oldw.woken.len() {
                    } else if i < oldw.woken.len() {
                        assert(oldw.woken.contains(oldw.woken[i]));
                    } else if j < oldw.woken.len() {
                        assert(oldw.woken.contains(oldw.woken[j]));
                    }
                }
                assert forall|x: u64|
                    !(self@.waiting.contains(x) && #[trigger] self@.woken.contains(x)) by {
                    if self@.waiting.contains(x) {
                        let i = choose|i: int|
                            0 <= i < self@.waiting.len() && self@.waiting[i] == x;
                        assert(oldw.waiting[i + 1] == x);
                        assert(oldw.waiting.contains(x));
                        if self@.woken.contains(x) {
                            let j = choose|j: int|
                                0 <= j < self@.woken.len() && self@.woken[j] == x;
                            if j < oldw.woken.len() {
                                assert(oldw.woken.contains(x));
                            } else {
                                assert(x == t);
                                assert(oldw.waiting[0] == x);
                            }
                        }
                    }
                }
            }
        }
    }

    /// Consumes the wake token held by `task`, if it holds one.
    pub fn acknowledge(&mut self, task: u64)
        requires
            old(self).wf(),
        ensures
            final(self)@ == acknowledge_m(old(self)@, task),
            final(self).wf(),
    {
        remove_task(&mut self.woken, task);
        proof {
            lemma_remove_value_keeps_wf(old(self)@.woken, task);
            assert forall|t: u64|
                !(self@.waiting.contains(t) && #[trigger] self@.woken.contains(t)) by {
                if self@.woken.contains(t) {
                    lemma_remove_value_contains(old(self)@.woken, task, t);
                }
            }
        }
    }

    /// Cancels the enrollment of `task`: a parked task leaves the list; a
    /// woken task leaves and its token is forwarded to the next parked
    /// task.
    pub fn cancel(&mut self, task: u64)
        requires
            old(self).wf(),
        ensures
            final(self)@ == cancel_m(old(self)@, task),
            final(self).wf(),
    {
        if remove_task(&mut self.waiting, task) {
            proof {
                lemma_remove_value_keeps_wf(old(self)@.waiting, task);
                assert forall|t: u64|
                    !(self@.waiting.contains(t) && #[trigger] self@.woken.contains(t)) by {
                    if self@.waiting.contains(t) {
                        lemma_remove_value_contains(old(self)@.waiting, task, t);
                    }
                }
            }
        } else {
            proof {
                lemma_remove_value_absent(old(self)@.waiting, task);
            }
            let had_token = remove_task(&mut self.woken, task);
            proof {
                lemma_remove_value_keeps_wf(old(self)@.woken, task);
                assert forall|t: u64|
                    !(self@.waiting.contains(t) && #[trigger] self@.woken.contains(t)) by {
                    if self@.woken.contains(t) {
                        lemma_remove_value_contains(old(self)@.woken, task, t);
                    }
                }
            }
            if had_token {
                self.wake_one();
            } else {
                proof {
                    lemma_remove_value_absent(old(self)@.woken, task);
                }
            }
        }
    }
}

/// Removing a value from a duplicate-free sequence keeps it duplicate-free.
proof fn lemma_remove_value_keeps_wf(s: Seq<u64>, val: u64)
    requires
        s.no_duplicates(),
    ensures
        s.remove_value(val).no_duplicates(),
{
    s.index_of_first_ensures(val);
}

/// Whatever remains after removing `val` was in the sequence before.
proof fn lemma_remove_value_contains(s: Seq<u64>, val: u64, t: u64)
    requires
        s.remove_value(val).contains(t),
    ensures
        s.contains(t),
{
    s.index_of_first_ensures(val);
    match s.index_of_first(val) {
        Some(i) => {
            let r = s.remove(i);
            let j = choose|j: int| 0 <= j < r.len() && r[j] == t;
            if j < i {
                assert(s[j] == t);
            } else {
                assert(s[j + 1] == t);
            }
        },
        None => {},
    }
}

} // verus!
