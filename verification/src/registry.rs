use vstd::prelude::*;

verus! {

/// The table of live connection handles. A handle is an opaque `u64`
/// drawn from a counter that never repeats, so a released handle can
/// never silently resolve to a connection opened later: the registry
/// hands out each identity at most once in its lifetime.
///
/// The registry holds identities only; the unverified shell keeps the
/// engine connection object each identity stands for and drops it when
/// the identity is closed here.
pub struct ConnectionRegistry {
    next_id: u64,
    open_ids: Vec<u64>,
}

impl ConnectionRegistry {
    /// The set of handles that are open right now.
    pub closed spec fn open_set(&self) -> Set<u64> {
        Set::new(|h: u64| self.open_ids@.contains(h))
    }

    /// Every handle this registry has ever issued is below this bound,
    /// and every handle it will issue is at or above it.
    pub closed spec fn issued_bound(&self) -> u64 {
        self.next_id
    }

    /// Well-formedness: no handle is registered twice, and no open
    /// handle is at or above the issue bound.
    pub closed spec fn wf(&self) -> bool {
        &&& self.open_ids@.no_duplicates()
        &&& forall|i: int|
            0 <= i < self.open_ids@.len() ==> #[trigger] self.open_ids@[i] < self.next_id
    }

    /// An empty registry: nothing open, nothing issued yet.
    pub fn new() -> (r: Self)
        ensures
            r.wf(),
            r.open_set() =~= Set::<u64>::empty(),
            r.issued_bound() == 0,
    {
        let r = ConnectionRegistry { next_id: 0, open_ids: Vec::new() };
        proof {
            assert forall|h: u64| !r.open_set().contains(h) by {
                assert(!r.open_ids@.contains(h));
            }
        }
        r
    }

    /// Register a new connection and return its fresh handle: one that
    /// is not open now and was never issued before. Every other handle
    /// keeps its status.
    pub fn open(&mut self) -> (h: u64)
        requires
            old(self).wf(),
            old(self).issued_bound() < u64::MAX,
        ensures
            final(self).wf(),
            h == old(self).issued_bound(),
            final(self).issued_bound() == old(self).issued_bound() + 1,
            !old(self).open_set().contains(h),
            final(self).open_set() =~= old(self).open_set().insert(h),
    {
        let h = self.next_id;
        self.open_ids.push(h);
        self.next_id = self.next_id + 1;
        proof {
            let pre = *old(self);
            assert(!pre.open_ids@.contains(h));
            assert(self.open_ids@ == pre.open_ids@.push(h));
            assert forall|x: u64| #[trigger]
                self.open_set().contains(x) == pre.open_set().insert(h).contains(x) by {
                if x == h {
                    assert(self.open_ids@[self.open_ids@.len() - 1] == h);
                    assert(self.open_ids@.contains(h));
                } else {
                    assert(self.open_ids@.contains(x) == pre.open_ids@.contains(x)) by {
                        if pre.open_ids@.contains(x) {
                            let i = choose|i: int|
                                0 <= i < pre.open_ids@.len() && pre.open_ids@[i] == x;
                            assert(self.open_ids@[i] == x);
                        } else if self.open_ids@.contains(x) {
                            let i = choose|i: int|
                                0 <= i < self.open_ids@.len() && self.open_ids@[i] == x;
                            assert(i < pre.open_ids@.len());
                            assert(pre.open_ids@[i] == x);
                        }
                    }
                }
            }
        }
        h
    }

    /// How many handles have ever been issued; also the next handle's
    /// value. Callers test this against the counter's range before
    /// opening.
    pub fn issued(&self) -> (r: u64)
        ensures
            r == self.issued_bound(),
    {
        self.next_id
    }

    /// Whether `h` is open.
    pub fn is_open(&self, h: u64) -> (r: bool)
        ensures
            r == self.open_set().contains(h),
    {
        let n = self.open_ids.len();
        let mut i: usize = 0;
        while i < n
            invariant
                n == self.open_ids@.len(),
                i <= n,
                forall|t: int| 0 <= t < i ==> self.open_ids@[t] != h,
            decreases n - i,
        {
            if self.open_ids[i] == h {
                assert(self.open_ids@.contains(h));
                return true;
            }
            i = i + 1;
        }
        proof {
            assert(!self.open_ids@.contains(h));
        }
        false
    }

    /// Release `h`. Returns whether it was open; releasing an unknown or
    /// already-closed handle returns false and changes nothing, so a
    /// double close is a safe no-op. Handles other than `h` keep their
    /// status, and the issue bound does not move, so `h` is never handed
    /// out again.
    pub fn close(&mut self, h: u64) -> (was_open: bool)
        requires
            old(self).wf(),
        ensures
            final(self).wf(),
            was_open == old(self).open_set().contains(h),
            final(self).open_set() =~= old(self).open_set().remove(h),
            final(self).issued_bound() == old(self).issued_bound(),
    {
        let n = self.open_ids.len();
        let mut i: usize = 0;
        while i < n
            invariant
                *self == *old(self),
                old(self).wf(),
                n == self.open_ids@.len(),
                i <= n,
                forall|t: int| 0 <= t < i ==> self.open_ids@[t] != h,
            decreases n - i,
        {
            if self.open_ids[i] == h {
                let ghost pre = self.open_ids@;
                self.open_ids.remove(i);
                proof {
                    assert(pre.contains(h));
                    assert(self.open_ids@ == pre.subrange(0, i as int) + pre.subrange(
                        i as int + 1,
                        pre.len() as int,
                    ));
                    lemma_remove_keeps_no_duplicates(pre, i as int);
                    assert forall|x: u64| #[trigger]
                        self.open_set().contains(x) == old(self).open_set().remove(h).contains(
                            x,
                        ) by {
                        lemma_remove_contains(pre, i as int, x);
                        if x == h {
                            assert(!self.open_ids@.contains(h)) by {
                                lemma_remove_of_unique(pre, i as int);
                            }
                        }
                    }
                    assert forall|t: int|
                        0 <= t < self.open_ids@.len() implies #[trigger] self.open_ids@[t]
                        < self.next_id by {
                        assert(self.open_ids@.contains(self.open_ids@[t]));
                        let s = choose|s: int| 0 <= s < pre.len() && pre[s] == self.open_ids@[t];
                        assert(old(self).open_ids@[s] < old(self).next_id);
                    }
                }
                return true;
            }
            i = i + 1;
        }
        proof {
            assert(!self.open_ids@.contains(h));
            assert forall|x: u64| #[trigger]
                self.open_set().contains(x) == old(self).open_set().remove(h).contains(x) by {}
        }
        false
    }
}

/// Removing one position keeps the remaining elements, and membership of
/// any value other than the removed element is unchanged.
proof fn lemma_remove_contains(pre: Seq<u64>, i: int, x: u64)
    requires
        0 <= i < pre.len(),
    ensures
        (pre.remove(i).contains(x) ==> pre.contains(x)),
        (pre.contains(x) && x != pre[i] ==> pre.remove(i).contains(x)),
{
    let post = pre.remove(i);
    if post.contains(x) {
        let t = choose|t: int| 0 <= t < post.len() && post[t] == x;
        if t < i {
            assert(pre[t] == x);
        } else {
            assert(pre[t + 1] == x);
        }
    }
    if pre.contains(x) && x != pre[i] {
        let s = choose|s: int| 0 <= s < pre.len() && pre[s] == x;
        if s < i {
            assert(post[s] == x);
        } else {
            assert(post[s - 1] == x);
        }
    }
}

/// In a duplicate-free sequence, removing the one position holding a
/// value removes that value from the sequence altogether.
proof fn lemma_remove_of_unique(pre: Seq<u64>, i: int)
    requires
        0 <= i < pre.len(),
        pre.no_duplicates(),
    ensures
        !pre.remove(i).contains(pre[i]),
{
    let post = pre.remove(i);
    if post.contains(pre[i]) {
        let t = choose|t: int| 0 <= t < post.len() && post[t] == pre[i];
        if t < i {
            assert(pre[t] == pre[i]);
        } else {
            assert(pre[t + 1] == pre[i]);
        }
    }
}

/// Removing a position of a duplicate-free sequence leaves it
/// duplicate-free.
proof fn lemma_remove_keeps_no_duplicates(pre: Seq<u64>, i: int)
    requires
        0 <= i < pre.len(),
        pre.no_duplicates(),
    ensures
        pre.remove(i).no_duplicates(),
{
    let post = pre.remove(i);
    assert forall|a: int, b: int| 0 <= a < post.len() && 0 <= b < post.len() && a != b implies post[a]
        != post[b] by {
        let pa = if a < i { a } else { a + 1 };
        let pb = if b < i { b } else { b + 1 };
        assert(post[a] == pre[pa]);
        assert(post[b] == pre[pb]);
    }
}

/// Closing one handle never changes whether a different handle is open:
/// the registries of two connections do not interfere.
pub proof fn lemma_close_isolates(open0: Set<u64>, h: u64, other: u64)
    requires
        other != h,
    ensures
        open0.remove(h).contains(other) == open0.contains(other),
{
}

/// Closing a handle that is not open leaves the open set exactly as it
/// was.
pub proof fn lemma_close_unknown(open0: Set<u64>, h: u64)
    requires
        !open0.contains(h),
    ensures
        open0.remove(h) =~= open0,
{
}

} // verus!
