use vstd::prelude::*;
use std::collections::VecDeque;

verus! {

/// `s` with `m` appended, after dropping the oldest entry when `s` already
/// holds `max_size` entries or more.
pub open spec fn spec_push_bounded<T>(s: Seq<T>, max_size: nat, m: T) -> Seq<T> {
    if s.len() >= max_size && s.len() > 0 {
        s.drop_first().push(m)
    } else {
        s.push(m)
    }
}

/// `s` after pushing each of `xs` in turn.
pub open spec fn spec_push_all<T>(s: Seq<T>, max_size: nat, xs: Seq<T>) -> Seq<T>
    decreases xs.len(),
{
    if xs.len() == 0 {
        s
    } else {
        spec_push_bounded(spec_push_all(s, max_size, xs.drop_last()), max_size, xs.last())
    }
}

/// The last `n` entries of `s` (all of `s` when it is shorter).
pub open spec fn spec_newest<T>(s: Seq<T>, n: nat) -> Seq<T> {
    if s.len() <= n {
        s
    } else {
        s.subrange(s.len() - n, s.len() as int)
    }
}

/// Ring buffer that stores snapshots while the collector is unreachable.
/// When full, the oldest entry is dropped to make room for the newest.
pub struct OfflineBuffer<T> {
    queue: VecDeque<T>,
    max_size: usize,
}

impl<T> View for OfflineBuffer<T> {
    type V = Seq<T>;

    /// The buffered entries, oldest first.
    closed spec fn view(&self) -> Seq<T> {
        self.queue@
    }
}

impl<T> OfflineBuffer<T> {
    /// The number of entries the buffer keeps.
    pub closed spec fn max_size(&self) -> nat {
        self.max_size as nat
    }

    /// An empty buffer that keeps at most `max_size` entries.
    pub fn new(max_size: usize) -> (b: Self)
        ensures
            b@ == Seq::<T>::empty(),
            b.max_size() == max_size,
    {
        let initial_capacity: usize = if max_size < 1024 { max_size } else { 1024 };
        OfflineBuffer { queue: VecDeque::with_capacity(initial_capacity), max_size }
    }

    /// Appends `m`, dropping the oldest entry first when the buffer is full;
    /// returns whether it was full, which is worth a warning.
    pub fn push(&mut self, m: T) -> (was_full: bool)
        ensures
            final(self)@ == spec_push_bounded(old(self)@, old(self).max_size(), m),
            final(self).max_size() == old(self).max_size(),
            was_full == (old(self)@.len() >= old(self).max_size()),
    {
        let was_full = self.queue.len() >= self.max_size;
        if was_full {
            let _dropped = self.queue.pop_front();
        }
        self.queue.push_back(m);
        was_full
    }

    /// Removes every entry and returns them, oldest first.
    pub fn drain_all(&mut self) -> (drained: Vec<T>)
        ensures
            drained@ == old(self)@,
            final(self)@ == Seq::<T>::empty(),
            final(self).max_size() == old(self).max_size(),
    {
        let mut drained: Vec<T> = Vec::new();
        let ghost all = self.queue@;
        while self.queue.len() > 0
            invariant
                drained@ + self.queue@ == all,
                self.max_size == old(self).max_size,
            decreases self.queue@.len(),
        {
            match self.queue.pop_front() {
                Some(x) => {
                    drained.push(x);
                    assert(drained@ + self.queue@ =~= all);
                },
                None => {},
            }
        }
        assert(drained@ =~= all);
        drained
    }

    /// The number of buffered entries.
    pub fn len(&self) -> (n: usize)
        ensures
            n == self@.len(),
    {
        self.queue.len()
    }
}

/// Pushing into a buffer that holds at most `max_size` entries keeps it at
/// most `max_size` long (for a positive `max_size`), drops only the oldest
/// entry, and always keeps the new one last.
pub proof fn lemma_push_bounded_len<T>(s: Seq<T>, max_size: nat, m: T)
    requires
        s.len() <= max_size,
        max_size >= 1,
    ensures
        spec_push_bounded(s, max_size, m).len() <= max_size,
        spec_push_bounded(s, max_size, m).len() >= 1,
        spec_push_bounded(s, max_size, m).last() == m,
        s.len() < max_size ==> spec_push_bounded(s, max_size, m) == s.push(m),
{
}

/// Pushing a run of snapshots into a buffer leaves exactly the newest
/// `max_size` of all that went in, in arrival order.
pub proof fn lemma_push_all_keeps_newest<T>(s: Seq<T>, max_size: nat, xs: Seq<T>)
    requires
        max_size >= 1,
        s.len() <= max_size,
    ensures
        spec_push_all(s, max_size, xs) == spec_newest(s + xs, max_size),
    decreases xs.len(),
{
    if xs.len() > 0 {
        let prev = xs.drop_last();
        lemma_push_all_keeps_newest(s, max_size, prev);
        let q = spec_push_all(s, max_size, prev);
        let whole = s + xs;
        assert(whole =~= (s + prev).push(xs.last()));
        let len_prev = (s + prev).len();
        if len_prev < max_size {
            assert(spec_push_all(s, max_size, xs) =~= spec_newest(whole, max_size));
        } else {
            assert(q.len() == max_size);
            assert(spec_push_all(s, max_size, xs) =~= spec_newest(whole, max_size));
        }
    } else {
        assert(s + xs =~= s);
    }
}

} // verus!
