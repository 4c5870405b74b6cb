//! Positions inside nested repeated structures, and the repetition level that
//! follows from two consecutive positions of one column.
use vstd::prelude::*;

verus! {

/// The deepest nesting that a column can track: repetition levels are `i16`.
pub const MAX_DEPTH: usize = 0x8000;

/// The snapshot `index`, cut or padded with "unset" to `depth` entries.
pub open spec fn aligned(index: Seq<usize>, depth: nat) -> Seq<Option<usize>> {
    Seq::new(
        depth,
        |d: int|
            if d < index.len() {
                Some(index[d])
            } else {
                None
            },
    )
}

/// The first depth at or after `from` at which `a` and `b` differ, or the
/// length of `a` where they agree from there on.
pub open spec fn first_difference(
    a: Seq<Option<usize>>,
    b: Seq<Option<usize>>,
    from: nat,
) -> nat
    decreases a.len() - from,
{
    if from >= a.len() {
        a.len()
    } else if a[from as int] != b[from as int] {
        from
    } else {
        first_difference(a, b, from + 1)
    }
}

/// The repetition level of an occurrence at position `index` in a column
/// whose previous occurrence left the counters `state`: the shallowest depth
/// at which the two positions part. An occurrence at the very same position
/// repeats at the deepest level.
pub open spec fn repetition_level(state: Seq<Option<usize>>, index: Seq<usize>) -> int {
    let d = first_difference(state, aligned(index, state.len()), 0);
    if d < state.len() {
        d as int
    } else {
        state.len() - 1
    }
}

/// `first_difference` finds the least differing depth: the two sequences
/// agree on every depth between `from` and the result, and differ at the
/// result where it lies inside the sequence.
pub proof fn lemma_first_difference(a: Seq<Option<usize>>, b: Seq<Option<usize>>, from: nat)
    requires
        from <= a.len(),
    ensures
        from <= first_difference(a, b, from) <= a.len(),
        forall|k: int| from <= k < first_difference(a, b, from) ==> a[k] == b[k],
        first_difference(a, b, from) < a.len() ==> a[first_difference(a, b, from) as int]
            != b[first_difference(a, b, from) as int],
    decreases a.len() - from,
{
    if from < a.len() && a[from as int] == b[from as int] {
        lemma_first_difference(a, b, from + 1);
    }
}

/// The repetition level is the smallest depth at which the column's counters
/// disagree with the caller's position; it lies between 0 and the column's
/// maximum repetition level.
pub proof fn lemma_repetition_level_is_shallowest(state: Seq<Option<usize>>, index: Seq<usize>)
    requires
        state.len() >= 1,
    ensures
        0 <= repetition_level(state, index) < state.len(),
        forall|k: int|
            0 <= k < repetition_level(state, index) ==> state[k] == aligned(
                index,
                state.len(),
            )[k],
        state != aligned(index, state.len()) ==> state[repetition_level(state, index)]
            != aligned(index, state.len())[repetition_level(state, index)],
        state == aligned(index, state.len()) ==> repetition_level(state, index) == state.len()
            - 1,
{
    let target = aligned(index, state.len());
    lemma_first_difference(state, target, 0);
    if first_difference(state, target, 0) == state.len() {
        assert(state =~= target);
    }
}

/// The first occurrence in a column's lifetime starts a new record: against
/// counters that are all unset, every position has repetition level 0.
pub proof fn lemma_first_occurrence_starts_record(max_rl: nat, index: Seq<usize>)
    requires
        index.len() >= 1,
    ensures
        repetition_level(Seq::new(max_rl + 1, |d: int| None::<usize>), index) == 0,
{
    let state = Seq::new(max_rl + 1, |d: int| None::<usize>);
    let target = aligned(index, state.len());
    assert(state[0] != target[0]);
}

/// The caller's position at each nesting depth: the number of the record at
/// depth 0, then the index of the element inside each enclosing list.
pub struct LevelIndexList {
    outer: Vec<usize>,
    index: usize,
}

impl View for LevelIndexList {
    type V = Seq<usize>;

    closed spec fn view(&self) -> Seq<usize> {
        self.outer@.push(self.index)
    }
}

impl LevelIndexList {
    /// A position always holds at least the record's number.
    pub proof fn lemma_nonempty(&self)
        ensures
            self@.len() >= 1,
    {
    }

    /// The position of record number `index`, outside any list.
    pub fn new_i(index: usize) -> (r: Self)
        ensures
            r@ == seq![index],
    {
        let r = LevelIndexList { outer: Vec::new(), index };
        assert(r@ =~= seq![index]);
        r
    }

    /// The position of the first element of a list that stands at this
    /// position: one level deeper, with index 0.
    pub fn new_child(&self) -> (r: Self)
        ensures
            r@ == self@.push(0),
    {
        let mut outer: Vec<usize> = Vec::new();
        let mut i: usize = 0;
        while i < self.outer.len()
            invariant
                i <= self.outer@.len(),
                outer@ == self.outer@.take(i as int),
            decreases self.outer@.len() - i,
        {
            outer.push(self.outer[i]);
            assert(self.outer@.take(i + 1) =~= self.outer@.take(i as int).push(self.outer@[i as int]));
            i = i + 1;
        }
        assert(self.outer@.take(i as int) =~= self.outer@);
        outer.push(self.index);
        LevelIndexList { outer, index: 0 }
    }

    /// Moves on to the next element at the deepest level.
    pub fn inc(&mut self)
        requires
            old(self)@.last() < usize::MAX,
        ensures
            final(self)@ == old(self)@.update(old(self)@.len() - 1, (old(self)@.last() + 1) as usize),
    {
        self.index = self.index + 1;
        assert(self@ =~= old(self)@.update(old(self)@.len() - 1, (old(self)@.last() + 1) as usize));
    }

    /// The nesting depth of this position: 0 outside any list.
    pub fn level(&self) -> (r: usize)
        ensures
            r == self@.len() - 1,
    {
        self.outer.len()
    }

    /// The index at the deepest level.
    pub fn index(&self) -> (r: usize)
        ensures
            r == self@.last(),
    {
        self.index
    }

    /// The index at depth `d`, if the position reaches that deep.
    pub fn get(&self, d: usize) -> (r: Option<usize>)
        ensures
            r == if d < self@.len() {
                Some(self@[d as int])
            } else {
                None
            },
    {
        if d < self.outer.len() {
            Some(self.outer[d])
        } else if d == self.outer.len() {
            Some(self.index)
        } else {
            None
        }
    }
}

impl Clone for LevelIndexList {
    fn clone(&self) -> (r: Self)
        ensures
            r@ == self@,
    {
        let mut outer: Vec<usize> = Vec::new();
        let mut i: usize = 0;
        while i < self.outer.len()
            invariant
                i <= self.outer@.len(),
                outer@ == self.outer@.take(i as int),
            decreases self.outer@.len() - i,
        {
            outer.push(self.outer[i]);
            assert(self.outer@.take(i + 1) =~= self.outer@.take(i as int).push(self.outer@[i as int]));
            i = i + 1;
        }
        assert(self.outer@.take(i as int) =~= self.outer@);
        LevelIndexList { outer, index: self.index }
    }
}

/// The position of a column's latest occurrence: one counter for each depth
/// from 0 to the column's maximum repetition level, unset until the first
/// occurrence arrives.
pub struct LevelIndexState {
    counters: Vec<Option<usize>>,
}

impl View for LevelIndexState {
    type V = Seq<Option<usize>>;

    closed spec fn view(&self) -> Seq<Option<usize>> {
        self.counters@
    }
}

/// The counters of a column that has seen no occurrence yet.
pub open spec fn unset(max_rl: int) -> Seq<Option<usize>> {
    Seq::new((max_rl + 1) as nat, |d: int| None::<usize>)
}

impl Clone for LevelIndexState {
    fn clone(&self) -> (r: Self)
        ensures
            r@ == self@,
    {
        let mut counters: Vec<Option<usize>> = Vec::new();
        let mut i: usize = 0;
        while i < self.counters.len()
            invariant
                i <= self.counters@.len(),
                counters@ == self.counters@.take(i as int),
            decreases self.counters@.len() - i,
        {
            counters.push(self.counters[i]);
            assert(self.counters@.take(i + 1) =~= self.counters@.take(i as int).push(
                self.counters@[i as int],
            ));
            i = i + 1;
        }
        assert(self.counters@.take(i as int) =~= self.counters@);
        LevelIndexState { counters }
    }
}

impl LevelIndexState {
    /// There is a counter for depth 0, and no more counters than a
    /// repetition level can name.
    pub open spec fn inv(&self) -> bool {
        1 <= self@.len() <= MAX_DEPTH
    }

    /// The state of a column with maximum repetition level `max_rl`, with
    /// every counter unset.
    pub fn new(max_rl: i16) -> (r: Self)
        requires
            max_rl >= 0,
        ensures
            r.inv(),
            r@ == unset(max_rl as int),
    {
        let mut counters: Vec<Option<usize>> = Vec::new();
        let mut d: i16 = 0;
        counters.push(None);
        while d < max_rl
            invariant
                0 <= d <= max_rl,
                counters@.len() == d + 1,
                forall|k: int| 0 <= k < counters@.len() ==> counters@[k] == None::<usize>,
            decreases max_rl - d,
        {
            counters.push(None);
            d = d + 1;
        }
        assert(counters@ =~= unset(max_rl as int));
        LevelIndexState { counters }
    }

    /// Compares the caller's position with the stored one, returns the
    /// repetition level of the new occurrence and stores the caller's
    /// position in place of the old one.
    pub fn copy_and_diff(&mut self, index: &LevelIndexList) -> (rl: i16)
        requires
            old(self).inv(),
        ensures
            final(self).inv(),
            rl == repetition_level(old(self)@, index@),
            final(self)@ == aligned(index@, old(self)@.len()),
    {
        let n = self.counters.len();
        let ghost before = self.counters@;
        let ghost target = aligned(index@, n as nat);
        let mut found: Option<usize> = None;
        let mut d: usize = 0;
        while d < n
            invariant
                d <= n,
                n == before.len(),
                n == self.counters@.len(),
                target == aligned(index@, n as nat),
                forall|k: int| 0 <= k < d ==> self.counters@[k] == target[k],
                forall|k: int| d <= k < n ==> self.counters@[k] == before[k],
                match found {
                    Some(f) => f < d && first_difference(before, target, 0) == f,
                    None => first_difference(before, target, 0) == first_difference(
                        before,
                        target,
                        d as nat,
                    ),
                },
            decreases n - d,
        {
            let wanted = index.get(d);
            let same = match (self.counters[d], wanted) {
                (Some(a), Some(b)) => a == b,
                (None, None) => true,
                _ => false,
            };
            if !same {
                if found.is_none() {
                    found = Some(d);
                }
                self.counters[d] = wanted;
            }
            d = d + 1;
        }
        assert(self.counters@ =~= target);
        match found {
            Some(f) => f as i16,
            None => (n - 1) as i16,
        }
    }
}

} // verus!
