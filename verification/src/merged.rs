//! The appenders of a record: they hand every occurrence to each of their
//! children, so that the columns of the record's fields stay aligned.
use vstd::prelude::*;
use crate::interface::{
    clamped, column_number, lemma_clamped_sum, reports_column, ColumnAppender, ColumnAppenderBase,
    ColumnFlush,
};
use crate::level_index::LevelIndexList;
use crate::real_memory_size::sum_bytes;

verus! {

/// The part of the first `upto` leaf columns that lies among the first
/// `width` ones.
pub open spec fn share_within(upto: nat, width: nat) -> nat {
    if upto <= width {
        upto
    } else {
        width
    }
}

/// The part of the first `upto` leaf columns that lies after the first
/// `width` ones.
pub open spec fn share_beyond(upto: nat, width: nat) -> nat {
    if upto <= width {
        0
    } else {
        (upto - width) as nat
    }
}

/// A record appender with any number of children as a mathematical value:
/// the levels of the record itself and the children in their order.
pub struct MergedState<S> {
    pub max_dl: i16,
    pub max_rl: i16,
    pub columns: Seq<S>,
}

/// The children of a record: each takes the record's values, and the one
/// at index `i` extracts its own field from them.
pub struct DynamicMergedAppender<TColumn> {
    columns: Vec<TColumn>,
    max_dl: i16,
    max_rl: i16,
}

impl<TColumn: ColumnAppenderBase> DynamicMergedAppender<TColumn> {
    /// The record's levels are levels of each child's path too.
    pub open spec fn fits(columns: Seq<TColumn::State>, max_dl: i16, max_rl: i16) -> bool {
        &&& 0 <= max_dl
        &&& 0 <= max_rl
        &&& forall|i: int|
            0 <= i < columns.len() ==> {
                &&& #[trigger] TColumn::inv(columns[i])
                &&& TColumn::max_dl_of(columns[i]) >= max_dl
                &&& TColumn::max_rl_of(columns[i]) >= max_rl
            }
    }

    /// The child's state `post` is a sound state of the child made as `pre`.
    pub open spec fn kept(pre: TColumn::State, post: TColumn::State) -> bool {
        &&& TColumn::inv(post)
        &&& TColumn::blank(post) == TColumn::blank(pre)
        &&& TColumn::max_dl_of(post) == TColumn::max_dl_of(pre)
        &&& TColumn::max_rl_of(post) == TColumn::max_rl_of(pre)
    }

    /// The record whose children went from `before` to the states of
    /// `columns` is sound, and made as it was.
    proof fn lemma_kept(before: Seq<TColumn::State>, columns: Seq<TColumn>, max_dl: i16, max_rl: i16)
        requires
            Self::fits(before, max_dl, max_rl),
            columns.len() == before.len(),
            forall|k: int|
                0 <= k < before.len() ==> #[trigger] Self::kept(before[k], columns[k].state()),
        ensures
            Self::fits(Self::states(columns), max_dl, max_rl),
            Seq::new(before.len(), |i: int| TColumn::blank(Self::states(columns)[i])) == Seq::new(
                before.len(),
                |i: int| TColumn::blank(before[i]),
            ),
    {
        assert forall|k: int| 0 <= k < before.len() implies #[trigger] TColumn::inv(
            Self::states(columns)[k],
        ) && TColumn::max_dl_of(Self::states(columns)[k]) >= max_dl && TColumn::max_rl_of(
            Self::states(columns)[k],
        ) >= max_rl by {
            assert(Self::kept(before[k], columns[k].state()));
            assert(TColumn::inv(before[k]));
        }
        assert forall|k: int| 0 <= k < before.len() implies TColumn::blank(
            Self::states(columns)[k],
        ) == TColumn::blank(before[k]) by {
            assert(Self::kept(before[k], columns[k].state()));
        }
        assert(Seq::new(before.len(), |i: int| TColumn::blank(Self::states(columns)[i]))
            =~= Seq::new(before.len(), |i: int| TColumn::blank(before[i])));
    }

    /// The children of a sound record are sound as they stand.
    proof fn lemma_kept_start(before: Seq<TColumn::State>, columns: Seq<TColumn>, max_dl: i16, max_rl: i16)
        requires
            Self::fits(before, max_dl, max_rl),
            before == Self::states(columns),
        ensures
            forall|k: int|
                0 <= k < before.len() ==> #[trigger] Self::kept(before[k], columns[k].state()),
    {
        assert forall|k: int| 0 <= k < before.len() implies #[trigger] Self::kept(
            before[k],
            columns[k].state(),
        ) by {
            assert(TColumn::inv(before[k]));
            assert(before[k] == columns[k].state());
        }
    }

    /// A call that moved child `i` alone leaves the children sound, and
    /// those after `i` as they were.
    proof fn lemma_one_child_moved(
        before: Seq<TColumn::State>,
        untouched: Seq<TColumn>,
        columns: Seq<TColumn>,
        i: int,
    )
        requires
            0 <= i < before.len(),
            untouched.len() == before.len(),
            columns.len() == before.len(),
            forall|k: int| 0 <= k < before.len() && k != i ==> #[trigger] columns[k] == untouched[k],
            forall|k: int|
                0 <= k < before.len() ==> #[trigger] Self::kept(before[k], untouched[k].state()),
            forall|k: int| i <= k < before.len() ==> #[trigger] untouched[k].state() == before[k],
            Self::kept(before[i], columns[i].state()),
        ensures
            forall|k: int|
                0 <= k < before.len() ==> #[trigger] Self::kept(before[k], columns[k].state()),
            forall|k: int| i + 1 <= k < before.len() ==> #[trigger] columns[k].state() == before[k],
    {
        assert forall|k: int| 0 <= k < before.len() implies #[trigger] Self::kept(
            before[k],
            columns[k].state(),
        ) by {
            if k != i {
                assert(columns[k] == untouched[k]);
                assert(Self::kept(before[k], untouched[k].state()));
            }
        }
        assert forall|k: int| i + 1 <= k < before.len() implies #[trigger] columns[k].state()
            == before[k] by {
            assert(columns[k] == untouched[k]);
            assert(untouched[k].state() == before[k]);
        }
    }

    /// The number of leaf columns of the first `upto` children.
    pub open spec fn leaves_before(columns: Seq<TColumn::State>, upto: int) -> nat
        decreases upto,
    {
        if upto <= 0 {
            0
        } else {
            Self::leaves_before(columns, upto - 1) + TColumn::columns_of(columns[upto - 1])
        }
    }

    /// Children further on have no fewer leaf columns before them.
    pub proof fn lemma_leaves_monotone(columns: Seq<TColumn::State>, a: int, b: int)
        requires
            a <= b,
        ensures
            Self::leaves_before(columns, a) <= Self::leaves_before(columns, b),
        decreases b - a,
    {
        if a < b {
            Self::lemma_leaves_monotone(columns, a, b - 1);
        }
    }

    /// The part of the record's first `upto` leaf columns that are leaf
    /// columns of child `i`.
    pub open spec fn share(columns: Seq<TColumn::State>, upto: nat, i: int) -> nat {
        share_within(
            share_beyond(upto, Self::leaves_before(columns, i)),
            TColumn::columns_of(columns[i]),
        )
    }

    /// A flush that went from `pre` to `post` failed in child number `child`,
    /// at the record's leaf column number `failed`: the children before it
    /// are flushed, the ones after it untouched.
    pub open spec fn child_failed(
        pre: Seq<TColumn::State>,
        post: Seq<TColumn::State>,
        child: int,
        failed: nat,
    ) -> bool {
        &&& 0 <= child < pre.len()
        &&& failed >= Self::leaves_before(pre, child)
        &&& TColumn::partly_flushed(
            pre[child],
            post[child],
            (failed - Self::leaves_before(pre, child)) as nat,
        )
        &&& forall|i: int| 0 <= i < child ==> #[trigger] post[i] == TColumn::flushed(pre[i])
        &&& forall|i: int| child < i < pre.len() ==> #[trigger] post[i] == pre[i]
    }

    /// The states of the children of `columns`, in order.
    pub open spec fn states(columns: Seq<TColumn>) -> Seq<TColumn::State> {
        Seq::new(columns.len(), |i: int| columns[i].state())
    }

    /// A record of the fields that `columns` append, in that order.
    pub fn new(columns: Vec<TColumn>, max_dl: i16, max_rl: i16) -> (r: Self)
        requires
            Self::fits(Self::states(columns@), max_dl, max_rl),
        ensures
            Self::inv(r.state()),
            r.state() == (MergedState { max_dl, max_rl, columns: Self::states(columns@) }),
    {
        DynamicMergedAppender { columns, max_dl, max_rl }
    }

    /// The number of children.
    pub fn len(&self) -> (r: usize)
        ensures
            r == self.state().columns.len(),
    {
        self.columns.len()
    }

    /// The children.
    pub closed spec fn children(&self) -> Seq<TColumn> {
        self.columns@
    }

    /// The child at index `i`.
    pub fn column(&self, i: usize) -> (r: &TColumn)
        requires
            i < self.state().columns.len(),
        ensures
            r.state() == self.state().columns[i as int],
            *r == self.children()[i as int],
    {
        &self.columns[i]
    }
}

impl<TColumn: ColumnAppenderBase + Clone> Clone for DynamicMergedAppender<TColumn> {
    /// A record of the same levels around a clone of each child.
    fn clone(&self) -> (r: Self)
        ensures
            r.state().max_dl == self.state().max_dl,
            r.state().max_rl == self.state().max_rl,
            r.state().columns == Self::states(r.children()),
            r.children().len() == self.children().len(),
            forall|i: int|
                0 <= i < self.children().len() ==> cloned::<TColumn>(
                    #[trigger] self.children()[i],
                    r.children()[i],
                ),
    {
        DynamicMergedAppender {
            columns: self.columns.clone(),
            max_dl: self.max_dl,
            max_rl: self.max_rl,
        }
    }
}

impl<TColumn: ColumnAppenderBase> ColumnAppenderBase for DynamicMergedAppender<TColumn> {
    type State = MergedState<TColumn::State>;

    closed spec fn state(&self) -> MergedState<TColumn::State> {
        MergedState {
            max_dl: self.max_dl,
            max_rl: self.max_rl,
            columns: Self::states(self.columns@),
        }
    }

    open spec fn inv(s: MergedState<TColumn::State>) -> bool {
        Self::fits(s.columns, s.max_dl, s.max_rl)
    }

    open spec fn max_dl_of(s: MergedState<TColumn::State>) -> i16 {
        s.max_dl
    }

    open spec fn max_rl_of(s: MergedState<TColumn::State>) -> i16 {
        s.max_rl
    }

    open spec fn nulled(s: MergedState<TColumn::State>, index: Seq<usize>, level: i16) -> MergedState<
        TColumn::State,
    > {
        MergedState {
            columns: Seq::new(s.columns.len(), |i: int| TColumn::nulled(s.columns[i], index, level)),
            ..s
        }
    }

    open spec fn null_bytes(s: MergedState<TColumn::State>) -> usize {
        sum_bytes(Seq::new(s.columns.len(), |i: int| TColumn::null_bytes(s.columns[i])))
    }

    open spec fn blank(s: MergedState<TColumn::State>) -> MergedState<TColumn::State> {
        MergedState { columns: Seq::new(s.columns.len(), |i: int| TColumn::blank(s.columns[i])), ..s }
    }

    open spec fn flushed(s: MergedState<TColumn::State>) -> MergedState<TColumn::State> {
        MergedState {
            columns: Seq::new(s.columns.len(), |i: int| TColumn::flushed(s.columns[i])),
            ..s
        }
    }

    open spec fn columns_of(s: MergedState<TColumn::State>) -> nat {
        Self::leaves_before(s.columns, s.columns.len() as int)
    }

    open spec fn partly_flushed(
        pre: MergedState<TColumn::State>,
        post: MergedState<TColumn::State>,
        failed: nat,
    ) -> bool {
        &&& post == (MergedState { columns: post.columns, ..pre })
        &&& post.columns.len() == pre.columns.len()
        &&& exists|child: int| #[trigger] Self::child_failed(pre.columns, post.columns, child, failed)
    }

    fn write_null(&mut self, repetition_index: &LevelIndexList, level: i16) -> (r: Result<
        usize,
        String,
    >) {
        let n = self.columns.len();
        let mut total: usize = 0;
        let mut i: usize = 0;
        let ghost before = Self::states(self.columns@);
        let ghost parts = Seq::new(before.len(), |k: int| TColumn::null_bytes(before[k]));
        proof {
            Self::lemma_kept_start(before, self.columns@, self.max_dl, self.max_rl);
        }
        while i < n
            invariant
                i <= n,
                n == self.columns@.len(),
                n == before.len(),
                before == Self::states(old(self).columns@),
                parts == Seq::new(before.len(), |k: int| TColumn::null_bytes(before[k])),
                self.max_dl == old(self).max_dl,
                self.max_rl == old(self).max_rl,
                Self::fits(before, self.max_dl, self.max_rl),
                0 <= level < self.max_dl,
                total == sum_bytes(parts.take(i as int)),
                forall|k: int|
                    0 <= k < n ==> #[trigger] Self::kept(before[k], self.columns@[k].state()),
                forall|k: int|
                    0 <= k < i ==> #[trigger] self.columns@[k].state() == TColumn::nulled(
                        before[k],
                        repetition_index@,
                        level,
                    ),
                forall|k: int| i <= k < n ==> #[trigger] self.columns@[k].state() == before[k],
            decreases n - i,
        {
            assert(TColumn::inv(before[i as int]));
            assert(Self::kept(before[i as int], self.columns@[i as int].state()));
            let ghost untouched = self.columns@;
            let column = &mut self.columns[i];
            let written = column.write_null(repetition_index, level);
            let b = match written {
                Ok(b) => b,
                Err(e) => {
                    return Err(e);
                },
            };
            proof {
                assert(parts.take(i + 1).drop_last() =~= parts.take(i as int));
                Self::lemma_one_child_moved(before, untouched, self.columns@, i as int);
                assert forall|k: int| 0 <= k < i implies #[trigger] self.columns@[k].state()
                    == TColumn::nulled(before[k], repetition_index@, level) by {
                    assert(self.columns@[k] == untouched[k]);
                }
            }
            total = total.saturating_add(b);
            i = i + 1;
        }
        proof {
            assert(parts.take(n as int) =~= parts);
            assert(self.state().columns =~= Self::nulled(
                old(self).state(),
                repetition_index@,
                level,
            ).columns);
            Self::lemma_kept(before, self.columns@, self.max_dl, self.max_rl);
        }
        Ok(total)
    }

    fn column_count(&self) -> (r: usize) {
        let n = self.columns.len();
        let mut total: usize = 0;
        let mut i: usize = 0;
        let ghost states = Self::states(self.columns@);
        while i < n
            invariant
                i <= n,
                n == self.columns@.len(),
                states == Self::states(self.columns@),
                total == clamped(Self::leaves_before(states, i as int) as int),
            decreases n - i,
        {
            let width = self.columns[i].column_count();
            proof {
                lemma_clamped_sum(
                    Self::leaves_before(states, i as int) as int,
                    TColumn::columns_of(states[i as int]) as int,
                );
            }
            total = total.saturating_add(width);
            i = i + 1;
        }
        total
    }

    fn max_dl(&self) -> (r: i16) {
        self.max_dl
    }

    fn max_rl(&self) -> (r: i16) {
        self.max_rl
    }
}

impl<T, TColumn: ColumnAppender<T>> ColumnAppender<T> for DynamicMergedAppender<TColumn> {
    open spec fn admits(s: MergedState<TColumn::State>, value: T) -> bool {
        forall|i: int| 0 <= i < s.columns.len() ==> TColumn::admits(#[trigger] s.columns[i], value)
    }

    /// Every child is advanced once, with the same position and the same
    /// value; the estimate is the sum of the children's.
    open spec fn copied(
        pre: MergedState<TColumn::State>,
        index: Seq<usize>,
        value: T,
        post: MergedState<TColumn::State>,
        bytes: usize,
    ) -> bool {
        &&& post == (MergedState { columns: post.columns, ..pre })
        &&& post.columns.len() == pre.columns.len()
        &&& exists|parts: Seq<usize>|
            {
                &&& parts.len() == pre.columns.len()
                &&& bytes == #[trigger] sum_bytes(parts)
                &&& forall|i: int|
                    0 <= i < pre.columns.len() ==> #[trigger] TColumn::copied(
                        pre.columns[i],
                        index,
                        value,
                        post.columns[i],
                        parts[i],
                    )
            }
    }

    fn copy_value(&mut self, repetition_index: &LevelIndexList, value: &T) -> (r: Result<
        usize,
        String,
    >) {
        let n = self.columns.len();
        let mut total: usize = 0;
        let mut i: usize = 0;
        let ghost before = Self::states(self.columns@);
        let ghost mut parts: Seq<usize> = Seq::empty();
        proof {
            Self::lemma_kept_start(before, self.columns@, self.max_dl, self.max_rl);
        }
        while i < n
            invariant
                i <= n,
                n == self.columns@.len(),
                n == before.len(),
                before == Self::states(old(self).columns@),
                self.max_dl == old(self).max_dl,
                self.max_rl == old(self).max_rl,
                Self::fits(before, self.max_dl, self.max_rl),
                Self::admits(Self::blank(old(self).state()), *value),
                parts.len() == i,
                total == sum_bytes(parts),
                forall|k: int|
                    0 <= k < n ==> #[trigger] Self::kept(before[k], self.columns@[k].state()),
                forall|k: int|
                    0 <= k < i ==> #[trigger] TColumn::copied(
                        before[k],
                        repetition_index@,
                        *value,
                        self.columns@[k].state(),
                        parts[k],
                    ),
                forall|k: int| i <= k < n ==> #[trigger] self.columns@[k].state() == before[k],
            decreases n - i,
        {
            assert(TColumn::inv(before[i as int]));
            assert(Self::kept(before[i as int], self.columns@[i as int].state()));
            assert(TColumn::admits(Self::blank(old(self).state()).columns[i as int], *value));
            let ghost untouched = self.columns@;
            let column = &mut self.columns[i];
            let written = column.copy_value(repetition_index, value);
            let b = match written {
                Ok(b) => b,
                Err(e) => {
                    return Err(e);
                },
            };
            proof {
                let old_parts = parts;
                parts = parts.push(b);
                assert(parts.drop_last() =~= old_parts);
                Self::lemma_one_child_moved(before, untouched, self.columns@, i as int);
                assert forall|k: int| 0 <= k < i + 1 implies #[trigger] TColumn::copied(
                    before[k],
                    repetition_index@,
                    *value,
                    self.columns@[k].state(),
                    parts[k],
                ) by {
                    if k < i {
                        assert(self.columns@[k] == untouched[k]);
                        assert(TColumn::copied(
                            before[k],
                            repetition_index@,
                            *value,
                            untouched[k].state(),
                            old_parts[k],
                        ));
                    }
                }
            }
            total = total.saturating_add(b);
            i = i + 1;
        }
        proof {
            Self::lemma_kept(before, self.columns@, self.max_dl, self.max_rl);
            assert forall|k: int| 0 <= k < n implies #[trigger] TColumn::copied(
                old(self).state().columns[k],
                repetition_index@,
                *value,
                self.state().columns[k],
                parts[k],
            ) by {
                assert(TColumn::copied(
                    before[k],
                    repetition_index@,
                    *value,
                    self.columns@[k].state(),
                    parts[k],
                ));
            }
        }
        Ok(total)
    }
}

impl<TColumn> DynamicMergedAppender<TColumn> {
    /// Child `i` handed its share of the record's first `upto` leaf columns
    /// to the writer `trace[i]`, which became `trace[i + 1]`.
    pub open spec fn child_handed<W>(
        columns: Seq<TColumn::State>,
        upto: nat,
        trace: Seq<W>,
        i: int,
    ) -> bool where TColumn: ColumnFlush<W> {
        TColumn::handed_over(columns[i], Self::share(columns, upto, i), trace[i], trace[i + 1])
    }

    /// `trace` holds the writer before, between and after the children,
    /// while the record's first `upto` leaf columns are handed to it.
    pub open spec fn handed_along<W>(columns: Seq<TColumn::State>, upto: nat, trace: Seq<W>) -> bool where
        TColumn: ColumnFlush<W>,
     {
        &&& trace.len() == columns.len() + 1
        &&& forall|i: int|
            0 <= i < columns.len() ==> #[trigger] Self::child_handed(columns, upto, trace, i)
    }

    /// Child `k` handed all its leaf columns to the writer `trace[k]`, which
    /// became `trace[k + 1]`.
    pub open spec fn fully_handed<W>(columns: Seq<TColumn::State>, trace: Seq<W>, k: int) -> bool where
        TColumn: ColumnFlush<W>,
     {
        TColumn::handed_over(columns[k], TColumn::columns_of(columns[k]), trace[k], trace[k + 1])
    }

    /// The writers of a flush that stopped: those that `trace` holds, and
    /// from then on the last one, unchanged.
    pub open spec fn stopped<W>(trace: Seq<W>, last: W, children: nat) -> Seq<W> {
        Seq::new(
            children + 1,
            |k: int|
                if k < trace.len() {
                    trace[k]
                } else {
                    last
                },
        )
    }

    /// Children that each handed over all their leaf columns handed over
    /// all the record's.
    proof fn lemma_handed_all<W>(columns: Seq<TColumn::State>, trace: Seq<W>) where
        TColumn: ColumnFlush<W>,

        requires
            trace.len() == columns.len() + 1,
            forall|k: int|
                0 <= k < columns.len() ==> #[trigger] Self::fully_handed(columns, trace, k),
        ensures
            Self::handed_along(
                columns,
                Self::leaves_before(columns, columns.len() as int),
                trace,
            ),
    {
        let upto = Self::leaves_before(columns, columns.len() as int);
        assert forall|i: int| 0 <= i < columns.len() implies #[trigger] Self::child_handed(
            columns,
            upto,
            trace,
            i,
        ) by {
            Self::lemma_leaves_monotone(columns, i + 1, columns.len() as int);
            assert(Self::leaves_before(columns, i + 1) == Self::leaves_before(columns, i)
                + TColumn::columns_of(columns[i]));
            assert(Self::fully_handed(columns, trace, i));
        }
    }

    /// A flush that stopped at leaf column number `inside` of child `i`
    /// handed over the record's leaf columns up to that one.
    proof fn lemma_handed_until<W>(
        columns: Seq<TColumn::State>,
        trace: Seq<W>,
        i: int,
        inside: nat,
        last: W,
    ) where TColumn: ColumnFlush<W>
        requires
            0 <= i < columns.len(),
            trace.len() == i + 1,
            forall|k: int| 0 <= k < i ==> #[trigger] Self::fully_handed(columns, trace, k),
            inside < TColumn::columns_of(columns[i]),
            TColumn::handed_over(columns[i], inside + 1, trace[i], last),
        ensures
            Self::leaves_before(columns, i) + inside < Self::leaves_before(
                columns,
                columns.len() as int,
            ),
            Self::handed_along(
                columns,
                Self::leaves_before(columns, i) + inside + 1,
                Self::stopped(trace, last, columns.len()),
            ),
    {
        let upto = Self::leaves_before(columns, i) + inside + 1;
        let full = Self::stopped(trace, last, columns.len());
        Self::lemma_leaves_monotone(columns, i + 1, columns.len() as int);
        assert(Self::leaves_before(columns, i + 1) == Self::leaves_before(columns, i)
            + TColumn::columns_of(columns[i]));
        assert forall|k: int| 0 <= k < columns.len() implies #[trigger] Self::child_handed(
            columns,
            upto,
            full,
            k,
        ) by {
            assert(Self::leaves_before(columns, k + 1) == Self::leaves_before(columns, k)
                + TColumn::columns_of(columns[k]));
            if k < i {
                Self::lemma_leaves_monotone(columns, k + 1, i);
                assert(Self::fully_handed(columns, trace, k));
            } else if k == i {
            } else {
                Self::lemma_leaves_monotone(columns, i + 1, k);
                TColumn::lemma_nothing_handed(columns[k], last);
            }
        }
    }
}

impl<W, TColumn: ColumnFlush<W>> ColumnFlush<W> for DynamicMergedAppender<TColumn> {
    /// The children hand over their leaf columns one child after the other.
    open spec fn handed_over(
        s: MergedState<TColumn::State>,
        upto: nat,
        before: W,
        after: W,
    ) -> bool {
        exists|trace: Seq<W>|
            {
                &&& #[trigger] Self::handed_along(s.columns, upto, trace)
                &&& trace.first() == before
                &&& trace.last() == after
            }
    }

    proof fn lemma_nothing_handed(s: MergedState<TColumn::State>, w: W) {
        let trace = Seq::new(s.columns.len() + 1, |k: int| w);
        assert forall|i: int| 0 <= i < s.columns.len() implies #[trigger] Self::child_handed(
            s.columns,
            0,
            trace,
            i,
        ) by {
            TColumn::lemma_nothing_handed(s.columns[i], w);
        }
        assert(Self::handed_along(s.columns, 0, trace));
    }

    /// The first leaf column of a child is flushed as the number after the
    /// last leaf column of the child before it.
    fn write_columns(&mut self, column_i: usize, next_col: &mut W) -> (r: Result<(), String>) {
        let n = self.columns.len();
        let mut i: usize = 0;
        let mut offset: usize = 0;
        let ghost before = Self::states(self.columns@);
        let ghost mut trace: Seq<W> = seq![*next_col];
        proof {
            Self::lemma_kept_start(before, self.columns@, self.max_dl, self.max_rl);
        }
        while i < n
            invariant
                i <= n,
                n == self.columns@.len(),
                n == before.len(),
                before == Self::states(old(self).columns@),
                self.max_dl == old(self).max_dl,
                self.max_rl == old(self).max_rl,
                Self::fits(before, self.max_dl, self.max_rl),
                offset == clamped(Self::leaves_before(before, i as int) as int),
                trace.len() == i + 1,
                trace[0] == *old(next_col),
                trace[i as int] == *next_col,
                forall|k: int| 0 <= k < i ==> #[trigger] Self::fully_handed(before, trace, k),
                forall|k: int|
                    0 <= k < n ==> #[trigger] Self::kept(before[k], self.columns@[k].state()),
                forall|k: int|
                    0 <= k < i ==> #[trigger] self.columns@[k].state() == TColumn::flushed(
                        before[k],
                    ),
                forall|k: int| i <= k < n ==> #[trigger] self.columns@[k].state() == before[k],
            decreases n - i,
        {
            assert(TColumn::inv(before[i as int]));
            assert(Self::kept(before[i as int], self.columns@[i as int].state()));
            assert(self.columns@[i as int].state() == before[i as int]);
            let width = self.columns[i].column_count();
            let start = column_i.saturating_add(offset);
            let ghost untouched = self.columns@;
            let column = &mut self.columns[i];
            let written = column.write_columns(start, next_col);
            proof {
                Self::lemma_one_child_moved(before, untouched, self.columns@, i as int);
                assert forall|k: int| 0 <= k < i implies #[trigger] self.columns@[k].state()
                    == TColumn::flushed(before[k]) by {
                    assert(self.columns@[k] == untouched[k]);
                }
                lemma_clamped_sum(
                    Self::leaves_before(before, i as int) as int,
                    TColumn::columns_of(before[i as int]) as int,
                );
            }
            match written {
                Ok(_) => {},
                Err(e) => {
                    proof {
                        let post = self.state();
                        let first = Self::leaves_before(before, i as int);
                        let inside = choose|inside: nat|
                            {
                                &&& #[trigger] TColumn::partly_flushed(
                                    before[i as int],
                                    post.columns[i as int],
                                    inside,
                                )
                                &&& inside < TColumn::columns_of(before[i as int])
                                &&& reports_column(e@, column_number(start, inside))
                                &&& TColumn::handed_over(
                                    before[i as int],
                                    inside + 1,
                                    trace[i as int],
                                    *next_col,
                                )
                            };
                        let failed = first + inside;
                        assert(column_number(start, inside) == column_number(column_i, failed));
                        assert forall|k: int| 0 <= k < i implies #[trigger] post.columns[k]
                            == TColumn::flushed(before[k]) by {
                            assert(self.columns@[k].state() == TColumn::flushed(before[k]));
                        }
                        assert forall|k: int| i < k < n implies #[trigger] post.columns[k]
                            == before[k] by {
                            assert(self.columns@[k].state() == before[k]);
                        }
                        assert(Self::child_failed(before, post.columns, i as int, failed));
                        assert(Self::partly_flushed(old(self).state(), post, failed));
                        Self::lemma_kept(before, self.columns@, self.max_dl, self.max_rl);
                        Self::lemma_handed_until(before, trace, i as int, inside, *next_col);
                        let full = Self::stopped(trace, *next_col, n as nat);
                        assert(full.first() == *old(next_col));
                        assert(full.last() == *next_col);
                        assert(Self::handed_over(
                            old(self).state(),
                            failed + 1,
                            *old(next_col),
                            *next_col,
                        ));
                    }
                    return Err(e);
                },
            }
            proof {
                let grown = trace.push(*next_col);
                assert forall|k: int| 0 <= k < i + 1 implies #[trigger] Self::fully_handed(
                    before,
                    grown,
                    k,
                ) by {
                    if k < i {
                        assert(Self::fully_handed(before, trace, k));
                    }
                }
                trace = grown;
            }
            offset = offset.saturating_add(width);
            i = i + 1;
        }
        proof {
            assert(self.state().columns =~= Self::flushed(old(self).state()).columns);
            Self::lemma_kept(before, self.columns@, self.max_dl, self.max_rl);
            Self::lemma_handed_all(before, trace);
            assert(trace.first() == *old(next_col));
            assert(trace.last() == *next_col);
        }
        Ok(())
    }
}

/// A record appender of two children as a mathematical value.
pub struct PairState<A, B> {
    pub max_dl: i16,
    pub max_rl: i16,
    pub first: A,
    pub second: B,
}

/// A record of two fields whose appenders may be of different types. A
/// record of more fields nests another pair as its second child.
pub struct StaticMergedAppender<TFirst, TSecond> {
    first: TFirst,
    second: TSecond,
    max_dl: i16,
    max_rl: i16,
}

impl<TFirst: ColumnAppenderBase, TSecond: ColumnAppenderBase> StaticMergedAppender<
    TFirst,
    TSecond,
> {
    /// The record's levels are levels of each child's path too.
    pub open spec fn fits(
        first: TFirst::State,
        second: TSecond::State,
        max_dl: i16,
        max_rl: i16,
    ) -> bool {
        &&& 0 <= max_dl
        &&& 0 <= max_rl
        &&& TFirst::inv(first)
        &&& TFirst::max_dl_of(first) >= max_dl
        &&& TFirst::max_rl_of(first) >= max_rl
        &&& TSecond::inv(second)
        &&& TSecond::max_dl_of(second) >= max_dl
        &&& TSecond::max_rl_of(second) >= max_rl
    }

    /// A record of the two fields that `first` and `second` append.
    pub fn new(first: TFirst, second: TSecond, max_dl: i16, max_rl: i16) -> (r: Self)
        requires
            Self::fits(first.state(), second.state(), max_dl, max_rl),
        ensures
            Self::inv(r.state()),
            r.state() == (PairState {
                max_dl,
                max_rl,
                first: first.state(),
                second: second.state(),
            }),
    {
        StaticMergedAppender { first, second, max_dl, max_rl }
    }

    /// The first child.
    pub fn first(&self) -> (r: &TFirst)
        ensures
            r.state() == self.state().first,
            *r == self.children().0,
    {
        &self.first
    }

    /// The second child.
    pub fn second(&self) -> (r: &TSecond)
        ensures
            r.state() == self.state().second,
            *r == self.children().1,
    {
        &self.second
    }

    /// The two children.
    pub closed spec fn children(&self) -> (TFirst, TSecond) {
        (self.first, self.second)
    }
}

impl<TFirst: ColumnAppenderBase + Clone, TSecond: ColumnAppenderBase + Clone> Clone for StaticMergedAppender<
    TFirst,
    TSecond,
> {
    /// A record of the same levels around a clone of each child.
    fn clone(&self) -> (r: Self)
        ensures
            r.state().max_dl == self.state().max_dl,
            r.state().max_rl == self.state().max_rl,
            r.state().first == r.children().0.state(),
            r.state().second == r.children().1.state(),
            cloned::<TFirst>(self.children().0, r.children().0),
            cloned::<TSecond>(self.children().1, r.children().1),
    {
        StaticMergedAppender {
            first: self.first.clone(),
            second: self.second.clone(),
            max_dl: self.max_dl,
            max_rl: self.max_rl,
        }
    }
}

impl<TFirst: ColumnAppenderBase, TSecond: ColumnAppenderBase> ColumnAppenderBase for StaticMergedAppender<
    TFirst,
    TSecond,
> {
    type State = PairState<TFirst::State, TSecond::State>;

    closed spec fn state(&self) -> PairState<TFirst::State, TSecond::State> {
        PairState {
            max_dl: self.max_dl,
            max_rl: self.max_rl,
            first: self.first.state(),
            second: self.second.state(),
        }
    }

    open spec fn inv(s: PairState<TFirst::State, TSecond::State>) -> bool {
        Self::fits(s.first, s.second, s.max_dl, s.max_rl)
    }

    open spec fn max_dl_of(s: PairState<TFirst::State, TSecond::State>) -> i16 {
        s.max_dl
    }

    open spec fn max_rl_of(s: PairState<TFirst::State, TSecond::State>) -> i16 {
        s.max_rl
    }

    open spec fn nulled(
        s: PairState<TFirst::State, TSecond::State>,
        index: Seq<usize>,
        level: i16,
    ) -> PairState<TFirst::State, TSecond::State> {
        PairState {
            first: TFirst::nulled(s.first, index, level),
            second: TSecond::nulled(s.second, index, level),
            ..s
        }
    }

    open spec fn null_bytes(s: PairState<TFirst::State, TSecond::State>) -> usize {
        TFirst::null_bytes(s.first).saturating_add(TSecond::null_bytes(s.second))
    }

    open spec fn blank(s: PairState<TFirst::State, TSecond::State>) -> PairState<
        TFirst::State,
        TSecond::State,
    > {
        PairState { first: TFirst::blank(s.first), second: TSecond::blank(s.second), ..s }
    }

    open spec fn flushed(s: PairState<TFirst::State, TSecond::State>) -> PairState<
        TFirst::State,
        TSecond::State,
    > {
        PairState { first: TFirst::flushed(s.first), second: TSecond::flushed(s.second), ..s }
    }

    open spec fn columns_of(s: PairState<TFirst::State, TSecond::State>) -> nat {
        TFirst::columns_of(s.first) + TSecond::columns_of(s.second)
    }

    open spec fn partly_flushed(
        pre: PairState<TFirst::State, TSecond::State>,
        post: PairState<TFirst::State, TSecond::State>,
        failed: nat,
    ) -> bool {
        &&& post == (PairState { first: post.first, second: post.second, ..pre })
        &&& {
            ||| TFirst::partly_flushed(pre.first, post.first, failed) && post.second == pre.second
            ||| {
                &&& post.first == TFirst::flushed(pre.first)
                &&& failed >= TFirst::columns_of(pre.first)
                &&& TSecond::partly_flushed(
                    pre.second,
                    post.second,
                    (failed - TFirst::columns_of(pre.first)) as nat,
                )
            }
        }
    }

    fn write_null(&mut self, repetition_index: &LevelIndexList, level: i16) -> (r: Result<
        usize,
        String,
    >) {
        let a = match self.first.write_null(repetition_index, level) {
            Ok(a) => a,
            Err(e) => {
                return Err(e);
            },
        };
        let b = match self.second.write_null(repetition_index, level) {
            Ok(b) => b,
            Err(e) => {
                return Err(e);
            },
        };
        Ok(a.saturating_add(b))
    }

    fn column_count(&self) -> (r: usize) {
        let a = self.first.column_count();
        let b = self.second.column_count();
        proof {
            lemma_clamped_sum(
                TFirst::columns_of(self.first.state()) as int,
                TSecond::columns_of(self.second.state()) as int,
            );
        }
        a.saturating_add(b)
    }

    fn max_dl(&self) -> (r: i16) {
        self.max_dl
    }

    fn max_rl(&self) -> (r: i16) {
        self.max_rl
    }
}

impl<T, TFirst: ColumnAppender<T>, TSecond: ColumnAppender<T>> ColumnAppender<
    T,
> for StaticMergedAppender<TFirst, TSecond> {
    open spec fn admits(s: PairState<TFirst::State, TSecond::State>, value: T) -> bool {
        TFirst::admits(s.first, value) && TSecond::admits(s.second, value)
    }

    /// Both children are advanced once, the first one first, with the same
    /// position and the same value.
    open spec fn copied(
        pre: PairState<TFirst::State, TSecond::State>,
        index: Seq<usize>,
        value: T,
        post: PairState<TFirst::State, TSecond::State>,
        bytes: usize,
    ) -> bool {
        &&& post == (PairState { first: post.first, second: post.second, ..pre })
        &&& exists|a: usize, b: usize|
            {
                &&& #[trigger] TFirst::copied(pre.first, index, value, post.first, a)
                &&& #[trigger] TSecond::copied(pre.second, index, value, post.second, b)
                &&& bytes == a.saturating_add(b)
            }
    }

    fn copy_value(&mut self, repetition_index: &LevelIndexList, value: &T) -> (r: Result<
        usize,
        String,
    >) {
        let a = match self.first.copy_value(repetition_index, value) {
            Ok(a) => a,
            Err(e) => {
                return Err(e);
            },
        };
        let b = match self.second.copy_value(repetition_index, value) {
            Ok(b) => b,
            Err(e) => {
                return Err(e);
            },
        };
        Ok(a.saturating_add(b))
    }
}

impl<W, TFirst: ColumnFlush<W>, TSecond: ColumnFlush<W>> ColumnFlush<W> for StaticMergedAppender<
    TFirst,
    TSecond,
> {
    /// The first child hands over its leaf columns, then the second.
    open spec fn handed_over(
        s: PairState<TFirst::State, TSecond::State>,
        upto: nat,
        before: W,
        after: W,
    ) -> bool {
        exists|mid: W|
            {
                &&& #[trigger] TFirst::handed_over(
                    s.first,
                    share_within(upto, TFirst::columns_of(s.first)),
                    before,
                    mid,
                )
                &&& TSecond::handed_over(
                    s.second,
                    share_beyond(upto, TFirst::columns_of(s.first)),
                    mid,
                    after,
                )
            }
    }

    proof fn lemma_nothing_handed(s: PairState<TFirst::State, TSecond::State>, w: W) {
        TFirst::lemma_nothing_handed(s.first, w);
        TSecond::lemma_nothing_handed(s.second, w);
        assert(TFirst::handed_over(
            s.first,
            share_within(0, TFirst::columns_of(s.first)),
            w,
            w,
        ));
    }

    /// The first child's leaf columns are flushed from column number
    /// `column_i` on, the second child's from the number after the last of
    /// them.
    fn write_columns(&mut self, column_i: usize, next_col: &mut W) -> (r: Result<(), String>) {
        let width = self.first.column_count();
        let ghost wide = TFirst::columns_of(self.first.state());
        match self.first.write_columns(column_i, next_col) {
            Ok(_) => {},
            Err(e) => {
                proof {
                    let failed = choose|failed: nat|
                        {
                            &&& #[trigger] TFirst::partly_flushed(
                                old(self).first.state(),
                                self.first.state(),
                                failed,
                            )
                            &&& failed < wide
                            &&& reports_column(e@, column_number(column_i, failed))
                            &&& TFirst::handed_over(
                                old(self).first.state(),
                                failed + 1,
                                *old(next_col),
                                *next_col,
                            )
                        };
                    assert(Self::partly_flushed(old(self).state(), self.state(), failed));
                    TSecond::lemma_nothing_handed(old(self).second.state(), *next_col);
                    assert(TFirst::handed_over(
                        old(self).first.state(),
                        share_within(failed + 1, wide),
                        *old(next_col),
                        *next_col,
                    ));
                }
                return Err(e);
            },
        }
        let ghost mid = *next_col;
        let start = column_i.saturating_add(width);
        let r = self.second.write_columns(start, next_col);
        proof {
            assert(TFirst::handed_over(old(self).first.state(), wide, *old(next_col), mid));
            match &r {
                Ok(_) => {
                    let upto = Self::columns_of(old(self).state());
                    assert(TFirst::handed_over(
                        old(self).first.state(),
                        share_within(upto, wide),
                        *old(next_col),
                        mid,
                    ));
                },
                Err(e) => {
                    let inside = choose|inside: nat|
                        {
                            &&& #[trigger] TSecond::partly_flushed(
                                old(self).second.state(),
                                self.second.state(),
                                inside,
                            )
                            &&& inside < TSecond::columns_of(old(self).second.state())
                            &&& reports_column(e@, column_number(start, inside))
                            &&& TSecond::handed_over(
                                old(self).second.state(),
                                inside + 1,
                                mid,
                                *next_col,
                            )
                        };
                    let failed = wide + inside;
                    assert(column_number(start, inside) == column_number(column_i, failed));
                    assert(Self::partly_flushed(old(self).state(), self.state(), failed));
                    assert(TFirst::handed_over(
                        old(self).first.state(),
                        share_within(failed + 1, wide),
                        *old(next_col),
                        mid,
                    ));
                },
            }
        }
        r
    }
}

} // verus!
