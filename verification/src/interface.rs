//! What every column appender offers, and what it asks of the writer that
//! takes its batches.
use vstd::prelude::*;
use crate::level_index::LevelIndexList;
use crate::writer::{failure_text, succeeded, ColumnOutcome};

verus! {

/// The part of an appender that does not depend on the type of the values
/// it takes.
pub trait ColumnAppenderBase: Sized {
    /// The appender as a mathematical value: its fixed levels and what its
    /// leaf columns have buffered.
    type State;

    spec fn state(&self) -> Self::State;

    /// The states that the appender's constructors and methods produce.
    spec fn inv(s: Self::State) -> bool;

    spec fn max_dl_of(s: Self::State) -> i16;

    spec fn max_rl_of(s: Self::State) -> i16;

    /// The state after a null at position `index` and definition level
    /// `level` has been written to every leaf column.
    spec fn nulled(s: Self::State, index: Seq<usize>, level: i16) -> Self::State;

    /// The estimate of the bytes that one null takes.
    spec fn null_bytes(s: Self::State) -> usize;

    /// The state as the appender was made: what no method changes.
    spec fn blank(s: Self::State) -> Self::State;

    /// The state with the buffers of every leaf column empty.
    spec fn flushed(s: Self::State) -> Self::State;

    /// The number of leaf columns that the appender writes to.
    spec fn columns_of(s: Self::State) -> nat;

    /// What a flush leaves that failed at the appender's leaf column number
    /// `failed`, counted from 0 in the order of the flush: the leaf columns
    /// before it are empty, that one and the ones after it are untouched.
    spec fn partly_flushed(pre: Self::State, post: Self::State, failed: nat) -> bool;

    /// Records that the value is absent at this occurrence: `level` tells
    /// how many optional levels of its path are present.
    fn write_null(&mut self, repetition_index: &LevelIndexList, level: i16) -> (r: Result<
        usize,
        String,
    >)
        requires
            Self::inv(old(self).state()),
            0 <= level < Self::max_dl_of(old(self).state()),
        ensures
            Self::inv(final(self).state()),
            final(self).state() == Self::nulled(old(self).state(), repetition_index@, level),
            Self::blank(final(self).state()) == Self::blank(old(self).state()),
            Self::max_dl_of(final(self).state()) == Self::max_dl_of(old(self).state()),
            Self::max_rl_of(final(self).state()) == Self::max_rl_of(old(self).state()),
            r is Ok,
            r->Ok_0 == Self::null_bytes(old(self).state()),
    ;

    /// The number of leaf columns that the appender writes to, or the
    /// largest `usize` where they are more.
    fn column_count(&self) -> (r: usize)
        ensures
            r == clamped(Self::columns_of(self.state()) as int),
    ;

    fn max_dl(&self) -> (r: i16)
        ensures
            r == Self::max_dl_of(self.state()),
    ;

    fn max_rl(&self) -> (r: i16)
        ensures
            r == Self::max_rl_of(self.state()),
    ;
}

/// An appender that takes values of type `T`.
pub trait ColumnAppender<T>: ColumnAppenderBase {
    /// The values that an appender made as `s` can take.
    spec fn admits(s: Self::State, value: T) -> bool;

    /// Appending `value` at position `index` can lead from `pre` to `post`
    /// with the byte estimate `bytes`.
    spec fn copied(
        pre: Self::State,
        index: Seq<usize>,
        value: T,
        post: Self::State,
        bytes: usize,
    ) -> bool;

    /// Appends one value and returns an estimate of the bytes it takes in
    /// the buffers.
    fn copy_value(&mut self, repetition_index: &LevelIndexList, value: &T) -> (r: Result<
        usize,
        String,
    >)
        requires
            Self::inv(old(self).state()),
            Self::admits(Self::blank(old(self).state()), *value),
        ensures
            Self::inv(final(self).state()),
            Self::blank(final(self).state()) == Self::blank(old(self).state()),
            Self::max_dl_of(final(self).state()) == Self::max_dl_of(old(self).state()),
            Self::max_rl_of(final(self).state()) == Self::max_rl_of(old(self).state()),
            r is Ok,
            Self::copied(
                old(self).state(),
                repetition_index@,
                *value,
                final(self).state(),
                r->Ok_0,
            ),
    ;

    /// Appends a value that may be absent: an absent one becomes a null one
    /// definition level below the appender's maximum.
    fn copy_value_opt(&mut self, repetition_index: &LevelIndexList, value: &Option<T>) -> (r:
        Result<usize, String>)
        requires
            Self::inv(old(self).state()),
            match *value {
                Some(v) => Self::admits(Self::blank(old(self).state()), v),
                None => Self::max_dl_of(old(self).state()) > 0,
            },
        ensures
            Self::inv(final(self).state()),
            Self::blank(final(self).state()) == Self::blank(old(self).state()),
            Self::max_dl_of(final(self).state()) == Self::max_dl_of(old(self).state()),
            Self::max_rl_of(final(self).state()) == Self::max_rl_of(old(self).state()),
            r is Ok,
            match *value {
                Some(v) => Self::copied(
                    old(self).state(),
                    repetition_index@,
                    v,
                    final(self).state(),
                    r->Ok_0,
                ),
                None => final(self).state() == Self::nulled(
                    old(self).state(),
                    repetition_index@,
                    (Self::max_dl_of(old(self).state()) - 1) as i16,
                ) && r->Ok_0 == Self::null_bytes(old(self).state()),
            },
    {
        match value {
            Some(v) => self.copy_value(repetition_index, v),
            None => {
                let level = self.max_dl() - 1;
                self.write_null(repetition_index, level)
            },
        }
    }
}

/// The number `n` as a `usize`, or the largest `usize` where it is more.
pub open spec fn clamped(n: int) -> usize {
    if n > usize::MAX {
        usize::MAX
    } else if n < 0 {
        0
    } else {
        n as usize
    }
}

/// The number of the column that stands `offset` columns after column
/// `column_i`.
pub open spec fn column_number(column_i: usize, offset: nat) -> usize {
    clamped(column_i + offset)
}

/// Saturating sums of clamped counts are the clamped sums of the counts.
pub proof fn lemma_clamped_sum(a: int, b: int)
    requires
        0 <= a,
        0 <= b,
    ensures
        clamped(a).saturating_add(clamped(b)) == clamped(a + b),
{
}

/// The text is the report of a failure at column number `column`.
pub open spec fn reports_column(text: Seq<char>, column: usize) -> bool {
    exists|outcome: ColumnOutcome|
        !succeeded(outcome) && text == #[trigger] failure_text(column, outcome)
}

/// An appender whose leaf columns can be flushed to a writer of type `W`: a
/// `DynamicSerializedWriter` of each leaf column's values.
pub trait ColumnFlush<W>: ColumnAppenderBase {
    /// Handing the batches of the first `upto` leaf columns of an appender
    /// in state `s` to the writer, one after the other in the order of the
    /// flush, can lead the writer from `before` to `after`.
    spec fn handed_over(s: Self::State, upto: nat, before: W, after: W) -> bool;

    /// A writer that is handed nothing stays as it is.
    proof fn lemma_nothing_handed(s: Self::State, w: W)
        ensures
            Self::handed_over(s, 0, w, w),
    ;

    /// Hands the batch of every leaf column to the writer, the first one as
    /// column number `column_i` and each further one as the number after
    /// the one before it, and empties the buffers of each column that was
    /// written and closed. Stops at the first column that fails: then the
    /// batches up to that column's were handed over, and the error is what
    /// the writer reported of it, with that column's number.
    fn write_columns(&mut self, column_i: usize, next_col: &mut W) -> (r: Result<(), String>)
        requires
            Self::inv(old(self).state()),
        ensures
            Self::inv(final(self).state()),
            Self::blank(final(self).state()) == Self::blank(old(self).state()),
            Self::max_dl_of(final(self).state()) == Self::max_dl_of(old(self).state()),
            Self::max_rl_of(final(self).state()) == Self::max_rl_of(old(self).state()),
            match r {
                Ok(_) => final(self).state() == Self::flushed(old(self).state())
                    && Self::handed_over(
                    old(self).state(),
                    Self::columns_of(old(self).state()),
                    *old(next_col),
                    *final(next_col),
                ),
                Err(e) => exists|failed: nat|
                    {
                        &&& #[trigger] Self::partly_flushed(
                            old(self).state(),
                            final(self).state(),
                            failed,
                        )
                        &&& failed < Self::columns_of(old(self).state())
                        &&& reports_column(e@, column_number(column_i, failed))
                        &&& Self::handed_over(
                            old(self).state(),
                            failed + 1,
                            *old(next_col),
                            *final(next_col),
                        )
                    },
            },
    ;
}

} // verus!
