//! Adapters around one child appender: for values that may be absent, and
//! for values that are transformed before they are appended.
use vstd::prelude::*;
use std::marker::PhantomData;
use std::sync::Arc;
use crate::interface::{
    column_number, reports_column, ColumnAppender, ColumnAppenderBase, ColumnFlush,
};
use crate::level_index::LevelIndexList;

verus! {

/// Takes optional values: a present one goes to the child, an absent one
/// becomes a null one definition level below the child's maximum. The child
/// is made with the definition level that the optional field adds.
pub struct UnwrapOptionAppender<TInner> {
    inner: TInner,
}

impl<TInner: ColumnAppenderBase> UnwrapOptionAppender<TInner> {
    /// Wraps a child that counts the optional level of its field.
    pub fn new(inner: TInner) -> (r: Self)
        requires
            TInner::inv(inner.state()),
            TInner::max_dl_of(inner.state()) > 0,
        ensures
            Self::inv(r.state()),
            r.state() == inner.state(),
    {
        UnwrapOptionAppender { inner }
    }

    /// The child.
    pub closed spec fn child(&self) -> TInner {
        self.inner
    }

    /// The child.
    pub fn inner(&self) -> (r: &TInner)
        ensures
            r.state() == self.state(),
            *r == self.child(),
    {
        &self.inner
    }
}

impl<TInner: ColumnAppenderBase + Clone> Clone for UnwrapOptionAppender<TInner> {
    /// The same adapter around a clone of the child.
    fn clone(&self) -> (r: Self)
        ensures
            r.state() == r.child().state(),
            cloned::<TInner>(self.child(), r.child()),
    {
        UnwrapOptionAppender { inner: self.inner.clone() }
    }
}

impl<TInner: ColumnAppenderBase> ColumnAppenderBase for UnwrapOptionAppender<TInner> {
    type State = TInner::State;

    closed spec fn state(&self) -> TInner::State {
        self.inner.state()
    }

    open spec fn inv(s: TInner::State) -> bool {
        TInner::inv(s) && TInner::max_dl_of(s) > 0
    }

    open spec fn max_dl_of(s: TInner::State) -> i16 {
        TInner::max_dl_of(s)
    }

    open spec fn max_rl_of(s: TInner::State) -> i16 {
        TInner::max_rl_of(s)
    }

    open spec fn nulled(s: TInner::State, index: Seq<usize>, level: i16) -> TInner::State {
        TInner::nulled(s, index, level)
    }

    open spec fn null_bytes(s: TInner::State) -> usize {
        TInner::null_bytes(s)
    }

    open spec fn blank(s: TInner::State) -> TInner::State {
        TInner::blank(s)
    }

    open spec fn flushed(s: TInner::State) -> TInner::State {
        TInner::flushed(s)
    }

    open spec fn columns_of(s: TInner::State) -> nat {
        TInner::columns_of(s)
    }

    open spec fn partly_flushed(pre: TInner::State, post: TInner::State, failed: nat) -> bool {
        TInner::partly_flushed(pre, post, failed)
    }

    fn write_null(&mut self, repetition_index: &LevelIndexList, level: i16) -> (r: Result<
        usize,
        String,
    >) {
        self.inner.write_null(repetition_index, level)
    }

    fn column_count(&self) -> (r: usize) {
        self.inner.column_count()
    }

    fn max_dl(&self) -> (r: i16) {
        self.inner.max_dl()
    }

    fn max_rl(&self) -> (r: i16) {
        self.inner.max_rl()
    }
}

impl<T, TInner: ColumnAppender<T>> ColumnAppender<Option<T>> for UnwrapOptionAppender<TInner> {
    open spec fn admits(s: TInner::State, value: Option<T>) -> bool {
        match value {
            Some(v) => TInner::admits(s, v),
            None => true,
        }
    }

    /// A present value is appended by the child; an absent one is a null
    /// one level below the child's maximum definition level.
    open spec fn copied(
        pre: TInner::State,
        index: Seq<usize>,
        value: Option<T>,
        post: TInner::State,
        bytes: usize,
    ) -> bool {
        match value {
            Some(v) => TInner::copied(pre, index, v, post, bytes),
            None => post == TInner::nulled(pre, index, (TInner::max_dl_of(pre) - 1) as i16)
                && bytes == TInner::null_bytes(pre),
        }
    }

    fn copy_value(&mut self, repetition_index: &LevelIndexList, value: &Option<T>) -> (r: Result<
        usize,
        String,
    >) {
        self.inner.copy_value_opt(repetition_index, value)
    }
}

impl<W, TInner: ColumnFlush<W>> ColumnFlush<W> for UnwrapOptionAppender<TInner> {
    open spec fn handed_over(s: TInner::State, upto: nat, before: W, after: W) -> bool {
        TInner::handed_over(s, upto, before, after)
    }

    proof fn lemma_nothing_handed(s: TInner::State, w: W) {
        TInner::lemma_nothing_handed(s, w);
    }

    fn write_columns(&mut self, column_i: usize, next_col: &mut W) -> (r: Result<(), String>) {
        let r = self.inner.write_columns(column_i, next_col);
        proof {
            if r is Err {
                let failed = choose|failed: nat|
                    {
                        &&& #[trigger] TInner::partly_flushed(
                            old(self).inner.state(),
                            self.inner.state(),
                            failed,
                        )
                        &&& failed < TInner::columns_of(old(self).inner.state())
                        &&& reports_column(r->Err_0@, column_number(column_i, failed))
                        &&& TInner::handed_over(
                            old(self).inner.state(),
                            failed + 1,
                            *old(next_col),
                            *next_col,
                        )
                    };
                assert(Self::partly_flushed(old(self).state(), self.state(), failed));
            }
        }
        r
    }
}

/// A preprocessing appender as a mathematical value: the child and the
/// transform.
pub struct PreprocessState<S, F> {
    pub inner: S,
    pub transform: F,
}

/// The transform can be called on every value.
pub open spec fn callable<T1, T2, F: Fn(&T1) -> T2>(f: F) -> bool {
    forall|x: &T1| #[trigger] call_requires(f, (x,))
}

/// Runs each value through a transform and appends what comes out to the
/// child: a record's child picks its own field this way.
#[verifier::reject_recursive_types(T1)]
#[verifier::reject_recursive_types(T2)]
pub struct PreprocessAppender<T1, T2, TInner, F> where F: Fn(&T1) -> T2 {
    inner: TInner,
    transform: Arc<F>,
    dummy: PhantomData<(T1, T2)>,
}

impl<T1, T2, TInner: ColumnAppender<T2>, F: Fn(&T1) -> T2> PreprocessAppender<T1, T2, TInner, F> {
    /// An appender that hands `transform` of each value to `inner`.
    pub fn new(inner: TInner, transform: F) -> (r: Self)
        requires
            TInner::inv(inner.state()),
            callable::<T1, T2, F>(transform),
        ensures
            Self::inv(r.state()),
            r.state() == (PreprocessState { inner: inner.state(), transform }),
    {
        PreprocessAppender { inner, transform: Arc::new(transform), dummy: PhantomData }
    }

    /// The child.
    pub closed spec fn child(&self) -> TInner {
        self.inner
    }

    /// The child.
    pub fn inner(&self) -> (r: &TInner)
        ensures
            r.state() == self.state().inner,
            *r == self.child(),
    {
        &self.inner
    }
}

impl<T1, T2, TInner: ColumnAppender<T2> + Clone, F: Fn(&T1) -> T2> Clone for PreprocessAppender<
    T1,
    T2,
    TInner,
    F,
> {
    /// An appender with the same transform around a clone of the child.
    fn clone(&self) -> (r: Self)
        ensures
            r.state().transform == self.state().transform,
            r.state().inner == r.child().state(),
            cloned::<TInner>(self.child(), r.child()),
    {
        PreprocessAppender {
            inner: self.inner.clone(),
            transform: self.transform.clone(),
            dummy: PhantomData,
        }
    }
}

impl<T1, T2, TInner: ColumnAppender<T2>, F: Fn(&T1) -> T2> ColumnAppenderBase for PreprocessAppender<
    T1,
    T2,
    TInner,
    F,
> {
    type State = PreprocessState<TInner::State, F>;

    closed spec fn state(&self) -> PreprocessState<TInner::State, F> {
        PreprocessState { inner: self.inner.state(), transform: *self.transform }
    }

    open spec fn inv(s: PreprocessState<TInner::State, F>) -> bool {
        TInner::inv(s.inner) && callable::<T1, T2, F>(s.transform)
    }

    open spec fn max_dl_of(s: PreprocessState<TInner::State, F>) -> i16 {
        TInner::max_dl_of(s.inner)
    }

    open spec fn max_rl_of(s: PreprocessState<TInner::State, F>) -> i16 {
        TInner::max_rl_of(s.inner)
    }

    open spec fn nulled(
        s: PreprocessState<TInner::State, F>,
        index: Seq<usize>,
        level: i16,
    ) -> PreprocessState<TInner::State, F> {
        PreprocessState { inner: TInner::nulled(s.inner, index, level), ..s }
    }

    open spec fn null_bytes(s: PreprocessState<TInner::State, F>) -> usize {
        TInner::null_bytes(s.inner)
    }

    open spec fn blank(s: PreprocessState<TInner::State, F>) -> PreprocessState<TInner::State, F> {
        PreprocessState { inner: TInner::blank(s.inner), ..s }
    }

    open spec fn flushed(s: PreprocessState<TInner::State, F>) -> PreprocessState<
        TInner::State,
        F,
    > {
        PreprocessState { inner: TInner::flushed(s.inner), ..s }
    }

    open spec fn columns_of(s: PreprocessState<TInner::State, F>) -> nat {
        TInner::columns_of(s.inner)
    }

    open spec fn partly_flushed(
        pre: PreprocessState<TInner::State, F>,
        post: PreprocessState<TInner::State, F>,
        failed: nat,
    ) -> bool {
        post == (PreprocessState { inner: post.inner, ..pre }) && TInner::partly_flushed(
            pre.inner,
            post.inner,
            failed,
        )
    }

    fn write_null(&mut self, repetition_index: &LevelIndexList, level: i16) -> (r: Result<
        usize,
        String,
    >) {
        self.inner.write_null(repetition_index, level)
    }

    fn column_count(&self) -> (r: usize) {
        self.inner.column_count()
    }

    fn max_dl(&self) -> (r: i16) {
        self.inner.max_dl()
    }

    fn max_rl(&self) -> (r: i16) {
        self.inner.max_rl()
    }
}

impl<T1, T2, TInner: ColumnAppender<T2>, F: Fn(&T1) -> T2> ColumnAppender<T1> for PreprocessAppender<
    T1,
    T2,
    TInner,
    F,
> {
    /// The child takes whatever the transform makes of the value.
    open spec fn admits(s: PreprocessState<TInner::State, F>, value: T1) -> bool {
        forall|y: T2| #[trigger] call_ensures(s.transform, (&value,), y) ==> TInner::admits(s.inner, y)
    }

    /// The child appends a result of the transform.
    open spec fn copied(
        pre: PreprocessState<TInner::State, F>,
        index: Seq<usize>,
        value: T1,
        post: PreprocessState<TInner::State, F>,
        bytes: usize,
    ) -> bool {
        &&& post == (PreprocessState { inner: post.inner, ..pre })
        &&& exists|y: T2|
            {
                &&& #[trigger] call_ensures(pre.transform, (&value,), y)
                &&& TInner::copied(pre.inner, index, y, post.inner, bytes)
            }
    }

    fn copy_value(&mut self, repetition_index: &LevelIndexList, value: &T1) -> (r: Result<
        usize,
        String,
    >) {
        assert(call_requires(self.state().transform, (value,)));
        let transformed = (*self.transform)(value);
        assert(call_ensures(Self::blank(old(self).state()).transform, (value,), transformed));
        assert(TInner::admits(Self::blank(old(self).state()).inner, transformed));
        self.inner.copy_value(repetition_index, &transformed)
    }
}

impl<W, T1, T2, TInner: ColumnAppender<T2> + ColumnFlush<W>, F: Fn(&T1) -> T2> ColumnFlush<
    W,
> for PreprocessAppender<T1, T2, TInner, F> {
    open spec fn handed_over(
        s: PreprocessState<TInner::State, F>,
        upto: nat,
        before: W,
        after: W,
    ) -> bool {
        TInner::handed_over(s.inner, upto, before, after)
    }

    proof fn lemma_nothing_handed(s: PreprocessState<TInner::State, F>, w: W) {
        TInner::lemma_nothing_handed(s.inner, w);
    }

    fn write_columns(&mut self, column_i: usize, next_col: &mut W) -> (r: Result<(), String>) {
        let r = self.inner.write_columns(column_i, next_col);
        proof {
            if r is Err {
                let failed = choose|failed: nat|
                    {
                        &&& #[trigger] TInner::partly_flushed(
                            old(self).inner.state(),
                            self.inner.state(),
                            failed,
                        )
                        &&& failed < TInner::columns_of(old(self).inner.state())
                        &&& reports_column(r->Err_0@, column_number(column_i, failed))
                        &&& TInner::handed_over(
                            old(self).inner.state(),
                            failed + 1,
                            *old(next_col),
                            *next_col,
                        )
                    };
                assert(Self::partly_flushed(old(self).state(), self.state(), failed));
            }
        }
        r
    }
}

} // verus!
