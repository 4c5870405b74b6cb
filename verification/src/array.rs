//! The appender of a repeated field: it writes each element of a list
//! through its child, one nesting level deeper than the list itself.
use vstd::prelude::*;
use crate::interface::{
    column_number, reports_column, ColumnAppender, ColumnAppenderBase, ColumnFlush,
};
use crate::level_index::LevelIndexList;
use crate::real_memory_size::sum_bytes;

verus! {

/// An array appender as a mathematical value: the definition level `dl` of
/// a list that is present, the repetition level `rl` of the list itself,
/// whether an element may be null, and the child.
pub struct ArrayState<S> {
    pub dl: i16,
    pub rl: i16,
    pub allow_element_null: bool,
    pub inner: S,
}

/// The definition level of a null element of a list whose own level is `dl`.
pub open spec fn null_element_level(dl: i16) -> i16 {
    (dl + 1) as i16
}

/// Writing one element through the child can lead from `pre` to `post`:
/// a present element is appended, an absent one becomes a null one level
/// above the list's.
pub open spec fn element_copied<E, A: ColumnAppender<E>>(
    pre: A::State,
    index: Seq<usize>,
    element: Option<E>,
    dl: i16,
    post: A::State,
    bytes: usize,
) -> bool {
    match element {
        Some(v) => A::copied(pre, index, v, post, bytes),
        None => post == A::nulled(pre, index, null_element_level(dl)) && bytes == A::null_bytes(
            pre,
        ),
    }
}

/// Writing element `k` of a list at position `index`, at that position
/// extended by `k`, can lead the child from `trace[k]` to `trace[k + 1]`
/// with the byte estimate `parts[k]`.
pub open spec fn element_traced<E, A: ColumnAppender<E>>(
    index: Seq<usize>,
    elements: Seq<Option<E>>,
    dl: i16,
    trace: Seq<A::State>,
    parts: Seq<usize>,
    k: int,
) -> bool {
    element_copied::<E, A>(
        trace[k],
        index.push(k as usize),
        elements[k],
        dl,
        trace[k + 1],
        parts[k],
    )
}

/// `trace` holds the child's states while the elements of a list at
/// position `index` are written in order, and `parts` the byte estimate of
/// each element.
pub open spec fn elements_traced<E, A: ColumnAppender<E>>(
    index: Seq<usize>,
    elements: Seq<Option<E>>,
    dl: i16,
    trace: Seq<A::State>,
    parts: Seq<usize>,
) -> bool {
    &&& trace.len() == elements.len() + 1
    &&& parts.len() == elements.len()
    &&& forall|k: int|
        0 <= k < elements.len() ==> #[trigger] element_traced::<E, A>(
            index,
            elements,
            dl,
            trace,
            parts,
            k,
        )
}

/// Appends lists to the columns of its child. The child stands for what is
/// inside one element: its repetition level is one more than the list's, and
/// its definition level counts the list and, where elements may be null, the
/// element on top of the levels `dl` of the path to the list.
pub struct ArrayColumnAppender<TInner> {
    inner: TInner,
    allow_element_null: bool,
    dl: i16,
    rl: i16,
}

impl<TInner: ColumnAppenderBase> ArrayColumnAppender<TInner> {
    /// The child's levels fit a list of definition level `dl` and
    /// repetition level `rl`.
    pub open spec fn fits(inner: TInner::State, allow_element_null: bool, dl: i16, rl: i16) -> bool {
        &&& 0 <= dl
        &&& 0 <= rl
        &&& TInner::max_dl_of(inner) == dl + 1 + if allow_element_null {
            1int
        } else {
            0int
        }
        &&& TInner::max_rl_of(inner) == rl + 1
    }

    /// An appender of lists whose elements go to `inner`.
    pub fn new(inner: TInner, allow_element_null: bool, dl: i16, rl: i16) -> (r: Self)
        requires
            TInner::inv(inner.state()),
            Self::fits(inner.state(), allow_element_null, dl, rl),
        ensures
            Self::inv(r.state()),
            r.state() == (ArrayState { dl, rl, allow_element_null, inner: inner.state() }),
    {
        ArrayColumnAppender { inner, allow_element_null, dl, rl }
    }

    /// The child.
    pub closed spec fn child(&self) -> TInner {
        self.inner
    }

    /// The child.
    pub fn inner(&self) -> (r: &TInner)
        ensures
            r.state() == self.state().inner,
            *r == self.child(),
    {
        &self.inner
    }
}

impl<TInner: ColumnAppenderBase + Clone> Clone for ArrayColumnAppender<TInner> {
    /// An appender of the same lists around a clone of the child.
    fn clone(&self) -> (r: Self)
        ensures
            r.state().dl == self.state().dl,
            r.state().rl == self.state().rl,
            r.state().allow_element_null == self.state().allow_element_null,
            r.state().inner == r.child().state(),
            cloned::<TInner>(self.child(), r.child()),
    {
        ArrayColumnAppender {
            inner: self.inner.clone(),
            allow_element_null: self.allow_element_null,
            dl: self.dl,
            rl: self.rl,
        }
    }
}

impl<TInner: ColumnAppenderBase> ColumnAppenderBase for ArrayColumnAppender<TInner> {
    type State = ArrayState<TInner::State>;

    closed spec fn state(&self) -> ArrayState<TInner::State> {
        ArrayState {
            dl: self.dl,
            rl: self.rl,
            allow_element_null: self.allow_element_null,
            inner: self.inner.state(),
        }
    }

    open spec fn inv(s: ArrayState<TInner::State>) -> bool {
        TInner::inv(s.inner) && Self::fits(s.inner, s.allow_element_null, s.dl, s.rl)
    }

    open spec fn max_dl_of(s: ArrayState<TInner::State>) -> i16 {
        s.dl
    }

    open spec fn max_rl_of(s: ArrayState<TInner::State>) -> i16 {
        s.rl
    }

    open spec fn nulled(s: ArrayState<TInner::State>, index: Seq<usize>, level: i16) -> ArrayState<
        TInner::State,
    > {
        ArrayState { inner: TInner::nulled(s.inner, index, level), ..s }
    }

    open spec fn null_bytes(s: ArrayState<TInner::State>) -> usize {
        TInner::null_bytes(s.inner)
    }

    open spec fn blank(s: ArrayState<TInner::State>) -> ArrayState<TInner::State> {
        ArrayState { inner: TInner::blank(s.inner), ..s }
    }

    open spec fn flushed(s: ArrayState<TInner::State>) -> ArrayState<TInner::State> {
        ArrayState { inner: TInner::flushed(s.inner), ..s }
    }

    open spec fn columns_of(s: ArrayState<TInner::State>) -> nat {
        TInner::columns_of(s.inner)
    }

    open spec fn partly_flushed(
        pre: ArrayState<TInner::State>,
        post: ArrayState<TInner::State>,
        failed: nat,
    ) -> bool {
        post == (ArrayState { inner: post.inner, ..pre }) && TInner::partly_flushed(
            pre.inner,
            post.inner,
            failed,
        )
    }

    fn write_null(&mut self, repetition_index: &LevelIndexList, level: i16) -> (r: Result<
        usize,
        String,
    >) {
        self.inner.write_null(repetition_index, level)
    }

    fn column_count(&self) -> (r: usize) {
        self.inner.column_count()
    }

    fn max_dl(&self) -> (r: i16) {
        self.dl
    }

    fn max_rl(&self) -> (r: i16) {
        self.rl
    }
}

impl<E, TInner: ColumnAppender<E>> ColumnAppender<Vec<Option<E>>> for ArrayColumnAppender<
    TInner,
> {
    /// Null elements come only where the list allows them, and the child
    /// takes each element that is present.
    open spec fn admits(s: ArrayState<TInner::State>, value: Vec<Option<E>>) -> bool {
        forall|k: int|
            0 <= k < value@.len() ==> match #[trigger] value@[k] {
                Some(v) => TInner::admits(s.inner, v),
                None => s.allow_element_null,
            }
    }

    /// An empty list is one null at the list's own definition level, at the
    /// list's position. The elements of any other list are written in order,
    /// each at the list's position extended by the element's index.
    open spec fn copied(
        pre: ArrayState<TInner::State>,
        index: Seq<usize>,
        value: Vec<Option<E>>,
        post: ArrayState<TInner::State>,
        bytes: usize,
    ) -> bool {
        &&& post == (ArrayState { inner: post.inner, ..pre })
        &&& if value@.len() == 0 {
            post.inner == TInner::nulled(pre.inner, index, pre.dl) && bytes == TInner::null_bytes(
                pre.inner,
            )
        } else {
            exists|trace: Seq<TInner::State>, parts: Seq<usize>|
                {
                    &&& #[trigger] elements_traced::<E, TInner>(index, value@, pre.dl, trace, parts)
                    &&& trace.first() == pre.inner
                    &&& trace.last() == post.inner
                    &&& bytes == sum_bytes(parts)
                }
        }
    }

    fn copy_value(&mut self, repetition_index: &LevelIndexList, value: &Vec<Option<E>>) -> (r:
        Result<usize, String>) {
        let n = value.len();
        if n == 0 {
            let level = self.dl;
            return self.inner.write_null(repetition_index, level);
        }
        let mut nested = repetition_index.new_child();
        let mut total: usize = 0;
        let mut i: usize = 0;
        let ghost mut trace: Seq<TInner::State> = seq![self.inner.state()];
        let ghost mut parts: Seq<usize> = Seq::empty();
        while i < n
            invariant
                i <= n,
                n == value@.len(),
                nested@ == repetition_index@.push(i),
                self.dl == old(self).dl,
                self.rl == old(self).rl,
                self.allow_element_null == old(self).allow_element_null,
                TInner::inv(self.inner.state()),
                Self::fits(old(self).inner.state(), self.allow_element_null, self.dl, self.rl),
                TInner::blank(self.inner.state()) == TInner::blank(old(self).inner.state()),
                TInner::max_dl_of(self.inner.state()) == TInner::max_dl_of(old(self).inner.state()),
                TInner::max_rl_of(self.inner.state()) == TInner::max_rl_of(old(self).inner.state()),
                Self::admits(Self::blank(old(self).state()), *value),
                trace.len() == i + 1,
                parts.len() == i,
                trace.first() == old(self).inner.state(),
                trace.last() == self.inner.state(),
                total == sum_bytes(parts),
                forall|k: int|
                    0 <= k < i ==> #[trigger] element_copied::<E, TInner>(
                        trace[k],
                        repetition_index@.push(k as usize),
                        value@[k],
                        self.dl,
                        trace[k + 1],
                        parts[k],
                    ),
            decreases n - i,
        {
            let ghost before = self.inner.state();
            let ghost element = value@[i as int];
            let written = match &value[i] {
                Some(v) => self.inner.copy_value(&nested, v),
                None => {
                    let level = self.dl + 1;
                    self.inner.write_null(&nested, level)
                },
            };
            let b = match written {
                Ok(b) => b,
                Err(e) => {
                    return Err(e);
                },
            };
            proof {
                assert(element_copied::<E, TInner>(
                    before,
                    repetition_index@.push(i),
                    element,
                    self.dl,
                    self.inner.state(),
                    b,
                ));
                let old_trace = trace;
                let old_parts = parts;
                trace = trace.push(self.inner.state());
                parts = parts.push(b);
                assert(parts.drop_last() =~= old_parts);
                assert forall|k: int| 0 <= k < i + 1 implies #[trigger] element_copied::<E, TInner>(
                    trace[k],
                    repetition_index@.push(k as usize),
                    value@[k],
                    self.dl,
                    trace[k + 1],
                    parts[k],
                ) by {
                    if k < i {
                        assert(element_copied::<E, TInner>(
                            old_trace[k],
                            repetition_index@.push(k as usize),
                            value@[k],
                            self.dl,
                            old_trace[k + 1],
                            old_parts[k],
                        ));
                    }
                }
            }
            total = total.saturating_add(b);
            nested.inc();
            i = i + 1;
        }
        proof {
            assert forall|k: int| 0 <= k < value@.len() implies #[trigger] element_traced::<
                E,
                TInner,
            >(repetition_index@, value@, self.dl, trace, parts, k) by {
                assert(element_copied::<E, TInner>(
                    trace[k],
                    repetition_index@.push(k as usize),
                    value@[k],
                    self.dl,
                    trace[k + 1],
                    parts[k],
                ));
            }
            assert(elements_traced::<E, TInner>(repetition_index@, value@, self.dl, trace, parts));
        }
        Ok(total)
    }
}

impl<W, TInner: ColumnFlush<W>> ColumnFlush<W> for ArrayColumnAppender<TInner> {
    open spec fn handed_over(s: ArrayState<TInner::State>, upto: nat, before: W, after: W) -> bool {
        TInner::handed_over(s.inner, upto, before, after)
    }

    proof fn lemma_nothing_handed(s: ArrayState<TInner::State>, w: W) {
        TInner::lemma_nothing_handed(s.inner, w);
    }

    fn write_columns(&mut self, column_i: usize, next_col: &mut W) -> (r: Result<(), String>) {
        let r = self.inner.write_columns(column_i, next_col);
        proof {
            if r is Err {
                let failed = choose|failed: nat|
                    {
                        &&& #[trigger] TInner::partly_flushed(
                            old(self).inner.state(),
                            self.inner.state(),
                            failed,
                        )
                        &&& failed < TInner::columns_of(old(self).inner.state())
                        &&& reports_column(r->Err_0@, column_number(column_i, failed))
                        &&& TInner::handed_over(
                            old(self).inner.state(),
                            failed + 1,
                            *old(next_col),
                            *next_col,
                        )
                    };
                assert(Self::partly_flushed(old(self).state(), self.state(), failed));
            }
        }
        r
    }
}

} // verus!
