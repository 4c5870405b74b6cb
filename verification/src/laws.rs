//! What holds of the appenders over whole sequences of calls.
use vstd::prelude::*;
use crate::array::{ArrayColumnAppender, ArrayState};
use crate::generic::{clone_of, lemma_defined_push, ColumnState, GenericColumnAppender};
use crate::interface::{ColumnAppender, ColumnAppenderBase};
use crate::level_index::{lemma_repetition_level_is_shallowest, repetition_level, unset};
use crate::merged::{DynamicMergedAppender, MergedState, PairState, StaticMergedAppender};
use crate::real_memory_size::RealMemorySize;

verus! {

/// One call of an appender: a value or a null, with the caller's position.
pub enum Occurrence<T> {
    Value { index: Seq<usize>, value: T },
    Null { index: Seq<usize>, level: i16 },
}

impl<T> Occurrence<T> {
    /// The caller's position at the call.
    pub open spec fn index(self) -> Seq<usize> {
        match self {
            Occurrence::Value { index, .. } => index,
            Occurrence::Null { index, .. } => index,
        }
    }

    /// The definition level that the call leaves in a column of maximum
    /// definition level `max_dl`.
    pub open spec fn definition_level(self, max_dl: i16) -> i16 {
        match self {
            Occurrence::Value { .. } => max_dl,
            Occurrence::Null { level, .. } => level,
        }
    }
}

/// The number of values among `calls`.
pub open spec fn values_in<T>(calls: Seq<Occurrence<T>>) -> nat
    decreases calls.len(),
{
    if calls.len() == 0 {
        0
    } else {
        values_in(calls.drop_last()) + if calls.last() is Value {
            1nat
        } else {
            0nat
        }
    }
}

/// The call can lead the appender from `pre` to `post`.
pub open spec fn stepped<T, A: ColumnAppender<T>>(
    pre: A::State,
    call: Occurrence<T>,
    post: A::State,
) -> bool {
    match call {
        Occurrence::Value { index, value } => exists|bytes: usize|
            A::copied(pre, index, value, post, bytes),
        Occurrence::Null { index, level } => 0 <= level < A::max_dl_of(pre) && post == A::nulled(
            pre,
            index,
            level,
        ),
    }
}

/// Call `k` can lead the appender from `trace[k]` to `trace[k + 1]`.
pub open spec fn stepped_at<T, A: ColumnAppender<T>>(
    trace: Seq<A::State>,
    calls: Seq<Occurrence<T>>,
    k: int,
) -> bool {
    stepped::<T, A>(trace[k], calls[k], trace[k + 1])
}

/// `trace` holds the states of an appender before, between and after the
/// calls `calls`, made in that order.
pub open spec fn fed<T, A: ColumnAppender<T>>(trace: Seq<A::State>, calls: Seq<Occurrence<T>>) -> bool {
    &&& trace.len() == calls.len() + 1
    &&& forall|k: int| 0 <= k < calls.len() ==> #[trigger] stepped_at::<T, A>(trace, calls, k)
}

/// One call to a leaf column adds one occurrence: a value and its levels,
/// or the levels of a null.
pub proof fn lemma_leaf_step<S, V: RealMemorySize, F: Fn(&S) -> V>(
    pre: ColumnState<V, F>,
    call: Occurrence<S>,
    post: ColumnState<V, F>,
)
    requires
        pre.wf(),
        stepped::<S, GenericColumnAppender<S, V, F>>(pre, call, post),
    ensures
        post.wf(),
        post.max_dl == pre.max_dl,
        post.max_rl == pre.max_rl,
        post.conversion == pre.conversion,
        post.entries() == pre.entries() + 1,
        call is Value ==> post.values.len() == pre.values.len() + 1 && post.values.drop_last()
            == pre.values,
        call is Null ==> post.values == pre.values,
        pre.max_dl > 0 ==> post.dls == pre.dls.push(call.definition_level(pre.max_dl)),
        pre.max_dl == 0 ==> post.dls == pre.dls,
        pre.max_rl > 0 ==> post.rls == pre.rls.push(
            repetition_level(pre.position, call.index()) as i16,
        ),
        pre.max_rl == 0 ==> post.rls == pre.rls && post.position == pre.position,
{
    lemma_repetition_level_is_shallowest(pre.position, call.index());
    lemma_defined_push(pre.dls, call.definition_level(pre.max_dl), pre.max_dl);
    match call {
        Occurrence::Value { index, value } => {
            assert(post.values.drop_last() =~= pre.values);
        },
        Occurrence::Null { index, level } => {},
    }
}

/// For any sequence of values and nulls appended to a leaf column, the
/// buffers follow the calls: the column holds one value for each value
/// appended; its definition levels, where it has them, hold one entry for
/// each call, in call order, and so do its repetition levels; a column
/// without a level array never gets one. Where no null was written to a
/// column with definition levels, these are as many as the values.
pub proof fn lemma_buffers_follow_calls<S, V: RealMemorySize, F: Fn(&S) -> V>(
    trace: Seq<ColumnState<V, F>>,
    calls: Seq<Occurrence<S>>,
)
    requires
        fed::<S, GenericColumnAppender<S, V, F>>(trace, calls),
        trace.first().wf(),
    ensures
        trace.last().wf(),
        trace.last().max_dl == trace.first().max_dl,
        trace.last().max_rl == trace.first().max_rl,
        trace.last().conversion == trace.first().conversion,
        trace.last().entries() == trace.first().entries() + calls.len(),
        trace.last().values.len() == trace.first().values.len() + values_in(calls),
        trace.first().max_dl > 0 ==> {
            &&& trace.last().dls.len() == trace.first().dls.len() + calls.len()
            &&& forall|k: int|
                0 <= k < calls.len() ==> trace.last().dls[trace.first().dls.len() + k]
                    == #[trigger] calls[k].definition_level(trace.first().max_dl)
        },
        trace.first().max_dl == 0 ==> trace.last().dls.len() == 0,
        trace.first().max_rl > 0 ==> {
            &&& trace.last().rls.len() == trace.first().rls.len() + calls.len()
            &&& forall|k: int|
                0 <= k < calls.len() ==> trace.last().rls[trace.first().rls.len() + k]
                    == repetition_level(#[trigger] trace[k].position, calls[k].index())
        },
        trace.first().max_rl == 0 ==> trace.last().rls.len() == 0,
        (trace.first().max_dl > 0 && trace.first().dls.len() == trace.first().values.len()
            && values_in(calls) == calls.len()) ==> trace.last().dls.len()
            == trace.last().values.len(),
    decreases calls.len(),
{
    if calls.len() > 0 {
        let n = calls.len() as int;
        let before = trace.drop_last();
        let earlier = calls.drop_last();
        assert forall|k: int| 0 <= k < earlier.len() implies #[trigger] stepped_at::<
            S,
            GenericColumnAppender<S, V, F>,
        >(before, earlier, k) by {
            assert(stepped_at::<S, GenericColumnAppender<S, V, F>>(trace, calls, k));
        }
        lemma_buffers_follow_calls::<S, V, F>(before, earlier);
        assert(before.last() == trace[n - 1]);
        assert(stepped_at::<S, GenericColumnAppender<S, V, F>>(trace, calls, n - 1));
        lemma_leaf_step::<S, V, F>(trace[n - 1], calls[n - 1], trace[n]);
        lemma_repetition_level_is_shallowest(trace[n - 1].position, calls[n - 1].index());
        if trace.first().max_dl > 0 {
            assert forall|k: int| 0 <= k < calls.len() implies trace.last().dls[trace.first().dls.len()
                + k] == #[trigger] calls[k].definition_level(trace.first().max_dl) by {
                if k < n - 1 {
                    assert(earlier[k] == calls[k]);
                    assert(before.last().dls[before.first().dls.len() + k]
                        == earlier[k].definition_level(before.first().max_dl));
                }
            }
        }
        if trace.first().max_rl > 0 {
            assert forall|k: int| 0 <= k < calls.len() implies trace.last().rls[trace.first().rls.len()
                + k] == repetition_level(#[trigger] trace[k].position, calls[k].index()) by {
                if k < n - 1 {
                    assert(earlier[k] == calls[k]);
                    assert(before[k] == trace[k]);
                    assert(before.last().rls[before.first().rls.len() + k] == repetition_level(
                        before[k].position,
                        earlier[k].index(),
                    ));
                }
            }
        }
    }
}

/// A column that cannot repeat takes no notice of the caller's position:
/// whatever the position of a call, the column ends up the same, and it has
/// no repetition levels for the writer.
pub proof fn lemma_position_is_irrelevant_without_repetition<V, F>(
    s: ColumnState<V, F>,
    one: Seq<usize>,
    other: Seq<usize>,
    v: V,
    level: i16,
)
    requires
        s.max_rl == 0,
        s.rls.len() == 0,
    ensures
        s.with_value(one, v) == s.with_value(other, v),
        s.with_null(one, level) == s.with_null(other, level),
        s.with_value(one, v).repetition_levels() is None,
        s.with_null(one, level).repetition_levels() is None,
        s.with_value(one, v).rls.len() == 0,
        s.with_null(one, level).rls.len() == 0,
{
}

/// A value appended to a column that cannot repeat gives the same column
/// and the same estimate at whatever position it is appended.
pub proof fn lemma_unrepeated_column_ignores_position<S, V: RealMemorySize, F: Fn(&S) -> V>(
    s: ColumnState<V, F>,
    value: S,
    one: Seq<usize>,
    after_one: ColumnState<V, F>,
    bytes_one: usize,
    other: Seq<usize>,
    after_other: ColumnState<V, F>,
    bytes_other: usize,
)
    requires
        s.max_rl == 0,
        <GenericColumnAppender<S, V, F> as ColumnAppenderBase>::inv(s),
        <GenericColumnAppender<S, V, F> as ColumnAppender<S>>::copied(
            s,
            one,
            value,
            after_one,
            bytes_one,
        ),
        <GenericColumnAppender<S, V, F> as ColumnAppender<S>>::copied(
            s,
            other,
            value,
            after_other,
            bytes_other,
        ),
    ensures
        after_one == after_other,
        bytes_one == bytes_other,
        after_one.rls == s.rls,
{
    assert(call_ensures(s.conversion, (&value,), after_one.values.last()));
    assert(call_ensures(s.conversion, (&value,), after_other.values.last()));
}

/// The first occurrence in a fresh column that can repeat has repetition
/// level 0, be it a value or a null.
pub proof fn lemma_first_append_has_level_zero<V, F>(
    s: ColumnState<V, F>,
    index: Seq<usize>,
    v: V,
    level: i16,
)
    requires
        s.max_rl > 0,
        s.is_fresh(s.max_dl, s.max_rl),
        index.len() >= 1,
    ensures
        s.with_value(index, v).rls == seq![0i16],
        s.with_null(index, level).rls == seq![0i16],
{
    crate::level_index::lemma_first_occurrence_starts_record(s.max_rl as nat, index);
    assert(unset(s.max_rl as int) == Seq::new((s.max_rl as nat) + 1, |d: int| None::<usize>));
    assert(s.with_value(index, v).rls =~= seq![0i16]);
    assert(s.with_null(index, level).rls =~= seq![0i16]);
}

/// An empty list that is present is exactly one null for the child, at the
/// list's own position and at the definition level of a present list. That
/// level is none of those at which the list's field is absent: every null
/// that is written through the list's appender has a smaller level.
pub proof fn lemma_empty_list_is_one_null<E, TInner: ColumnAppender<E>>(
    pre: ArrayState<TInner::State>,
    index: Seq<usize>,
    value: Vec<Option<E>>,
    post: ArrayState<TInner::State>,
    bytes: usize,
)
    requires
        value@.len() == 0,
        <ArrayColumnAppender<TInner> as ColumnAppender<Vec<Option<E>>>>::copied(
            pre,
            index,
            value,
            post,
            bytes,
        ),
    ensures
        post == <ArrayColumnAppender<TInner> as ColumnAppenderBase>::nulled(pre, index, pre.dl),
        bytes == <ArrayColumnAppender<TInner> as ColumnAppenderBase>::null_bytes(pre),
        !(pre.dl < <ArrayColumnAppender<TInner> as ColumnAppenderBase>::max_dl_of(pre)),
{
}

/// The children of a record of leaf columns keep their levels and stay
/// sound while the record is fed.
proof fn lemma_record_trace<S, V: RealMemorySize, F: Fn(&S) -> V>(
    trace: Seq<MergedState<ColumnState<V, F>>>,
    calls: Seq<Occurrence<S>>,
    k: int,
)
    requires
        fed::<S, DynamicMergedAppender<GenericColumnAppender<S, V, F>>>(trace, calls),
        <DynamicMergedAppender<GenericColumnAppender<S, V, F>> as ColumnAppenderBase>::inv(
            trace.first(),
        ),
        0 <= k <= calls.len(),
    ensures
        <DynamicMergedAppender<GenericColumnAppender<S, V, F>> as ColumnAppenderBase>::inv(
            trace[k],
        ),
        trace[k].columns.len() == trace.first().columns.len(),
        trace[k].max_dl == trace.first().max_dl,
        trace[k].max_rl == trace.first().max_rl,
    decreases k,
{
    if k > 0 {
        lemma_record_trace::<S, V, F>(trace, calls, k - 1);
        let j = k - 1;
        let pre = trace[j];
        let post = trace[j + 1];
        assert(stepped_at::<S, DynamicMergedAppender<GenericColumnAppender<S, V, F>>>(
            trace,
            calls,
            j,
        ));
        assert forall|i: int| 0 <= i < post.columns.len() implies {
            &&& #[trigger] <GenericColumnAppender<S, V, F> as ColumnAppenderBase>::inv(
                post.columns[i],
            )
            &&& post.columns[i].max_dl >= post.max_dl
            &&& post.columns[i].max_rl >= post.max_rl
        } by {
            assert(<GenericColumnAppender<S, V, F> as ColumnAppenderBase>::inv(pre.columns[i]));
            lemma_record_child_step::<S, V, F>(pre, calls[k - 1], post, i);
            lemma_leaf_step::<S, V, F>(pre.columns[i], calls[k - 1], post.columns[i]);
        }
    }
}

/// A call to a record is the same call to each of its children.
proof fn lemma_record_child_step<S, V: RealMemorySize, F: Fn(&S) -> V>(
    pre: MergedState<ColumnState<V, F>>,
    call: Occurrence<S>,
    post: MergedState<ColumnState<V, F>>,
    i: int,
)
    requires
        <DynamicMergedAppender<GenericColumnAppender<S, V, F>> as ColumnAppenderBase>::inv(pre),
        stepped::<S, DynamicMergedAppender<GenericColumnAppender<S, V, F>>>(pre, call, post),
        0 <= i < pre.columns.len(),
    ensures
        post.columns.len() == pre.columns.len(),
        post.max_dl == pre.max_dl,
        post.max_rl == pre.max_rl,
        stepped::<S, GenericColumnAppender<S, V, F>>(pre.columns[i], call, post.columns[i]),
{
    assert(<GenericColumnAppender<S, V, F> as ColumnAppenderBase>::inv(pre.columns[i]));
    match call {
        Occurrence::Value { index, value } => {
            let bytes = choose|bytes: usize|
                <DynamicMergedAppender<GenericColumnAppender<S, V, F>> as ColumnAppender<
                    S,
                >>::copied(pre, index, value, post, bytes);
            let parts = choose|parts: Seq<usize>|
                {
                    &&& parts.len() == pre.columns.len()
                    &&& bytes == #[trigger] crate::real_memory_size::sum_bytes(parts)
                    &&& forall|j: int|
                        0 <= j < pre.columns.len() ==> #[trigger] <GenericColumnAppender<
                            S,
                            V,
                            F,
                        > as ColumnAppender<S>>::copied(
                            pre.columns[j],
                            index,
                            value,
                            post.columns[j],
                            parts[j],
                        )
                };
            assert(<GenericColumnAppender<S, V, F> as ColumnAppender<S>>::copied(
                pre.columns[i],
                index,
                value,
                post.columns[i],
                parts[i],
            ));
        },
        Occurrence::Null { index, level } => {},
    }
}

/// A record of leaf columns that is given M calls, values or nulls, leaves
/// each child with exactly M more occurrences, and the occurrences of every
/// child stand in the order of the calls: the child's definition levels,
/// where it has them, hold the level of each call at that call's place.
pub proof fn lemma_record_children_stay_aligned<S, V: RealMemorySize, F: Fn(&S) -> V>(
    trace: Seq<MergedState<ColumnState<V, F>>>,
    calls: Seq<Occurrence<S>>,
    i: int,
)
    requires
        fed::<S, DynamicMergedAppender<GenericColumnAppender<S, V, F>>>(trace, calls),
        <DynamicMergedAppender<GenericColumnAppender<S, V, F>> as ColumnAppenderBase>::inv(
            trace.first(),
        ),
        0 <= i < trace.first().columns.len(),
    ensures
        trace.last().columns.len() == trace.first().columns.len(),
        trace.last().columns[i].entries() == trace.first().columns[i].entries() + calls.len(),
        trace.last().columns[i].values.len() == trace.first().columns[i].values.len()
            + values_in(calls),
        trace.first().columns[i].max_dl > 0 ==> forall|k: int|
            0 <= k < calls.len() ==> trace.last().columns[i].dls[trace.first().columns[i].dls.len()
                + k] == #[trigger] calls[k].definition_level(trace.first().columns[i].max_dl),
{
    let child = Seq::new(trace.len(), |k: int| trace[k].columns[i]);
    assert forall|k: int| 0 <= k < calls.len() implies #[trigger] stepped_at::<
        S,
        GenericColumnAppender<S, V, F>,
    >(child, calls, k) by {
        lemma_record_trace::<S, V, F>(trace, calls, k);
        assert(stepped_at::<S, DynamicMergedAppender<GenericColumnAppender<S, V, F>>>(
            trace,
            calls,
            k,
        ));
        lemma_record_child_step::<S, V, F>(trace[k], calls[k], trace[k + 1], i);
    }
    lemma_record_trace::<S, V, F>(trace, calls, calls.len() as int);
    assert(<GenericColumnAppender<S, V, F> as ColumnAppenderBase>::inv(trace.first().columns[i]));
    lemma_buffers_follow_calls::<S, V, F>(child, calls);
    if trace.first().columns[i].max_dl > 0 {
        assert forall|k: int| 0 <= k < calls.len() implies trace.last().columns[i].dls[trace.first().columns[i].dls.len()
            + k] == #[trigger] calls[k].definition_level(trace.first().columns[i].max_dl) by {
            assert(child.last().dls[child.first().dls.len() + k] == calls[k].definition_level(
                child.first().max_dl,
            ));
        }
    }
}

/// A call to a record of two leaf columns is the same call to each of them.
proof fn lemma_pair_child_step<
    S,
    V1: RealMemorySize,
    F1: Fn(&S) -> V1,
    V2: RealMemorySize,
    F2: Fn(&S) -> V2,
>(
    pre: PairState<ColumnState<V1, F1>, ColumnState<V2, F2>>,
    call: Occurrence<S>,
    post: PairState<ColumnState<V1, F1>, ColumnState<V2, F2>>,
)
    requires
        <StaticMergedAppender<
            GenericColumnAppender<S, V1, F1>,
            GenericColumnAppender<S, V2, F2>,
        > as ColumnAppenderBase>::inv(pre),
        stepped::<
            S,
            StaticMergedAppender<GenericColumnAppender<S, V1, F1>, GenericColumnAppender<S, V2, F2>>,
        >(pre, call, post),
    ensures
        <StaticMergedAppender<
            GenericColumnAppender<S, V1, F1>,
            GenericColumnAppender<S, V2, F2>,
        > as ColumnAppenderBase>::inv(post),
        stepped::<S, GenericColumnAppender<S, V1, F1>>(pre.first, call, post.first),
        stepped::<S, GenericColumnAppender<S, V2, F2>>(pre.second, call, post.second),
{
    match call {
        Occurrence::Value { index, value } => {
            let bytes = choose|bytes: usize|
                <StaticMergedAppender<
                    GenericColumnAppender<S, V1, F1>,
                    GenericColumnAppender<S, V2, F2>,
                > as ColumnAppender<S>>::copied(pre, index, value, post, bytes);
            let (a, b) = choose|a: usize, b: usize|
                {
                    &&& #[trigger] <GenericColumnAppender<S, V1, F1> as ColumnAppender<S>>::copied(
                        pre.first,
                        index,
                        value,
                        post.first,
                        a,
                    )
                    &&& #[trigger] <GenericColumnAppender<S, V2, F2> as ColumnAppender<S>>::copied(
                        pre.second,
                        index,
                        value,
                        post.second,
                        b,
                    )
                    &&& bytes == a.saturating_add(b)
                };
        },
        Occurrence::Null { index, level } => {},
    }
    lemma_leaf_step::<S, V1, F1>(pre.first, call, post.first);
    lemma_leaf_step::<S, V2, F2>(pre.second, call, post.second);
}

/// The record of two leaf columns stays sound while it is fed.
proof fn lemma_pair_trace<
    S,
    V1: RealMemorySize,
    F1: Fn(&S) -> V1,
    V2: RealMemorySize,
    F2: Fn(&S) -> V2,
>(
    trace: Seq<PairState<ColumnState<V1, F1>, ColumnState<V2, F2>>>,
    calls: Seq<Occurrence<S>>,
    k: int,
)
    requires
        fed::<
            S,
            StaticMergedAppender<GenericColumnAppender<S, V1, F1>, GenericColumnAppender<S, V2, F2>>,
        >(trace, calls),
        <StaticMergedAppender<
            GenericColumnAppender<S, V1, F1>,
            GenericColumnAppender<S, V2, F2>,
        > as ColumnAppenderBase>::inv(trace.first()),
        0 <= k <= calls.len(),
    ensures
        <StaticMergedAppender<
            GenericColumnAppender<S, V1, F1>,
            GenericColumnAppender<S, V2, F2>,
        > as ColumnAppenderBase>::inv(trace[k]),
    decreases k,
{
    if k > 0 {
        lemma_pair_trace::<S, V1, F1, V2, F2>(trace, calls, k - 1);
        let j = k - 1;
        assert(stepped_at::<
            S,
            StaticMergedAppender<GenericColumnAppender<S, V1, F1>, GenericColumnAppender<S, V2, F2>>,
        >(trace, calls, j));
        lemma_pair_child_step::<S, V1, F1, V2, F2>(trace[j], calls[j], trace[j + 1]);
    }
}

/// A record of two leaf columns that is given M calls, values or nulls,
/// leaves both children with exactly M more occurrences, and with one more
/// value for each value among the calls.
pub proof fn lemma_pair_children_stay_aligned<
    S,
    V1: RealMemorySize,
    F1: Fn(&S) -> V1,
    V2: RealMemorySize,
    F2: Fn(&S) -> V2,
>(trace: Seq<PairState<ColumnState<V1, F1>, ColumnState<V2, F2>>>, calls: Seq<Occurrence<S>>)
    requires
        fed::<
            S,
            StaticMergedAppender<GenericColumnAppender<S, V1, F1>, GenericColumnAppender<S, V2, F2>>,
        >(trace, calls),
        <StaticMergedAppender<
            GenericColumnAppender<S, V1, F1>,
            GenericColumnAppender<S, V2, F2>,
        > as ColumnAppenderBase>::inv(trace.first()),
    ensures
        trace.last().first.entries() == trace.first().first.entries() + calls.len(),
        trace.last().second.entries() == trace.first().second.entries() + calls.len(),
        trace.last().first.values.len() == trace.first().first.values.len() + values_in(calls),
        trace.last().second.values.len() == trace.first().second.values.len() + values_in(calls),
{
    let first = Seq::new(trace.len(), |k: int| trace[k].first);
    let second = Seq::new(trace.len(), |k: int| trace[k].second);
    assert forall|k: int| 0 <= k < calls.len() implies #[trigger] stepped_at::<
        S,
        GenericColumnAppender<S, V1, F1>,
    >(first, calls, k) by {
        lemma_pair_trace::<S, V1, F1, V2, F2>(trace, calls, k);
        assert(stepped_at::<
            S,
            StaticMergedAppender<GenericColumnAppender<S, V1, F1>, GenericColumnAppender<S, V2, F2>>,
        >(trace, calls, k));
        lemma_pair_child_step::<S, V1, F1, V2, F2>(trace[k], calls[k], trace[k + 1]);
    }
    assert forall|k: int| 0 <= k < calls.len() implies #[trigger] stepped_at::<
        S,
        GenericColumnAppender<S, V2, F2>,
    >(second, calls, k) by {
        lemma_pair_trace::<S, V1, F1, V2, F2>(trace, calls, k);
        assert(stepped_at::<
            S,
            StaticMergedAppender<GenericColumnAppender<S, V1, F1>, GenericColumnAppender<S, V2, F2>>,
        >(trace, calls, k));
        lemma_pair_child_step::<S, V1, F1, V2, F2>(trace[k], calls[k], trace[k + 1]);
    }
    lemma_buffers_follow_calls::<S, V1, F1>(first, calls);
    lemma_buffers_follow_calls::<S, V2, F2>(second, calls);
}

/// Two columns hold the same but for the values that came from cloning:
/// below `cloned_below` the values of `b` are clones of those of `a`.
pub open spec fn alike<V: Clone, F>(
    a: ColumnState<V, F>,
    b: ColumnState<V, F>,
    cloned_below: int,
) -> bool {
    &&& b.max_dl == a.max_dl
    &&& b.max_rl == a.max_rl
    &&& b.dls == a.dls
    &&& b.rls == a.rls
    &&& b.position == a.position
    &&& b.conversion == a.conversion
    &&& b.values.len() == a.values.len()
    &&& 0 <= cloned_below <= a.values.len()
    &&& forall|j: int| 0 <= j < cloned_below ==> cloned::<V>(#[trigger] a.values[j], b.values[j])
    &&& forall|j: int| cloned_below <= j < a.values.len() ==> #[trigger] a.values[j] == b.values[j]
}

/// The same value appended at the same position to two columns that are
/// alike leaves them alike, and both calls return the same estimate.
pub proof fn lemma_alike_columns_return_alike<S, V: RealMemorySize + Clone, F: Fn(&S) -> V>(
    a: ColumnState<V, F>,
    b: ColumnState<V, F>,
    cloned_below: int,
    index: Seq<usize>,
    value: S,
    after_a: ColumnState<V, F>,
    bytes_a: usize,
    after_b: ColumnState<V, F>,
    bytes_b: usize,
)
    requires
        alike(a, b, cloned_below),
        <GenericColumnAppender<S, V, F> as ColumnAppenderBase>::inv(a),
        <GenericColumnAppender<S, V, F> as ColumnAppender<S>>::copied(
            a,
            index,
            value,
            after_a,
            bytes_a,
        ),
        <GenericColumnAppender<S, V, F> as ColumnAppender<S>>::copied(
            b,
            index,
            value,
            after_b,
            bytes_b,
        ),
    ensures
        alike(after_a, after_b, cloned_below),
        bytes_a == bytes_b,
{
    assert(call_ensures(a.conversion, (&value,), after_a.values.last()));
    assert(call_ensures(a.conversion, (&value,), after_b.values.last()));
    assert forall|j: int| 0 <= j < cloned_below implies cloned::<V>(
        #[trigger] after_a.values[j],
        after_b.values[j],
    ) by {
        assert(after_a.values[j] == a.values[j]);
        assert(after_b.values[j] == b.values[j]);
    }
    assert forall|j: int| cloned_below <= j < after_a.values.len() implies #[trigger] after_a.values[j]
        == after_b.values[j] by {
        if j < a.values.len() {
            assert(after_a.values[j] == a.values[j]);
            assert(after_b.values[j] == b.values[j]);
        }
    }
}

/// The same null written at the same position to two columns that are
/// alike leaves them alike, and both calls return the same estimate.
pub proof fn lemma_alike_columns_null_alike<V: Clone, F>(
    a: ColumnState<V, F>,
    b: ColumnState<V, F>,
    cloned_below: int,
    index: Seq<usize>,
    level: i16,
)
    requires
        alike(a, b, cloned_below),
    ensures
        alike(a.with_null(index, level), b.with_null(index, level), cloned_below),
        a.null_bytes() == b.null_bytes(),
{
}

/// A clone of a leaf column that is fed the calls that its source is fed
/// buffers what the source buffers: the same levels and the same
/// position after every call, and the same values. Nothing that one of the
/// two takes shows in the other.
pub proof fn lemma_clone_behaves_alike<S, V: RealMemorySize + Clone, F: Fn(&S) -> V>(
    source: Seq<ColumnState<V, F>>,
    copy: Seq<ColumnState<V, F>>,
    calls: Seq<Occurrence<S>>,
)
    requires
        fed::<S, GenericColumnAppender<S, V, F>>(source, calls),
        fed::<S, GenericColumnAppender<S, V, F>>(copy, calls),
        clone_of(source.first(), copy.first()),
        <GenericColumnAppender<S, V, F> as ColumnAppenderBase>::inv(source.first()),
    ensures
        alike(source.last(), copy.last(), source.first().values.len() as int),
    decreases calls.len(),
{
    let n0 = source.first().values.len() as int;
    if calls.len() == 0 {
        assert(source.last() == source.first());
        assert(copy.last() == copy.first());
    } else {
        let n = calls.len() as int;
        let a = source.drop_last();
        let b = copy.drop_last();
        let earlier = calls.drop_last();
        assert forall|k: int| 0 <= k < earlier.len() implies #[trigger] stepped_at::<
            S,
            GenericColumnAppender<S, V, F>,
        >(a, earlier, k) by {
            assert(stepped_at::<S, GenericColumnAppender<S, V, F>>(source, calls, k));
        }
        assert forall|k: int| 0 <= k < earlier.len() implies #[trigger] stepped_at::<
            S,
            GenericColumnAppender<S, V, F>,
        >(b, earlier, k) by {
            assert(stepped_at::<S, GenericColumnAppender<S, V, F>>(copy, calls, k));
        }
        lemma_clone_behaves_alike::<S, V, F>(a, b, earlier);
        lemma_buffers_follow_calls::<S, V, F>(a, earlier);
        let pa = source[n - 1];
        let pb = copy[n - 1];
        let qa = source[n];
        let qb = copy[n];
        assert(a.last() == pa && b.last() == pb);
        assert(stepped_at::<S, GenericColumnAppender<S, V, F>>(source, calls, n - 1));
        assert(stepped_at::<S, GenericColumnAppender<S, V, F>>(copy, calls, n - 1));
        match calls[n - 1] {
            Occurrence::Value { index, value } => {
                assert(call_ensures(pa.conversion, (&value,), qa.values.last()));
                assert(call_ensures(pa.conversion, (&value,), qb.values.last()));
                assert(qa.values.last() == qb.values.last());
                assert forall|j: int| 0 <= j < n0 implies cloned::<V>(
                    #[trigger] qa.values[j],
                    qb.values[j],
                ) by {
                    assert(qa.values[j] == pa.values[j]);
                    assert(qb.values[j] == pb.values[j]);
                }
                assert forall|j: int| n0 <= j < qa.values.len() implies #[trigger] qa.values[j]
                    == qb.values[j] by {
                    if j < pa.values.len() {
                        assert(qa.values[j] == pa.values[j]);
                        assert(qb.values[j] == pb.values[j]);
                    }
                }
            },
            Occurrence::Null { index, level } => {},
        }
    }
}

} // verus!
