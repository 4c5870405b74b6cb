//! The leaf appender: it converts each source value into a column value and
//! buffers it with its definition and repetition level until the column is
//! flushed.
use vstd::prelude::*;
use std::marker::PhantomData;
use std::sync::Arc;
use crate::interface::{
    column_number, reports_column, ColumnAppender, ColumnAppenderBase, ColumnFlush,
};
use crate::level_index::{
    aligned, lemma_repetition_level_is_shallowest, repetition_level, unset, LevelIndexList,
    LevelIndexState,
};
use crate::myfrom::MyFrom;
use crate::real_memory_size::{level_bytes, RealMemorySize};
use crate::writer::{
    failure_text, flush_result, succeeded, Batch, ColumnOutcome, DynamicSerializedWriter,
};

verus! {

/// The number of the definition levels `dls` that stand for a value: those
/// at the maximum level `max_dl`.
pub open spec fn defined(dls: Seq<i16>, max_dl: i16) -> nat
    decreases dls.len(),
{
    if dls.len() == 0 {
        0
    } else {
        defined(dls.drop_last(), max_dl) + if dls.last() == max_dl {
            1nat
        } else {
            0nat
        }
    }
}

/// One more definition level is one more value where it is the maximum.
pub proof fn lemma_defined_push(dls: Seq<i16>, level: i16, max_dl: i16)
    ensures
        defined(dls.push(level), max_dl) == defined(dls, max_dl) + if level == max_dl {
            1nat
        } else {
            0nat
        },
{
    assert(dls.push(level).drop_last() =~= dls);
}

/// A leaf column as a mathematical value: its two maximum levels, its three
/// buffers, the position of its latest occurrence and its conversion.
#[verifier::reject_recursive_types(V)]
pub struct ColumnState<V, F> {
    pub max_dl: i16,
    pub max_rl: i16,
    pub values: Seq<V>,
    pub dls: Seq<i16>,
    pub rls: Seq<i16>,
    pub position: Seq<Option<usize>>,
    pub conversion: F,
}

impl<V, F> ColumnState<V, F> {
    /// The column is as `new` makes it: nothing buffered, no position yet.
    pub open spec fn is_fresh(self, max_dl: i16, max_rl: i16) -> bool {
        &&& self.max_dl == max_dl
        &&& self.max_rl == max_rl
        &&& self.values == Seq::<V>::empty()
        &&& self.dls == Seq::<i16>::empty()
        &&& self.rls == Seq::<i16>::empty()
        &&& self.position == unset(max_rl as int)
    }

    /// The number of occurrences, values and nulls together, that the
    /// column has buffered.
    pub open spec fn entries(self) -> nat {
        if self.max_dl > 0 {
            self.dls.len()
        } else {
            self.values.len()
        }
    }

    /// The buffers belong together: a level array exists only where its
    /// maximum level is positive, and then holds one level in range for
    /// each occurrence; the values are as many as the occurrences that are
    /// defined at the maximum level.
    pub open spec fn wf(self) -> bool {
        &&& 0 <= self.max_dl
        &&& 0 <= self.max_rl
        &&& self.position.len() == self.max_rl + 1
        &&& self.values.len() <= self.entries()
        &&& self.max_dl == 0 ==> self.dls.len() == 0
        &&& self.max_dl > 0 ==> defined(self.dls, self.max_dl) == self.values.len()
        &&& self.max_rl == 0 ==> self.rls.len() == 0
        &&& self.max_rl > 0 ==> self.rls.len() == self.entries()
        &&& forall|k: int| 0 <= k < self.dls.len() ==> 0 <= #[trigger] self.dls[k] <= self.max_dl
        &&& forall|k: int| 0 <= k < self.rls.len() ==> 0 <= #[trigger] self.rls[k] <= self.max_rl
    }

    /// The column after an occurrence at position `index` with definition
    /// level `dl`: each level array that the column has gets its entry, and
    /// a column with repetition levels remembers the position.
    pub open spec fn with_levels(self, index: Seq<usize>, dl: i16) -> Self {
        ColumnState {
            dls: if self.max_dl > 0 {
                self.dls.push(dl)
            } else {
                self.dls
            },
            rls: if self.max_rl > 0 {
                self.rls.push(repetition_level(self.position, index) as i16)
            } else {
                self.rls
            },
            position: if self.max_rl > 0 {
                aligned(index, self.position.len())
            } else {
                self.position
            },
            ..self
        }
    }

    /// The column after the value `v` has been appended at position
    /// `index`: a present value is fully defined.
    pub open spec fn with_value(self, index: Seq<usize>, v: V) -> Self {
        ColumnState { values: self.values.push(v), ..self.with_levels(index, self.max_dl) }
    }

    /// The column after a null of definition level `level` has been
    /// written at position `index`: no value is buffered.
    pub open spec fn with_null(self, index: Seq<usize>, level: i16) -> Self {
        ColumnState {
            dls: self.dls.push(level),
            rls: if self.max_rl > 0 {
                self.rls.push(repetition_level(self.position, index) as i16)
            } else {
                self.rls
            },
            position: if self.max_rl > 0 {
                aligned(index, self.position.len())
            } else {
                self.position
            },
            ..self
        }
    }

    /// The column as it was made: nothing buffered, no position yet.
    pub open spec fn blank(self) -> Self {
        ColumnState {
            values: Seq::empty(),
            dls: Seq::empty(),
            rls: Seq::empty(),
            position: unset(self.max_rl as int),
            ..self
        }
    }

    /// The column with its three buffers empty. The position stays: the
    /// next occurrence is compared with the last one before the flush.
    pub open spec fn cleared(self) -> Self {
        ColumnState { values: Seq::empty(), dls: Seq::empty(), rls: Seq::empty(), ..self }
    }

    /// The definition levels as the writer gets them: none for a column
    /// that cannot be absent.
    pub open spec fn definition_levels(self) -> Option<Seq<i16>> {
        if self.max_dl > 0 {
            Some(self.dls)
        } else {
            None
        }
    }

    /// The repetition levels as the writer gets them: none for a column
    /// that cannot repeat.
    pub open spec fn repetition_levels(self) -> Option<Seq<i16>> {
        if self.max_rl > 0 {
            Some(self.rls)
        } else {
            None
        }
    }

    /// The batch that a flush hands to the writer: the buffered values, and
    /// each level array that the column has.
    pub open spec fn batch(self) -> Batch<V> {
        Batch {
            values: self.values,
            definition_levels: self.definition_levels(),
            repetition_levels: self.repetition_levels(),
        }
    }

    /// The estimate of the bytes that a value of footprint `size` takes
    /// with its level entries.
    pub open spec fn value_bytes(self, size: usize) -> usize {
        size.saturating_add(level_bytes(self.max_dl)).saturating_add(level_bytes(self.max_rl))
    }

    /// The estimate of the bytes that a null takes: its definition level,
    /// and its repetition level where the column has them.
    pub open spec fn null_bytes(self) -> usize {
        (2 + level_bytes(self.max_rl)) as usize
    }
}

/// `b` is what cloning the column `a` gives: the same levels, level
/// buffers, position and conversion, and a clone of each buffered value.
pub open spec fn clone_of<V: Clone, F>(a: ColumnState<V, F>, b: ColumnState<V, F>) -> bool {
    &&& b.max_dl == a.max_dl
    &&& b.max_rl == a.max_rl
    &&& b.dls == a.dls
    &&& b.rls == a.rls
    &&& b.position == a.position
    &&& b.conversion == a.conversion
    &&& b.values.len() == a.values.len()
    &&& forall|i: int| 0 <= i < a.values.len() ==> cloned::<V>(#[trigger] a.values[i], b.values[i])
}

/// The conversion can be called on every source value.
pub open spec fn total<S, V, F: Fn(&S) -> V>(f: F) -> bool {
    forall|x: &S| #[trigger] call_requires(f, (x,))
}

/// The conversion gives one result for each source value.
pub open spec fn deterministic<S, V, F: Fn(&S) -> V>(f: F) -> bool {
    forall|x: &S, y1: V, y2: V|
        #![trigger call_ensures(f, (x,), y1), call_ensures(f, (x,), y2)]
        call_ensures(f, (x,), y1) && call_ensures(f, (x,), y2) ==> y1 == y2
}

/// The conversion is pure: it takes every source value, and gives one
/// result for each.
pub open spec fn pure<S, V, F: Fn(&S) -> V>(f: F) -> bool {
    total::<S, V, F>(f) && deterministic::<S, V, F>(f)
}

/// Buffers the values of one physical column. `TPg` is the type of the source
/// values, `TPq` the type of the column's values, and `FConversion` the
/// function that makes one from the other.
#[verifier::reject_recursive_types(TPg)]
#[verifier::reject_recursive_types(TPq)]
pub struct GenericColumnAppender<TPg, TPq, FConversion> where FConversion: Fn(&TPg) -> TPq {
    max_dl: i16,
    max_rl: i16,
    column: Vec<TPq>,
    dls: Vec<i16>,
    rls: Vec<i16>,
    dummy: PhantomData<TPg>,
    repetition_index: LevelIndexState,
    conversion: Arc<FConversion>,
}

impl<TPg, TPq, FConversion> GenericColumnAppender<TPg, TPq, FConversion> where
    TPq: RealMemorySize,
    FConversion: Fn(&TPg) -> TPq,
 {
    /// A column with empty buffers. `max_dl` counts the optional levels on
    /// the path to the column, `max_rl` the repeated ones. The column
    /// converts with `conversion`, which is pure: a clone of the column
    /// converts as the column does.
    ///
    /// Verus knows the `Fn` bound of a type parameter, not that of a
    /// closure's own type: verified code that appends to the column takes
    /// the conversion's type as a parameter, or makes the column with
    /// `new_autoconv_generic_appender`.
    pub fn new(max_dl: i16, max_rl: i16, conversion: FConversion) -> (r: Self)
        requires
            max_dl >= 0,
            max_rl >= 0,
            pure::<TPg, TPq, FConversion>(conversion),
        ensures
            Self::inv(r.state()),
            r.state().is_fresh(max_dl, max_rl),
            r.state().conversion == conversion,
    {
        let r = GenericColumnAppender {
            max_dl,
            max_rl,
            column: Vec::new(),
            dummy: PhantomData,
            dls: Vec::new(),
            rls: Vec::new(),
            repetition_index: LevelIndexState::new(max_rl),
            conversion: Arc::new(conversion),
        };
        assert(r.state().conversion == conversion);
        r
    }

    /// Converts one source value into a column value.
    pub fn convert(&self, value: &TPg) -> (r: TPq)
        requires
            call_requires(self.state().conversion, (value,)),
        ensures
            call_ensures(self.state().conversion, (value,), r),
    {
        (*self.conversion)(value)
    }

    /// The buffered values.
    pub fn values(&self) -> (r: &Vec<TPq>)
        ensures
            r@ == self.state().values,
    {
        &self.column
    }

    /// The buffered definition levels, as the writer gets them.
    pub fn definition_levels(&self) -> (r: Option<&Vec<i16>>)
        ensures
            r is Some <==> Self::max_dl_of(self.state()) > 0,
            r matches Some(v) ==> self.state().definition_levels() == Some(v@),
            r is None ==> self.state().definition_levels() is None,
    {
        if self.max_dl > 0 {
            Some(&self.dls)
        } else {
            None
        }
    }

    /// The buffered repetition levels, as the writer gets them: a column
    /// that cannot repeat has none.
    pub fn repetition_levels(&self) -> (r: Option<&Vec<i16>>)
        ensures
            r is Some <==> Self::max_rl_of(self.state()) > 0,
            r matches Some(v) ==> self.state().repetition_levels() == Some(v@),
            r is None ==> self.state().repetition_levels() is None,
    {
        if self.max_rl > 0 {
            Some(&self.rls)
        } else {
            None
        }
    }

    /// Ends a flush of this column as number `column_i`: where the writer
    /// wrote the batch and closed the column the buffers are emptied, else
    /// they stay as they are and the error tells what went wrong.
    pub fn settle(&mut self, column_i: usize, outcome: ColumnOutcome) -> (r: Result<(), String>)
        ensures
            r is Ok <==> succeeded(outcome),
            r is Ok ==> final(self).state() == old(self).state().cleared(),
            r is Err ==> final(self).state() == old(self).state(),
            r is Err ==> r->Err_0@ == failure_text(column_i, outcome),
    {
        let r = flush_result(column_i, outcome);
        if r.is_ok() {
            self.column.clear();
            self.dls.clear();
            self.rls.clear();
            assert(self.state() =~= old(self).state().cleared());
        }
        r
    }
}

impl<TPg, TPq, FConversion> GenericColumnAppender<TPg, TPq, FConversion> where
    TPq: RealMemorySize + MyFrom<TPg>,
    FConversion: Fn(&TPg) -> TPq,
 {
    /// A column whose conversion is the one that `MyFrom` gives.
    pub fn new_mfrom(max_dl: i16, max_rl: i16) -> (r: GenericColumnAppender<
        TPg,
        TPq,
        impl Fn(&TPg) -> TPq,
    >)
        requires
            max_dl >= 0,
            max_rl >= 0,
        ensures
            r.state().is_fresh(max_dl, max_rl),
            r.state().wf(),
            pure::<TPg, TPq, _>(r.state().conversion),
            forall|x: &TPg, y: TPq|
                call_ensures(r.state().conversion, (x,), y) ==> y == TPq::spec_my_from(*x),
    {
        let conversion = |x: &TPg| -> (y: TPq)
            ensures
                y == TPq::spec_my_from(*x),
            { TPq::my_from(x) };
        let r = GenericColumnAppender::new(max_dl, max_rl, conversion);
        assert(r.state().conversion == conversion);
        r
    }
}

/// A column whose conversion is the one that `MyFrom` gives: `new_mfrom`
/// without a conversion type to name.
pub fn new_autoconv_generic_appender<TPg, TPq: RealMemorySize + MyFrom<TPg>>(
    max_dl: i16,
    max_rl: i16,
) -> (r: GenericColumnAppender<TPg, TPq, impl Fn(&TPg) -> TPq>)
    requires
        max_dl >= 0,
        max_rl >= 0,
    ensures
        r.state().is_fresh(max_dl, max_rl),
        r.state().wf(),
        pure::<TPg, TPq, _>(r.state().conversion),
        forall|x: &TPg, y: TPq|
            call_ensures(r.state().conversion, (x,), y) ==> y == TPq::spec_my_from(*x),
{
    let conversion = |x: &TPg| -> (y: TPq)
        ensures
            y == TPq::spec_my_from(*x),
        { TPq::my_from(x) };
    let r = GenericColumnAppender::new(max_dl, max_rl, conversion);
    assert(r.state().conversion == conversion);
    r
}

impl<TPg, TPq, FConversion> Clone for GenericColumnAppender<TPg, TPq, FConversion> where
    TPq: RealMemorySize + Clone,
    FConversion: Fn(&TPg) -> TPq,
 {
    /// A second column with buffers and position of its own, which hold
    /// what this column's hold.
    fn clone(&self) -> (r: Self)
        ensures
            clone_of(self.state(), r.state()),
    {
        let r = GenericColumnAppender {
            max_dl: self.max_dl,
            max_rl: self.max_rl,
            column: self.column.clone(),
            dummy: PhantomData,
            dls: self.dls.clone(),
            rls: self.rls.clone(),
            repetition_index: self.repetition_index.clone(),
            conversion: self.conversion.clone(),
        };
        assert(r.state().dls =~= self.state().dls);
        assert(r.state().rls =~= self.state().rls);
        r
    }
}

impl<TPg, TPq, FConversion> ColumnAppenderBase for GenericColumnAppender<
    TPg,
    TPq,
    FConversion,
> where TPq: RealMemorySize, FConversion: Fn(&TPg) -> TPq {
    type State = ColumnState<TPq, FConversion>;

    closed spec fn state(&self) -> ColumnState<TPq, FConversion> {
        ColumnState {
            max_dl: self.max_dl,
            max_rl: self.max_rl,
            values: self.column@,
            dls: self.dls@,
            rls: self.rls@,
            position: self.repetition_index@,
            conversion: *self.conversion,
        }
    }

    open spec fn inv(s: ColumnState<TPq, FConversion>) -> bool {
        s.wf() && pure::<TPg, TPq, FConversion>(s.conversion)
    }

    open spec fn max_dl_of(s: ColumnState<TPq, FConversion>) -> i16 {
        s.max_dl
    }

    open spec fn max_rl_of(s: ColumnState<TPq, FConversion>) -> i16 {
        s.max_rl
    }

    open spec fn nulled(s: ColumnState<TPq, FConversion>, index: Seq<usize>, level: i16) -> ColumnState<
        TPq,
        FConversion,
    > {
        s.with_null(index, level)
    }

    open spec fn null_bytes(s: ColumnState<TPq, FConversion>) -> usize {
        s.null_bytes()
    }

    open spec fn blank(s: ColumnState<TPq, FConversion>) -> ColumnState<TPq, FConversion> {
        s.blank()
    }

    open spec fn flushed(s: ColumnState<TPq, FConversion>) -> ColumnState<TPq, FConversion> {
        s.cleared()
    }

    open spec fn columns_of(s: ColumnState<TPq, FConversion>) -> nat {
        1
    }

    open spec fn partly_flushed(
        pre: ColumnState<TPq, FConversion>,
        post: ColumnState<TPq, FConversion>,
        failed: nat,
    ) -> bool {
        post == pre && failed == 0
    }

    fn write_null(&mut self, repetition_index: &LevelIndexList, level: i16) -> (r: Result<
        usize,
        String,
    >) {
        proof {
            lemma_repetition_level_is_shallowest(self.repetition_index@, repetition_index@);
            lemma_defined_push(self.dls@, level, self.max_dl);
        }
        self.dls.push(level);
        if self.max_rl > 0 {
            let rl = self.repetition_index.copy_and_diff(repetition_index);
            self.rls.push(rl);
            assert(self.state() =~= old(self).state().with_null(repetition_index@, level));
            Ok(4)
        } else {
            assert(self.state() =~= old(self).state().with_null(repetition_index@, level));
            Ok(2)
        }
    }

    fn column_count(&self) -> (r: usize) {
        1
    }

    fn max_dl(&self) -> (r: i16) {
        self.max_dl
    }

    fn max_rl(&self) -> (r: i16) {
        self.max_rl
    }
}

impl<TPg, TPq, FConversion> ColumnAppender<TPg> for GenericColumnAppender<
    TPg,
    TPq,
    FConversion,
> where TPq: RealMemorySize, FConversion: Fn(&TPg) -> TPq {
    open spec fn admits(s: ColumnState<TPq, FConversion>, value: TPg) -> bool {
        true
    }

    open spec fn copied(
        pre: ColumnState<TPq, FConversion>,
        index: Seq<usize>,
        value: TPg,
        post: ColumnState<TPq, FConversion>,
        bytes: usize,
    ) -> bool {
        &&& post.values.len() == pre.values.len() + 1
        &&& call_ensures(pre.conversion, (&value,), post.values.last())
        &&& post == pre.with_value(index, post.values.last())
        &&& bytes == pre.value_bytes(post.values.last().spec_real_memory_size())
    }

    fn copy_value(&mut self, repetition_index: &LevelIndexList, value: &TPg) -> (r: Result<
        usize,
        String,
    >) {
        proof {
            lemma_repetition_level_is_shallowest(self.repetition_index@, repetition_index@);
            lemma_defined_push(self.dls@, self.max_dl, self.max_dl);
        }
        assert(call_requires(self.state().conversion, (value,)));
        let pq_value = self.convert(value);
        let byte_size = pq_value.real_memory_size();
        let ghost v = pq_value;
        self.column.push(pq_value);
        let mut bytes: usize = byte_size;
        if self.max_dl > 0 {
            let dl = self.max_dl;
            self.dls.push(dl);
            bytes = bytes.saturating_add(2);
        }
        if self.max_rl > 0 {
            let rl = self.repetition_index.copy_and_diff(repetition_index);
            self.rls.push(rl);
            bytes = bytes.saturating_add(2);
        }
        assert(self.state() =~= old(self).state().with_value(repetition_index@, v));
        Ok(bytes)
    }
}

impl<TPg, TPq, FConversion, W> ColumnFlush<W> for GenericColumnAppender<
    TPg,
    TPq,
    FConversion,
> where TPq: RealMemorySize, FConversion: Fn(&TPg) -> TPq, W: DynamicSerializedWriter<TPq> {
    /// The column's one batch: the writer's record grows by it.
    open spec fn handed_over(
        s: ColumnState<TPq, FConversion>,
        upto: nat,
        before: W,
        after: W,
    ) -> bool {
        if upto == 0 {
            after == before
        } else {
            after.handed().batches == before.handed().batches.push(s.batch())
        }
    }

    proof fn lemma_nothing_handed(s: ColumnState<TPq, FConversion>, w: W) {
    }

    /// Hands the buffered values to the writer, with the definition levels
    /// and the repetition levels where the column has them, and settles the
    /// flush by the writer's answer.
    fn write_columns(&mut self, column_i: usize, next_col: &mut W) -> (r: Result<(), String>)
        ensures
            final(next_col).handed().batches == old(next_col).handed().batches.push(
                old(self).state().batch(),
            ),
            r is Err ==> exists|outcome: ColumnOutcome|
                !succeeded(outcome) && r->Err_0@ == #[trigger] failure_text(column_i, outcome),
    {
        let outcome = next_col.next_column(
            &self.column,
            self.definition_levels(),
            self.repetition_levels(),
        );
        let ghost answer = outcome;
        let r = self.settle(column_i, outcome);
        proof {
            if r is Err {
                assert(r->Err_0@ == failure_text(column_i, answer));
                assert(column_number(column_i, 0) == column_i);
                assert(reports_column(r->Err_0@, column_number(column_i, 0)));
                assert(Self::partly_flushed(old(self).state(), self.state(), 0));
            }
        }
        r
    }
}

} // verus!
