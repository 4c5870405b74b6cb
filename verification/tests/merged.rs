use appenders::generic::GenericColumnAppender;
use appenders::helpers::{PreprocessAppender, UnwrapOptionAppender};
use appenders::interface::{ColumnAppender, ColumnAppenderBase, ColumnFlush};
use appenders::level_index::LevelIndexList;
use appenders::merged::{DynamicMergedAppender, StaticMergedAppender};
use appenders::writer::{ColumnOutcome, DynamicSerializedWriter, Handed};

struct Sink {
    seen: Vec<String>,
    answers: Vec<ColumnOutcome>,
}

impl Sink {
    fn answer(&mut self, n: usize) -> ColumnOutcome {
        if self.answers.is_empty() {
            ColumnOutcome::Written { write: Ok(n), close: Ok(()) }
        } else {
            self.answers.remove(0)
        }
    }
}

impl DynamicSerializedWriter<i32> for Sink {
    fn handed(&self) -> Handed<i32> {
        unreachable!()
    }

    fn next_column(
        &mut self,
        values: &Vec<i32>,
        definition_levels: Option<&Vec<i16>>,
        repetition_levels: Option<&Vec<i16>>,
    ) -> ColumnOutcome {
        self.seen.push(format!("i32 {:?} {:?} {:?}", values, definition_levels, repetition_levels));
        self.answer(values.len())
    }
}

impl DynamicSerializedWriter<i64> for Sink {
    fn handed(&self) -> Handed<i64> {
        unreachable!()
    }

    fn next_column(
        &mut self,
        values: &Vec<i64>,
        definition_levels: Option<&Vec<i16>>,
        repetition_levels: Option<&Vec<i16>>,
    ) -> ColumnOutcome {
        self.seen.push(format!("i64 {:?} {:?} {:?}", values, definition_levels, repetition_levels));
        self.answer(values.len())
    }
}

type Pick3 = fn(&(i32, i32, i32)) -> i32;
type Pick2 = fn(&(i32, i32)) -> i32;

fn first3(r: &(i32, i32, i32)) -> i32 {
    r.0
}

fn second3(r: &(i32, i32, i32)) -> i32 {
    r.1
}

fn third3(r: &(i32, i32, i32)) -> i32 {
    r.2
}

fn first2(r: &(i32, i32)) -> i32 {
    r.0
}

fn second2(r: &(i32, i32)) -> i32 {
    r.1
}

#[test]
fn every_child_gets_one_entry_for_each_call() {
    let columns = vec![
        GenericColumnAppender::new(2, 1, first3 as Pick3),
        GenericColumnAppender::new(2, 1, second3 as Pick3),
        GenericColumnAppender::new(2, 1, third3 as Pick3),
    ];
    let mut record = DynamicMergedAppender::new(columns, 2, 1);
    let mut at = LevelIndexList::new_i(0).new_child();
    assert_eq!(record.copy_value(&at, &(1, 10, 100)), Ok(24));
    at.inc();
    assert_eq!(record.write_null(&at, 1), Ok(12));
    at.inc();
    assert_eq!(record.copy_value(&at, &(3, 30, 300)), Ok(24));
    assert_eq!(record.write_null(&LevelIndexList::new_i(1), 0), Ok(12));
    assert_eq!(record.len(), 3);
    let expected = [vec![1, 3], vec![10, 30], vec![100, 300]];
    for i in 0..3 {
        let child = record.column(i);
        assert_eq!(child.values(), &expected[i]);
        assert_eq!(child.definition_levels(), Some(&vec![2i16, 1, 2, 0]));
        assert_eq!(child.repetition_levels(), Some(&vec![0i16, 1, 1, 0]));
    }
}

#[test]
fn record_without_children_takes_calls() {
    let columns: Vec<GenericColumnAppender<i32, i32, fn(&i32) -> i32>> = Vec::new();
    let mut record = DynamicMergedAppender::new(columns, 1, 0);
    assert_eq!(record.copy_value(&LevelIndexList::new_i(0), &1), Ok(0));
    assert_eq!(record.write_null(&LevelIndexList::new_i(1), 0), Ok(0));
    assert_eq!(record.len(), 0);
    assert_eq!(record.max_dl(), 1);
    assert_eq!(record.max_rl(), 0);
}

#[test]
fn children_may_be_deeper_than_their_record() {
    let columns = vec![
        GenericColumnAppender::new(1, 0, first2 as Pick2),
        GenericColumnAppender::new(3, 2, second2 as Pick2),
    ];
    let mut record = DynamicMergedAppender::new(columns, 1, 0);
    record.copy_value(&LevelIndexList::new_i(0), &(1, 2)).unwrap();
    record.write_null(&LevelIndexList::new_i(1), 0).unwrap();
    assert_eq!(record.column(0).definition_levels(), Some(&vec![1i16, 0]));
    assert_eq!(record.column(0).repetition_levels(), None);
    assert_eq!(record.column(1).definition_levels(), Some(&vec![3i16, 0]));
    assert_eq!(record.column(1).repetition_levels(), Some(&vec![0i16, 0]));
}

#[test]
fn dynamic_record_flushes_children_in_order() {
    let columns = vec![
        GenericColumnAppender::new(0, 0, first2 as Pick2),
        GenericColumnAppender::new(1, 0, second2 as Pick2),
    ];
    let mut record = DynamicMergedAppender::new(columns, 0, 0);
    record.copy_value(&LevelIndexList::new_i(0), &(1, 2)).unwrap();
    let mut sink = Sink { seen: Vec::new(), answers: Vec::new() };
    assert_eq!(record.write_columns(0, &mut sink), Ok(()));
    assert_eq!(sink.seen, vec!["i32 [1] None None", "i32 [2] Some([1]) None"]);
    assert_eq!(record.column(0).values().len(), 0);
    assert_eq!(record.column(1).values().len(), 0);
}

#[test]
fn dynamic_record_stops_at_the_first_failing_child() {
    let columns = vec![
        GenericColumnAppender::new(0, 0, first3 as Pick3),
        GenericColumnAppender::new(0, 0, second3 as Pick3),
        GenericColumnAppender::new(0, 0, third3 as Pick3),
    ];
    let mut record = DynamicMergedAppender::new(columns, 0, 0);
    record.copy_value(&LevelIndexList::new_i(0), &(1, 2, 3)).unwrap();
    let answers = vec![
        ColumnOutcome::Written { write: Ok(1), close: Ok(()) },
        ColumnOutcome::Written { write: Ok(1), close: Err("disk full".to_string()) },
    ];
    let mut sink = Sink { seen: Vec::new(), answers };
    assert_eq!(
        record.write_columns(5, &mut sink),
        Err("Couldn't write data of column[6]: disk full".to_string())
    );
    assert_eq!(sink.seen.len(), 2);
    assert_eq!(record.column(0).values(), &Vec::<i32>::new());
    assert_eq!(record.column(1).values(), &vec![2]);
    assert_eq!(record.column(2).values(), &vec![3]);
}

#[test]
fn dynamic_record_reports_too_few_columns() {
    let columns = vec![
        GenericColumnAppender::new(0, 0, first2 as Pick2),
        GenericColumnAppender::new(0, 0, second2 as Pick2),
    ];
    let mut record = DynamicMergedAppender::new(columns, 0, 0);
    record.copy_value(&LevelIndexList::new_i(0), &(1, 2)).unwrap();
    let answers =
        vec![ColumnOutcome::Written { write: Ok(1), close: Ok(()) }, ColumnOutcome::Missing];
    let mut sink = Sink { seen: Vec::new(), answers };
    assert_eq!(record.write_columns(0, &mut sink), Err("Not enough columns: no column[1]".to_string()));
    assert_eq!(record.column(1).values(), &vec![2]);
}

#[test]
fn static_record_advances_both_children() {
    let id = GenericColumnAppender::new(0, 0, |r: &(i32, Option<i32>)| r.0);
    let amount = GenericColumnAppender::new(1, 0, |x: &i32| *x as i64);
    let amount = PreprocessAppender::new(
        UnwrapOptionAppender::new(amount),
        |r: &(i32, Option<i32>)| r.1,
    );
    let mut record = StaticMergedAppender::new(id, amount, 0, 0);
    assert_eq!(record.copy_value(&LevelIndexList::new_i(0), &(1, Some(10))), Ok(14));
    assert_eq!(record.copy_value(&LevelIndexList::new_i(1), &(2, None)), Ok(6));
    assert_eq!(record.first().values(), &vec![1, 2]);
    assert_eq!(record.first().definition_levels(), None);
    assert_eq!(record.second().inner().inner().values(), &vec![10i64]);
    assert_eq!(record.second().inner().inner().definition_levels(), Some(&vec![1i16, 0]));
    assert_eq!(record.max_dl(), 0);
    assert_eq!(record.max_rl(), 0);
}

#[test]
fn static_record_writes_nulls_to_both_children() {
    let a = GenericColumnAppender::new(1, 1, |x: &i32| *x);
    let b = GenericColumnAppender::new(2, 0, |x: &i32| *x as i64);
    let mut record = StaticMergedAppender::new(a, b, 1, 0);
    assert_eq!(record.write_null(&LevelIndexList::new_i(0), 0), Ok(6));
    assert_eq!(record.first().definition_levels(), Some(&vec![0i16]));
    assert_eq!(record.first().repetition_levels(), Some(&vec![0i16]));
    assert_eq!(record.second().definition_levels(), Some(&vec![0i16]));
    assert_eq!(record.second().repetition_levels(), None);
}

#[test]
fn static_record_flushes_first_then_second() {
    let a = GenericColumnAppender::new(0, 0, |x: &i32| *x);
    let b = GenericColumnAppender::new(0, 0, |x: &i32| *x as i64 * 2);
    let mut record = StaticMergedAppender::new(a, b, 0, 0);
    record.copy_value(&LevelIndexList::new_i(0), &4).unwrap();
    let mut sink = Sink { seen: Vec::new(), answers: Vec::new() };
    assert_eq!(record.write_columns(0, &mut sink), Ok(()));
    assert_eq!(sink.seen, vec!["i32 [4] None None", "i64 [8] None None"]);
    record.copy_value(&LevelIndexList::new_i(1), &5).unwrap();
    let answers = vec![
        ColumnOutcome::Written { write: Ok(1), close: Ok(()) },
        ColumnOutcome::Refused("closed".to_string()),
    ];
    let mut failing = Sink { seen: Vec::new(), answers };
    assert_eq!(
        record.write_columns(7, &mut failing),
        Err("Could not create column[8]: closed".to_string())
    );
    assert_eq!(record.first().values().len(), 0);
    assert_eq!(record.second().values(), &vec![10i64]);
    let answers = vec![ColumnOutcome::Written { write: Err("bad".to_string()), close: Ok(()) }];
    let mut failing = Sink { seen: Vec::new(), answers };
    record.copy_value(&LevelIndexList::new_i(2), &6).unwrap();
    assert_eq!(
        record.write_columns(7, &mut failing),
        Err("Couldn't write data of column[7]: bad".to_string())
    );
    assert_eq!(failing.seen.len(), 1);
    assert_eq!(record.first().values(), &vec![6]);
    assert_eq!(record.second().values(), &vec![10i64, 12]);
}

#[test]
fn children_are_numbered_by_the_leaf_columns_before_them() {
    let pair = |a: Pick2, b: Pick2| {
        StaticMergedAppender::new(
            GenericColumnAppender::new(0, 0, a),
            GenericColumnAppender::new(0, 0, b),
            0,
            0,
        )
    };
    let columns = vec![pair(first2, second2), pair(second2, first2), pair(first2, first2)];
    let mut record = DynamicMergedAppender::new(columns, 0, 0);
    assert_eq!(record.column_count(), 6);
    assert_eq!(record.column(1).column_count(), 2);
    record.copy_value(&LevelIndexList::new_i(0), &(1, 2)).unwrap();
    let written = || ColumnOutcome::Written { write: Ok(1), close: Ok(()) };
    let answers = vec![
        written(),
        written(),
        written(),
        ColumnOutcome::Written { write: Err("bad".to_string()), close: Ok(()) },
    ];
    let mut sink = Sink { seen: Vec::new(), answers };
    assert_eq!(
        record.write_columns(10, &mut sink),
        Err("Couldn't write data of column[13]: bad".to_string())
    );
    assert_eq!(sink.seen.len(), 4);
    assert_eq!(record.column(0).second().values().len(), 0);
    assert_eq!(record.column(1).first().values().len(), 0);
    assert_eq!(record.column(1).second().values(), &vec![1]);
    assert_eq!(record.column(2).first().values(), &vec![1]);
    let answers = vec![written(), written(), ColumnOutcome::Missing];
    let mut sink = Sink { seen: Vec::new(), answers };
    assert_eq!(
        record.write_columns(10, &mut sink),
        Err("Not enough columns: no column[12]".to_string())
    );
    assert_eq!(record.column(1).first().values(), &Vec::<i32>::new());
    assert_eq!(record.column(1).second().values(), &vec![1]);
}

#[test]
fn pair_numbers_its_second_child_after_the_first() {
    let inner = StaticMergedAppender::new(
        GenericColumnAppender::new(0, 0, |x: &i32| *x),
        GenericColumnAppender::new(0, 0, |x: &i32| *x as i64),
        0,
        0,
    );
    let mut record =
        StaticMergedAppender::new(inner, GenericColumnAppender::new(0, 0, |x: &i32| *x), 0, 0);
    assert_eq!(record.column_count(), 3);
    record.copy_value(&LevelIndexList::new_i(0), &4).unwrap();
    let answers = vec![
        ColumnOutcome::Written { write: Ok(1), close: Ok(()) },
        ColumnOutcome::Written { write: Ok(1), close: Ok(()) },
        ColumnOutcome::Refused("closed".to_string()),
    ];
    let mut sink = Sink { seen: Vec::new(), answers };
    assert_eq!(
        record.write_columns(0, &mut sink),
        Err("Could not create column[2]: closed".to_string())
    );
    assert_eq!(record.second().values(), &vec![4]);
    assert_eq!(record.first().second().values().len(), 0);
}

#[test]
fn record_clone_has_children_of_its_own() {
    let columns = vec![
        GenericColumnAppender::new(0, 0, first2 as Pick2),
        GenericColumnAppender::new(0, 0, second2 as Pick2),
    ];
    let mut record = DynamicMergedAppender::new(columns, 0, 0);
    record.copy_value(&LevelIndexList::new_i(0), &(1, 2)).unwrap();
    let mut copy = record.clone();
    copy.copy_value(&LevelIndexList::new_i(1), &(3, 4)).unwrap();
    assert_eq!(record.column(1).values(), &vec![2]);
    assert_eq!(copy.column(1).values(), &vec![2, 4]);
    let pair = StaticMergedAppender::new(
        GenericColumnAppender::new(0, 0, |x: &i32| *x),
        GenericColumnAppender::new(0, 0, |x: &i32| *x as i64),
        0,
        0,
    );
    let mut other = pair.clone();
    other.copy_value(&LevelIndexList::new_i(0), &1).unwrap();
    assert_eq!(pair.first().values().len(), 0);
    assert_eq!(other.second().values(), &vec![1i64]);
}
