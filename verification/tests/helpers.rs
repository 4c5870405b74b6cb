use appenders::generic::GenericColumnAppender;
use appenders::helpers::{PreprocessAppender, UnwrapOptionAppender};
use appenders::interface::{ColumnAppender, ColumnAppenderBase, ColumnFlush};
use appenders::level_index::LevelIndexList;
use appenders::writer::{ColumnOutcome, DynamicSerializedWriter, Handed};

struct Sink {
    seen: Vec<(Vec<i64>, Option<Vec<i16>>, Option<Vec<i16>>)>,
}

impl DynamicSerializedWriter<i64> for Sink {
    fn handed(&self) -> Handed<i64> {
        unreachable!()
    }

    fn next_column(
        &mut self,
        values: &Vec<i64>,
        definition_levels: Option<&Vec<i16>>,
        repetition_levels: Option<&Vec<i16>>,
    ) -> ColumnOutcome {
        self.seen.push((values.clone(), definition_levels.cloned(), repetition_levels.cloned()));
        ColumnOutcome::Written { write: Ok(values.len()), close: Ok(()) }
    }
}

#[test]
fn absent_value_is_a_null_one_level_below_the_maximum() {
    let leaf = GenericColumnAppender::new(3, 0, |x: &i32| *x as i64);
    let mut optional = UnwrapOptionAppender::new(leaf);
    assert_eq!(optional.copy_value(&LevelIndexList::new_i(0), &Some(5)), Ok(10));
    assert_eq!(optional.copy_value(&LevelIndexList::new_i(1), &None), Ok(2));
    assert_eq!(optional.write_null(&LevelIndexList::new_i(2), 0), Ok(2));
    assert_eq!(optional.inner().values(), &vec![5i64]);
    assert_eq!(optional.inner().definition_levels(), Some(&vec![3i16, 2, 0]));
    assert_eq!(optional.max_dl(), 3);
    assert_eq!(optional.max_rl(), 0);
}

#[test]
fn optional_of_optional_uses_the_same_null_level() {
    let leaf = GenericColumnAppender::new(2, 0, |x: &i32| *x as i64);
    let mut optional = UnwrapOptionAppender::new(leaf);
    assert_eq!(optional.copy_value_opt(&LevelIndexList::new_i(0), &Some(Some(1))), Ok(10));
    assert_eq!(optional.copy_value_opt(&LevelIndexList::new_i(1), &Some(None)), Ok(2));
    assert_eq!(optional.copy_value_opt(&LevelIndexList::new_i(2), &None), Ok(2));
    assert_eq!(optional.inner().definition_levels(), Some(&vec![2i16, 1, 1]));
}

#[test]
fn preprocess_hands_the_transformed_value_on() {
    let leaf = GenericColumnAppender::new(0, 0, |x: &i32| *x as i64);
    let mut lengths = PreprocessAppender::new(leaf, |s: &String| s.len() as i32);
    assert_eq!(lengths.copy_value(&LevelIndexList::new_i(0), &"four".to_string()), Ok(8));
    assert_eq!(lengths.copy_value(&LevelIndexList::new_i(1), &String::new()), Ok(8));
    assert_eq!(lengths.inner().values(), &vec![4i64, 0]);
    assert_eq!(lengths.max_dl(), 0);
    assert_eq!(lengths.max_rl(), 0);
}

#[test]
fn preprocess_passes_nulls_through() {
    let leaf = GenericColumnAppender::new(1, 1, |x: &i32| *x as i64);
    let mut doubled = PreprocessAppender::new(leaf, |x: &i32| *x * 2);
    let at = LevelIndexList::new_i(0).new_child();
    assert_eq!(doubled.write_null(&at, 0), Ok(4));
    assert_eq!(doubled.copy_value_opt(&at, &None), Ok(4));
    assert_eq!(doubled.copy_value_opt(&LevelIndexList::new_i(1), &Some(21)), Ok(12));
    assert_eq!(doubled.inner().values(), &vec![42i64]);
    assert_eq!(doubled.inner().definition_levels(), Some(&vec![0i16, 0, 1]));
    assert_eq!(doubled.inner().repetition_levels(), Some(&vec![0i16, 1, 0]));
}

#[test]
fn helpers_flush_their_child() {
    let leaf = GenericColumnAppender::new(1, 0, |x: &i32| *x as i64);
    let mut field = PreprocessAppender::new(UnwrapOptionAppender::new(leaf), |x: &i32| {
        if *x < 0 {
            None
        } else {
            Some(*x)
        }
    });
    field.copy_value(&LevelIndexList::new_i(0), &3).unwrap();
    field.copy_value(&LevelIndexList::new_i(1), &-3).unwrap();
    let mut sink = Sink { seen: Vec::new() };
    assert_eq!(field.write_columns(0, &mut sink), Ok(()));
    assert_eq!(sink.seen, vec![(vec![3i64], Some(vec![1i16, 0]), None)]);
    assert_eq!(field.inner().inner().values().len(), 0);
}

#[test]
fn helpers_have_the_columns_of_their_child() {
    let leaf = GenericColumnAppender::new(1, 0, |x: &i32| *x as i64);
    let field = PreprocessAppender::new(UnwrapOptionAppender::new(leaf), |x: &i32| Some(*x));
    assert_eq!(field.column_count(), 1);
    assert_eq!(field.inner().column_count(), 1);
}

#[test]
fn helper_clones_have_children_of_their_own() {
    let leaf = GenericColumnAppender::new(1, 0, |x: &i32| *x as i64);
    let mut field = PreprocessAppender::new(UnwrapOptionAppender::new(leaf), |x: &i32| Some(*x));
    field.copy_value(&LevelIndexList::new_i(0), &3).unwrap();
    let mut copy = field.clone();
    copy.copy_value(&LevelIndexList::new_i(1), &4).unwrap();
    assert_eq!(field.inner().inner().values(), &vec![3i64]);
    assert_eq!(copy.inner().inner().values(), &vec![3i64, 4]);
}
