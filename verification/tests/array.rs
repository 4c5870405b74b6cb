use appenders::array::ArrayColumnAppender;
use appenders::generic::GenericColumnAppender;
use appenders::helpers::UnwrapOptionAppender;
use appenders::interface::{ColumnAppender, ColumnAppenderBase, ColumnFlush};
use appenders::level_index::LevelIndexList;
use appenders::writer::{ColumnOutcome, DynamicSerializedWriter, Handed};

struct Sink {
    seen: Vec<(Vec<i32>, Option<Vec<i16>>, Option<Vec<i16>>)>,
}

impl DynamicSerializedWriter<i32> for Sink {
    fn handed(&self) -> Handed<i32> {
        unreachable!()
    }

    fn next_column(
        &mut self,
        values: &Vec<i32>,
        definition_levels: Option<&Vec<i16>>,
        repetition_levels: Option<&Vec<i16>>,
    ) -> ColumnOutcome {
        self.seen.push((values.clone(), definition_levels.cloned(), repetition_levels.cloned()));
        ColumnOutcome::Written { write: Ok(values.len()), close: Ok(()) }
    }
}

fn list(items: &[i32]) -> Vec<Option<i32>> {
    items.iter().map(|x| Some(*x)).collect()
}

#[test]
fn nested_lists_give_the_shallowest_diverging_depth() {
    let leaf = GenericColumnAppender::new(2, 2, |x: &i32| *x);
    let inner = ArrayColumnAppender::new(leaf, false, 1, 1);
    let mut outer = ArrayColumnAppender::new(inner, false, 0, 0);
    let first = vec![Some(list(&[1, 2])), Some(list(&[3]))];
    let second = vec![Some(list(&[4]))];
    assert_eq!(outer.copy_value(&LevelIndexList::new_i(0), &first), Ok(24));
    assert_eq!(outer.copy_value(&LevelIndexList::new_i(1), &second), Ok(8));
    let leaf = outer.inner().inner();
    assert_eq!(leaf.values(), &vec![1, 2, 3, 4]);
    assert_eq!(leaf.repetition_levels(), Some(&vec![0i16, 2, 1, 0]));
    assert_eq!(leaf.definition_levels(), Some(&vec![2i16, 2, 2, 2]));
}

#[test]
fn empty_list_is_one_null_at_the_level_of_a_present_list() {
    let leaf = GenericColumnAppender::new(3, 1, |x: &i32| *x);
    let mut array = ArrayColumnAppender::new(leaf, true, 1, 0);
    assert_eq!(array.copy_value(&LevelIndexList::new_i(0), &Vec::new()), Ok(4));
    assert_eq!(array.inner().values(), &Vec::<i32>::new());
    assert_eq!(array.inner().definition_levels(), Some(&vec![1i16]));
    assert_eq!(array.inner().repetition_levels(), Some(&vec![0i16]));
    assert_eq!(array.max_dl(), 1);
    assert_eq!(array.write_null(&LevelIndexList::new_i(1), 0), Ok(4));
    assert_eq!(array.inner().definition_levels(), Some(&vec![1i16, 0]));
}

#[test]
fn absent_null_and_empty_lists_have_levels_of_their_own() {
    let leaf = GenericColumnAppender::new(4, 1, |x: &i32| *x);
    let array = ArrayColumnAppender::new(leaf, true, 2, 0);
    let mut field = UnwrapOptionAppender::new(array);
    field.write_null(&LevelIndexList::new_i(0), 0).unwrap();
    field.copy_value(&LevelIndexList::new_i(1), &None).unwrap();
    field.copy_value(&LevelIndexList::new_i(2), &Some(Vec::new())).unwrap();
    field.copy_value(&LevelIndexList::new_i(3), &Some(vec![None])).unwrap();
    field.copy_value(&LevelIndexList::new_i(4), &Some(vec![Some(9)])).unwrap();
    let leaf = field.inner().inner();
    assert_eq!(leaf.definition_levels(), Some(&vec![0i16, 1, 2, 3, 4]));
    assert_eq!(leaf.repetition_levels(), Some(&vec![0i16, 0, 0, 0, 0]));
    assert_eq!(leaf.values(), &vec![9]);
}

#[test]
fn null_elements_stand_one_level_above_the_list() {
    let leaf = GenericColumnAppender::new(2, 1, |x: &i32| *x);
    let mut array = ArrayColumnAppender::new(leaf, true, 0, 0);
    let value = vec![Some(1), None, Some(3)];
    assert_eq!(array.copy_value(&LevelIndexList::new_i(0), &value), Ok(20));
    assert_eq!(array.inner().values(), &vec![1, 3]);
    assert_eq!(array.inner().definition_levels(), Some(&vec![2i16, 1, 2]));
    assert_eq!(array.inner().repetition_levels(), Some(&vec![0i16, 1, 1]));
}

#[test]
fn elements_repeat_at_the_depth_of_their_list() {
    let leaf = GenericColumnAppender::new(1, 1, |x: &i32| *x);
    let mut array = ArrayColumnAppender::new(leaf, false, 0, 0);
    array.copy_value(&LevelIndexList::new_i(0), &list(&[1, 2, 3])).unwrap();
    array.copy_value(&LevelIndexList::new_i(1), &Vec::new()).unwrap();
    array.copy_value(&LevelIndexList::new_i(2), &list(&[4])).unwrap();
    array.copy_value(&LevelIndexList::new_i(3), &list(&[5, 6])).unwrap();
    assert_eq!(array.inner().values(), &vec![1, 2, 3, 4, 5, 6]);
    assert_eq!(array.inner().definition_levels(), Some(&vec![1i16, 1, 1, 0, 1, 1, 1]));
    assert_eq!(array.inner().repetition_levels(), Some(&vec![0i16, 1, 1, 0, 0, 0, 1]));
}

#[test]
fn inner_empty_list_repeats_at_the_outer_depth() {
    let leaf = GenericColumnAppender::new(2, 2, |x: &i32| *x);
    let inner = ArrayColumnAppender::new(leaf, false, 1, 1);
    let mut outer = ArrayColumnAppender::new(inner, false, 0, 0);
    let value = vec![Some(list(&[1])), Some(Vec::new()), Some(list(&[5, 6]))];
    outer.copy_value(&LevelIndexList::new_i(0), &value).unwrap();
    outer.copy_value(&LevelIndexList::new_i(1), &Vec::new()).unwrap();
    let leaf = outer.inner().inner();
    assert_eq!(leaf.values(), &vec![1, 5, 6]);
    assert_eq!(leaf.definition_levels(), Some(&vec![2i16, 1, 2, 2, 0]));
    assert_eq!(leaf.repetition_levels(), Some(&vec![0i16, 1, 1, 2, 0]));
}

#[test]
fn array_levels_are_those_of_the_list() {
    let leaf = GenericColumnAppender::new(5, 3, |x: &i32| *x);
    let array = ArrayColumnAppender::new(leaf, true, 3, 2);
    assert_eq!(array.max_dl(), 3);
    assert_eq!(array.max_rl(), 2);
    assert_eq!(array.inner().max_dl(), 5);
    assert_eq!(array.inner().max_rl(), 3);
}

#[test]
fn array_flushes_its_child() {
    let leaf = GenericColumnAppender::new(1, 1, |x: &i32| *x);
    let mut array = ArrayColumnAppender::new(leaf, false, 0, 0);
    array.copy_value(&LevelIndexList::new_i(0), &list(&[1, 2])).unwrap();
    let mut sink = Sink { seen: Vec::new() };
    assert_eq!(array.write_columns(0, &mut sink), Ok(()));
    assert_eq!(sink.seen, vec![(vec![1, 2], Some(vec![1i16, 1]), Some(vec![0i16, 1]))]);
    assert_eq!(array.inner().values().len(), 0);
}

#[test]
fn array_has_the_columns_of_its_child() {
    let leaf = GenericColumnAppender::new(1, 1, |x: &i32| *x);
    let array = ArrayColumnAppender::new(leaf, false, 0, 0);
    assert_eq!(array.column_count(), 1);
}

#[test]
fn array_clone_has_buffers_of_its_own() {
    let leaf = GenericColumnAppender::new(1, 1, |x: &i32| *x);
    let mut array = ArrayColumnAppender::new(leaf, false, 0, 0);
    array.copy_value(&LevelIndexList::new_i(0), &list(&[1, 2])).unwrap();
    let mut copy = array.clone();
    copy.copy_value(&LevelIndexList::new_i(0), &list(&[3])).unwrap();
    assert_eq!(array.inner().values(), &vec![1, 2]);
    assert_eq!(copy.inner().values(), &vec![1, 2, 3]);
    assert_eq!(copy.inner().repetition_levels(), Some(&vec![0i16, 1, 1]));
    assert_eq!(copy.max_dl(), 0);
}
