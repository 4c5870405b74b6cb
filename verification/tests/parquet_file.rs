use std::io::Write;
use std::sync::Arc;

use appenders::array::ArrayColumnAppender;
use appenders::generic::GenericColumnAppender;
use appenders::helpers::{PreprocessAppender, UnwrapOptionAppender};
use appenders::interface::{ColumnAppender, ColumnFlush};
use appenders::level_index::LevelIndexList;
use appenders::merged::StaticMergedAppender;
use appenders::writer::{ColumnOutcome, DynamicSerializedWriter, Handed};
use parquet::column::writer::ColumnWriter;
use parquet::file::properties::WriterProperties;
use parquet::file::reader::{FileReader, SerializedFileReader};
use parquet::file::writer::{SerializedFileWriter, SerializedRowGroupWriter};
use parquet::schema::parser::parse_message_type;

struct Columns<'a, W: Write + Send> {
    row_group: SerializedRowGroupWriter<'a, W>,
}

impl<'a, W: Write + Send> DynamicSerializedWriter<i32> for Columns<'a, W> {
    fn handed(&self) -> Handed<i32> {
        unreachable!()
    }

    fn next_column(
        &mut self,
        values: &Vec<i32>,
        definition_levels: Option<&Vec<i16>>,
        repetition_levels: Option<&Vec<i16>>,
    ) -> ColumnOutcome {
        match self.row_group.next_column() {
            Err(e) => ColumnOutcome::Refused(e.to_string()),
            Ok(None) => ColumnOutcome::Missing,
            Ok(Some(mut column)) => {
                let write = match column.untyped() {
                    ColumnWriter::Int32ColumnWriter(typed) => typed
                        .write_batch(
                            values,
                            definition_levels.map(|v| v.as_slice()),
                            repetition_levels.map(|v| v.as_slice()),
                        )
                        .map_err(|e| e.to_string()),
                    _ => Err("the column does not hold INT32".to_string()),
                };
                let close = column.close().map_err(|e| e.to_string());
                ColumnOutcome::Written { write, close }
            }
        }
    }
}

impl<'a, W: Write + Send> DynamicSerializedWriter<i64> for Columns<'a, W> {
    fn handed(&self) -> Handed<i64> {
        unreachable!()
    }

    fn next_column(
        &mut self,
        values: &Vec<i64>,
        definition_levels: Option<&Vec<i16>>,
        repetition_levels: Option<&Vec<i16>>,
    ) -> ColumnOutcome {
        match self.row_group.next_column() {
            Err(e) => ColumnOutcome::Refused(e.to_string()),
            Ok(None) => ColumnOutcome::Missing,
            Ok(Some(mut column)) => {
                let write = match column.untyped() {
                    ColumnWriter::Int64ColumnWriter(typed) => typed
                        .write_batch(
                            values,
                            definition_levels.map(|v| v.as_slice()),
                            repetition_levels.map(|v| v.as_slice()),
                        )
                        .map_err(|e| e.to_string()),
                    _ => Err("the column does not hold INT64".to_string()),
                };
                let close = column.close().map_err(|e| e.to_string());
                ColumnOutcome::Written { write, close }
            }
        }
    }
}

struct Row {
    id: i64,
    tags: Option<Vec<Option<i32>>>,
}

fn write_file<A>(table: &mut A, schema: &str) -> (Result<(), String>, Option<Vec<u8>>)
where
    A: for<'a> ColumnFlush<Columns<'a, Vec<u8>>>,
{
    let schema = Arc::new(parse_message_type(schema).unwrap());
    let properties = Arc::new(WriterProperties::builder().build());
    let mut file = SerializedFileWriter::new(Vec::new(), schema, properties).unwrap();
    let result = {
        let mut columns = Columns { row_group: file.next_row_group().unwrap() };
        let result = table.write_columns(0, &mut columns);
        if result.is_ok() {
            columns.row_group.close().unwrap();
        }
        result
    };
    if result.is_ok() {
        (result, Some(file.into_inner().unwrap()))
    } else {
        (result, None)
    }
}

fn read_rows(bytes: Vec<u8>) -> Vec<String> {
    let reader = SerializedFileReader::new(bytes::Bytes::from(bytes)).unwrap();
    reader.get_row_iter(None).unwrap().map(|row| row.unwrap().to_string()).collect()
}

#[test]
fn rows_with_lists_read_back_as_they_were_appended() {
    let schema = "message table {
        REQUIRED INT64 id;
        OPTIONAL group tags (LIST) {
            REPEATED group list {
                OPTIONAL INT32 element;
            }
        }
    }";
    let id = GenericColumnAppender::new(0, 0, |row: &Row| row.id);
    let element = GenericColumnAppender::new(3, 1, |x: &i32| *x);
    let list = UnwrapOptionAppender::new(ArrayColumnAppender::new(element, true, 1, 0));
    let tags = PreprocessAppender::new(list, |row: &Row| row.tags.clone());
    let mut table = StaticMergedAppender::new(id, tags, 0, 0);
    let rows = vec![
        Row { id: 1, tags: Some(vec![Some(1), None, Some(3)]) },
        Row { id: 2, tags: Some(vec![]) },
        Row { id: 3, tags: None },
        Row { id: 4, tags: Some(vec![None]) },
        Row { id: 5, tags: Some(vec![Some(50), Some(51)]) },
    ];
    for (i, row) in rows.iter().enumerate() {
        table.copy_value(&LevelIndexList::new_i(i), row).unwrap();
    }
    let (result, bytes) = write_file(&mut table, schema);
    assert_eq!(result, Ok(()));
    assert_eq!(
        read_rows(bytes.unwrap()),
        vec![
            "{id: 1, tags: [1, null, 3]}",
            "{id: 2, tags: []}",
            "{id: 3, tags: null}",
            "{id: 4, tags: [null]}",
            "{id: 5, tags: [50, 51]}",
        ]
    );
    assert_eq!(table.first().values().len(), 0);
}

#[test]
fn nested_lists_read_back_as_they_were_appended() {
    let schema = "message table {
        REQUIRED group matrix (LIST) {
            REPEATED group list {
                REQUIRED group element (LIST) {
                    REPEATED group list {
                        REQUIRED INT32 element;
                    }
                }
            }
        }
    }";
    let leaf = GenericColumnAppender::new(2, 2, |x: &i32| *x);
    let inner = ArrayColumnAppender::new(leaf, false, 1, 1);
    let mut matrix = ArrayColumnAppender::new(inner, false, 0, 0);
    let some = |items: &[i32]| Some(items.iter().map(|x| Some(*x)).collect::<Vec<_>>());
    matrix.copy_value(&LevelIndexList::new_i(0), &vec![some(&[1, 2]), some(&[3])]).unwrap();
    matrix.copy_value(&LevelIndexList::new_i(1), &vec![some(&[4])]).unwrap();
    matrix.copy_value(&LevelIndexList::new_i(2), &vec![]).unwrap();
    matrix.copy_value(&LevelIndexList::new_i(3), &vec![some(&[]), some(&[5])]).unwrap();
    let (result, bytes) = write_file(&mut matrix, schema);
    assert_eq!(result, Ok(()));
    assert_eq!(
        read_rows(bytes.unwrap()),
        vec![
            "{matrix: [[1, 2], [3]]}",
            "{matrix: [[4]]}",
            "{matrix: []}",
            "{matrix: [[], [5]]}",
        ]
    );
}

#[test]
fn writer_with_too_few_columns_is_reported() {
    let schema = "message table { REQUIRED INT64 id; }";
    let a = GenericColumnAppender::new(0, 0, |x: &i64| *x);
    let b = GenericColumnAppender::new(0, 0, |x: &i64| *x + 1);
    let mut table = StaticMergedAppender::new(a, b, 0, 0);
    table.copy_value(&LevelIndexList::new_i(0), &1).unwrap();
    let (result, _) = write_file(&mut table, schema);
    assert_eq!(result, Err("Not enough columns: no column[1]".to_string()));
    assert_eq!(table.first().values().len(), 0);
    assert_eq!(table.second().values(), &vec![2i64]);
}

#[test]
fn writer_of_another_type_is_reported_with_the_column() {
    let schema = "message table { REQUIRED INT64 id; REQUIRED INT64 other; }";
    let a = GenericColumnAppender::new(0, 0, |x: &i64| *x);
    let b = GenericColumnAppender::new(0, 0, |x: &i64| *x as i32);
    let mut table = StaticMergedAppender::new(a, b, 0, 0);
    table.copy_value(&LevelIndexList::new_i(0), &1).unwrap();
    let (result, _) = write_file(&mut table, schema);
    assert_eq!(
        result,
        Err("Couldn't write data of column[1]: the column does not hold INT32".to_string())
    );
    assert_eq!(table.second().values(), &vec![1i32]);
}
