use appenders::myfrom::MyFrom;
use appenders::real_memory_size::RealMemorySize;
use appenders::writer::{decimal_text, flush_result, ColumnOutcome};

#[test]
fn decimal_text_of_small_and_large_numbers() {
    assert_eq!(decimal_text(0), "0");
    assert_eq!(decimal_text(7), "7");
    assert_eq!(decimal_text(10), "10");
    assert_eq!(decimal_text(109), "109");
    assert_eq!(decimal_text(1234567890), "1234567890");
    assert_eq!(decimal_text(usize::MAX), format!("{}", usize::MAX));
}

#[test]
fn flush_result_is_ok_when_written_and_closed() {
    let r = flush_result(4, ColumnOutcome::Written { write: Ok(10), close: Ok(()) });
    assert_eq!(r, Ok(()));
}

#[test]
fn flush_result_reports_a_missing_column() {
    assert_eq!(
        flush_result(4, ColumnOutcome::Missing),
        Err("Not enough columns: no column[4]".to_string())
    );
    assert_eq!(
        flush_result(0, ColumnOutcome::Missing),
        Err("Not enough columns: no column[0]".to_string())
    );
    assert_eq!(
        flush_result(usize::MAX, ColumnOutcome::Missing),
        Err(format!("Not enough columns: no column[{}]", usize::MAX))
    );
}

#[test]
fn flush_result_reports_a_refused_column() {
    assert_eq!(
        flush_result(4, ColumnOutcome::Refused("row group closed".to_string())),
        Err("Could not create column[4]: row group closed".to_string())
    );
}

#[test]
fn flush_result_reports_a_failed_write() {
    let outcome = ColumnOutcome::Written { write: Err("bad levels".to_string()), close: Ok(()) };
    assert_eq!(
        flush_result(17, outcome),
        Err("Couldn't write data of column[17]: bad levels".to_string())
    );
}

#[test]
fn flush_result_reports_a_failed_close() {
    let outcome = ColumnOutcome::Written { write: Ok(3), close: Err("disk full".to_string()) };
    assert_eq!(
        flush_result(0, outcome),
        Err("Couldn't write data of column[0]: disk full".to_string())
    );
}

#[test]
fn flush_result_reports_the_first_error() {
    let outcome = ColumnOutcome::Written {
        write: Err("bad levels".to_string()),
        close: Err("disk full".to_string()),
    };
    assert_eq!(
        flush_result(2, outcome),
        Err("Couldn't write data of column[2]: bad levels".to_string())
    );
}

#[test]
fn footprints_of_the_column_values() {
    assert_eq!(true.real_memory_size(), 1);
    assert_eq!(5i16.real_memory_size(), 2);
    assert_eq!(5i32.real_memory_size(), 4);
    assert_eq!(5i64.real_memory_size(), 8);
    assert_eq!(5u32.real_memory_size(), 4);
    assert_eq!(5u64.real_memory_size(), 8);
    assert_eq!(Vec::<u8>::new().real_memory_size(), 24);
    assert_eq!(vec![1u8, 2, 3].real_memory_size(), 27);
}

#[test]
fn my_from_keeps_or_widens() {
    assert_eq!(<bool as MyFrom<bool>>::my_from(&true), true);
    assert_eq!(<i32 as MyFrom<i32>>::my_from(&-5), -5);
    assert_eq!(<i64 as MyFrom<i64>>::my_from(&(1 << 40)), 1 << 40);
    assert_eq!(<i32 as MyFrom<i8>>::my_from(&-128), -128);
    assert_eq!(<i32 as MyFrom<i16>>::my_from(&-32768), -32768);
    assert_eq!(<i64 as MyFrom<i32>>::my_from(&i32::MIN), -2147483648);
    assert_eq!(<i64 as MyFrom<u32>>::my_from(&u32::MAX), 4294967295);
}
