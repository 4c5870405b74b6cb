//! The underlying columnar writer as the appenders see it, and what a flush
//! reports of the writer's answer.
use vstd::prelude::*;
use vstd::string::StringExecFns;

verus! {

/// What came of handing one column's batch to the underlying writer.
pub enum ColumnOutcome {
    /// The writer had no column left.
    Missing,
    /// The writer could not hand out its next column.
    Refused(String),
    /// The writer opened its next column, wrote the batch to it and then
    /// closed it, whatever the write gave.
    Written { write: Result<usize, String>, close: Result<(), String> },
}

/// One column's batch as a writer is handed it: the values, and each level
/// array that comes with them.
#[verifier::reject_recursive_types(V)]
pub struct Batch<V> {
    pub values: Seq<V>,
    pub definition_levels: Option<Seq<i16>>,
    pub repetition_levels: Option<Seq<i16>>,
}

/// The batches that a writer has been handed, in the order of the calls.
#[verifier::reject_recursive_types(V)]
pub struct Handed<V> {
    pub batches: Seq<Batch<V>>,
}

/// The level array that a call hands over, if it hands one over.
pub open spec fn levels_of(levels: Option<&Vec<i16>>) -> Option<Seq<i16>> {
    match levels {
        Some(v) => Some(v@),
        None => None,
    }
}

/// The underlying columnar writer: it takes the batches of the leaf columns
/// one after the other, each into its next column.
pub trait DynamicSerializedWriter<V> {
    /// What the writer has been handed so far, whatever it made of it. This
    /// is a record of the calls, not of the file: an implementation has
    /// nothing to do for it.
    spec fn handed(&self) -> Handed<V>;

    /// Opens the next column, writes `values` with the level arrays that
    /// are given, and closes the column.
    fn next_column(
        &mut self,
        values: &Vec<V>,
        definition_levels: Option<&Vec<i16>>,
        repetition_levels: Option<&Vec<i16>>,
    ) -> (outcome: ColumnOutcome)
        ensures
            final(self).handed().batches == old(self).handed().batches.push(
                Batch {
                    values: values@,
                    definition_levels: levels_of(definition_levels),
                    repetition_levels: levels_of(repetition_levels),
                },
            ),
    ;
}

pub open spec fn digit(d: nat) -> char {
    if d == 0 {
        '0'
    } else if d == 1 {
        '1'
    } else if d == 2 {
        '2'
    } else if d == 3 {
        '3'
    } else if d == 4 {
        '4'
    } else if d == 5 {
        '5'
    } else if d == 6 {
        '6'
    } else if d == 7 {
        '7'
    } else if d == 8 {
        '8'
    } else {
        '9'
    }
}

/// The decimal numeral of `n`, without leading zeros.
pub open spec fn decimal(n: nat) -> Seq<char>
    decreases n,
{
    if n < 10 {
        seq![digit(n)]
    } else {
        decimal(n / 10).push(digit(n % 10))
    }
}

/// The batch went through: it was written and its column was closed.
pub open spec fn succeeded(outcome: ColumnOutcome) -> bool {
    outcome matches ColumnOutcome::Written { write: Ok(_), close: Ok(_) }
}

/// The text that reports `message` for column number `column_i`.
pub open spec fn column_text(prefix: Seq<char>, column_i: usize, message: Seq<char>) -> Seq<
    char,
> {
    prefix + decimal(column_i as nat) + "]: "@ + message
}

/// The text that reports that the writer has no column number `column_i`.
pub open spec fn missing_text(column_i: usize) -> Seq<char> {
    "Not enough columns: no column["@ + decimal(column_i as nat) + "]"@
}

/// The error that a flush of column number `column_i` reports for an
/// outcome that is no success: the writer's first complaint, with the
/// column's number.
pub open spec fn failure_text(column_i: usize, outcome: ColumnOutcome) -> Seq<char> {
    match outcome {
        ColumnOutcome::Missing => missing_text(column_i),
        ColumnOutcome::Refused(e) => column_text("Could not create column["@, column_i, e@),
        ColumnOutcome::Written { write: Err(e), close: _ } => column_text(
            "Couldn't write data of column["@,
            column_i,
            e@,
        ),
        ColumnOutcome::Written { write: Ok(_), close: Err(e) } => column_text(
            "Couldn't write data of column["@,
            column_i,
            e@,
        ),
        ColumnOutcome::Written { write: Ok(_), close: Ok(_) } => Seq::empty(),
    }
}

fn digit_text(d: usize) -> (r: &'static str)
    requires
        d < 10,
    ensures
        r@ == seq![digit(d as nat)],
{
    proof {
        reveal_strlit("0");
        reveal_strlit("1");
        reveal_strlit("2");
        reveal_strlit("3");
        reveal_strlit("4");
        reveal_strlit("5");
        reveal_strlit("6");
        reveal_strlit("7");
        reveal_strlit("8");
        reveal_strlit("9");
    }
    let r = if d == 0 {
        "0"
    } else if d == 1 {
        "1"
    } else if d == 2 {
        "2"
    } else if d == 3 {
        "3"
    } else if d == 4 {
        "4"
    } else if d == 5 {
        "5"
    } else if d == 6 {
        "6"
    } else if d == 7 {
        "7"
    } else if d == 8 {
        "8"
    } else {
        "9"
    };
    assert(r@ =~= seq![digit(d as nat)]);
    r
}

/// Writes `n` as a decimal numeral.
pub fn decimal_text(n: usize) -> (r: String)
    ensures
        r@ == decimal(n as nat),
{
    let mut low: Vec<usize> = Vec::new();
    let mut m: usize = n;
    let ghost mut tail: Seq<char> = Seq::empty();
    while m >= 10
        invariant
            decimal(n as nat) == decimal(m as nat) + tail,
            low@.len() == tail.len(),
            forall|k: int| 0 <= k < low@.len() ==> low@[k] < 10,
            forall|k: int| 0 <= k < tail.len() ==> tail[k] == digit(low@[low@.len() - 1 - k] as nat),
        decreases m,
    {
        let d: usize = m % 10;
        low.push(d);
        proof {
            let before = tail;
            tail = seq![digit(d as nat)] + tail;
            assert(decimal(m as nat) == decimal((m / 10) as nat).push(digit(d as nat)));
            assert(decimal((m / 10) as nat).push(digit(d as nat)) + before =~= decimal(
                (m / 10) as nat,
            ) + tail);
        }
        m = m / 10;
    }
    let mut s = String::from_str(digit_text(m));
    let mut i: usize = low.len();
    while i > 0
        invariant
            i <= low@.len(),
            low@.len() == tail.len(),
            forall|k: int| 0 <= k < low@.len() ==> low@[k] < 10,
            forall|k: int| 0 <= k < tail.len() ==> tail[k] == digit(low@[low@.len() - 1 - k] as nat),
            s@ == decimal(m as nat) + tail.take(low@.len() - i),
        decreases i,
    {
        i = i - 1;
        let ghost before = s@;
        s.append(digit_text(low[i]));
        assert(s@ =~= decimal(m as nat) + tail.take(low@.len() - i));
    }
    assert(tail.take(low@.len() as int) =~= tail);
    s
}

fn column_message(prefix: &str, column_i: usize, message: &String) -> (r: String)
    ensures
        r@ == column_text(prefix@, column_i, message@),
{
    let mut s = String::from_str(prefix);
    let number = decimal_text(column_i);
    s.append(number.as_str());
    s.append("]: ");
    s.append(message.as_str());
    s
}

fn missing_message(column_i: usize) -> (r: String)
    ensures
        r@ == missing_text(column_i),
{
    let mut s = String::from_str("Not enough columns: no column[");
    let number = decimal_text(column_i);
    s.append(number.as_str());
    s.append("]");
    s
}

/// What a flush of column number `column_i` returns for the writer's
/// answer: success where the batch was written and the column closed, else
/// the error that names what went wrong first.
pub fn flush_result(column_i: usize, outcome: ColumnOutcome) -> (r: Result<(), String>)
    ensures
        r is Ok <==> succeeded(outcome),
        r is Err ==> r->Err_0@ == failure_text(column_i, outcome),
{
    match outcome {
        ColumnOutcome::Missing => Err(missing_message(column_i)),
        ColumnOutcome::Refused(e) => Err(column_message("Could not create column[", column_i, &e)),
        ColumnOutcome::Written { write: Err(e), close: _ } => Err(
            column_message("Couldn't write data of column[", column_i, &e),
        ),
        ColumnOutcome::Written { write: Ok(_), close: Err(e) } => Err(
            column_message("Couldn't write data of column[", column_i, &e),
        ),
        ColumnOutcome::Written { write: Ok(_), close: Ok(_) } => Ok(()),
    }
}

} // verus!
