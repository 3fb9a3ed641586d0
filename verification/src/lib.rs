//! A verified parser for a personal exercise-log text format.
//!
//! Each input line encodes one workout entry: a date, an exercise name, a
//! target repetition scheme, and the completed sets. The grammar of a line is
//!
//! ```text
//! file          = record ( newline record )*
//! record        = date "/" exercise_name "/" target "/" set_group
//! date          = digit{2} "." digit{2} "." digit{4}
//! exercise_name = (any char except "/")+
//! target        = "(" integer "x" integer "-" integer "reps"? ")"
//! set_group     = set ( ";" set )*
//! set           = attempt ( "," attempt )*
//! attempt       = integer "-" integer
//! ```
//!
//! with optional spaces and tabs around the separators. [`parse_exercise_log`]
//! turns a whole file's text into one [`ExerciseRecord`] per line, or the
//! first error encountered.

use vstd::prelude::*;

pub mod error;
pub mod grammar;
pub mod records;
pub mod text;
pub mod tokens;
pub mod translate;
pub mod tree;

pub use error::GymDataParserError;
pub use grammar::Grammar;
pub use records::{Attempt, Date, ExerciseRecord, ExerciseSet, TargetReps};

use crate::translate::{spec_translate_record, translate_record};
use crate::tree::RecordNode;

verus! {

use crate::grammar::{first_bad_line, input_lines, spec_record, syntax_error_at};
use crate::records::RecordModel;

/// Does this line match the record grammar?
pub open spec fn line_parses(l: Seq<char>) -> bool {
    spec_record(l) is Some
}

/// The semantic outcome of a line that matches the grammar: its record's
/// content, or the first semantic error of the line.
pub open spec fn line_outcome(l: Seq<char>) -> Result<RecordModel, GymDataParserError>
    recommends
        line_parses(l),
{
    spec_translate_record(spec_record(l)->0)
}

/// A line that matches the grammar and whose values all convert.
pub open spec fn line_ok(l: Seq<char>) -> bool {
    line_parses(l) && line_outcome(l) is Ok
}

/// Parses a whole exercise log.
///
/// The input is split at newlines; every line must be one record of the
/// grammar. On success the result holds one record per line, in input order.
/// On failure the result is the error of the first offending line: a
/// `ParseError` naming the first line that does not match the grammar, or —
/// when every line matches — the first semantic error (an invalid calendar
/// date, or a number that does not fit 32 bits) in reading order.
pub fn parse_exercise_log(input: &str) -> (r: Result<Vec<ExerciseRecord>, GymDataParserError>)
    ensures
        ({
            let lines = input_lines(input@);
            match r {
                Ok(recs) => ((forall|i: int| 0 <= i < lines.len() ==> line_ok(#[trigger] lines[i]))
                    && recs@.len() == lines.len() && (forall|i: int|
                    0 <= i < lines.len() ==> (#[trigger] recs@[i]).model() == line_outcome(
                        lines[i],
                    )->Ok_0)),
                Err(e) => ((exists|k: int|
                    #[trigger] first_bad_line(input_lines(input@), k) && e == syntax_error_at(k))
                    || ((forall|i: int|
                    0 <= i < lines.len() ==> line_parses(#[trigger] lines[i])) && (exists|k: int|
                    0 <= k < lines.len() && (forall|j: int|
                        0 <= j < k ==> line_ok(#[trigger] lines[j])) && #[trigger] line_outcome(
                        lines[k],
                    ) == Err::<RecordModel, GymDataParserError>(e)))),
            }
        }),
{
    let parsed = Grammar::parse_file(input);
    match parsed {
        Err(e) => Err(e),
        Ok(file) => {
            let ghost lines = input_lines(input@);
            let r = translate_records(&file.records, 0);
            match r {
                Ok(recs) => {
                    proof {
                        assert forall|i: int| 0 <= i < lines.len() implies line_ok(
                            #[trigger] lines[i],
                        ) by {
                            assert(file.records@[i].model() == spec_record(lines[i])->0);
                            assert(spec_translate_record(file.records@[i].model()) is Ok);
                        }
                        assert forall|i: int|
                            0 <= i < lines.len() implies (#[trigger] recs@[i]).model()
                            == line_outcome(lines[i])->Ok_0 by {
                            assert(file.records@[i].model() == spec_record(lines[i])->0);
                            assert(recs@[i - 0].model() == spec_translate_record(
                                file.records@[i].model(),
                            )->Ok_0);
                        }
                    }
                    Ok(recs)
                },
                Err(e) => {
                    proof {
                        let k = choose|k: int|
                            0 <= k < file.records@.len() && (forall|j: int|
                                0 <= j < k ==> spec_translate_record(
                                    #[trigger] file.records@[j].model(),
                                ) is Ok) && spec_translate_record(
                                #[trigger] file.records@[k].model(),
                            ) == Err::<RecordModel, GymDataParserError>(e);
                        assert(file.records@[k].model() == spec_record(lines[k])->0);
                        assert(line_outcome(lines[k]) == Err::<RecordModel, GymDataParserError>(e));
                        assert forall|j: int| 0 <= j < k implies line_ok(#[trigger] lines[j]) by {
                            assert(spec_translate_record(file.records@[j].model()) is Ok);
                            assert(file.records@[j].model() == spec_record(lines[j])->0);
                        }
                        assert(0 <= k < lines.len() && (forall|j: int|
                            0 <= j < k ==> line_ok(#[trigger] lines[j])) && line_outcome(lines[k])
                            == Err::<RecordModel, GymDataParserError>(e));
                    }
                    Err(e)
                },
            }
        },
    }
}

/// Translates the parse-tree records from index `i` on, stopping at the
/// first record whose values do not convert.
fn translate_records(records: &Vec<RecordNode>, i: usize) -> (r: Result<
    Vec<ExerciseRecord>,
    GymDataParserError,
>)
    requires
        i <= records@.len(),
    ensures
        match r {
            Ok(recs) => ((recs@.len() == records@.len() - i) && (forall|j: int|
                i <= j < records@.len() ==> spec_translate_record(
                    #[trigger] records@[j].model(),
                ) is Ok) && (forall|j: int|
                i <= j < records@.len() ==> (#[trigger] recs@[j - i]).model()
                    == spec_translate_record(records@[j].model())->Ok_0)),
            Err(e) => (exists|k: int|
                i <= k < records@.len() && (forall|j: int|
                    i <= j < k ==> spec_translate_record(#[trigger] records@[j].model()) is Ok)
                    && spec_translate_record(#[trigger] records@[k].model()) == Err::<
                    RecordModel,
                    GymDataParserError,
                >(e)),
        },
    decreases records@.len() - i,
{
    if i == records.len() {
        Ok(Vec::new())
    } else {
        match translate_record(&records[i]) {
            Err(e) => Err(e),
            Ok(rec) => {
                match translate_records(records, i + 1) {
                    Err(e) => Err(e),
                    Ok(mut recs) => {
                        let ghost tail = recs@;
                        recs.insert(0, rec);
                        proof {
                            assert(recs@ =~= seq![rec] + tail);
                            assert forall|j: int|
                                i < j < records@.len() implies (#[trigger] recs@[j - i]).model()
                                == spec_translate_record(records@[j].model())->Ok_0 by {
                                assert(recs@[j - i] == tail[j - (i + 1)]);
                                assert(tail[j - (i + 1)].model() == spec_translate_record(
                                    records@[j].model(),
                                )->Ok_0);
                            }
                            assert(recs@[0].model() == spec_translate_record(
                                records@[i as int].model(),
                            )->Ok_0);
                        }
                        Ok(recs)
                    },
                }
            },
        }
    }
}

} // verus!
