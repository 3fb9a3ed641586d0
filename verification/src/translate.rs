//! The tree-to-model translator. It walks a parse tree and applies the
//! semantic checks the grammar cannot express: numeric tokens must fit an
//! unsigned 32-bit integer, and the date must denote a real calendar day.
//! The first failing check aborts the record's translation.

use vstd::prelude::*;

use crate::error::GymDataParserError;
use crate::records::{
    sets_model, valid_ymd, Attempt, Date, ExerciseRecord, ExerciseSet, RecordModel, TargetReps,
};
use crate::text::{
    all_digits, char_is_digit, digits_value, lemma_digits_value_prefix_le, trim, trim_str,
};
use crate::tree::{
    attempts_model, group_model, AttemptNode, AttemptText, DateNode, DateText, GroupText,
    RecordNode, RecordText, SetNode, TargetNode, TargetText,
};

verus! {

/// What a raw numeric token converts to: its value when it is a non-empty
/// digit string whose value fits `u32`, and a number-format error otherwise.
pub open spec fn spec_u32_of(s: Seq<char>) -> Result<u32, GymDataParserError> {
    if s.len() > 0 && all_digits(s) && digits_value(s) <= u32::MAX {
        Ok(digits_value(s) as u32)
    } else {
        Err(GymDataParserError::InvalidNumberFormat)
    }
}

/// Converts a raw token to an unsigned 32-bit integer.
pub fn parse_u32(s: &String) -> (r: Result<u32, GymDataParserError>)
    ensures
        r == spec_u32_of(s@),
{
    let st = s.as_str();
    let n = st.unicode_len();
    if n == 0 {
        return Err(GymDataParserError::InvalidNumberFormat);
    }
    let mut acc: u32 = 0;
    let mut i: usize = 0;
    while i < n
        invariant
            0 <= i <= n,
            n == s@.len(),
            st@ == s@,
            all_digits(s@.take(i as int)),
            digits_value(s@.take(i as int)) == acc,
        decreases n - i,
    {
        let c = st.get_char(i);
        if !char_is_digit(c) {
            return Err(GymDataParserError::InvalidNumberFormat);
        }
        let d: u32 = c as u32 - '0' as u32;
        let wide: u64 = acc as u64 * 10 + d as u64;
        proof {
            assert(s@.take(i as int + 1).drop_last() =~= s@.take(i as int));
            assert(s@.take(i as int + 1).last() == s@[i as int]);
            assert(all_digits(s@.take(i as int + 1)));
        }
        if wide > u32::MAX as u64 {
            proof {
                if all_digits(s@) {
                    lemma_digits_value_prefix_le(s@, i as int + 1);
                }
            }
            return Err(GymDataParserError::InvalidNumberFormat);
        }
        acc = wide as u32;
        i += 1;
    }
    proof {
        assert(s@.take(n as int) =~= s@);
    }
    Ok(acc)
}

/// What a date's digit strings translate to: the calendar date, or a date
/// error when a component does not convert or the day does not exist.
pub open spec fn spec_translate_date(d: DateText) -> Result<Date, GymDataParserError> {
    if spec_u32_of(d.0) is Ok && spec_u32_of(d.1) is Ok && spec_u32_of(d.2) is Ok {
        let day = spec_u32_of(d.0)->Ok_0;
        let month = spec_u32_of(d.1)->Ok_0;
        let year = spec_u32_of(d.2)->Ok_0;
        if valid_ymd(year as int, month as int, day as int) {
            Ok(Date { year, month, day })
        } else {
            Err(GymDataParserError::DateParseError)
        }
    } else {
        Err(GymDataParserError::DateParseError)
    }
}

/// Translates a date node, checking calendar validity.
pub fn translate_date(n: &DateNode) -> (r: Result<Date, GymDataParserError>)
    ensures
        r == spec_translate_date(n.model()),
{
    let day = match parse_u32(&n.day) {
        Ok(v) => v,
        Err(_) => {
            return Err(GymDataParserError::DateParseError);
        },
    };
    let month = match parse_u32(&n.month) {
        Ok(v) => v,
        Err(_) => {
            return Err(GymDataParserError::DateParseError);
        },
    };
    let year = match parse_u32(&n.year) {
        Ok(v) => v,
        Err(_) => {
            return Err(GymDataParserError::DateParseError);
        },
    };
    match Date::from_ymd_opt(year, month, day) {
        Some(d) => Ok(d),
        None => Err(GymDataParserError::DateParseError),
    }
}

/// What a target's digit strings translate to, the sets count first.
pub open spec fn spec_translate_target(t: TargetText) -> Result<TargetReps, GymDataParserError> {
    match spec_u32_of(t.0) {
        Err(e) => Err(e),
        Ok(sets_count) => match spec_u32_of(t.1) {
            Err(e) => Err(e),
            Ok(min_reps) => match spec_u32_of(t.2) {
                Err(e) => Err(e),
                Ok(max_reps) => Ok(TargetReps { sets_count, min_reps, max_reps }),
            },
        },
    }
}

/// Translates a target node into the typed scheme.
pub fn translate_target(n: &TargetNode) -> (r: Result<TargetReps, GymDataParserError>)
    ensures
        r == spec_translate_target(n.model()),
{
    let sets_count = match parse_u32(&n.sets_count) {
        Ok(v) => v,
        Err(e) => {
            return Err(e);
        },
    };
    let min_reps = match parse_u32(&n.min_reps) {
        Ok(v) => v,
        Err(e) => {
            return Err(e);
        },
    };
    let max_reps = match parse_u32(&n.max_reps) {
        Ok(v) => v,
        Err(e) => {
            return Err(e);
        },
    };
    Ok(TargetReps { sets_count, min_reps, max_reps })
}

/// What an attempt's digit strings translate to, the weight first.
pub open spec fn spec_translate_attempt(a: AttemptText) -> Result<Attempt, GymDataParserError> {
    match spec_u32_of(a.0) {
        Err(e) => Err(e),
        Ok(weight) => match spec_u32_of(a.1) {
            Err(e) => Err(e),
            Ok(reps) => Ok(Attempt { weight, reps }),
        },
    }
}

/// Translates one attempt node.
fn translate_attempt(n: &AttemptNode) -> (r: Result<Attempt, GymDataParserError>)
    ensures
        r == spec_translate_attempt(n.model()),
{
    let weight = match parse_u32(&n.weight) {
        Ok(v) => v,
        Err(e) => {
            return Err(e);
        },
    };
    let reps = match parse_u32(&n.reps) {
        Ok(v) => v,
        Err(e) => {
            return Err(e);
        },
    };
    Ok(Attempt { weight, reps })
}

/// What a set's attempt texts translate to: all attempts in order, stopping
/// at the first failing one.
pub open spec fn spec_translate_attempts(s: Seq<AttemptText>) -> Result<
    Seq<Attempt>,
    GymDataParserError,
>
    decreases s.len(),
{
    if s.len() == 0 {
        Ok(Seq::empty())
    } else {
        match spec_translate_attempt(s[0]) {
            Err(e) => Err(e),
            Ok(a) => match spec_translate_attempts(s.skip(1)) {
                Err(e) => Err(e),
                Ok(rest) => Ok(seq![a] + rest),
            },
        }
    }
}

/// What a set group's texts translate to: all sets in order, stopping at
/// the first failing one.
pub open spec fn spec_translate_group(g: GroupText) -> Result<
    Seq<Seq<Attempt>>,
    GymDataParserError,
>
    decreases g.len(),
{
    if g.len() == 0 {
        Ok(Seq::empty())
    } else {
        match spec_translate_attempts(g[0]) {
            Err(e) => Err(e),
            Ok(s) => match spec_translate_group(g.skip(1)) {
                Err(e) => Err(e),
                Ok(rest) => Ok(seq![s] + rest),
            },
        }
    }
}

/// Translates the attempts of one set node from index `i` on.
fn translate_attempts(v: &Vec<AttemptNode>, i: usize) -> (r: Result<
    Vec<Attempt>,
    GymDataParserError,
>)
    requires
        i <= v@.len(),
    ensures
        match r {
            Ok(out) => spec_translate_attempts(attempts_model(v@).skip(i as int)) == Ok::<Seq<Attempt>, GymDataParserError>(out@),
            Err(e) => spec_translate_attempts(attempts_model(v@).skip(i as int)) == Err::<
                Seq<Attempt>,
                GymDataParserError,
            >(e),
        },
    decreases v@.len() - i,
{
    if i == v.len() {
        proof {
            assert(attempts_model(v@).skip(i as int) =~= Seq::<AttemptText>::empty());
        }
        Ok(Vec::new())
    } else {
        proof {
            assert(attempts_model(v@).skip(i as int)[0] == attempts_model(v@)[i as int]);
            assert(attempts_model(v@).skip(i as int).skip(1) =~= attempts_model(v@).skip(
                i as int + 1,
            ));
        }
        match translate_attempt(&v[i]) {
            Err(e) => Err(e),
            Ok(a) => {
                match translate_attempts(v, i + 1) {
                    Err(e) => Err(e),
                    Ok(mut out) => {
                        let ghost tail = out@;
                        out.insert(0, a);
                        proof {
                            assert(out@ =~= seq![a] + tail);
                        }
                        Ok(out)
                    },
                }
            },
        }
    }
}

/// Translates one set node.
fn translate_set(n: &SetNode) -> (r: Result<ExerciseSet, GymDataParserError>)
    ensures
        match r {
            Ok(s) => spec_translate_attempts(n.model()) == Ok::<Seq<Attempt>, GymDataParserError>(s.attempts@),
            Err(e) => spec_translate_attempts(n.model()) == Err::<Seq<Attempt>, GymDataParserError>(
                e,
            ),
        },
{
    proof {
        assert(attempts_model(n.attempts@).skip(0) =~= attempts_model(n.attempts@));
    }
    match translate_attempts(&n.attempts, 0) {
        Err(e) => Err(e),
        Ok(v) => Ok(ExerciseSet { attempts: v }),
    }
}

/// Translates the set nodes from index `i` on.
fn translate_sets(v: &Vec<SetNode>, i: usize) -> (r: Result<Vec<ExerciseSet>, GymDataParserError>)
    requires
        i <= v@.len(),
    ensures
        match r {
            Ok(out) => spec_translate_group(group_model(v@).skip(i as int)) == Ok::<
                Seq<Seq<Attempt>>,
                GymDataParserError,
            >(sets_model(out@)),
            Err(e) => spec_translate_group(group_model(v@).skip(i as int)) == Err::<
                Seq<Seq<Attempt>>,
                GymDataParserError,
            >(e),
        },
    decreases v@.len() - i,
{
    if i == v.len() {
        let out: Vec<ExerciseSet> = Vec::new();
        proof {
            assert(group_model(v@).skip(i as int) =~= Seq::<Seq<AttemptText>>::empty());
            assert(sets_model(out@) =~= Seq::<Seq<Attempt>>::empty());
        }
        Ok(out)
    } else {
        proof {
            assert(group_model(v@).skip(i as int)[0] == group_model(v@)[i as int]);
            assert(group_model(v@).skip(i as int).skip(1) =~= group_model(v@).skip(i as int + 1));
        }
        match translate_set(&v[i]) {
            Err(e) => Err(e),
            Ok(s) => {
                match translate_sets(v, i + 1) {
                    Err(e) => Err(e),
                    Ok(mut out) => {
                        let ghost tail = out@;
                        out.insert(0, s);
                        proof {
                            assert(sets_model(out@) =~= seq![s.attempts@] + sets_model(tail));
                        }
                        Ok(out)
                    },
                }
            },
        }
    }
}

/// What a whole record's raw content translates to. The checks run in
/// reading order — date, target, then each attempt of each set — and the
/// first failure is the record's error. The name never fails: it is only
/// trimmed; a name of nothing but whitespace becomes the empty name.
pub open spec fn spec_translate_record(m: RecordText) -> Result<RecordModel, GymDataParserError> {
    match spec_translate_date(m.0) {
        Err(e) => Err(e),
        Ok(date) => match spec_translate_target(m.2) {
            Err(e) => Err(e),
            Ok(target) => match spec_translate_group(m.3) {
                Err(e) => Err(e),
                Ok(sets) => Ok(
                    RecordModel { date, exercise_name: trim(m.1), target, sets },
                ),
            },
        },
    }
}

/// Translates one parse-tree record into a typed [`ExerciseRecord`].
pub fn translate_record(rec: &RecordNode) -> (r: Result<ExerciseRecord, GymDataParserError>)
    ensures
        match r {
            Ok(er) => spec_translate_record(rec.model()) == Ok::<RecordModel, GymDataParserError>(er.model()),
            Err(e) => spec_translate_record(rec.model()) == Err::<RecordModel, GymDataParserError>(
                e,
            ),
        },
{
    let date = match translate_date(&rec.date) {
        Ok(d) => d,
        Err(e) => {
            return Err(e);
        },
    };
    let target = match translate_target(&rec.target) {
        Ok(t) => t,
        Err(e) => {
            return Err(e);
        },
    };
    proof {
        assert(group_model(rec.sets@).skip(0) =~= group_model(rec.sets@));
    }
    let sets = match translate_sets(&rec.sets, 0) {
        Ok(s) => s,
        Err(e) => {
            return Err(e);
        },
    };
    let exercise_name = trim_str(rec.exercise_name.as_str());
    let er = ExerciseRecord { date, exercise_name, target, sets };
    Ok(er)
}

} // verus!
