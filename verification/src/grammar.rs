//! The grammar of the log format, and the parser that matches input against
//! it. A file is newline-separated records; a record is four `/`-separated
//! fields: a `DD.MM.YYYY` date, a free-text exercise name, a parenthesised
//! target, and a set group. The specification functions here define exactly
//! which texts are accepted and what tree they produce; the executable
//! parser is verified against them.

use vstd::prelude::*;

use crate::error::GymDataParserError;
use crate::text::{char_is_digit, is_digit_char, pieces_model, split_on, split_str, trim, trim_str};
use crate::tokens::{
    lemma_tokens_insert_space, space_insertable_at, spec_tokens, tokenize, tokens_model, Tok, Token,
};
use crate::tree::{
    group_model, AttemptNode, AttemptText, DateNode, DateText, FileNode, GroupText, RecordNode,
    RecordText, SetNode, TargetNode, TargetText,
};

verus! {

/// One attempt read from the front of a token list: `integer "-" integer`,
/// the weight first. Yields the digit strings and the remaining tokens.
pub open spec fn spec_attempt_toks(toks: Seq<Tok>) -> Option<(AttemptText, Seq<Tok>)> {
    if toks.len() >= 3 && toks[0] is IntTok && toks[1] is Dash && toks[2] is IntTok {
        Some((((toks[0]->IntTok_0), (toks[2]->IntTok_0)), toks.skip(3)))
    } else {
        None
    }
}

/// One set read from the front of a token list: attempts separated by
/// commas. A comma commits to a further attempt.
pub open spec fn spec_set_toks(toks: Seq<Tok>) -> Option<(Seq<AttemptText>, Seq<Tok>)>
    decreases toks.len(),
{
    match spec_attempt_toks(toks) {
        None => None,
        Some((a, rest)) => {
            if rest.len() > 0 && rest[0] is Comma {
                match spec_set_toks(rest.skip(1)) {
                    None => None,
                    Some((more, rest2)) => Some((seq![a] + more, rest2)),
                }
            } else {
                Some((seq![a], rest))
            }
        },
    }
}

/// Reading a set consumes at least its three leading tokens.
proof fn lemma_set_toks_consumes(toks: Seq<Tok>)
    ensures
        spec_set_toks(toks) is Some ==> (spec_set_toks(toks)->0).1.len() + 3 <= toks.len(),
    decreases toks.len(),
{
    match spec_attempt_toks(toks) {
        None => {},
        Some((a, rest)) => {
            if rest.len() > 0 && rest[0] is Comma {
                lemma_set_toks_consumes(rest.skip(1));
            }
        },
    }
}

/// The whole set group read from the front of a token list: sets separated
/// by semicolons. A semicolon commits to a further set.
pub open spec fn spec_group_toks(toks: Seq<Tok>) -> Option<(GroupText, Seq<Tok>)>
    decreases toks.len(),
    via spec_group_toks_decreases
{
    match spec_set_toks(toks) {
        None => None,
        Some((s, rest)) => {
            if rest.len() > 0 && rest[0] is Semi {
                match spec_group_toks(rest.skip(1)) {
                    None => None,
                    Some((more, rest2)) => Some((seq![s] + more, rest2)),
                }
            } else {
                Some((seq![s], rest))
            }
        },
    }
}

#[via_fn]
proof fn spec_group_toks_decreases(toks: Seq<Tok>) {
    lemma_set_toks_consumes(toks);
}

/// The accepted target shape: `( integer x integer - integer )`, with an
/// optional `reps` word before the closing parenthesis. Yields the three
/// digit strings.
pub open spec fn spec_target_toks(toks: Seq<Tok>) -> Option<TargetText> {
    if toks.len() >= 7 && toks[0] is LParen && toks[1] is IntTok && toks[2] is WordTok && toks[2]->WordTok_0
        =~= seq!['x'] && toks[3] is IntTok && toks[4] is Dash && toks[5] is IntTok {
        if toks.len() == 7 && toks[6] is RParen {
            Some((toks[1]->IntTok_0, toks[3]->IntTok_0, toks[5]->IntTok_0))
        } else if toks.len() == 8 && toks[6] is WordTok && toks[6]->WordTok_0 =~= seq![
            'r',
            'e',
            'p',
            's',
        ] && toks[7] is RParen {
            Some((toks[1]->IntTok_0, toks[3]->IntTok_0, toks[5]->IntTok_0))
        } else {
            None
        }
    } else {
        None
    }
}

/// A target field: its token list must match [`spec_target_toks`] exactly.
pub open spec fn spec_target_field(s: Seq<char>) -> Option<TargetText> {
    match spec_tokens(s) {
        None => None,
        Some(toks) => spec_target_toks(toks),
    }
}

/// A set-group field: its token list must be one whole set group.
pub open spec fn spec_group_field(s: Seq<char>) -> Option<GroupText> {
    match spec_tokens(s) {
        None => None,
        Some(toks) => match spec_group_toks(toks) {
            None => None,
            Some((g, rest)) => if rest.len() == 0 {
                Some(g)
            } else {
                None
            },
        },
    }
}

/// A date field: after trimming, exactly `DD.MM.YYYY` — two digits, a dot,
/// two digits, a dot, four digits. Yields the day, month and year digits.
pub open spec fn spec_date_field(s: Seq<char>) -> Option<DateText> {
    let t = trim(s);
    if t.len() == 10 && is_digit_char(t[0]) && is_digit_char(t[1]) && t[2] == '.' && is_digit_char(
        t[3],
    ) && is_digit_char(t[4]) && t[5] == '.' && is_digit_char(t[6]) && is_digit_char(t[7])
        && is_digit_char(t[8]) && is_digit_char(t[9]) {
        Some((t.subrange(0, 2), t.subrange(3, 5), t.subrange(6, 10)))
    } else {
        None
    }
}

/// One record line: exactly four `/`-separated fields — date, a non-empty
/// name, target, set group. Yields the record's raw content.
pub open spec fn spec_record(line: Seq<char>) -> Option<RecordText> {
    let fields = split_on(line, '/');
    if fields.len() != 4 {
        None
    } else {
        match spec_date_field(fields[0]) {
            None => None,
            Some(d) => {
                if fields[1].len() == 0 {
                    None
                } else {
                    match spec_target_field(fields[2]) {
                        None => None,
                        Some(tg) => match spec_group_field(fields[3]) {
                            None => None,
                            Some(g) => Some((d, fields[1], tg, g)),
                        },
                    }
                }
            },
        }
    }
}

/// Law: whitespace insensitivity of the set group. Inserting a space at any
/// set-group field position beside a `,`, `;` or `-` separator, beside
/// existing whitespace, or at an edge of the field leaves the parsed sets
/// and attempt values exactly as they were; applied repeatedly this turns
/// `100-10,90-10;80-12` into `100-10 , 90-10 ; 80-12` and the like.
pub proof fn lemma_group_whitespace_insensitive(s: Seq<char>, i: int)
    requires
        0 <= i <= s.len(),
        space_insertable_at(s, i),
    ensures
        spec_group_field(s.insert(i, ' ')) == spec_group_field(s),
{
    lemma_tokens_insert_space(s, i);
}

/// Law: whitespace insensitivity of the target. Inserting a space beside a
/// separator, beside existing whitespace, or at an edge of the target field
/// leaves the parsed target triple unchanged.
pub proof fn lemma_target_whitespace_insensitive(s: Seq<char>, i: int)
    requires
        0 <= i <= s.len(),
        space_insertable_at(s, i),
    ensures
        spec_target_field(s.insert(i, ' ')) == spec_target_field(s),
{
    lemma_tokens_insert_space(s, i);
}

/// Does this token open a parenthesis?
fn tok_is_lparen(t: &Token) -> (r: bool)
    ensures
        r == (crate::tokens::token_model(*t) is LParen),
{
    match t {
        Token::LParen => true,
        _ => false,
    }
}

/// Does this token close a parenthesis?
fn tok_is_rparen(t: &Token) -> (r: bool)
    ensures
        r == (crate::tokens::token_model(*t) is RParen),
{
    match t {
        Token::RParen => true,
        _ => false,
    }
}

/// Is this token a comma?
fn tok_is_comma(t: &Token) -> (r: bool)
    ensures
        r == (crate::tokens::token_model(*t) is Comma),
{
    match t {
        Token::Comma => true,
        _ => false,
    }
}

/// Is this token a semicolon?
fn tok_is_semi(t: &Token) -> (r: bool)
    ensures
        r == (crate::tokens::token_model(*t) is Semi),
{
    match t {
        Token::Semi => true,
        _ => false,
    }
}

/// Is this word exactly the keyword `x`?
fn word_is_x(w: &String) -> (r: bool)
    ensures
        r == (w@ == seq!['x']),
{
    let s = w.as_str();
    let r = s.unicode_len() == 1 && s.get_char(0) == 'x';
    proof {
        if r {
            assert(w@ =~= seq!['x']);
        } else {
            assert(w@ != seq!['x']) by {
                if w@ == seq!['x'] {
                    assert(w@.len() == 1 && w@[0] == 'x');
                }
            }
        }
    }
    r
}

/// Is this word exactly the keyword `reps`?
fn word_is_reps(w: &String) -> (r: bool)
    ensures
        r == (w@ == seq!['r', 'e', 'p', 's']),
{
    let s = w.as_str();
    let r = s.unicode_len() == 4 && s.get_char(0) == 'r' && s.get_char(1) == 'e' && s.get_char(2)
        == 'p' && s.get_char(3) == 's';
    proof {
        if r {
            assert(w@ =~= seq!['r', 'e', 'p', 's']);
        } else {
            assert(w@ != seq!['r', 'e', 'p', 's']) by {
                if w@ == seq!['r', 'e', 'p', 's'] {
                    assert(w@.len() == 4 && w@[0] == 'r' && w@[1] == 'e' && w@[2] == 'p' && w@[3]
                        == 's');
                }
            }
        }
    }
    r
}

/// Parses a date field into its digit strings.
pub fn parse_date(field: &str) -> (r: Option<DateNode>)
    ensures
        match r {
            Some(n) => spec_date_field(field@) == Some(n.model()),
            None => spec_date_field(field@) is None,
        },
{
    let t = trim_str(field);
    let ts = t.as_str();
    let n = ts.unicode_len();
    if n != 10 {
        return None;
    }
    if !(char_is_digit(ts.get_char(0)) && char_is_digit(ts.get_char(1)) && ts.get_char(2) == '.'
        && char_is_digit(ts.get_char(3)) && char_is_digit(ts.get_char(4)) && ts.get_char(5) == '.'
        && char_is_digit(ts.get_char(6)) && char_is_digit(ts.get_char(7)) && char_is_digit(
        ts.get_char(8),
    ) && char_is_digit(ts.get_char(9))) {
        return None;
    }
    let day = ts.substring_char(0, 2).to_owned();
    let month = ts.substring_char(3, 5).to_owned();
    let year = ts.substring_char(6, 10).to_owned();
    let node = DateNode { day, month, year };
    proof {
        assert(spec_date_field(field@) == Some(node.model()));
    }
    Some(node)
}

/// Parses a target field into its three digit strings.
pub fn parse_target(field: &str) -> (r: Option<TargetNode>)
    ensures
        match r {
            Some(n) => spec_target_field(field@) == Some(n.model()),
            None => spec_target_field(field@) is None,
        },
{
    let toks = match tokenize(field) {
        Some(t) => t,
        None => {
            return None;
        },
    };
    let ghost m = tokens_model(toks@);
    let n = toks.len();
    if !(n == 7 || n == 8) {
        return None;
    }
    if !tok_is_lparen(&toks[0]) {
        return None;
    }
    let sets_count = match &toks[1] {
        Token::IntTok(s) => s.clone(),
        _ => {
            return None;
        },
    };
    let xw = match &toks[2] {
        Token::WordTok(s) => s,
        _ => {
            return None;
        },
    };
    if !word_is_x(xw) {
        return None;
    }
    let min_reps = match &toks[3] {
        Token::IntTok(s) => s.clone(),
        _ => {
            return None;
        },
    };
    match &toks[4] {
        Token::Dash => {},
        _ => {
            return None;
        },
    };
    let max_reps = match &toks[5] {
        Token::IntTok(s) => s.clone(),
        _ => {
            return None;
        },
    };
    if n == 7 {
        if !tok_is_rparen(&toks[6]) {
            return None;
        }
    } else {
        let rw = match &toks[6] {
            Token::WordTok(s) => s,
            _ => {
                return None;
            },
        };
        if !word_is_reps(rw) {
            return None;
        }
        if !tok_is_rparen(&toks[7]) {
            return None;
        }
    }
    let node = TargetNode { sets_count, min_reps, max_reps };
    proof {
        assert(spec_target_toks(m) == Some(node.model()));
    }
    Some(node)
}

/// Parses one attempt at token position `i`.
fn parse_attempt(toks: &Vec<Token>, i: usize) -> (r: Option<(AttemptNode, usize)>)
    requires
        i <= toks@.len(),
    ensures
        match r {
            Some(p) => spec_attempt_toks(tokens_model(toks@).skip(i as int)) == Some(
                (p.0.model(), tokens_model(toks@).skip(p.1 as int)),
            ) && i < p.1 <= toks@.len(),
            None => spec_attempt_toks(tokens_model(toks@).skip(i as int)) is None,
        },
{
    let ghost m = tokens_model(toks@);
    let n = toks.len();
    if n - i < 3 {
        return None;
    }
    let weight = match &toks[i] {
        Token::IntTok(s) => s.clone(),
        _ => {
            return None;
        },
    };
    match &toks[i + 1] {
        Token::Dash => {},
        _ => {
            return None;
        },
    };
    let reps = match &toks[i + 2] {
        Token::IntTok(s) => s.clone(),
        _ => {
            return None;
        },
    };
    let node = AttemptNode { weight, reps };
    proof {
        assert(m.skip(i as int).skip(3) =~= m.skip(i as int + 3));
        assert(spec_attempt_toks(m.skip(i as int)) == Some((node.model(), m.skip(i as int + 3))));
    }
    Some((node, i + 3))
}

/// Parses one set at token position `i`.
fn parse_set(toks: &Vec<Token>, i: usize) -> (r: Option<(SetNode, usize)>)
    requires
        i <= toks@.len(),
    ensures
        match r {
            Some(p) => spec_set_toks(tokens_model(toks@).skip(i as int)) == Some(
                (p.0.model(), tokens_model(toks@).skip(p.1 as int)),
            ) && i < p.1 <= toks@.len(),
            None => spec_set_toks(tokens_model(toks@).skip(i as int)) is None,
        },
    decreases toks@.len() - i,
{
    let ghost m = tokens_model(toks@);
    match parse_attempt(toks, i) {
        None => None,
        Some((a, j)) => {
            if j < toks.len() && tok_is_comma(&toks[j]) {
                proof {
                    assert(m.skip(j as int)[0] == m[j as int]);
                    assert(m.skip(j as int).skip(1) =~= m.skip(j as int + 1));
                }
                match parse_set(toks, j + 1) {
                    None => None,
                    Some((mut sn, k)) => {
                        let ghost tail = sn.attempts@;
                        sn.attempts.insert(0, a);
                        proof {
                            assert(sn.model() =~= seq![
                                (spec_attempt_toks(m.skip(i as int))->0).0,
                            ] + crate::tree::attempts_model(tail));
                        }
                        Some((sn, k))
                    },
                }
            } else {
                proof {
                    if j < toks.len() {
                        assert(m.skip(j as int)[0] == m[j as int]);
                    }
                }
                let attempts = vec![a];
                let node = SetNode { attempts };
                proof {
                    assert(node.model() =~= seq![(spec_attempt_toks(m.skip(i as int))->0).0]);
                }
                Some((node, j))
            }
        },
    }
}

/// Parses the whole set group at token position `i`.
fn parse_set_group(toks: &Vec<Token>, i: usize) -> (r: Option<(Vec<SetNode>, usize)>)
    requires
        i <= toks@.len(),
    ensures
        match r {
            Some(p) => spec_group_toks(tokens_model(toks@).skip(i as int)) == Some(
                (group_model(p.0@), tokens_model(toks@).skip(p.1 as int)),
            ) && i < p.1 <= toks@.len(),
            None => spec_group_toks(tokens_model(toks@).skip(i as int)) is None,
        },
    decreases toks@.len() - i,
{
    let ghost m = tokens_model(toks@);
    match parse_set(toks, i) {
        None => None,
        Some((sn, j)) => {
            if j < toks.len() && tok_is_semi(&toks[j]) {
                proof {
                    assert(m.skip(j as int)[0] == m[j as int]);
                    assert(m.skip(j as int).skip(1) =~= m.skip(j as int + 1));
                }
                match parse_set_group(toks, j + 1) {
                    None => None,
                    Some((mut sets, k)) => {
                        let ghost tail = sets@;
                        sets.insert(0, sn);
                        proof {
                            assert(group_model(sets@) =~= seq![
                                (spec_set_toks(m.skip(i as int))->0).0,
                            ] + group_model(tail));
                        }
                        Some((sets, k))
                    },
                }
            } else {
                proof {
                    if j < toks.len() {
                        assert(m.skip(j as int)[0] == m[j as int]);
                    }
                }
                let sets = vec![sn];
                proof {
                    assert(group_model(sets@) =~= seq![(spec_set_toks(m.skip(i as int))->0).0]);
                }
                Some((sets, j))
            }
        },
    }
}

/// Parses one line as a record.
pub fn parse_record(line: &str) -> (r: Option<RecordNode>)
    ensures
        match r {
            Some(n) => spec_record(line@) == Some(n.model()),
            None => spec_record(line@) is None,
        },
{
    let fields = split_str(line, '/');
    let ghost fm = pieces_model(fields@);
    if fields.len() != 4 {
        return None;
    }
    let date = match parse_date(fields[0].as_str()) {
        Some(d) => d,
        None => {
            return None;
        },
    };
    if fields[1].as_str().unicode_len() == 0 {
        return None;
    }
    let target = match parse_target(fields[2].as_str()) {
        Some(t) => t,
        None => {
            return None;
        },
    };
    let gtoks = match tokenize(fields[3].as_str()) {
        Some(t) => t,
        None => {
            return None;
        },
    };
    proof {
        assert(tokens_model(gtoks@).skip(0) =~= tokens_model(gtoks@));
    }
    let parsed_group = match parse_set_group(&gtoks, 0) {
        Some(p) => p,
        None => {
            return None;
        },
    };
    let (sets, j) = parsed_group;
    if j != gtoks.len() {
        proof {
            assert(tokens_model(gtoks@).skip(j as int).len() != 0);
        }
        return None;
    }
    let name = fields[1].clone();
    let node = RecordNode { date, exercise_name: name, target, sets };
    proof {
        assert(tokens_model(gtoks@).skip(j as int).len() == 0);
        assert(spec_record(line@) == Some(node.model()));
    }
    Some(node)
}

/// The newline-separated lines of a whole input text.
pub open spec fn input_lines(s: Seq<char>) -> Seq<Seq<char>> {
    split_on(s, '\n')
}

/// Line `k` (0-based) is the first line that does not match the record rule.
pub open spec fn first_bad_line(lines: Seq<Seq<char>>, k: int) -> bool {
    0 <= k < lines.len() && spec_record(lines[k]) is None && (forall|j: int|
        0 <= j < k ==> spec_record(#[trigger] lines[j]) is Some)
}

/// The syntax error reported for a failure on 0-based line `k`.
pub open spec fn syntax_error_at(k: int) -> GymDataParserError {
    GymDataParserError::ParseError { line: (k + 1) as usize }
}

/// The grammar of the exercise-log format. Its one operation matches a whole
/// file's text against the `file` rule.
pub struct Grammar;

impl Grammar {
    /// Parses a whole file into its tree: every newline-separated line must
    /// be one record. On failure, reports the first offending line, 1-based.
    pub fn parse_file(input: &str) -> (r: Result<FileNode, GymDataParserError>)
        ensures
            ({
                let lines = input_lines(input@);
                match r {
                    Ok(f) => (f.records@.len() == lines.len() && (forall|i: int|
                        0 <= i < lines.len() ==> spec_record(#[trigger] lines[i]) is Some) && (
                    forall|i: int|
                        0 <= i < lines.len() ==> (#[trigger] f.records@[i]).model() == spec_record(
                            lines[i],
                        )->0)),
                    Err(e) => (exists|k: int|
                        #[trigger] first_bad_line(input_lines(input@), k) && e == syntax_error_at(
                            k,
                        )),
                }
            }),
    {
        let ghost lines = input_lines(input@);
        let pieces = split_str(input, '\n');
        let mut records: Vec<RecordNode> = Vec::new();
        let mut i: usize = 0;
        while i < pieces.len()
            invariant
                i <= pieces@.len(),
                lines == input_lines(input@),
                pieces_model(pieces@) == lines,
                records@.len() == i,
                forall|j: int| 0 <= j < i ==> spec_record(#[trigger] lines[j]) is Some,
                forall|j: int|
                    0 <= j < i ==> (#[trigger] records@[j]).model() == spec_record(lines[j])->0,
            decreases pieces@.len() - i,
        {
            match parse_record(pieces[i].as_str()) {
                None => {
                    let line_no: usize = i + 1;
                    let err = GymDataParserError::ParseError { line: line_no };
                    proof {
                        assert(pieces_model(pieces@)[i as int] == pieces@[i as int]@);
                        assert(spec_record(lines[i as int]) is None);
                        assert(first_bad_line(lines, i as int));
                        assert(err == syntax_error_at(i as int));
                        assert(exists|k: int|
                            #[trigger] first_bad_line(lines, k) && err == syntax_error_at(k));
                    }
                    return Err(err);
                },
                Some(n) => {
                    records.push(n);
                },
            }
            i += 1;
        }
        Ok(FileNode { records })
    }
}

} // verus!
