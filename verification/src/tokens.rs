//! The lexical layer of the target and set-group fields: digit runs, letter
//! runs and the single-character separators, with spaces and tabs skipped
//! between tokens. Both fields share this one tokenizer; the record's date
//! and name fields are matched directly on characters instead.

use vstd::prelude::*;

use crate::text::{
    char_is_digit, char_is_letter, char_is_space, is_digit_char, is_letter_char, is_space_char,
};

verus! {

/// A token, at the specification level.
pub enum Tok {
    /// A maximal run of decimal digits.
    IntTok(Seq<char>),
    /// A maximal run of ASCII letters (the `x` and `reps` keywords).
    WordTok(Seq<char>),
    /// `(`
    LParen,
    /// `)`
    RParen,
    /// `-`
    Dash,
    /// `,`
    Comma,
    /// `;`
    Semi,
}

/// A token, as executable data.
#[derive(Debug)]
pub enum Token {
    /// A maximal run of decimal digits.
    IntTok(String),
    /// A maximal run of ASCII letters.
    WordTok(String),
    /// `(`
    LParen,
    /// `)`
    RParen,
    /// `-`
    Dash,
    /// `,`
    Comma,
    /// `;`
    Semi,
}

/// The specification-level content of one token.
pub open spec fn token_model(t: Token) -> Tok {
    match t {
        Token::IntTok(s) => Tok::IntTok(s@),
        Token::WordTok(s) => Tok::WordTok(s@),
        Token::LParen => Tok::LParen,
        Token::RParen => Tok::RParen,
        Token::Dash => Tok::Dash,
        Token::Comma => Tok::Comma,
        Token::Semi => Tok::Semi,
    }
}

/// The specification-level content of a token list.
pub open spec fn tokens_model(v: Seq<Token>) -> Seq<Tok> {
    v.map_values(|t: Token| token_model(t))
}

/// Length of the digit run at the front of `s`.
pub open spec fn digit_run(s: Seq<char>) -> nat
    decreases s.len(),
{
    if s.len() > 0 && is_digit_char(s[0]) {
        1 + digit_run(s.skip(1))
    } else {
        0
    }
}

/// Length of the letter run at the front of `s`.
pub open spec fn letter_run(s: Seq<char>) -> nat
    decreases s.len(),
{
    if s.len() > 0 && is_letter_char(s[0]) {
        1 + letter_run(s.skip(1))
    } else {
        0
    }
}

/// The digit run covers exactly the leading digits of `s`.
pub proof fn lemma_digit_run_props(s: Seq<char>)
    ensures
        digit_run(s) <= s.len(),
        forall|j: int| 0 <= j < digit_run(s) ==> is_digit_char(#[trigger] s[j]),
        digit_run(s) < s.len() ==> !is_digit_char(s[digit_run(s) as int]),
    decreases s.len(),
{
    if s.len() > 0 && is_digit_char(s[0]) {
        lemma_digit_run_props(s.skip(1));
        assert forall|j: int| 0 <= j < digit_run(s) implies is_digit_char(#[trigger] s[j]) by {
            if j >= 1 {
                assert(s[j] == s.skip(1)[j - 1]);
                assert(is_digit_char(s.skip(1)[j - 1]));
            }
        }
        if digit_run(s) < s.len() {
            assert(s[digit_run(s) as int] == s.skip(1)[digit_run(s.skip(1)) as int]);
        }
    }
}

/// The letter run covers exactly the leading letters of `s`.
pub proof fn lemma_letter_run_props(s: Seq<char>)
    ensures
        letter_run(s) <= s.len(),
        forall|j: int| 0 <= j < letter_run(s) ==> is_letter_char(#[trigger] s[j]),
        letter_run(s) < s.len() ==> !is_letter_char(s[letter_run(s) as int]),
    decreases s.len(),
{
    if s.len() > 0 && is_letter_char(s[0]) {
        lemma_letter_run_props(s.skip(1));
        assert forall|j: int| 0 <= j < letter_run(s) implies is_letter_char(#[trigger] s[j]) by {
            if j >= 1 {
                assert(s[j] == s.skip(1)[j - 1]);
                assert(is_letter_char(s.skip(1)[j - 1]));
            }
        }
        if letter_run(s) < s.len() {
            assert(s[letter_run(s) as int] == s.skip(1)[letter_run(s.skip(1)) as int]);
        }
    }
}

/// Puts a token in front of the result of tokenizing a remainder.
pub open spec fn prepend_tok(t: Tok, r: Option<Seq<Tok>>) -> Option<Seq<Tok>> {
    match r {
        None => None,
        Some(v) => Some(seq![t] + v),
    }
}

/// The token list of `s`, or `None` if `s` holds a character that is neither
/// a digit, a letter, one of `( ) - , ;`, nor skippable whitespace.
pub open spec fn spec_tokens(s: Seq<char>) -> Option<Seq<Tok>>
    decreases s.len(),
    via spec_tokens_decreases
{
    if s.len() == 0 {
        Some(Seq::empty())
    } else if is_space_char(s[0]) {
        spec_tokens(s.skip(1))
    } else if s[0] == '(' {
        prepend_tok(Tok::LParen, spec_tokens(s.skip(1)))
    } else if s[0] == ')' {
        prepend_tok(Tok::RParen, spec_tokens(s.skip(1)))
    } else if s[0] == '-' {
        prepend_tok(Tok::Dash, spec_tokens(s.skip(1)))
    } else if s[0] == ',' {
        prepend_tok(Tok::Comma, spec_tokens(s.skip(1)))
    } else if s[0] == ';' {
        prepend_tok(Tok::Semi, spec_tokens(s.skip(1)))
    } else if is_digit_char(s[0]) {
        prepend_tok(Tok::IntTok(s.take(digit_run(s) as int)), spec_tokens(s.skip(digit_run(s) as int)))
    } else if is_letter_char(s[0]) {
        prepend_tok(
            Tok::WordTok(s.take(letter_run(s) as int)),
            spec_tokens(s.skip(letter_run(s) as int)),
        )
    } else {
        None
    }
}

#[via_fn]
proof fn spec_tokens_decreases(s: Seq<char>) {
    lemma_digit_run_props(s);
    lemma_letter_run_props(s);
}

/// Turns a field's text into its token list, or `None` on a character the
/// lexical grammar refuses.
pub fn tokenize(s: &str) -> (r: Option<Vec<Token>>)
    ensures
        match r {
            Some(v) => spec_tokens(s@) == Some(tokens_model(v@)),
            None => spec_tokens(s@) is None,
        },
    decreases s@.len(),
{
    let n = s.unicode_len();
    if n == 0 {
        let v: Vec<Token> = Vec::new();
        proof {
            assert(tokens_model(v@) =~= Seq::<Tok>::empty());
        }
        return Some(v);
    }
    let c = s.get_char(0);
    if char_is_space(c) {
        let rest = s.substring_char(1, n);
        proof {
            assert(rest@ =~= s@.skip(1));
        }
        tokenize(rest)
    } else if c == '(' || c == ')' || c == '-' || c == ',' || c == ';' {
        let t = if c == '(' {
            Token::LParen
        } else if c == ')' {
            Token::RParen
        } else if c == '-' {
            Token::Dash
        } else if c == ',' {
            Token::Comma
        } else {
            Token::Semi
        };
        let rest = s.substring_char(1, n);
        proof {
            assert(rest@ =~= s@.skip(1));
        }
        match tokenize(rest) {
            None => None,
            Some(mut v) => {
                let ghost tail = v@;
                v.insert(0, t);
                proof {
                    assert(tokens_model(v@) =~= seq![token_model(t)] + tokens_model(tail));
                }
                Some(v)
            },
        }
    } else if char_is_digit(c) {
        let mut j: usize = 1;
        while j < n && char_is_digit(s.get_char(j))
            invariant
                1 <= j <= n,
                n == s@.len(),
                forall|m: int| 0 <= m < j ==> is_digit_char(#[trigger] s@[m]),
            decreases n - j,
        {
            j += 1;
        }
        proof {
            lemma_digit_run_props(s@);
            let k = digit_run(s@) as int;
            if j < k {
                assert(is_digit_char(s@[j as int]));
            }
            if k < j {
                assert(is_digit_char(s@[k]));
            }
            assert(j == digit_run(s@));
        }
        let text = s.substring_char(0, j).to_owned();
        let rest = s.substring_char(j, n);
        proof {
            assert(rest@ =~= s@.skip(j as int));
            assert(text@ =~= s@.take(j as int));
        }
        match tokenize(rest) {
            None => None,
            Some(mut v) => {
                let ghost tail = v@;
                let t = Token::IntTok(text);
                v.insert(0, t);
                proof {
                    assert(tokens_model(v@) =~= seq![token_model(t)] + tokens_model(tail));
                }
                Some(v)
            },
        }
    } else if char_is_letter(c) {
        let mut j: usize = 1;
        while j < n && char_is_letter(s.get_char(j))
            invariant
                1 <= j <= n,
                n == s@.len(),
                forall|m: int| 0 <= m < j ==> is_letter_char(#[trigger] s@[m]),
            decreases n - j,
        {
            j += 1;
        }
        proof {
            lemma_letter_run_props(s@);
            let k = letter_run(s@) as int;
            if j < k {
                assert(is_letter_char(s@[j as int]));
            }
            if k < j {
                assert(is_letter_char(s@[k]));
            }
            assert(j == letter_run(s@));
        }
        let text = s.substring_char(0, j).to_owned();
        let rest = s.substring_char(j, n);
        proof {
            assert(rest@ =~= s@.skip(j as int));
            assert(text@ =~= s@.take(j as int));
        }
        match tokenize(rest) {
            None => None,
            Some(mut v) => {
                let ghost tail = v@;
                let t = Token::WordTok(text);
                v.insert(0, t);
                proof {
                    assert(tokens_model(v@) =~= seq![token_model(t)] + tokens_model(tail));
                }
                Some(v)
            },
        }
    } else {
        None
    }
}

/// A character that forms a one-character token: a parenthesis, a dash, a
/// comma or a semicolon.
pub open spec fn is_single_char_tok(c: char) -> bool {
    c == '(' || c == ')' || c == '-' || c == ',' || c == ';'
}

/// Position `i` of `s` touches a separator, existing whitespace, or an edge
/// of the field — the places where the grammar lets whitespace appear.
pub open spec fn space_insertable_at(s: Seq<char>, i: int) -> bool {
    i == 0 || i == s.len() || is_single_char_tok(s[i - 1]) || is_space_char(s[i - 1])
        || is_single_char_tok(s[i]) || is_space_char(s[i])
}

/// Whitespace insensitivity of the lexical layer: inserting a space beside a
/// separator, beside existing whitespace, or at either edge of a field does
/// not change the field's token list. Applied repeatedly, this covers
/// turning `100-10,90-10` into `100-10 , 90-10` and the like.
pub proof fn lemma_tokens_insert_space(s: Seq<char>, i: int)
    requires
        0 <= i <= s.len(),
        space_insertable_at(s, i),
    ensures
        spec_tokens(s.insert(i, ' ')) == spec_tokens(s),
    decreases s.len(),
{
    let t = s.insert(i, ' ');
    s.insert_ensures(i, ' ');
    if i == 0 {
        assert(t[0] == ' ');
        assert(t.skip(1) =~= s);
    } else {
        assert(t[0] == s[0]);
        if is_space_char(s[0]) || is_single_char_tok(s[0]) {
            assert(t.skip(1) =~= s.skip(1).insert(i - 1, ' '));
            assert(space_insertable_at(s.skip(1), i - 1)) by {
                if i - 1 > 0 && i < s.len() {
                    assert(s.skip(1)[i - 2] == s[i - 1]);
                    assert(s.skip(1)[i - 1] == s[i]);
                } else if i - 1 > 0 {
                    assert(s.skip(1)[i - 2] == s[i - 1]);
                }
            }
            lemma_tokens_insert_space(s.skip(1), i - 1);
        } else if is_digit_char(s[0]) {
            let k = digit_run(s) as int;
            lemma_digit_run_props(s);
            lemma_digit_run_props(t);
            assert(i >= k) by {
                if i < k {
                    assert(is_digit_char(s[i - 1]));
                    assert(is_digit_char(s[i]));
                }
            }
            let kt = digit_run(t) as int;
            assert(kt == k) by {
                assert(forall|j: int| 0 <= j < k ==> t[j] == #[trigger] s[j]);
                if k < i {
                    assert(t[k] == s[k]);
                    assert(!is_digit_char(t[k]));
                } else {
                    assert(t[k] == ' ');
                    assert(!is_digit_char(t[k]));
                }
                if kt < k {
                    assert(is_digit_char(s[kt]));
                    assert(t[kt] == s[kt]);
                    assert(!is_digit_char(t[kt]));
                }
                if kt > k {
                    assert(is_digit_char(t[k]));
                }
            }
            assert(t.take(k) =~= s.take(k));
            assert(t.skip(k) =~= s.skip(k).insert(i - k, ' ')) by {
                s.skip(k).insert_ensures(i - k, ' ');
            }
            assert(space_insertable_at(s.skip(k), i - k)) by {
                if i - k > 0 && i < s.len() {
                    assert(s.skip(k)[i - k - 1] == s[i - 1]);
                    assert(s.skip(k)[i - k] == s[i]);
                } else if i - k > 0 && i == s.len() {
                    assert(i - k == s.skip(k).len());
                }
            }
            lemma_tokens_insert_space(s.skip(k), i - k);
        } else if is_letter_char(s[0]) {
            let k = letter_run(s) as int;
            lemma_letter_run_props(s);
            lemma_letter_run_props(t);
            assert(i >= k) by {
                if i < k {
                    assert(is_letter_char(s[i - 1]));
                    assert(is_letter_char(s[i]));
                }
            }
            let kt = letter_run(t) as int;
            assert(kt == k) by {
                assert(forall|j: int| 0 <= j < k ==> t[j] == #[trigger] s[j]);
                if k < i {
                    assert(t[k] == s[k]);
                    assert(!is_letter_char(t[k]));
                } else {
                    assert(t[k] == ' ');
                    assert(!is_letter_char(t[k]));
                }
                if kt < k {
                    assert(is_letter_char(s[kt]));
                    assert(t[kt] == s[kt]);
                    assert(!is_letter_char(t[kt]));
                }
                if kt > k {
                    assert(is_letter_char(t[k]));
                }
            }
            assert(t.take(k) =~= s.take(k));
            assert(t.skip(k) =~= s.skip(k).insert(i - k, ' ')) by {
                s.skip(k).insert_ensures(i - k, ' ');
            }
            assert(space_insertable_at(s.skip(k), i - k)) by {
                if i - k > 0 && i < s.len() {
                    assert(s.skip(k)[i - k - 1] == s[i - 1]);
                    assert(s.skip(k)[i - k] == s[i]);
                } else if i - k > 0 && i == s.len() {
                    assert(i - k == s.skip(k).len());
                }
            }
            lemma_tokens_insert_space(s.skip(k), i - k);
        } else {
            assert(spec_tokens(t) is None && spec_tokens(s) is None);
        }
    }
}

} // verus!
