//! Character-level ground work: character classes, digit-string values,
//! splitting at a separator character, and whitespace trimming — each as a
//! specification function with a verified executable counterpart.

use vstd::prelude::*;

verus! {

/// The whitespace the grammar skips around separators: spaces and tabs.
pub open spec fn is_space_char(c: char) -> bool {
    c == ' ' || c == '\t'
}

/// A decimal digit.
pub open spec fn is_digit_char(c: char) -> bool {
    ('0' as u32) <= (c as u32) && (c as u32) <= ('9' as u32)
}

/// An ASCII letter, the material of the `x` and `reps` keywords.
pub open spec fn is_letter_char(c: char) -> bool {
    (('a' as u32) <= (c as u32) && (c as u32) <= ('z' as u32)) || (('A' as u32) <= (c as u32) && (
    c as u32) <= ('Z' as u32))
}

/// The numeric value of one digit character.
pub open spec fn digit_value(c: char) -> int {
    (c as u32) - ('0' as u32)
}

/// The number a digit string denotes, most significant digit first.
pub open spec fn digits_value(s: Seq<char>) -> int
    decreases s.len(),
{
    if s.len() == 0 {
        0
    } else {
        digits_value(s.drop_last()) * 10 + digit_value(s.last())
    }
}

/// Every character of `s` is a decimal digit.
pub open spec fn all_digits(s: Seq<char>) -> bool {
    forall|i: int| 0 <= i < s.len() ==> is_digit_char(#[trigger] s[i])
}

/// A digit string's value is never negative.
pub proof fn lemma_digits_value_nonneg(s: Seq<char>)
    requires
        all_digits(s),
    ensures
        digits_value(s) >= 0,
    decreases s.len(),
{
    if s.len() > 0 {
        assert(all_digits(s.drop_last()));
        lemma_digits_value_nonneg(s.drop_last());
    }
}

/// A prefix of a digit string never denotes more than the whole string.
pub proof fn lemma_digits_value_prefix_le(s: Seq<char>, j: int)
    requires
        all_digits(s),
        0 <= j <= s.len(),
    ensures
        digits_value(s.take(j)) <= digits_value(s),
    decreases s.len() - j,
{
    if j == s.len() {
        assert(s.take(j) =~= s);
    } else {
        assert(s.take(j + 1).drop_last() =~= s.take(j));
        assert(s.take(j + 1).last() == s[j]);
        assert(all_digits(s.take(j)));
        lemma_digits_value_nonneg(s.take(j));
        assert(digits_value(s.take(j + 1)) == digits_value(s.take(j)) * 10 + digit_value(s[j]));
        assert(digits_value(s.take(j)) <= digits_value(s.take(j + 1)));
        lemma_digits_value_prefix_le(s, j + 1);
    }
}

/// Splitting `s` at `sep`, with `cur` the piece gathered so far: the list of
/// separated pieces, none containing `sep`. A separator at the very end
/// yields a trailing empty piece, and an input without any separator yields
/// exactly one piece.
pub open spec fn split_at(s: Seq<char>, sep: char, cur: Seq<char>) -> Seq<Seq<char>>
    decreases s.len(),
{
    if s.len() == 0 {
        seq![cur]
    } else if s[0] == sep {
        seq![cur] + split_at(s.skip(1), sep, Seq::empty())
    } else {
        split_at(s.skip(1), sep, cur.push(s[0]))
    }
}

/// The pieces of `s` between occurrences of `sep`.
pub open spec fn split_on(s: Seq<char>, sep: char) -> Seq<Seq<char>> {
    split_at(s, sep, Seq::empty())
}

/// Splitting looks only at the first separator: everything before position
/// `k` (the first occurrence of `sep`, or the end) joins the current piece.
proof fn lemma_split_at_first(s: Seq<char>, sep: char, cur: Seq<char>, k: int)
    requires
        0 <= k <= s.len(),
        forall|j: int| 0 <= j < k ==> s[j] != sep,
    ensures
        k == s.len() ==> split_at(s, sep, cur) == seq![cur + s],
        k < s.len() && s[k] == sep ==> split_at(s, sep, cur) == seq![cur + s.take(k)] + split_at(
            s.skip(k + 1),
            sep,
            Seq::empty(),
        ),
    decreases k,
{
    if k == 0 {
        if s.len() == 0 {
            assert(cur + s =~= cur);
        } else if s[0] == sep {
            assert(cur + s.take(0) =~= cur);
            assert(s.skip(0 as int + 1) =~= s.skip(1));
        }
    } else {
        let s1 = s.skip(1);
        let cur1 = cur.push(s[0]);
        lemma_split_at_first(s1, sep, cur1, k - 1);
        if k == s.len() {
            assert(cur1 + s1 =~= cur + s);
        } else if s[k] == sep {
            assert(s1[k - 1] == s[k]);
            assert(cur1 + s1.take(k - 1) =~= cur + s.take(k));
            assert(s1.skip(k) =~= s.skip(k + 1));
        }
    }
}

/// The views of a vector of owned pieces.
pub open spec fn pieces_model(v: Seq<String>) -> Seq<Seq<char>> {
    v.map_values(|p: String| p@)
}

/// Is this character a space or tab?
pub fn char_is_space(c: char) -> (r: bool)
    ensures
        r == is_space_char(c),
{
    c == ' ' || c == '\t'
}

/// Is this character a decimal digit?
pub fn char_is_digit(c: char) -> (r: bool)
    ensures
        r == is_digit_char(c),
{
    let u: u32 = c as u32;
    '0' as u32 <= u && u <= '9' as u32
}

/// Is this character an ASCII letter?
pub fn char_is_letter(c: char) -> (r: bool)
    ensures
        r == is_letter_char(c),
{
    let u: u32 = c as u32;
    ('a' as u32 <= u && u <= 'z' as u32) || ('A' as u32 <= u && u <= 'Z' as u32)
}

/// Splits `s` into the pieces between occurrences of `sep`.
pub fn split_str(s: &str, sep: char) -> (r: Vec<String>)
    ensures
        pieces_model(r@) == split_on(s@, sep),
        r@.len() >= 1,
    decreases s@.len(),
{
    let n = s.unicode_len();
    let mut k: usize = 0;
    while k < n && s.get_char(k) != sep
        invariant
            0 <= k <= n,
            n == s@.len(),
            forall|j: int| 0 <= j < k ==> s@[j] != sep,
        decreases n - k,
    {
        k += 1;
    }
    if k == n {
        let piece = s.to_owned();
        let r = vec![piece];
        proof {
            lemma_split_at_first(s@, sep, Seq::empty(), k as int);
            assert(Seq::empty() + s@ =~= s@);
            assert(pieces_model(r@) =~= seq![s@]);
        }
        r
    } else {
        let piece = s.substring_char(0, k).to_owned();
        let rest = s.substring_char(k + 1, n);
        proof {
            assert(rest@ =~= s@.skip(k + 1));
        }
        let mut r = split_str(rest, sep);
        r.insert(0, piece);
        proof {
            lemma_split_at_first(s@, sep, Seq::empty(), k as int);
            assert(Seq::empty() + s@.take(k as int) =~= s@.take(k as int));
            assert(piece@ =~= s@.take(k as int));
            assert(pieces_model(r@) =~= seq![s@.take(k as int)] + split_on(s@.skip(k + 1), sep));
        }
        r
    }
}

/// How often `c` occurs in `s`.
pub open spec fn count_char(s: Seq<char>, c: char) -> int
    decreases s.len(),
{
    if s.len() == 0 {
        0
    } else {
        (if s[0] == c {
            1int
        } else {
            0int
        }) + count_char(s.skip(1), c)
    }
}

/// A count of occurrences is never negative.
proof fn lemma_count_char_nonneg(s: Seq<char>, c: char)
    ensures
        count_char(s, c) >= 0,
    decreases s.len(),
{
    if s.len() > 0 {
        lemma_count_char_nonneg(s.skip(1), c);
    }
}

/// The pieces joined back together, with `sep` between them.
pub open spec fn join_with(ps: Seq<Seq<char>>, sep: char) -> Seq<char>
    recommends
        ps.len() >= 1,
    decreases ps.len(),
{
    if ps.len() <= 1 {
        ps[0]
    } else {
        ps[0] + seq![sep] + join_with(ps.skip(1), sep)
    }
}

/// What splitting with an accumulated piece produces, characterised.
proof fn lemma_split_at_props(s: Seq<char>, sep: char, cur: Seq<char>)
    requires
        forall|j: int| 0 <= j < cur.len() ==> cur[j] != sep,
    ensures
        split_at(s, sep, cur).len() == count_char(s, sep) + 1,
        forall|i: int, j: int|
            0 <= i < split_at(s, sep, cur).len() && 0 <= j < split_at(s, sep, cur)[i].len()
                ==> #[trigger] split_at(s, sep, cur)[i][j] != sep,
        join_with(split_at(s, sep, cur), sep) == cur + s,
    decreases s.len(),
{
    let r = split_at(s, sep, cur);
    if s.len() == 0 {
        assert(r =~= seq![cur]);
        assert(join_with(r, sep) == cur);
        assert(cur + s =~= cur);
    } else if s[0] == sep {
        lemma_split_at_props(s.skip(1), sep, Seq::empty());
        lemma_count_char_nonneg(s.skip(1), sep);
        let rest = split_at(s.skip(1), sep, Seq::empty());
        assert(r =~= seq![cur] + rest);
        assert(rest.len() >= 1);
        assert(r.len() == 1 + rest.len());
        assert forall|i: int, j: int|
            0 <= i < r.len() && 0 <= j < r[i].len() implies #[trigger] r[i][j] != sep by {
            if i >= 1 {
                assert(r[i] == rest[i - 1]);
                assert(rest[i - 1][j] != sep);
            }
        }
        assert(r.skip(1) =~= rest);
        assert(join_with(r, sep) == cur + seq![sep] + join_with(rest, sep));
        assert(cur + seq![sep] + (Seq::empty() + s.skip(1)) =~= cur + s);
    } else {
        lemma_split_at_props(s.skip(1), sep, cur.push(s[0]));
        assert(r == split_at(s.skip(1), sep, cur.push(s[0])));
        assert(cur.push(s[0]) + s.skip(1) =~= cur + s);
    }
}

/// Law: what splitting means. The pieces of [`split_on`] never contain the
/// separator, there is exactly one piece per separator occurrence plus one,
/// and joining the pieces with the separator restores the original text. In
/// particular the lines of a log are its `\n`-separated pieces and the
/// fields of a line its `/`-separated pieces, nothing more and nothing less.
pub proof fn lemma_split_on_props(s: Seq<char>, sep: char)
    ensures
        split_on(s, sep).len() == count_char(s, sep) + 1,
        forall|i: int, j: int|
            0 <= i < split_on(s, sep).len() && 0 <= j < split_on(s, sep)[i].len()
                ==> #[trigger] split_on(s, sep)[i][j] != sep,
        join_with(split_on(s, sep), sep) == s,
{
    lemma_split_at_props(s, sep, Seq::empty());
    assert(Seq::empty() + s =~= s);
}

/// `s` with leading spaces and tabs removed.
pub open spec fn trim_front(s: Seq<char>) -> Seq<char>
    decreases s.len(),
{
    if s.len() > 0 && is_space_char(s[0]) {
        trim_front(s.skip(1))
    } else {
        s
    }
}

/// `s` with trailing spaces and tabs removed.
pub open spec fn trim_back(s: Seq<char>) -> Seq<char>
    decreases s.len(),
{
    if s.len() > 0 && is_space_char(s.last()) {
        trim_back(s.drop_last())
    } else {
        s
    }
}

/// `s` with surrounding spaces and tabs removed.
pub open spec fn trim(s: Seq<char>) -> Seq<char> {
    trim_back(trim_front(s))
}

/// Trimming the front keeps exactly the part after the leading spaces.
proof fn lemma_trim_front_at(s: Seq<char>, a: int)
    requires
        0 <= a <= s.len(),
        forall|j: int| 0 <= j < a ==> is_space_char(#[trigger] s[j]),
        a < s.len() ==> !is_space_char(s[a]),
    ensures
        trim_front(s) == s.skip(a),
    decreases a,
{
    if a == 0 {
        assert(s.skip(0) =~= s);
    } else {
        lemma_trim_front_at(s.skip(1), a - 1);
        assert(s.skip(1).skip(a - 1) =~= s.skip(a));
    }
}

/// Trimming the back keeps exactly the part before the trailing spaces.
proof fn lemma_trim_back_at(s: Seq<char>, b: int)
    requires
        0 <= b <= s.len(),
        forall|j: int| b <= j < s.len() ==> is_space_char(#[trigger] s[j]),
        b > 0 ==> !is_space_char(s[b - 1]),
    ensures
        trim_back(s) == s.take(b),
    decreases s.len() - b,
{
    if b == s.len() {
        assert(s.take(b) =~= s);
    } else {
        lemma_trim_back_at(s.drop_last(), b);
        assert(s.drop_last().take(b) =~= s.take(b));
    }
}

/// Copies `s` without its surrounding spaces and tabs.
pub fn trim_str(s: &str) -> (r: String)
    ensures
        r@ == trim(s@),
{
    let n = s.unicode_len();
    let mut a: usize = 0;
    while a < n && char_is_space(s.get_char(a))
        invariant
            0 <= a <= n,
            n == s@.len(),
            forall|j: int| 0 <= j < a ==> is_space_char(#[trigger] s@[j]),
        decreases n - a,
    {
        a += 1;
    }
    let mut b: usize = n;
    while b > a && char_is_space(s.get_char(b - 1))
        invariant
            a <= b <= n,
            n == s@.len(),
            forall|j: int| b <= j < n ==> is_space_char(#[trigger] s@[j]),
        decreases b,
    {
        b -= 1;
    }
    let r = s.substring_char(a, b).to_owned();
    proof {
        lemma_trim_front_at(s@, a as int);
        lemma_trim_back_at(s@.skip(a as int), b - a);
        assert(s@.skip(a as int).take(b - a) =~= s@.subrange(a as int, b as int));
    }
    r
}

} // verus!
