//! Character-level text utilities shared by the parsers.
//!
//! All parsing in this crate works over `Vec<char>` / `Seq<char>`, so the
//! helpers here move between `&str` and character vectors and provide exact
//! specifications for trimming, searching and numeric tokens.

use vstd::prelude::*;
use vstd::string::StrSliceExecFns;

verus! {

/// The whitespace characters this library trims around fields and lines.
pub open spec fn is_space(c: char) -> bool {
    c == ' ' || c == '\t' || c == '\r' || c == '\n'
}

/// Executable test for [`is_space`].
pub fn space(c: char) -> (r: bool)
    ensures
        r == is_space(c),
{
    c == ' ' || c == '\t' || c == '\r' || c == '\n'
}

/// The characters of a string as a vector, in order.
pub fn chars_of(s: &str) -> (r: Vec<char>)
    ensures
        r@ == s@,
{
    let n = s.unicode_len();
    let mut r: Vec<char> = Vec::new();
    let mut i: usize = 0;
    while i < n
        invariant
            n == s@.len(),
            i <= n,
            r@ == s@.subrange(0, i as int),
        decreases n - i,
    {
        let c = s.get_char(i);
        r.push(c);
        i = i + 1;
        proof {
            assert(r@ =~= s@.subrange(0, i as int));
        }
    }
    proof {
        assert(r@ =~= s@);
    }
    r
}

/// Relies on `String::push`: appends one character to the end of the string.
#[verifier::external_body]
fn push_char(s: &mut String, c: char)
    ensures
        final(s)@ == old(s)@.push(c),
{
    s.push(c);
}

/// A freshly allocated string holding exactly the given characters.
pub fn string_from_chars(v: &Vec<char>) -> (r: String)
    ensures
        r@ == v@,
{
    let mut r = String::new();
    let mut i: usize = 0;
    while i < v.len()
        invariant
            i <= v@.len(),
            r@ == v@.subrange(0, i as int),
        decreases v@.len() - i,
    {
        push_char(&mut r, v[i]);
        i = i + 1;
        proof {
            assert(r@ =~= v@.subrange(0, i as int));
        }
    }
    proof {
        assert(r@ =~= v@);
    }
    r
}

/// The characters `v[from..to]` as a fresh vector.
pub fn sub_chars(v: &Vec<char>, from: usize, to: usize) -> (r: Vec<char>)
    requires
        from <= to <= v@.len(),
    ensures
        r@ == v@.subrange(from as int, to as int),
{
    let mut r: Vec<char> = Vec::new();
    let mut i: usize = from;
    while i < to
        invariant
            from <= i <= to <= v@.len(),
            r@ == v@.subrange(from as int, i as int),
        decreases to - i,
    {
        r.push(v[i]);
        i = i + 1;
        proof {
            assert(r@ =~= v@.subrange(from as int, i as int));
        }
    }
    r
}

/// Whether two strings hold the same characters.
pub fn str_eq(a: &str, b: &str) -> (r: bool)
    ensures
        r == (a@ == b@),
{
    let na = a.unicode_len();
    let nb = b.unicode_len();
    if na != nb {
        proof {
            assert(a@ != b@) by {
                assert(a@.len() != b@.len());
            }
        }
        return false;
    }
    let mut i: usize = 0;
    while i < na
        invariant
            na == a@.len() && na == b@.len(),
            i <= na,
            a@.subrange(0, i as int) == b@.subrange(0, i as int),
        decreases na - i,
    {
        if a.get_char(i) != b.get_char(i) {
            return false;
        }
        i = i + 1;
        proof {
            assert(a@.subrange(0, i as int) =~= b@.subrange(0, i as int));
        }
    }
    proof {
        assert(a@.subrange(0, na as int) =~= a@);
        assert(b@.subrange(0, na as int) =~= b@);
    }
    true
}

/// First index at or after `from` holding `c`, if any.
pub open spec fn find_from(s: Seq<char>, from: int, c: char) -> Option<int>
    decreases s.len() - from,
{
    if from >= s.len() || from < 0 {
        None
    } else if s[from] == c {
        Some(from)
    } else {
        find_from(s, from + 1, c)
    }
}

/// What a successful or failed [`find_from`] means for the characters of `s`.
pub proof fn lemma_find_from(s: Seq<char>, from: int, c: char)
    requires
        0 <= from <= s.len(),
    ensures
        match find_from(s, from, c) {
            Some(i) => from <= i < s.len() && s[i] == c && forall|j: int|
                from <= j < i ==> s[j] != c,
            None => forall|j: int| from <= j < s.len() ==> s[j] != c,
        },
    decreases s.len() - from,
{
    if from < s.len() && s[from] != c {
        lemma_find_from(s, from + 1, c);
    }
}

/// Executable search matching [`find_from`].
pub fn vec_find_from(v: &Vec<char>, from: usize, c: char) -> (r: Option<usize>)
    requires
        from <= v@.len(),
    ensures
        match r {
            Some(i) => from <= i < v@.len() && find_from(v@, from as int, c) == Some(i as int),
            None => find_from(v@, from as int, c) is None,
        },
{
    let mut i: usize = from;
    while i < v.len()
        invariant
            from <= i <= v@.len(),
            find_from(v@, from as int, c) == find_from(v@, i as int, c),
        decreases v@.len() - i,
    {
        if v[i] == c {
            return Some(i);
        }
        i = i + 1;
    }
    None
}

/// First index at or after `from` holding a non-space character, or the length.
pub open spec fn skip_spaces(s: Seq<char>, from: int) -> int
    decreases s.len() - from,
{
    if from >= s.len() || from < 0 {
        s.len() as int
    } else if is_space(s[from]) {
        skip_spaces(s, from + 1)
    } else {
        from
    }
}

/// Bounds and character facts for [`skip_spaces`].
pub proof fn lemma_skip_spaces(s: Seq<char>, from: int)
    requires
        0 <= from <= s.len(),
    ensures
        from <= skip_spaces(s, from) <= s.len(),
        skip_spaces(s, from) < s.len() ==> !is_space(s[skip_spaces(s, from)]),
        forall|j: int| from <= j < skip_spaces(s, from) ==> is_space(s[j]),
    decreases s.len() - from,
{
    if from < s.len() && is_space(s[from]) {
        lemma_skip_spaces(s, from + 1);
    }
}

/// Executable scan matching [`skip_spaces`].
pub fn vec_skip_spaces(v: &Vec<char>, from: usize) -> (r: usize)
    requires
        from <= v@.len(),
    ensures
        r as int == skip_spaces(v@, from as int),
        from <= r <= v@.len(),
{
    let mut i: usize = from;
    while i < v.len()
        invariant
            from <= i <= v@.len(),
            skip_spaces(v@, from as int) == skip_spaces(v@, i as int),
        decreases v@.len() - i,
    {
        if !space(v[i]) {
            return i;
        }
        i = i + 1;
    }
    i
}

/// `s` without its leading spaces.
pub open spec fn trim_start_spec(s: Seq<char>) -> Seq<char>
    decreases s.len(),
{
    if s.len() > 0 && is_space(s[0]) {
        trim_start_spec(s.drop_first())
    } else {
        s
    }
}

/// `s` without its trailing spaces.
pub open spec fn trim_end_spec(s: Seq<char>) -> Seq<char>
    decreases s.len(),
{
    if s.len() > 0 && is_space(s[s.len() - 1]) {
        trim_end_spec(s.drop_last())
    } else {
        s
    }
}

/// `s` without leading and trailing spaces.
pub open spec fn trim_spec(s: Seq<char>) -> Seq<char> {
    trim_end_spec(trim_start_spec(s))
}

/// Dropping trailing spaces is the subrange up to the last non-space.
pub proof fn lemma_trim_end_range(s: Seq<char>, end: int)
    requires
        0 <= end <= s.len(),
        forall|j: int| end <= j < s.len() ==> is_space(s[j]),
        end > 0 ==> !is_space(s[end - 1]),
    ensures
        trim_end_spec(s) == s.subrange(0, end),
    decreases s.len(),
{
    if s.len() == 0 {
        assert(trim_end_spec(s) =~= s.subrange(0, end));
    } else if is_space(s[s.len() - 1]) {
        assert(end < s.len());
        lemma_trim_end_range(s.drop_last(), end);
        assert(s.drop_last().subrange(0, end) =~= s.subrange(0, end));
    } else {
        assert(end == s.len());
        assert(trim_end_spec(s) =~= s.subrange(0, end));
    }
}

/// Dropping leading spaces is the subrange from the first non-space.
pub proof fn lemma_trim_start_range(s: Seq<char>, start: int)
    requires
        0 <= start <= s.len(),
        forall|j: int| 0 <= j < start ==> is_space(s[j]),
        start < s.len() ==> !is_space(s[start]),
    ensures
        trim_start_spec(s) == s.subrange(start, s.len() as int),
    decreases s.len(),
{
    if s.len() == 0 {
        assert(trim_start_spec(s) =~= s.subrange(start, s.len() as int));
    } else if is_space(s[0]) {
        assert(start > 0);
        lemma_trim_start_range(s.drop_first(), start - 1);
        assert(s.drop_first().subrange(start - 1, s.drop_first().len() as int) =~= s.subrange(
            start,
            s.len() as int,
        ));
    } else {
        assert(start == 0);
        assert(trim_start_spec(s) =~= s.subrange(start, s.len() as int));
    }
}

/// The characters of `line` with leading and trailing spaces removed.
pub fn trim_both(line: &Vec<char>) -> (r: Vec<char>)
    ensures
        r@ == trim_spec(line@),
{
    let p = vec_skip_spaces(line, 0);
    let r = sub_chars_trim_end(line, p, line.len());
    proof {
        lemma_skip_spaces(line@, 0);
        lemma_trim_start_range(line@, p as int);
    }
    r
}

/// Whether the characters of `v` are exactly those of `s`.
pub fn chars_eq_str(v: &Vec<char>, s: &str) -> (r: bool)
    ensures
        r == (v@ == s@),
{
    let n = s.unicode_len();
    if v.len() != n {
        proof {
            assert(v@.len() != s@.len());
        }
        return false;
    }
    let mut i: usize = 0;
    while i < n
        invariant
            n == s@.len() && n == v@.len(),
            i <= n,
            forall|j: int| 0 <= j < i ==> v@[j] == s@[j],
        decreases n - i,
    {
        if v[i] != s.get_char(i) {
            return false;
        }
        i = i + 1;
    }
    proof {
        assert(v@ =~= s@);
    }
    true
}

/// Last index holding `c`, if any.
pub open spec fn rfind(s: Seq<char>, c: char) -> Option<int>
    decreases s.len(),
{
    if s.len() == 0 {
        None
    } else if s.last() == c {
        Some(s.len() - 1)
    } else {
        rfind(s.drop_last(), c)
    }
}

/// Executable search matching [`rfind`].
pub fn vec_rfind(v: &Vec<char>, c: char) -> (r: Option<usize>)
    ensures
        match r {
            Some(k) => k < v@.len() && rfind(v@, c) == Some(k as int),
            None => rfind(v@, c) is None,
        },
{
    let mut j: usize = v.len();
    proof {
        assert(v@.take(j as int) =~= v@);
    }
    while j > 0
        invariant
            j <= v@.len(),
            rfind(v@, c) == rfind(v@.take(j as int), c),
        decreases j,
    {
        j = j - 1;
        if v[j] == c {
            proof {
                let t = v@.take(j + 1);
                assert(t.last() == v@[j as int]);
            }
            return Some(j);
        }
        proof {
            let t = v@.take(j + 1);
            assert(t.last() == v@[j as int]);
            assert(t.drop_last() =~= v@.take(j as int));
        }
    }
    proof {
        assert(v@.take(0).len() == 0);
    }
    None
}

/// The view of an optional string.
pub open spec fn opt_str_view(o: Option<String>) -> Option<Seq<char>> {
    match o {
        Some(s) => Some(s@),
        None => None,
    }
}

/// Whether `c` is a decimal digit.
pub open spec fn is_digit(c: char) -> bool {
    48 <= c as u32 && c as u32 <= 57
}

/// The numeric value of a digit character.
pub open spec fn digit_val(c: char) -> int {
    c as u32 - 48
}

/// Executable test for [`is_digit`].
pub fn digit(c: char) -> (r: bool)
    ensures
        r == is_digit(c),
{
    let u = c as u32;
    48 <= u && u <= 57
}

/// First index at or after `from` holding a non-digit character, or the length.
pub open spec fn digits_end(s: Seq<char>, from: int) -> int
    decreases s.len() - from,
{
    if from >= s.len() || from < 0 {
        s.len() as int
    } else if is_digit(s[from]) {
        digits_end(s, from + 1)
    } else {
        from
    }
}

/// Executable scan matching [`digits_end`].
pub fn vec_digits_end(v: &Vec<char>, from: usize) -> (r: usize)
    requires
        from <= v@.len(),
    ensures
        r as int == digits_end(v@, from as int),
        from <= r <= v@.len(),
{
    let mut i: usize = from;
    while i < v.len()
        invariant
            from <= i <= v@.len(),
            digits_end(v@, from as int) == digits_end(v@, i as int),
        decreases v@.len() - i,
    {
        if !digit(v[i]) {
            return i;
        }
        i = i + 1;
    }
    i
}

/// Whether every character of `s` is a decimal digit.
pub open spec fn all_digits(s: Seq<char>) -> bool {
    forall|i: int| 0 <= i < s.len() ==> is_digit(#[trigger] s[i])
}

/// The integer denoted by a digit sequence, most significant digit first.
pub open spec fn digits_val(s: Seq<char>) -> int
    decreases s.len(),
{
    if s.len() == 0 {
        0
    } else {
        digits_val(s.drop_last()) * 10 + digit_val(s.last())
    }
}

/// Whether `s` is an integer token: an optional minus sign, then digits.
pub open spec fn is_int_token(s: Seq<char>) -> bool {
    if s.len() > 0 && s[0] == '-' {
        s.len() > 1 && all_digits(s.drop_first())
    } else {
        s.len() > 0 && all_digits(s)
    }
}

/// The value of an integer token.
pub open spec fn int_token_val(s: Seq<char>) -> int {
    if s.len() > 0 && s[0] == '-' {
        -digits_val(s.drop_first())
    } else {
        digits_val(s)
    }
}

/// Ten to the `n`.
pub open spec fn pow10(n: nat) -> int
    decreases n,
{
    if n == 0 {
        1
    } else {
        10 * pow10((n - 1) as nat)
    }
}

/// How many digits this library's integer reader accepts at most.
pub const MAX_INT_DIGITS: usize = 18;

/// Whether the digit run of an integer token is short enough to read.
pub open spec fn int_token_fits(s: Seq<char>) -> bool {
    if s.len() > 0 && s[0] == '-' {
        s.len() - 1 <= MAX_INT_DIGITS
    } else {
        s.len() <= MAX_INT_DIGITS
    }
}

/// Reads an integer token of at most [`MAX_INT_DIGITS`] digits.
///
/// Returns `None` when the characters are not an integer token or the digit
/// run is longer than the reader accepts.
pub fn parse_int_chars(v: &Vec<char>) -> (r: Option<i64>)
    ensures
        match r {
            Some(x) => is_int_token(v@) && int_token_fits(v@) && x as int == int_token_val(v@),
            None => !(is_int_token(v@) && int_token_fits(v@)),
        },
{
    let n = v.len();
    let neg = n > 0 && v[0] == '-';
    let start: usize = if neg { 1 } else { 0 };
    if n == start {
        return None;
    }
    if n - start > MAX_INT_DIGITS {
        return None;
    }
    let ghost digs = v@.subrange(start as int, n as int);
    let mut acc: i64 = 0;
    let mut i: usize = start;
    while i < n
        invariant
            start <= i <= n == v@.len(),
            neg == (v@.len() > 0 && v@[0] == '-'),
            start == if neg {
                1usize
            } else {
                0usize
            },
            n - start <= MAX_INT_DIGITS,
            digs == v@.subrange(start as int, n as int),
            all_digits(v@.subrange(start as int, i as int)),
            acc as int == digits_val(v@.subrange(start as int, i as int)),
            0 <= acc,
            (acc as int) < pow10((i - start) as nat),
        decreases n - i,
    {
        let c = v[i];
        if !digit(c) {
            proof {
                if is_int_token(v@) {
                    if neg {
                        let dd = v@.drop_first();
                        assert(all_digits(dd));
                        assert(is_digit(dd[i as int - 1]));
                        assert(dd[i as int - 1] == v@[i as int]);
                    } else {
                        assert(all_digits(v@));
                        assert(is_digit(v@[i as int]));
                    }
                    assert(false);
                }
            }
            return None;
        }
        proof {
            let pre = v@.subrange(start as int, i as int);
            let post = v@.subrange(start as int, i + 1);
            assert(post.drop_last() =~= pre);
            assert(post.last() == c);
            assert(forall|j: int| 0 <= j < post.len() ==> is_digit(#[trigger] post[j]));
            lemma_pow10_le(((i - start) + 1) as nat, 18nat);
            lemma_pow10_18();
            assert(pow10(18nat) == 10 * pow10(17nat));
        }
        let d = (c as u32 - 48) as i64;
        acc = acc * 10 + d;
        i = i + 1;
    }
    proof {
        assert(digs =~= v@.subrange(start as int, n as int));
        if neg {
            assert(v@.drop_first() =~= digs);
        } else {
            assert(v@ =~= digs);
        }
    }
    if neg {
        Some(-acc)
    } else {
        Some(acc)
    }
}

/// The concrete value of `pow10(18)`.
pub proof fn lemma_pow10_18()
    ensures
        pow10(18nat) == 1000000000000000000,
{
    reveal_with_fuel(pow10, 19);
}

/// `pow10` is positive.
pub proof fn lemma_pow10_pos(n: nat)
    ensures
        pow10(n) > 0,
    decreases n,
{
    if n > 0 {
        lemma_pow10_pos((n - 1) as nat);
    }
}

/// `pow10` is monotone in the exponent.
pub proof fn lemma_pow10_le(a: nat, b: nat)
    requires
        a <= b,
    ensures
        pow10(a) <= pow10(b),
    decreases b,
{
    lemma_pow10_pos(a);
    if a < b {
        lemma_pow10_le(a, (b - 1) as nat);
        lemma_pow10_pos((b - 1) as nat);
    }
}

/// Whether `c` is `lower` or its ASCII uppercase form.
pub open spec fn ci_is(c: char, lower: char) -> bool {
    c == lower || (65 <= c as u32 <= 90 && c as u32 + 32 == lower as u32)
}

/// Executable test for [`ci_is`].
pub fn ci_char(c: char, lower: char) -> (r: bool)
    ensures
        r == ci_is(c, lower),
{
    let u = c as u32;
    c == lower || (65 <= u && u <= 90 && u + 32 == lower as u32)
}

/// Whether `t` spells the word `w` ignoring ASCII case.
pub open spec fn ci_word(t: Seq<char>, w: Seq<char>) -> bool {
    t.len() == w.len() && forall|i: int| 0 <= i < t.len() ==> ci_is(#[trigger] t[i], w[i])
}

/// Whether `t` is one of the special numeric words `inf`, `infinity` and
/// `nan`, in any letter case.
pub open spec fn is_special_float_word(t: Seq<char>) -> bool {
    ||| ci_word(t, seq!['i', 'n', 'f'])
    ||| ci_word(t, seq!['i', 'n', 'f', 'i', 'n', 'i', 't', 'y'])
    ||| ci_word(t, seq!['n', 'a', 'n'])
}

/// Executable test for [`is_special_float_word`].
fn special_float_word(t: &Vec<char>) -> (r: bool)
    ensures
        r == is_special_float_word(t@),
{
    let n = t.len();
    if n == 3 {
        let inf = ci_char(t[0], 'i') && ci_char(t[1], 'n') && ci_char(t[2], 'f');
        let nan = ci_char(t[0], 'n') && ci_char(t[1], 'a') && ci_char(t[2], 'n');
        proof {
            lemma_ci_word_three(t@, seq!['i', 'n', 'f']);
            lemma_ci_word_three(t@, seq!['n', 'a', 'n']);
        }
        inf || nan
    } else if n == 8 {
        let w = ci_char(t[0], 'i') && ci_char(t[1], 'n') && ci_char(t[2], 'f') && ci_char(
            t[3],
            'i',
        ) && ci_char(t[4], 'n') && ci_char(t[5], 'i') && ci_char(t[6], 't') && ci_char(t[7], 'y');
        proof {
            lemma_ci_word_eight(t@, seq!['i', 'n', 'f', 'i', 'n', 'i', 't', 'y']);
        }
        w
    } else {
        false
    }
}

/// A three-letter case-insensitive word match is the three character
/// matches.
proof fn lemma_ci_word_three(t: Seq<char>, w: Seq<char>)
    requires
        t.len() == 3,
        w.len() == 3,
    ensures
        ci_word(t, w) == (ci_is(t[0], w[0]) && ci_is(t[1], w[1]) && ci_is(t[2], w[2])),
{
    if ci_is(t[0], w[0]) && ci_is(t[1], w[1]) && ci_is(t[2], w[2]) {
        assert forall|i: int| 0 <= i < t.len() implies ci_is(#[trigger] t[i], w[i]) by {
            if i == 0 {
            } else if i == 1 {
            } else {
                assert(i == 2);
            }
        }
    }
}

/// An eight-letter case-insensitive word match is the eight character
/// matches.
proof fn lemma_ci_word_eight(t: Seq<char>, w: Seq<char>)
    requires
        t.len() == 8,
        w.len() == 8,
    ensures
        ci_word(t, w) == (ci_is(t[0], w[0]) && ci_is(t[1], w[1]) && ci_is(t[2], w[2]) && ci_is(
            t[3],
            w[3],
        ) && ci_is(t[4], w[4]) && ci_is(t[5], w[5]) && ci_is(t[6], w[6]) && ci_is(t[7], w[7])),
{
    if ci_is(t[0], w[0]) && ci_is(t[1], w[1]) && ci_is(t[2], w[2]) && ci_is(t[3], w[3]) && ci_is(
        t[4],
        w[4],
    ) && ci_is(t[5], w[5]) && ci_is(t[6], w[6]) && ci_is(t[7], w[7]) {
        assert forall|i: int| 0 <= i < t.len() implies ci_is(#[trigger] t[i], w[i]) by {
            assert(0 <= i < 8);
        }
    }
}

/// Whether `s` continues from `from` as an exponent part and then ends.
pub open spec fn rest_is_exponent(s: Seq<char>, from: int) -> bool {
    if from == s.len() {
        true
    } else if 0 <= from < s.len() && (s[from] == 'e' || s[from] == 'E') {
        let g = if from + 1 < s.len() && (s[from + 1] == '+' || s[from + 1] == '-') {
            from + 2
        } else {
            from + 1
        };
        digits_end(s, g) == s.len() && g < s.len()
    } else {
        false
    }
}

/// Whether `s` is a numeric token: an optional sign, then one of the
/// special words `inf`, `infinity` or `nan` in any letter case, or a
/// decimal mantissa with an optional fraction and an optional exponent.
pub open spec fn is_float_token(s: Seq<char>) -> bool {
    let t = if s.len() > 0 && (s[0] == '+' || s[0] == '-') {
        s.drop_first()
    } else {
        s
    };
    if is_special_float_word(t) {
        true
    } else {
        let p = digits_end(t, 0);
        if 0 <= p < t.len() && t[p] == '.' {
            let q = digits_end(t, p + 1);
            (p > 0 || q > p + 1) && rest_is_exponent(t, q)
        } else {
            p > 0 && rest_is_exponent(t, p)
        }
    }
}

/// Executable test for [`is_float_token`].
pub fn float_token(v: &Vec<char>) -> (r: bool)
    ensures
        r == is_float_token(v@),
{
    let n = v.len();
    let start: usize = if n > 0 && (v[0] == '+' || v[0] == '-') {
        1
    } else {
        0
    };
    let t = sub_chars(v, start, n);
    proof {
        if start == 1 {
            assert(t@ =~= v@.drop_first());
        } else {
            assert(t@ =~= v@);
        }
    }
    if special_float_word(&t) {
        return true;
    }
    let tn = t.len();
    let p = vec_digits_end(&t, 0);
    if p < tn && t[p] == '.' {
        let q = vec_digits_end(&t, p + 1);
        if !(p > 0 || q > p + 1) {
            return false;
        }
        exponent_from(&t, q)
    } else if p == 0 {
        false
    } else {
        exponent_from(&t, p)
    }
}

/// Executable test for [`rest_is_exponent`].
fn exponent_from(t: &Vec<char>, from: usize) -> (r: bool)
    requires
        from <= t@.len(),
    ensures
        r == rest_is_exponent(t@, from as int),
{
    let n = t.len();
    if from == n {
        return true;
    }
    if !(t[from] == 'e' || t[from] == 'E') {
        return false;
    }
    let g: usize = if from + 1 < n && (t[from + 1] == '+' || t[from + 1] == '-') {
        from + 2
    } else {
        from + 1
    };
    if g >= n {
        return false;
    }
    let q = vec_digits_end(t, g);
    q == n
}

/// The characters of `v[from..to]` with trailing spaces removed.
pub fn sub_chars_trim_end(v: &Vec<char>, from: usize, to: usize) -> (r: Vec<char>)
    requires
        from <= to <= v@.len(),
    ensures
        r@ == trim_end_spec(v@.subrange(from as int, to as int)),
{
    let mut end: usize = to;
    while end > from && space(v[end - 1])
        invariant
            from <= end <= to <= v@.len(),
            forall|j: int| end <= j < to ==> is_space(#[trigger] v@[j]),
        decreases end,
    {
        end = end - 1;
    }
    let r = sub_chars(v, from, end);
    proof {
        let s = v@.subrange(from as int, to as int);
        assert forall|j: int| (end - from) <= j < s.len() implies is_space(s[j]) by {
            assert(s[j] == v@[j + from]);
        };
        if end > from {
            assert(s[end - from - 1] == v@[end - 1]);
        }
        lemma_trim_end_range(s, end - from);
        assert(r@ =~= s.subrange(0, end - from));
    }
    r
}

} // verus!
