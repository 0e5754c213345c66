//! Specifications of the standard string operations the tool relies on, and
//! the small wrappers through which verified code calls them.

use vstd::prelude::*;
use vstd::string::StrSliceExecFns;

verus! {

/// Characters with the Unicode `White_Space` property, which `str::trim` removes.
pub open spec fn is_white_space(c: char) -> bool {
    let u = c as u32;
    ||| 0x09 <= u <= 0x0d
    ||| u == 0x20
    ||| u == 0x85
    ||| u == 0xa0
    ||| u == 0x1680
    ||| 0x2000 <= u <= 0x200a
    ||| u == 0x2028
    ||| u == 0x2029
    ||| u == 0x202f
    ||| u == 0x205f
    ||| u == 0x3000
}

/// `s` without its leading white space.
pub open spec fn trim_start_spec(s: Seq<char>) -> Seq<char>
    decreases s.len(),
{
    if s.len() > 0 && is_white_space(s[0]) {
        trim_start_spec(s.drop_first())
    } else {
        s
    }
}

/// `s` without its trailing white space.
pub open spec fn trim_end_spec(s: Seq<char>) -> Seq<char>
    decreases s.len(),
{
    if s.len() > 0 && is_white_space(s.last()) {
        trim_end_spec(s.drop_last())
    } else {
        s
    }
}

/// `s` without leading and trailing white space, as `str::trim` returns it.
pub open spec fn trim_spec(s: Seq<char>) -> Seq<char> {
    trim_end_spec(trim_start_spec(s))
}

proof fn lemma_trim_start(s: Seq<char>) -> (i: int)
    ensures
        0 <= i <= s.len(),
        trim_start_spec(s) == s.subrange(i, s.len() as int),
        forall|k: int| 0 <= k < i ==> is_white_space(#[trigger] s[k]),
        i < s.len() ==> !is_white_space(s[i]),
    decreases s.len(),
{
    if s.len() > 0 && is_white_space(s[0]) {
        let r = lemma_trim_start(s.drop_first());
        assert(s.drop_first().subrange(r, s.len() - 1) =~= s.subrange(r + 1, s.len() as int));
        assert forall|k: int| 0 <= k < r + 1 implies is_white_space(#[trigger] s[k]) by {
            if k > 0 {
                assert(s[k] == s.drop_first()[k - 1]);
            }
        }
        r + 1
    } else {
        assert(s.subrange(0, s.len() as int) =~= s);
        0
    }
}

proof fn lemma_trim_end(s: Seq<char>) -> (j: int)
    ensures
        0 <= j <= s.len(),
        trim_end_spec(s) == s.subrange(0, j),
        forall|k: int| j <= k < s.len() ==> is_white_space(#[trigger] s[k]),
        j > 0 ==> !is_white_space(s[j - 1]),
    decreases s.len(),
{
    if s.len() > 0 && is_white_space(s.last()) {
        let r = lemma_trim_end(s.drop_last());
        assert(s.drop_last().subrange(0, r) =~= s.subrange(0, r));
        assert forall|k: int| r <= k < s.len() implies is_white_space(#[trigger] s[k]) by {
            if k < s.len() - 1 {
                assert(s[k] == s.drop_last()[k]);
            }
        }
        r
    } else {
        assert(s.subrange(0, s.len() as int) =~= s);
        s.len() as int
    }
}

/// Trimming removes white space at both ends and nothing else: the result
/// is a stretch of the text, only white space stands before and after it,
/// and it neither starts nor ends with white space.
pub proof fn lemma_trim(s: Seq<char>)
    ensures
        exists|i: int, j: int|
            0 <= i <= j <= s.len() && trim_spec(s) == s.subrange(i, j) && (forall|k: int|
                0 <= k < i ==> is_white_space(#[trigger] s[k])) && (forall|k: int|
                j <= k < s.len() ==> is_white_space(#[trigger] s[k])),
        trim_spec(s).len() > 0 ==> !is_white_space(trim_spec(s)[0]) && !is_white_space(
            trim_spec(s).last(),
        ),
{
    let i = lemma_trim_start(s);
    let t = s.subrange(i, s.len() as int);
    let j = lemma_trim_end(t);
    assert(t.subrange(0, j) =~= s.subrange(i, i + j));
    assert forall|k: int| i + j <= k < s.len() implies is_white_space(#[trigger] s[k]) by {
        assert(s[k] == t[k - i]);
    }
    if j > 0 {
        assert(t[0] == s[i]);
        assert(trim_spec(s)[0] == t[0]);
        assert(trim_spec(s).last() == t[j - 1]);
    }
}

/// A sequence that neither starts nor ends with white space is its own trim.
pub proof fn lemma_trim_no_white_space_ends(s: Seq<char>)
    requires
        s.len() > 0 ==> !is_white_space(s[0]) && !is_white_space(s.last()),
    ensures
        trim_spec(s) == s,
{
}

/// The ASCII lowercase form of one character; other characters are kept.
pub open spec fn ascii_lower(c: char) -> char {
    if 'A' <= c <= 'Z' {
        ((c as u32) + 32) as char
    } else {
        c
    }
}

/// The ASCII lowercase form of a string, as `str::to_ascii_lowercase` returns it.
pub open spec fn ascii_lower_seq(s: Seq<char>) -> Seq<char> {
    s.map_values(|c: char| ascii_lower(c))
}

/// Whether `c` is an ASCII decimal digit.
pub open spec fn is_digit(c: char) -> bool {
    '0' <= c <= '9'
}

/// The value of a digit character.
pub open spec fn digit_value(c: char) -> nat {
    ((c as u32) - ('0' as u32)) as nat
}

/// The number written by a sequence of decimal digits.
pub open spec fn decimal_value(s: Seq<char>) -> nat
    decreases s.len(),
{
    if s.len() == 0 {
        0
    } else {
        decimal_value(s.drop_last()) * 10 + digit_value(s.last())
    }
}

/// The character of one decimal digit.
pub open spec fn digit_char(d: nat) -> char {
    (('0' as u32) + d) as char
}

/// The decimal digits of `n`, without leading zeros, as `Display` writes them.
pub open spec fn decimal_spec(n: nat) -> Seq<char>
    decreases n,
{
    if n < 10 {
        seq![digit_char(n)]
    } else {
        decimal_spec(n / 10).push(digit_char(n % 10))
    }
}

/// What `str::parse::<usize>` returns: an optional `+` and then at least one
/// decimal digit, whose value fits in a `usize`.
pub open spec fn parse_usize_spec(s: Seq<char>) -> Option<usize> {
    let digits = if s.len() > 0 && s[0] == '+' {
        s.drop_first()
    } else {
        s
    };
    if digits.len() > 0 && (forall|i: int| 0 <= i < digits.len() ==> is_digit(#[trigger] digits[i]))
        && decimal_value(digits) <= usize::MAX {
        Some(decimal_value(digits) as usize)
    } else {
        None
    }
}

/// The decimal digits of a number that fits in a `usize` parse back as that
/// number, and they start with a digit.
pub proof fn lemma_parse_decimal(n: nat)
    requires
        n <= usize::MAX,
    ensures
        parse_usize_spec(decimal_spec(n)) == Some(n as usize),
        decimal_spec(n).len() > 0 && is_digit(decimal_spec(n)[0]),
{
    lemma_decimal_digits(n);
    assert(decimal_spec(n)[0] != '+');
}

proof fn lemma_decimal_digits(n: nat)
    ensures
        decimal_spec(n).len() > 0,
        forall|i: int| 0 <= i < decimal_spec(n).len() ==> is_digit(#[trigger] decimal_spec(n)[i]),
        decimal_value(decimal_spec(n)) == n,
    decreases n,
{
    if n < 10 {
        let s = decimal_spec(n);
        assert(s.drop_last() =~= Seq::<char>::empty());
        assert(decimal_value(Seq::<char>::empty()) == 0);
        assert(digit_value(digit_char(n)) == n);
    } else {
        lemma_decimal_digits(n / 10);
        let s = decimal_spec(n);
        let p = decimal_spec(n / 10);
        assert(s.drop_last() =~= p);
        assert(digit_value(digit_char(n % 10)) == n % 10);
        assert(n == (n / 10) * 10 + n % 10) by (nonlinear_arith);
        assert forall|i: int| 0 <= i < s.len() implies is_digit(#[trigger] s[i]) by {
            if i < p.len() {
                assert(s[i] == p[i]);
            }
        }
    }
}

/// `s` repeated `n` times.
pub open spec fn repeat_spec(s: Seq<char>, n: nat) -> Seq<char>
    decreases n,
{
    if n == 0 {
        Seq::empty()
    } else {
        repeat_spec(s, (n - 1) as nat) + s
    }
}

/// `s` followed by spaces up to `width` characters, as `{:<width$}` pads it.
pub open spec fn pad_right_spec(s: Seq<char>, width: nat) -> Seq<char> {
    if s.len() >= width {
        s
    } else {
        s + repeat_spec(seq![' '], (width - s.len()) as nat)
    }
}

/// `s` preceded by spaces up to `width` characters, as `{:>width$}` pads it.
pub open spec fn pad_left_spec(s: Seq<char>, width: nat) -> Seq<char> {
    if s.len() >= width {
        s
    } else {
        repeat_spec(seq![' '], (width - s.len()) as nat) + s
    }
}

proof fn lemma_spaces(n: nat)
    ensures
        repeat_spec(seq![' '], n).len() == n,
        forall|i: int| 0 <= i < n ==> #[trigger] repeat_spec(seq![' '], n)[i] == ' ',
    decreases n,
{
    if n > 0 {
        lemma_spaces((n - 1) as nat);
        let r = repeat_spec(seq![' '], n);
        let p = repeat_spec(seq![' '], (n - 1) as nat);
        assert forall|i: int| 0 <= i < n implies #[trigger] r[i] == ' ' by {
            if i < n - 1 {
                assert(r[i] == p[i]);
            }
        }
    }
}

/// Padding to a width: the text is kept whole, at the start (padding on the
/// right) or at the end (padding on the left); only spaces are added, and
/// the result is exactly as wide as the width where the text is narrower.
pub proof fn lemma_padding(s: Seq<char>, width: nat)
    ensures
        pad_right_spec(s, width).len() == if s.len() >= width {
            s.len()
        } else {
            width
        },
        s.is_prefix_of(pad_right_spec(s, width)),
        forall|i: int| s.len() <= i < pad_right_spec(s, width).len() ==> #[trigger] pad_right_spec(
            s,
            width,
        )[i] == ' ',
        pad_left_spec(s, width).len() == pad_right_spec(s, width).len(),
        pad_left_spec(s, width).subrange(pad_left_spec(s, width).len() - s.len(), pad_left_spec(
            s,
            width,
        ).len() as int) == s,
        forall|i: int| 0 <= i < pad_left_spec(s, width).len() - s.len() ==> #[trigger] pad_left_spec(
            s,
            width,
        )[i] == ' ',
{
    if s.len() < width {
        let n = (width - s.len()) as nat;
        lemma_spaces(n);
        let sp = repeat_spec(seq![' '], n);
        let r = s + sp;
        let l = sp + s;
        assert forall|i: int| s.len() <= i < r.len() implies #[trigger] r[i] == ' ' by {
            assert(r[i] == sp[i - s.len()]);
        }
        assert(l.subrange(n as int, l.len() as int) =~= s);
        assert forall|i: int| 0 <= i < l.len() - s.len() implies #[trigger] l[i] == ' ' by {
            assert(l[i] == sp[i]);
        }
        assert(s.is_prefix_of(r)) by {
            assert(r.subrange(0, s.len() as int) =~= s);
        }
    } else {
        assert(s.subrange(0, s.len() as int) =~= s);
    }
}

/// Trusted: `str::trim`, which removes leading and trailing characters with the
/// Unicode `White_Space` property.
#[verifier::external_body]
pub(crate) fn str_trim(s: &str) -> (r: &str)
    ensures
        r@ == trim_spec(s@),
{
    s.trim()
}

/// Trusted: `str::to_ascii_lowercase`, which maps `A`..=`Z` to `a`..=`z` and
/// keeps every other character.
#[verifier::external_body]
pub(crate) fn str_to_ascii_lowercase(s: &str) -> (r: String)
    ensures
        r@ == ascii_lower_seq(s@),
{
    s.to_ascii_lowercase()
}

/// Trusted: `String::push`, which appends one character.
#[verifier::external_body]
pub(crate) fn string_push(s: &mut String, c: char)
    ensures
        final(s)@ == old(s)@.push(c),
{
    s.push(c);
}

/// Trusted: `<str as PartialEq>::eq`, which holds when both strings have the
/// same characters.
#[verifier::external_body]
pub(crate) fn str_eq(a: &str, b: &str) -> (r: bool)
    ensures
        r == (a@ == b@),
{
    a == b
}

/// Trusted: `usize::to_string`, the decimal form through `Display`.
#[verifier::external_body]
pub(crate) fn usize_to_string(n: usize) -> (r: String)
    ensures
        r@ == decimal_spec(n as nat),
{
    n.to_string()
}

/// Trusted: `u128::to_string`, the decimal form through `Display`.
#[verifier::external_body]
pub(crate) fn u128_to_string(n: u128) -> (r: String)
    ensures
        r@ == decimal_spec(n as nat),
{
    n.to_string()
}

/// Trusted: `str::parse::<usize>`; `Ok` becomes `Some`, any error `None`.
#[verifier::external_body]
pub(crate) fn parse_usize(s: &str) -> (r: Option<usize>)
    ensures
        r == parse_usize_spec(s@),
{
    s.parse::<usize>().ok()
}

/// A new string holding the characters of `s`.
pub fn string_of(s: &str) -> (r: String)
    ensures
        r@ == s@,
{
    s.to_owned()
}

/// Appends `n` copies of `piece` to `out`.
pub fn push_repeated(out: &mut String, piece: &str, n: usize)
    ensures
        final(out)@ == old(out)@ + repeat_spec(piece@, n as nat),
{
    let mut i: usize = 0;
    while i < n
        invariant
            i <= n,
            out@ == old(out)@ + repeat_spec(piece@, i as nat),
        decreases n - i,
    {
        out.append(piece);
        proof {
            assert(repeat_spec(piece@, (i + 1) as nat) == repeat_spec(piece@, i as nat) + piece@);
            assert(old(out)@ + repeat_spec(piece@, i as nat) + piece@ =~= old(out)@ + (repeat_spec(
                piece@,
                i as nat,
            ) + piece@));
        }
        i = i + 1;
    }
}

/// The number of characters of `s`.
pub fn char_count(s: &str) -> (n: usize)
    ensures
        n as nat == s@.len(),
{
    s.unicode_len()
}

/// `s` padded with spaces on the right to `width` characters.
pub fn pad_right(s: &str, width: usize) -> (r: String)
    ensures
        r@ == pad_right_spec(s@, width as nat),
{
    let n = char_count(s);
    let mut r = string_of(s);
    if n < width {
        proof {
            reveal_strlit(" ");
            assert(" "@ =~= seq![' ']);
        }
        push_repeated(&mut r, " ", width - n);
    }
    r
}

/// `s` padded with spaces on the left to `width` characters.
pub fn pad_left(s: &str, width: usize) -> (r: String)
    ensures
        r@ == pad_left_spec(s@, width as nat),
{
    let n = char_count(s);
    let mut r = String::new();
    if n < width {
        proof {
            reveal_strlit(" ");
            assert(" "@ =~= seq![' ']);
        }
        push_repeated(&mut r, " ", width - n);
        proof {
            assert(Seq::<char>::empty() + repeat_spec(seq![' '], (width - n) as nat) =~= repeat_spec(
                seq![' '],
                (width - n) as nat,
            ));
        }
    }
    r.append(s);
    proof {
        if n >= width {
            assert(Seq::<char>::empty() + s@ =~= s@);
        }
    }
    r
}

/// Trusted: `str::starts_with` with a string pattern.
#[verifier::external_body]
pub(crate) fn str_starts_with(s: &str, prefix: &str) -> (r: bool)
    ensures
        r == prefix@.is_prefix_of(s@),
{
    s.starts_with(prefix)
}

/// A string of the one character `c`.
pub fn char_string(c: char) -> (r: String)
    ensures
        r@ == seq![c],
{
    let mut r = String::new();
    string_push(&mut r, c);
    r
}

/// `s` without the copies of `c` at its end.
pub open spec fn trim_end_char_spec(s: Seq<char>, c: char) -> Seq<char>
    decreases s.len(),
{
    if s.len() > 0 && s.last() == c {
        trim_end_char_spec(s.drop_last(), c)
    } else {
        s
    }
}

/// Trusted: `str::trim_end_matches` with a `char` pattern, which removes every
/// copy of `c` at the end.
#[verifier::external_body]
pub(crate) fn str_trim_end_char(s: &str, c: char) -> (r: &str)
    ensures
        r@ == trim_end_char_spec(s@, c),
{
    s.trim_end_matches(c)
}

/// The position of the first line feed of `s` at or after `i`, or the length
/// of `s` where there is none.
pub open spec fn line_end(s: Seq<char>, i: int) -> int
    decreases s.len() - i,
{
    if i < 0 || i >= s.len() {
        s.len() as int
    } else if s[i] == '\n' {
        i
    } else {
        line_end(s, i + 1)
    }
}

/// The first line of `s` as `str::lines` yields it: the text before the first
/// line feed, without a carriage return right before that line feed; all of
/// `s` where it holds no line feed.
pub open spec fn first_line_spec(s: Seq<char>) -> Seq<char> {
    let e = line_end(s, 0);
    if 0 < e < s.len() && s[e - 1] == '\r' {
        s.take(e - 1)
    } else {
        s.take(e)
    }
}

proof fn lemma_line_end(s: Seq<char>, k: int)
    requires
        0 <= k <= s.len(),
    ensures
        k <= line_end(s, k) <= s.len(),
        forall|j: int| k <= j < line_end(s, k) ==> s[j] != '\n',
        line_end(s, k) < s.len() ==> s[line_end(s, k)] == '\n',
    decreases s.len() - k,
{
    if k < s.len() && s[k] != '\n' {
        lemma_line_end(s, k + 1);
    }
}

/// The first line of a text is the start of the text and holds no line
/// feed; a text without line feeds is its own first line, and a text that
/// starts with a line feed has an empty first line.
pub proof fn lemma_first_line(s: Seq<char>)
    ensures
        first_line_spec(s).is_prefix_of(s),
        forall|i: int| 0 <= i < first_line_spec(s).len() ==> #[trigger] first_line_spec(s)[i]
            != '\n',
        (forall|i: int| 0 <= i < s.len() ==> s[i] != '\n') ==> first_line_spec(s) == s,
        s.len() > 0 && s[0] == '\n' ==> first_line_spec(s).len() == 0,
{
    lemma_line_end(s, 0);
    let e = line_end(s, 0);
    if forall|i: int| 0 <= i < s.len() ==> s[i] != '\n' {
        assert(e == s.len());
        assert(s.take(e) =~= s);
    }
}

/// The first line of `s`, or the empty string where `s` is empty.
pub fn first_line(s: &str) -> (r: String)
    ensures
        r@ == first_line_spec(s@),
{
    let n = char_count(s);
    let mut i: usize = 0;
    while i < n && s.get_char(i) != '\n'
        invariant
            i <= n,
            n == s@.len(),
            line_end(s@, 0) == line_end(s@, i as int),
        decreases n - i,
    {
        i = i + 1;
    }
    let end = if 0 < i && i < n && s.get_char(i - 1) == '\r' {
        i - 1
    } else {
        i
    };
    string_of(s.substring_char(0, end))
}

} // verus!
