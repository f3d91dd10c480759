use vstd::prelude::*;
use vstd::string::StrSliceExecFns;
use vstd::string::StringExecFns;

verus! {

/// A character with the Unicode `White_Space` property, the set that
/// `char::is_whitespace` tests for: the ASCII controls tab to carriage return,
/// space, next line, no-break space, ogham space mark, the spaces from en quad to
/// hair space, line and paragraph separators, narrow no-break space, medium
/// mathematical space and ideographic space.
pub open spec fn unicode_white_space(c: char) -> bool {
    ||| '\u{9}' <= c <= '\u{d}'
    ||| c == ' '
    ||| c == '\u{85}'
    ||| c == '\u{a0}'
    ||| c == '\u{1680}'
    ||| '\u{2000}' <= c <= '\u{200a}'
    ||| c == '\u{2028}'
    ||| c == '\u{2029}'
    ||| c == '\u{202f}'
    ||| c == '\u{205f}'
    ||| c == '\u{3000}'
}

/// Whether `c` has the Unicode `White_Space` property.
pub fn is_whitespace(c: char) -> (r: bool)
    ensures
        r == unicode_white_space(c),
{
    ('\u{9}' <= c && c <= '\u{d}') || c == ' ' || c == '\u{85}' || c == '\u{a0}' || c
        == '\u{1680}' || ('\u{2000}' <= c && c <= '\u{200a}') || c == '\u{2028}' || c
        == '\u{2029}' || c == '\u{202f}' || c == '\u{205f}' || c == '\u{3000}'
}

/// `s` without its leading whitespace.
pub open spec fn trim_start(s: Seq<char>) -> Seq<char>
    decreases s.len(),
{
    if s.len() > 0 && unicode_white_space(s[0]) {
        trim_start(s.drop_first())
    } else {
        s
    }
}

/// `s` without its trailing whitespace.
pub open spec fn trim_end(s: Seq<char>) -> Seq<char>
    decreases s.len(),
{
    if s.len() > 0 && unicode_white_space(s.last()) {
        trim_end(s.drop_last())
    } else {
        s
    }
}

/// `s` without leading and trailing whitespace, as `str::trim` gives it.
pub open spec fn trim(s: Seq<char>) -> Seq<char> {
    trim_end(trim_start(s))
}

/// An ASCII decimal digit.
pub open spec fn is_digit(c: char) -> bool {
    '0' <= c <= '9'
}

/// The number that a string of decimal digits denotes.
pub open spec fn digits_value(s: Seq<char>) -> int
    decreases s.len(),
{
    if s.len() == 0 {
        0
    } else {
        digits_value(s.drop_last()) * 10 + (s.last() as int - '0' as int)
    }
}

/// The decimal digits of `s` after an optional leading `+`.
pub open spec fn unsigned_digits(s: Seq<char>) -> Seq<char> {
    if s.len() > 0 && s[0] == '+' {
        s.drop_first()
    } else {
        s
    }
}

/// What `u32::from_str` makes of `s`: an optional `+`, then one or more ASCII
/// digits whose value fits in a `u32`; anything else is refused.
pub open spec fn parse_u32_spec(s: Seq<char>) -> Option<u32> {
    let d = unsigned_digits(s);
    if d.len() > 0 && (forall|i: int| 0 <= i < d.len() ==> is_digit(#[trigger] d[i]))
        && digits_value(d) <= u32::MAX {
        Some(digits_value(d) as u32)
    } else {
        None
    }
}

/// The high score kept in a saved text: the number it holds once surrounding
/// whitespace is dropped, and 0 when it holds no such number.
pub open spec fn high_score_from_text(s: Seq<char>) -> u32 {
    match parse_u32_spec(trim(s)) {
        Some(v) => v,
        None => 0,
    }
}

/// A string of digits denotes at least what any of its prefixes denotes.
proof fn lemma_digits_value_prefix(s: Seq<char>, k: int)
    requires
        0 <= k <= s.len(),
        forall|i: int| 0 <= i < s.len() ==> is_digit(#[trigger] s[i]),
    ensures
        digits_value(s) >= digits_value(s.take(k)) >= 0,
    decreases s.len(),
{
    if k == s.len() {
        assert(s.take(k) =~= s);
        if s.len() > 0 {
            lemma_digits_value_prefix(s.drop_last(), 0);
        } else {
        }
    } else {
        let t = s.drop_last();
        assert forall|i: int| 0 <= i < t.len() implies is_digit(#[trigger] t[i]) by {
            assert(t[i] == s[i]);
        }
        lemma_digits_value_prefix(t, k);
        assert(t.take(k) =~= s.take(k));
        assert(is_digit(s.last()));
    }
}

/// Reads a decimal number as `u32::from_str` does: an optional `+`, then one or
/// more ASCII digits whose value fits in a `u32`; anything else gives `None`.
pub fn parse_u32_decimal(text: &str) -> (r: Option<u32>)
    ensures
        r == parse_u32_spec(text@),
{
    let ghost s = text@;
    let n: usize = text.unicode_len();
    let mut i: usize = 0;
    if i < n && text.get_char(i) == '+' {
        i = i + 1;
    }
    let ghost ds = i;
    assert(unsigned_digits(s) =~= s.subrange(ds as int, n as int));
    if i == n {
        return None;
    }
    let mut acc: u32 = 0;
    while i < n
        invariant
            n == s.len(),
            s == text@,
            ds <= i <= n,
            ds < n,
            unsigned_digits(s) == s.subrange(ds as int, n as int),
            forall|j: int| ds <= j < i ==> is_digit(#[trigger] s[j]),
            acc == digits_value(s.subrange(ds as int, i as int)),
        decreases n - i,
    {
        let ghost d = unsigned_digits(s);
        let c = text.get_char(i);
        if !('0' <= c && c <= '9') {
            assert(d[i - ds] == c);
            assert(!is_digit(d[i - ds]));
            return None;
        }
        let dv: u32 = (c as u32) - ('0' as u32);
        assert(s.subrange(ds as int, i + 1).drop_last() =~= s.subrange(ds as int, i as int));
        if acc > (u32::MAX - dv) / 10 {
            proof {
                if forall|j: int| 0 <= j < d.len() ==> is_digit(#[trigger] d[j]) {
                    assert(d.take(i + 1 - ds) =~= s.subrange(ds as int, i + 1));
                    lemma_digits_value_prefix(d, i + 1 - ds);
                }
            }
            return None;
        }
        acc = acc * 10 + dv;
        i = i + 1;
    }
    Some(acc)
}

/// Reads a saved high score: surrounding whitespace is ignored, and a text that
/// holds no number that fits in a `u32` counts as 0.
pub fn parse_high_score(text: &str) -> (v: u32)
    ensures
        v == high_score_from_text(text@),
{
    let ghost s = text@;
    let n: usize = text.unicode_len();
    let mut start: usize = 0;
    assert(s.subrange(0, n as int) =~= s);
    while start < n && is_whitespace(text.get_char(start))
        invariant
            n == s.len(),
            start <= n,
            s == text@,
            trim_start(s) == trim_start(s.subrange(start as int, n as int)),
        decreases n - start,
    {
        let ghost rest = s.subrange(start as int, n as int);
        assert(rest.drop_first() =~= s.subrange(start + 1, n as int));
        start = start + 1;
    }
    let ghost lead = s.subrange(start as int, n as int);
    assert(trim_start(lead) == lead);
    let mut end: usize = n;
    while end > start && is_whitespace(text.get_char(end - 1))
        invariant
            n == s.len(),
            start <= end <= n,
            s == text@,
            trim_end(lead) == trim_end(s.subrange(start as int, end as int)),
            lead == s.subrange(start as int, n as int),
        decreases end - start,
    {
        let ghost cur = s.subrange(start as int, end as int);
        assert(cur.drop_last() =~= s.subrange(start as int, end - 1));
        end = end - 1;
    }
    let ghost t = s.subrange(start as int, end as int);
    assert(trim_end(t) == t);
    assert(trim(s) == t);
    let trimmed = text.substring_char(start, end);
    match parse_u32_decimal(trimmed) {
        Some(v) => v,
        None => 0,
    }
}

/// The character of the decimal digit `d`, for `0 <= d < 10`.
pub open spec fn digit_char(d: int) -> char {
    if d == 0 {
        '0'
    } else if d == 1 {
        '1'
    } else if d == 2 {
        '2'
    } else if d == 3 {
        '3'
    } else if d == 4 {
        '4'
    } else if d == 5 {
        '5'
    } else if d == 6 {
        '6'
    } else if d == 7 {
        '7'
    } else if d == 8 {
        '8'
    } else {
        '9'
    }
}

/// The decimal text of `n`, without sign or leading zeros, as `u32::to_string`
/// writes it.
pub open spec fn decimal_text(n: nat) -> Seq<char>
    decreases n,
{
    if n < 10 {
        seq![digit_char(n as int)]
    } else {
        decimal_text(n / 10).push(digit_char((n % 10) as int))
    }
}

/// The digit character of `d` is a digit worth `d`.
proof fn lemma_digit_char(d: int)
    requires
        0 <= d < 10,
    ensures
        is_digit(digit_char(d)),
        digit_char(d) as int - '0' as int == d,
{
}

/// The decimal text of `n` is a non-empty string of digits that denotes `n`.
proof fn lemma_decimal_text(n: nat)
    ensures
        decimal_text(n).len() > 0,
        forall|i: int| 0 <= i < decimal_text(n).len() ==> is_digit(#[trigger] decimal_text(n)[i]),
        digits_value(decimal_text(n)) == n,
    decreases n,
{
    let s = decimal_text(n);
    lemma_digit_char((n % 10) as int);
    assert(s.last() == digit_char((n % 10) as int));
    if n < 10 {
        assert(s.drop_last() =~= Seq::<char>::empty());
        assert(digits_value(s.drop_last()) == 0);
    } else {
        lemma_decimal_text(n / 10);
        let t = decimal_text(n / 10);
        assert(s.drop_last() =~= t);
        assert(n == (n / 10) * 10 + n % 10);
        assert forall|i: int| 0 <= i < s.len() implies is_digit(#[trigger] s[i]) by {
            if i < t.len() {
                assert(s[i] == t[i]);
            }
        }
    }
}

/// Saving a high score as its decimal text and reading that text back gives the
/// same score.
pub proof fn lemma_high_score_round_trip(n: u32)
    ensures
        high_score_from_text(decimal_text(n as nat)) == n,
{
    let s = decimal_text(n as nat);
    lemma_decimal_text(n as nat);
    assert(is_digit(s[0]) && is_digit(s.last()));
    assert(trim_start(s) == s);
    assert(trim_end(s) == s);
    assert(unsigned_digits(s) == s);
}

/// The decimal text of `n` is made of ASCII digits only, and starts with `0`
/// only when it is the single digit of zero.
pub proof fn lemma_decimal_text_shape(n: nat)
    ensures
        decimal_text(n).len() >= 1,
        forall|i: int| 0 <= i < decimal_text(n).len() ==> '0' <= #[trigger] decimal_text(n)[i] <= '9',
        decimal_text(n)[0] == '0' <==> n == 0,
        n == 0 ==> decimal_text(n).len() == 1,
    decreases n,
{
    lemma_decimal_text(n);
    if n >= 10 {
        lemma_decimal_text_shape(n / 10);
        assert(decimal_text(n)[0] == decimal_text(n / 10)[0]);
    }
}

/// A saved score with a leading `+` reads as the same score.
pub proof fn lemma_plus_sign_read(n: u32)
    ensures
        high_score_from_text(seq!['+'] + decimal_text(n as nat)) == n,
{
    let d = decimal_text(n as nat);
    let s = seq!['+'] + d;
    lemma_decimal_text(n as nat);
    assert(s.last() == d.last());
    assert(is_digit(d.last()));
    assert(trim_start(s) == s);
    assert(trim_end(s) == s);
    assert(unsigned_digits(s) =~= d);
}

/// Whitespace put after a text is dropped when it is read.
proof fn lemma_trailing_whitespace(x: Seq<char>, c: char)
    requires
        unicode_white_space(c),
    ensures
        trim(x.push(c)) == trim(x),
    decreases x.len(),
{
    if x.len() == 0 {
        assert(x.push(c).drop_first() =~= Seq::<char>::empty());
        assert(trim_start(x.push(c)) == trim_start(Seq::<char>::empty()));
    } else if unicode_white_space(x[0]) {
        assert(x.push(c).drop_first() =~= x.drop_first().push(c));
        lemma_trailing_whitespace(x.drop_first(), c);
    } else {
        assert(trim_start(x.push(c)) == x.push(c));
        assert(x.push(c).drop_last() =~= x);
    }
}

/// Whitespace put before or after a saved text does not change what it reads as.
pub proof fn lemma_surrounding_whitespace(s: Seq<char>, c: char)
    requires
        unicode_white_space(c),
    ensures
        high_score_from_text(seq![c] + s) == high_score_from_text(s),
        high_score_from_text(s.push(c)) == high_score_from_text(s),
{
    assert((seq![c] + s).drop_first() =~= s);
    lemma_trailing_whitespace(s, c);
}

/// Leading whitespace is dropped from a text, and a character that is not
/// whitespace stays.
proof fn lemma_trim_start_keeps(s: Seq<char>, i: int)
    requires
        0 <= i < s.len(),
        !unicode_white_space(s[i]),
    ensures
        exists|j: int| 0 <= j < trim_start(s).len() && trim_start(s)[j] == s[i],
    decreases s.len(),
{
    if unicode_white_space(s[0]) {
        assert(s.drop_first()[i - 1] == s[i]);
        lemma_trim_start_keeps(s.drop_first(), i - 1);
        assert(trim_start(s) == trim_start(s.drop_first()));
    } else {
        assert(trim_start(s) == s);
        assert(trim_start(s)[i] == s[i]);
    }
}

/// Trailing whitespace is dropped from a text, and a character that is not
/// whitespace stays.
proof fn lemma_trim_end_keeps(s: Seq<char>, i: int)
    requires
        0 <= i < s.len(),
        !unicode_white_space(s[i]),
    ensures
        exists|j: int| 0 <= j < trim_end(s).len() && trim_end(s)[j] == s[i],
    decreases s.len(),
{
    if unicode_white_space(s.last()) {
        assert(i < s.len() - 1);
        assert(s.drop_last()[i] == s[i]);
        lemma_trim_end_keeps(s.drop_last(), i);
        assert(trim_end(s) == trim_end(s.drop_last()));
    } else {
        assert(trim_end(s) == s);
        assert(trim_end(s)[i] == s[i]);
    }
}

/// A saved text that holds a character that is neither an ASCII digit, nor
/// whitespace, nor `+` (a minus sign, a letter, a dot) reads as 0.
pub proof fn lemma_stray_character_reads_zero(s: Seq<char>, i: int)
    requires
        0 <= i < s.len(),
        !('0' <= s[i] <= '9'),
        !unicode_white_space(s[i]),
        s[i] != '+',
    ensures
        high_score_from_text(s) == 0,
{
    lemma_trim_start_keeps(s, i);
    let t = trim_start(s);
    let j = choose|j: int| 0 <= j < t.len() && t[j] == s[i];
    lemma_trim_end_keeps(t, j);
    let u = trim(s);
    let k = choose|k: int| 0 <= k < u.len() && u[k] == s[i];
    let d = unsigned_digits(u);
    if u.len() > 0 && u[0] == '+' {
        assert(k > 0);
        assert(d[k - 1] == s[i]);
        assert(!is_digit(d[k - 1]));
    } else {
        assert(d[k] == s[i]);
        assert(!is_digit(d[k]));
    }
}

/// The one-character text of the decimal digit `d`.
fn digit_str(d: u32) -> (r: &'static str)
    requires
        d < 10,
    ensures
        r@ == seq![digit_char(d as int)],
{
    proof {
        reveal_strlit("0");
        reveal_strlit("1");
        reveal_strlit("2");
        reveal_strlit("3");
        reveal_strlit("4");
        reveal_strlit("5");
        reveal_strlit("6");
        reveal_strlit("7");
        reveal_strlit("8");
        reveal_strlit("9");
    }
    let r = match d {
        0 => "0",
        1 => "1",
        2 => "2",
        3 => "3",
        4 => "4",
        5 => "5",
        6 => "6",
        7 => "7",
        8 => "8",
        _ => "9",
    };
    assert(r@ =~= seq![digit_char(d as int)]);
    r
}

/// Appends the decimal text of `n` to `text`.
fn push_decimal(text: &mut String, n: u32)
    ensures
        final(text)@ == old(text)@ + decimal_text(n as nat),
    decreases n,
{
    if n >= 10 {
        push_decimal(text, n / 10);
    }
    text.append(digit_str(n % 10));
    proof {
        if n >= 10 {
            assert(old(text)@ + decimal_text(n as nat) =~= old(text)@ + decimal_text((n / 10) as nat)
                + seq![digit_char((n % 10) as int)]);
        } else {
            assert(old(text)@ + decimal_text(n as nat) =~= old(text)@ + seq![digit_char((n % 10) as int)]);
        }
    }
}

/// The text a high score is saved as: its decimal digits, which
/// `parse_high_score` reads back as the same score.
pub fn format_high_score(n: u32) -> (text: String)
    ensures
        text@ == decimal_text(n as nat),
        high_score_from_text(text@) == n,
{
    let mut text = String::new();
    push_decimal(&mut text, n);
    assert(text@ =~= decimal_text(n as nat));
    proof {
        lemma_high_score_round_trip(n);
    }
    text
}

} // verus!
