//! Text helpers: Unicode whitespace trimming and decimal rendering of
//! unsigned integers.

use vstd::prelude::*;

verus! {

/// Whether a character carries the Unicode `White_Space` property, the
/// definition of whitespace that `str::trim` uses.
pub open spec fn is_white_space(c: char) -> bool {
    let u = c as u32;
    ||| 0x09 <= u <= 0x0D
    ||| u == 0x20
    ||| u == 0x85
    ||| u == 0xA0
    ||| u == 0x1680
    ||| 0x2000 <= u <= 0x200A
    ||| u == 0x2028
    ||| u == 0x2029
    ||| u == 0x202F
    ||| u == 0x205F
    ||| u == 0x3000
}

/// `s` without its leading whitespace.
pub open spec fn trim_start_chars(s: Seq<char>) -> Seq<char>
    decreases s.len(),
{
    if s.len() > 0 && is_white_space(s[0]) {
        trim_start_chars(s.drop_first())
    } else {
        s
    }
}

/// `s` without its trailing whitespace.
pub open spec fn trim_end_chars(s: Seq<char>) -> Seq<char>
    decreases s.len(),
{
    if s.len() > 0 && is_white_space(s.last()) {
        trim_end_chars(s.drop_last())
    } else {
        s
    }
}

/// `s` without its leading and trailing whitespace.
pub open spec fn trim_chars(s: Seq<char>) -> Seq<char> {
    trim_end_chars(trim_start_chars(s))
}

/// Calls `str::trim`, which returns the slice of `s` between its leading
/// and trailing Unicode `White_Space` characters.
#[verifier::external_body]
fn str_trim(s: &str) -> (r: &str)
    ensures
        r@ == trim_chars(s@),
{
    s.trim()
}

/// A fresh `String` holding `s` with leading and trailing whitespace removed.
pub fn trim_text(s: &str) -> (r: String)
    ensures
        r@ == trim_chars(s@),
{
    let t = str_trim(s);
    String::from_str(t)
}

/// The leading whitespace removed by `trim_start_chars` is a prefix: what
/// remains is a suffix of `s`, and it is empty or starts with a
/// non-whitespace character.
pub proof fn lemma_trim_start(s: Seq<char>)
    ensures
        trim_start_chars(s).len() <= s.len(),
        trim_start_chars(s) =~= s.subrange(s.len() - trim_start_chars(s).len(), s.len() as int),
        trim_start_chars(s).len() > 0 ==> !is_white_space(trim_start_chars(s)[0]),
        forall|i: int| 0 <= i < s.len() - trim_start_chars(s).len() ==> is_white_space(#[trigger] s[i]),
    decreases s.len(),
{
    if s.len() > 0 && is_white_space(s[0]) {
        lemma_trim_start(s.drop_first());
        let t = s.drop_first();
        assert forall|i: int| 0 <= i < s.len() - trim_start_chars(s).len() implies is_white_space(#[trigger] s[i]) by {
            if i > 0 {
                assert(s[i] == t[i - 1]);
            }
        }
    }
}

/// The trailing whitespace removed by `trim_end_chars` is a suffix: what
/// remains is a prefix of `s`, and it is empty or ends with a
/// non-whitespace character.
pub proof fn lemma_trim_end(s: Seq<char>)
    ensures
        trim_end_chars(s).len() <= s.len(),
        trim_end_chars(s) =~= s.subrange(0, trim_end_chars(s).len() as int),
        trim_end_chars(s).len() > 0 ==> !is_white_space(trim_end_chars(s).last()),
        forall|i: int| trim_end_chars(s).len() <= i < s.len() ==> is_white_space(#[trigger] s[i]),
    decreases s.len(),
{
    if s.len() > 0 && is_white_space(s.last()) {
        lemma_trim_end(s.drop_last());
        let t = s.drop_last();
        assert forall|i: int| trim_end_chars(s).len() <= i < s.len() implies is_white_space(#[trigger] s[i]) by {
            if i < s.len() - 1 {
                assert(s[i] == t[i]);
            }
        }
    }
}

/// A trimmed text is empty or begins and ends with a non-whitespace
/// character, and trimming it again changes nothing.
pub proof fn lemma_trim_chars(s: Seq<char>)
    ensures
        trim_chars(s).len() > 0 ==> !is_white_space(trim_chars(s)[0]),
        trim_chars(s).len() > 0 ==> !is_white_space(trim_chars(s).last()),
        trim_chars(trim_chars(s)) == trim_chars(s),
{
    let t = trim_start_chars(s);
    let u = trim_end_chars(t);
    lemma_trim_start(s);
    lemma_trim_end(t);
    if u.len() > 0 {
        assert(u[0] == t[0]);
    }
    assert(trim_start_chars(u) == u);
    assert(trim_end_chars(u) == u);
}

/// Trimming keeps a contiguous stretch `s[start..end]` of the text and
/// drops only whitespace around it: every dropped character is whitespace,
/// a non-empty result begins and ends with a non-whitespace character, and
/// an empty result means the whole text was whitespace.
pub proof fn lemma_trim_keeps_middle(s: Seq<char>)
    ensures
        exists|start: int, end: int|
            {
                &&& 0 <= start <= end <= s.len()
                &&& trim_chars(s) == s.subrange(start, end)
                &&& forall|k: int| 0 <= k < start ==> is_white_space(#[trigger] s[k])
                &&& forall|k: int| end <= k < s.len() ==> is_white_space(#[trigger] s[k])
                &&& start < end ==> !is_white_space(s[start]) && !is_white_space(s[end - 1])
            },
        trim_chars(s).len() == 0 ==> forall|k: int| 0 <= k < s.len() ==> is_white_space(#[trigger] s[k]),
{
    let t = trim_start_chars(s);
    let u = trim_end_chars(t);
    lemma_trim_start(s);
    lemma_trim_end(t);
    let start = s.len() - t.len();
    let end = start + u.len();
    assert(u =~= s.subrange(start, end));
    assert forall|k: int| end <= k < s.len() implies is_white_space(#[trigger] s[k]) by {
        assert(s[k] == t[k - start]);
    }
    if start < end {
        assert(s[start] == u[0]);
        assert(s[end - 1] == u.last());
    } else {
        assert forall|k: int| 0 <= k < s.len() implies is_white_space(#[trigger] s[k]) by {
            if k >= start {
                assert(s[k] == t[k - start]);
            }
        }
    }
    assert(0 <= start <= end <= s.len() && trim_chars(s) == s.subrange(start, end));
}

/// The character of a decimal digit `d < 10`.
pub open spec fn digit_char(d: nat) -> char {
    if d == 0 {
        '0'
    } else if d == 1 {
        '1'
    } else if d == 2 {
        '2'
    } else if d == 3 {
        '3'
    } else if d == 4 {
        '4'
    } else if d == 5 {
        '5'
    } else if d == 6 {
        '6'
    } else if d == 7 {
        '7'
    } else if d == 8 {
        '8'
    } else {
        '9'
    }
}

/// The decimal notation of `n`, most significant digit first, with no
/// leading zeros (zero itself is `"0"`).
pub open spec fn spec_decimal(n: nat) -> Seq<char>
    decreases n,
{
    if n < 10 {
        seq![digit_char(n)]
    } else {
        spec_decimal(n / 10).push(digit_char(n % 10))
    }
}

/// Decimal notation always has a digit, and at least two from ten on; its
/// last character is the digit of `n % 10`.
pub proof fn lemma_decimal_shape(n: nat)
    ensures
        spec_decimal(n).len() >= 1,
        n >= 10 ==> spec_decimal(n).len() >= 2,
        spec_decimal(n).last() == digit_char(n % 10),
    decreases n,
{
    if n >= 10 {
        lemma_decimal_shape(n / 10);
    }
}

/// Different numbers have different decimal notations.
pub proof fn lemma_decimal_injective(n: nat, m: nat)
    requires
        spec_decimal(n) == spec_decimal(m),
    ensures
        n == m,
    decreases n,
{
    lemma_decimal_shape(n);
    lemma_decimal_shape(m);
    if n >= 10 && m >= 10 {
        assert(spec_decimal(n).drop_last() =~= spec_decimal(n / 10));
        assert(spec_decimal(m).drop_last() =~= spec_decimal(m / 10));
        lemma_decimal_injective(n / 10, m / 10);
    }
}

/// The numeric value of a decimal digit character (`'0'` is 0, ..., `'9'` is 9).
pub open spec fn digit_value(c: char) -> int {
    c as u32 - 48
}

/// Whether `c` is one of the ten decimal digit characters `'0'` to `'9'`.
pub open spec fn is_decimal_digit(c: char) -> bool {
    48 <= c as u32 <= 57
}

/// The number that a string of decimal digits denotes, read in base 10
/// with the most significant digit first.
pub open spec fn decimal_value(s: Seq<char>) -> int
    decreases s.len(),
{
    if s.len() == 0 {
        0
    } else {
        decimal_value(s.drop_last()) * 10 + digit_value(s.last())
    }
}

/// Decimal notation is positional base 10: it consists of digit characters
/// only, reading them back in base 10 gives `n`, it has no leading zero,
/// and from ten on it is the notation of `n / 10` followed by the digit of
/// `n % 10`.
pub proof fn lemma_decimal_value(n: nat)
    ensures
        forall|k: int| 0 <= k < spec_decimal(n).len() ==> is_decimal_digit(#[trigger] spec_decimal(n)[k]),
        decimal_value(spec_decimal(n)) == n,
        n > 0 ==> spec_decimal(n)[0] != '0',
        n >= 10 ==> spec_decimal(n) == spec_decimal(n / 10).push(digit_char(n % 10)),
        n < 10 ==> spec_decimal(n) == seq![digit_char(n)],
    decreases n,
{
    assert('0' as u32 == 48 && '1' as u32 == 49 && '2' as u32 == 50 && '3' as u32 == 51 && '4' as u32
        == 52 && '5' as u32 == 53 && '6' as u32 == 54 && '7' as u32 == 55 && '8' as u32 == 56 && '9' as u32
        == 57);
    if n >= 10 {
        lemma_decimal_value(n / 10);
        let d = spec_decimal(n);
        let p = spec_decimal(n / 10);
        assert(d.drop_last() =~= p);
        assert forall|k: int| 0 <= k < d.len() implies is_decimal_digit(#[trigger] d[k]) by {
            if k < p.len() {
                assert(d[k] == p[k]);
            }
        }
        assert(d[0] == p[0]);
        assert(d.last() == digit_char(n % 10));
        assert(digit_value(digit_char(n % 10)) == n % 10);
        assert(n == (n / 10) * 10 + n % 10);
        assert(decimal_value(d) == decimal_value(d.drop_last()) * 10 + digit_value(d.last()));
        assert(decimal_value(d) == (n / 10) * 10 + n % 10);
    } else {
        let d = spec_decimal(n);
        assert(d.drop_last() =~= Seq::<char>::empty());
        assert(digit_value(digit_char(n)) == n);
        assert(decimal_value(d) == decimal_value(d.drop_last()) * 10 + digit_value(d.last()));
        assert(decimal_value(d.drop_last()) == 0);
    }
}

/// The one-character text of the digit `d`.
fn digit_str(d: u64) -> (r: &'static str)
    requires
        d < 10,
    ensures
        r@ == seq![digit_char(d as nat)],
{
    proof {
        reveal_strlit("0");
        reveal_strlit("1");
        reveal_strlit("2");
        reveal_strlit("3");
        reveal_strlit("4");
        reveal_strlit("5");
        reveal_strlit("6");
        reveal_strlit("7");
        reveal_strlit("8");
        reveal_strlit("9");
    }
    if d == 0 {
        "0"
    } else if d == 1 {
        "1"
    } else if d == 2 {
        "2"
    } else if d == 3 {
        "3"
    } else if d == 4 {
        "4"
    } else if d == 5 {
        "5"
    } else if d == 6 {
        "6"
    } else if d == 7 {
        "7"
    } else if d == 8 {
        "8"
    } else {
        "9"
    }
}

/// Appends the decimal notation of `n` to `out`.
fn append_decimal(out: &mut String, n: u64)
    ensures
        final(out)@ == old(out)@ + spec_decimal(n as nat),
    decreases n,
{
    if n < 10 {
        out.append(digit_str(n));
    } else {
        append_decimal(out, n / 10);
        out.append(digit_str(n % 10));
        assert(old(out)@ + spec_decimal(n as nat) =~= old(out)@ + spec_decimal((n / 10) as nat) + seq![digit_char((n % 10) as nat)]);
    }
}

/// The decimal notation of `n`, as `format!("{}", n)` writes it.
pub fn decimal_string(n: u64) -> (r: String)
    ensures
        r@ == spec_decimal(n as nat),
{
    let mut out = String::new();
    append_decimal(&mut out, n);
    assert(out@ =~= spec_decimal(n as nat));
    out
}

} // verus!
