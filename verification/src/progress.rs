//! The progress parser: one line of worker output to an optional numeric
//! progress value.
//!
//! The rule: find the first `%`; if there is none the line carries no
//! progress. Otherwise take the text before the `%`, take its last
//! whitespace-delimited token, strip leading `[` and `(` characters, and read
//! the rest as a decimal number. Anything that does not read as a decimal
//! number also yields no progress: such a line is plain output, not an error.

use vstd::prelude::*;

use crate::text::chars_of;

verus! {

/// Unicode white space, the set `char::is_whitespace` accepts.
pub open spec fn is_space(c: char) -> bool {
    let u = c as u32;
    u == 0x09 || u == 0x0A || u == 0x0B || u == 0x0C || u == 0x0D || u == 0x20 || u == 0x85
        || u == 0xA0 || u == 0x1680 || (0x2000 <= u && u <= 0x200A) || u == 0x2028 || u == 0x2029
        || u == 0x202F || u == 0x205F || u == 0x3000
}

/// Whether `c` is white space.
pub fn is_space_exec(c: char) -> (r: bool)
    ensures
        r == is_space(c),
{
    let u = c as u32;
    u == 0x09 || u == 0x0A || u == 0x0B || u == 0x0C || u == 0x0D || u == 0x20 || u == 0x85
        || u == 0xA0 || u == 0x1680 || (0x2000 <= u && u <= 0x200A) || u == 0x2028 || u == 0x2029
        || u == 0x202F || u == 0x205F || u == 0x3000
}

/// The position of the first occurrence of `c` in `s`, if any.
pub open spec fn find_char(s: Seq<char>, c: char) -> Option<int>
    decreases s.len(),
{
    if s.len() == 0 {
        None
    } else if s[0] == c {
        Some(0)
    } else {
        match find_char(s.subrange(1, s.len() as int), c) {
            None => None,
            Some(i) => Some(i + 1),
        }
    }
}

/// `find_char` returns the least index holding `c`, or `None` when `c` does
/// not occur.
pub proof fn lemma_find_char(s: Seq<char>, c: char)
    ensures
        match find_char(s, c) {
            None => forall|i: int| 0 <= i < s.len() ==> s[i] != c,
            Some(i) => 0 <= i < s.len() && s[i] == c && (forall|j: int| 0 <= j < i ==> s[j] != c),
        },
    decreases s.len(),
{
    if s.len() == 0 {
    } else if s[0] == c {
    } else {
        let rest = s.subrange(1, s.len() as int);
        lemma_find_char(rest, c);
        match find_char(rest, c) {
            None => {
                assert forall|i: int| 0 <= i < s.len() implies s[i] != c by {
                    if i > 0 {
                        assert(rest[i - 1] == s[i]);
                    }
                }
            },
            Some(i) => {
                assert(s[i + 1] == rest[i]);
                assert forall|j: int| 0 <= j < i + 1 implies s[j] != c by {
                    if j > 0 {
                        assert(rest[j - 1] == s[j]);
                    }
                }
            },
        }
    }
}

/// The least `e' <= e` such that every character of `s` at positions
/// `e'..e` is white space: the end of the last token of `s.take(e)`.
pub open spec fn skip_spaces_back(s: Seq<char>, e: int) -> int
    decreases e,
{
    if e <= 0 {
        0
    } else if is_space(s[e - 1]) {
        skip_spaces_back(s, e - 1)
    } else {
        e
    }
}

/// The start of the run of non-space characters that ends at `e`.
pub open spec fn skip_nonspaces_back(s: Seq<char>, e: int) -> int
    decreases e,
{
    if e <= 0 {
        0
    } else if !is_space(s[e - 1]) {
        skip_nonspaces_back(s, e - 1)
    } else {
        e
    }
}

/// The last whitespace-delimited token of `s`; empty when `s` holds no
/// non-space character.
pub open spec fn last_token(s: Seq<char>) -> Seq<char> {
    let e = skip_spaces_back(s, s.len() as int);
    let b = skip_nonspaces_back(s, e);
    s.subrange(b, e)
}

/// `s` with every leading `[` and `(` removed.
pub open spec fn strip_open(s: Seq<char>) -> Seq<char>
    decreases s.len(),
{
    if s.len() > 0 && (s[0] == '[' || s[0] == '(') {
        strip_open(s.subrange(1, s.len() as int))
    } else {
        s
    }
}

/// A decimal digit.
pub open spec fn is_digit(c: char) -> bool {
    48 <= c as u32 <= 57
}

/// The value of one decimal digit character.
pub open spec fn digit_val(c: char) -> int {
    c as u32 - 48
}

/// Every character of `s` is a decimal digit.
pub open spec fn all_digits(s: Seq<char>) -> bool {
    forall|i: int| 0 <= i < s.len() ==> is_digit(s[i])
}

/// The number written by the digit string `s`, most significant digit first.
pub open spec fn digits_val(s: Seq<char>) -> int
    decreases s.len(),
{
    if s.len() == 0 {
        0
    } else {
        digits_val(s.drop_last()) * 10 + digit_val(s.last())
    }
}

/// Ten to the power `n`.
pub open spec fn pow10(n: nat) -> int
    decreases n,
{
    if n == 0 {
        1
    } else {
        10 * pow10((n - 1) as nat)
    }
}

/// A digit string of length `n` writes a number below `pow10(n)`.
pub proof fn lemma_digits_val_bound(s: Seq<char>)
    requires
        all_digits(s),
    ensures
        0 <= digits_val(s) < pow10(s.len()),
    decreases s.len(),
{
    if s.len() > 0 {
        assert(all_digits(s.drop_last())) by {
            assert(forall|i: int|
                0 <= i < s.len() - 1 ==> s.drop_last()[i] == s[i]);
        }
        lemma_digits_val_bound(s.drop_last());
        assert(is_digit(s.last()));
    }
}

/// A progress number as the parser reads it: the value is
/// `mantissa / pow10(scale)`, negated when `negative` holds.
///
/// Worker progress is conventionally a percentage, but no clamping is done:
/// parsed values may lie outside 0 to 100 and callers must tolerate that.
#[derive(Clone, Copy, PartialEq, Eq, Structural, Debug)]
pub struct ProgressValue {
    pub negative: bool,
    pub mantissa: u64,
    pub scale: u32,
}

/// The longest digit string (integer and fraction digits together) the
/// parser accepts; anything longer is treated as unparsable text.
pub const MAX_NUMBER_DIGITS: usize = 18;

/// The decimal number written by `s`, if any: an optional `+` or `-` sign,
/// one or more digits, then optionally a `.` and one or more digits, with at
/// most `MAX_NUMBER_DIGITS` digits in all. Anything else is no number.
pub open spec fn decimal_of(s: Seq<char>) -> Option<ProgressValue> {
    if s.len() == 0 {
        None
    } else {
        let negative = s[0] == '-';
        let body = if s[0] == '-' || s[0] == '+' {
            s.subrange(1, s.len() as int)
        } else {
            s
        };
        let ip = match find_char(body, '.') {
            None => body,
            Some(i) => body.subrange(0, i),
        };
        let fp = match find_char(body, '.') {
            None => Seq::<char>::empty(),
            Some(i) => body.subrange(i + 1, body.len() as int),
        };
        if ip.len() > 0 && all_digits(ip) && fp.len() + ip.len() <= MAX_NUMBER_DIGITS
            && all_digits(fp) && (find_char(body, '.') is Some ==> fp.len() > 0) {
            Some(ProgressValue {
                negative,
                mantissa: digits_val(ip + fp) as u64,
                scale: fp.len() as u32,
            })
        } else {
            None
        }
    }
}

fn digit_val_exec(c: char) -> (r: u64)
    requires
        is_digit(c),
    ensures
        r as int == digit_val(c),
{
    ((c as u32) - 48) as u64
}

/// `pow10` is positive.
proof fn lemma_pow10_positive(n: nat)
    ensures
        pow10(n) >= 1,
    decreases n,
{
    if n > 0 {
        lemma_pow10_positive((n - 1) as nat);
    }
}

/// `pow10` grows with its exponent.
proof fn lemma_pow10_increases(a: nat, b: nat)
    requires
        a <= b,
    ensures
        pow10(a) <= pow10(b),
    decreases b,
{
    if a < b {
        lemma_pow10_increases(a, (b - 1) as nat);
        lemma_pow10_positive((b - 1) as nat);
    }
}

/// `pow10` turns addition of exponents into multiplication.
proof fn lemma_pow10_adds(a: nat, b: nat)
    ensures
        pow10(a) * pow10(b) == pow10((a + b) as nat),
    decreases a,
{
    if a == 0 {
    } else {
        lemma_pow10_adds((a - 1) as nat, b);
        vstd::arithmetic::mul::lemma_mul_is_associative(10, pow10((a - 1) as nat), pow10(b));
    }
}

/// The number written by two digit strings in a row.
proof fn lemma_digits_val_concat(a: Seq<char>, b: Seq<char>)
    ensures
        digits_val(a + b) == digits_val(a) * pow10(b.len()) + digits_val(b),
    decreases b.len(),
{
    if b.len() == 0 {
        assert(a + b =~= a);
    } else {
        lemma_digits_val_concat(a, b.drop_last());
        assert((a + b).drop_last() =~= a + b.drop_last());
        let n1 = (b.len() - 1) as nat;
        vstd::arithmetic::mul::lemma_mul_is_distributive_add_other_way(
            10,
            digits_val(a) * pow10(n1),
            digits_val(b.drop_last()),
        );
        vstd::arithmetic::mul::lemma_mul_is_associative(digits_val(a), pow10(n1), 10);
    }
}

/// Whether every character of `chars[from..to]` is a decimal digit.
#[verifier::loop_isolation(false)]
fn all_digits_range(chars: &Vec<char>, from: usize, to: usize) -> (r: bool)
    requires
        from <= to <= chars@.len(),
    ensures
        r == all_digits(chars@.subrange(from as int, to as int)),
{
    let ghost s = chars@.subrange(from as int, to as int);
    let mut j: usize = from;
    while j < to
        invariant
            from <= j <= to,
            forall|t: int| from <= t < j ==> is_digit(chars@[t]),
        decreases to - j,
    {
        let u = chars[j] as u32;
        if !(48 <= u && u <= 57) {
            proof {
                assert(s[j - from] == chars@[j as int]);
            }
            return false;
        }
        j = j + 1;
    }
    proof {
        assert forall|t: int| 0 <= t < s.len() implies is_digit(s[t]) by {
            assert(s[t] == chars@[from + t]);
        }
    }
    true
}

/// The number written by the digit string `chars[from..to]`.
#[verifier::loop_isolation(false)]
fn digits_value(chars: &Vec<char>, from: usize, to: usize) -> (r: u64)
    requires
        from <= to <= chars@.len(),
        to - from <= MAX_NUMBER_DIGITS,
        all_digits(chars@.subrange(from as int, to as int)),
    ensures
        r as int == digits_val(chars@.subrange(from as int, to as int)),
        (r as int) < pow10((to - from) as nat),
{
    let ghost s = chars@.subrange(from as int, to as int);
    let mut acc: u64 = 0;
    let mut p: usize = from;
    while p < to
        invariant
            from <= p <= to,
            acc as int == digits_val(s.take(p - from)),
            (acc as int) < pow10((p - from) as nat),
        decreases to - p,
    {
        proof {
            let cnt = p - from;
            assert(s[cnt as int] == chars@[p as int]);
            assert(s.take(cnt as int).push(s[cnt as int]) =~= s.take(cnt + 1));
            assert(s.take(cnt + 1).drop_last() =~= s.take(cnt as int));
            assert(is_digit(s[cnt as int]));
            lemma_pow10_increases((cnt) as nat, 17);
            assert(pow10(17) == 100000000000000000) by {
                reveal_with_fuel(pow10, 20);
            }
        }
        let d = digit_val_exec(chars[p]);
        acc = acc * 10 + d;
        p = p + 1;
    }
    proof {
        assert(s.take((to - from) as int) =~= s);
    }
    acc
}

/// Ten to the power `n`, as a machine integer.
#[verifier::loop_isolation(false)]
fn pow10_u64(n: usize) -> (r: u64)
    requires
        n <= MAX_NUMBER_DIGITS,
    ensures
        r as int == pow10(n as nat),
{
    let mut r: u64 = 1;
    let mut i: usize = 0;
    while i < n
        invariant
            i <= n,
            r as int == pow10(i as nat),
        decreases n - i,
    {
        proof {
            lemma_pow10_increases(i as nat, 17);
            assert(pow10(17) == 100000000000000000) by {
                reveal_with_fuel(pow10, 20);
            }
        }
        r = r * 10;
        i = i + 1;
    }
    r
}

/// Read `chars[from..to]` as a decimal number.
#[verifier::loop_isolation(false)]
#[verifier::rlimit(100)]
fn parse_decimal(chars: &Vec<char>, from: usize, to: usize) -> (r: Option<ProgressValue>)
    requires
        from <= to <= chars@.len(),
    ensures
        r == decimal_of(chars@.subrange(from as int, to as int)),
{
    let ghost s = chars@.subrange(from as int, to as int);
    if from == to {
        return None;
    }
    let negative = chars[from] == '-';
    let start: usize = if chars[from] == '-' || chars[from] == '+' {
        from + 1
    } else {
        from
    };
    let ghost body = if s[0] == '-' || s[0] == '+' {
        s.subrange(1, s.len() as int)
    } else {
        s
    };
    proof {
        assert(body =~= chars@.subrange(start as int, to as int));
    }

    // Locate the first '.' in the body, if any.
    let mut k: usize = start;
    while k < to && chars[k] != '.'
        invariant
            start <= k <= to <= chars@.len(),
            forall|j: int| start <= j < k ==> chars@[j] != '.',
        decreases to - k,
    {
        k = k + 1;
    }
    let dot: Option<usize> = if k < to {
        Some(k)
    } else {
        None
    };
    proof {
        assert(forall|j: int| 0 <= j < body.len() ==> body[j] == chars@[start + j]);
        lemma_find_char(body, '.');
        match dot {
            None => {
                if find_char(body, '.') is Some {
                    let i = find_char(body, '.')->Some_0;
                    assert(body[i] == chars@[start + i]);
                    assert(false);
                }
            },
            Some(d) => {
                assert(body[d - start] == chars@[d as int]);
                match find_char(body, '.') {
                    None => {
                        assert(false);
                    },
                    Some(i) => {
                        if i < d - start {
                            assert(body[i] == chars@[start + i]);
                            assert(false);
                        }
                        if i > d - start {
                            assert(false);
                        }
                    },
                }
            },
        }
        assert(dot is Some ==> find_char(body, '.') == Some(dot->Some_0 - start as int));
        assert(dot is None ==> find_char(body, '.') is None);
    }

    // Integer-part and fraction-part ranges within `chars`.
    let ip_end: usize = match dot {
        Some(d) => d,
        None => to,
    };
    let fp_start: usize = match dot {
        Some(d) => d + 1,
        None => to,
    };
    let ghost ip = match find_char(body, '.') {
        None => body,
        Some(i) => body.subrange(0, i),
    };
    let ghost fp = match find_char(body, '.') {
        None => Seq::<char>::empty(),
        Some(i) => body.subrange(i + 1, body.len() as int),
    };
    proof {
        assert(ip =~= chars@.subrange(start as int, ip_end as int));
        assert(fp =~= chars@.subrange(fp_start as int, to as int));
    }

    if ip_end == start {
        // Empty integer part.
        return None;
    }
    if dot.is_some() && fp_start == to {
        // A '.' with no fraction digits after it.
        return None;
    }
    if (ip_end - start) + (to - fp_start) > MAX_NUMBER_DIGITS {
        return None;
    }

    // Every remaining character must be a digit.
    if !all_digits_range(chars, start, ip_end) {
        return None;
    }
    if !all_digits_range(chars, fp_start, to) {
        return None;
    }

    // The mantissa is the number written by the integer-part digits followed
    // by the fraction-part digits.
    let ip_val = digits_value(chars, start, ip_end);
    let fp_val = digits_value(chars, fp_start, to);
    let scale_len: usize = to - fp_start;
    let pw = pow10_u64(scale_len);
    proof {
        lemma_digits_val_concat(ip, fp);
        lemma_digits_val_bound(ip);
        lemma_digits_val_bound(fp);
        lemma_pow10_adds(ip.len(), fp.len());
        lemma_pow10_positive(fp.len());
        assert((ip_val as int) * (pw as int) <= (pow10(ip.len()) - 1) * pow10(fp.len())) by {
            vstd::arithmetic::mul::lemma_mul_inequality(
                ip_val as int,
                pow10(ip.len()) - 1,
                pow10(fp.len()),
            );
        }
        assert((pow10(ip.len()) - 1) * pow10(fp.len()) == pow10(ip.len()) * pow10(fp.len())
            - 1 * pow10(fp.len())) by {
            vstd::arithmetic::mul::lemma_mul_is_distributive_sub_other_way(
                pow10(fp.len()),
                pow10(ip.len()),
                1,
            );
        }
        lemma_pow10_increases((ip.len() + fp.len()) as nat, 18);
        assert(pow10(18) == 1000000000000000000) by {
            reveal_with_fuel(pow10, 20);
        }
    }
    let mantissa = ip_val * pw + fp_val;
    Some(ProgressValue { negative, mantissa, scale: scale_len as u32 })
}

/// What one line of worker output says about progress: the decimal number
/// standing right before the first `%`, after stripping leading `[` or `(`.
pub open spec fn parse_progress(line: Seq<char>) -> Option<ProgressValue> {
    match find_char(line, '%') {
        None => None,
        Some(i) => decimal_of(strip_open(last_token(line.subrange(0, i)))),
    }
}

/// Parse one line of worker output into an optional progress value.
///
/// A line with no `%` never carries progress; neither does one whose text
/// before the first `%` does not end in a readable decimal number. Such
/// lines are plain output, not errors.
#[verifier::loop_isolation(false)]
#[verifier::rlimit(100)]
pub fn parse_progress_line(line: &str) -> (r: Option<ProgressValue>)
    ensures
        r == parse_progress(line@),
        !line@.contains('%') ==> r is None,
{
    proof {
        lemma_find_char(line@, '%');
        if find_char(line@, '%') is Some {
            let i = find_char(line@, '%')->Some_0;
            assert(line@.contains('%'));
        }
    }
    let chars = chars_of(line);
    let n = chars.len();

    // Find the first '%'.
    let mut i: usize = 0;
    while i < n && chars[i] != '%'
        invariant
            i <= n == chars@.len(),
            chars@ == line@,
            forall|j: int| 0 <= j < i ==> chars@[j] != '%',
        decreases n - i,
    {
        i = i + 1;
    }
    if i == n {
        proof {
            if find_char(line@, '%') is Some {
                assert(false);
            }
        }
        return None;
    }
    let p: usize = i;
    proof {
        match find_char(line@, '%') {
            None => {
                assert(false);
            },
            Some(fi) => {
                if fi < p {
                    assert(false);
                }
                if fi > p {
                    assert(false);
                }
            },
        }
    }
    let ghost prefix = line@.subrange(0, p as int);

    // The last whitespace-delimited token of the prefix: skip trailing
    // spaces back from the '%', then take the non-space run before that.
    let mut e: usize = p;
    while e > 0 && is_space_exec(chars[e - 1])
        invariant
            e <= p <= chars@.len(),
            chars@ == line@,
            prefix == line@.subrange(0, p as int),
            skip_spaces_back(prefix, p as int) == skip_spaces_back(prefix, e as int),
        decreases e,
    {
        proof {
            assert(prefix[e - 1] == chars@[e - 1]);
        }
        e = e - 1;
    }
    proof {
        if e > 0 {
            assert(prefix[e - 1] == chars@[e - 1]);
        }
        assert(skip_spaces_back(prefix, e as int) == e as int);
    }
    let mut b: usize = e;
    while b > 0 && !is_space_exec(chars[b - 1])
        invariant
            b <= e <= p <= chars@.len(),
            chars@ == line@,
            prefix == line@.subrange(0, p as int),
            skip_nonspaces_back(prefix, e as int) == skip_nonspaces_back(prefix, b as int),
        decreases b,
    {
        proof {
            assert(prefix[b - 1] == chars@[b - 1]);
        }
        b = b - 1;
    }
    proof {
        if b > 0 {
            assert(prefix[b - 1] == chars@[b - 1]);
        }
        assert(skip_nonspaces_back(prefix, b as int) == b as int);
        assert(last_token(prefix) =~= prefix.subrange(b as int, e as int));
    }

    // Strip leading '[' and '(' from the token.
    let ghost token = prefix.subrange(b as int, e as int);
    let mut t: usize = b;
    while t < e && (chars[t] == '[' || chars[t] == '(')
        invariant
            b <= t <= e <= p <= chars@.len(),
            chars@ == line@,
            prefix == line@.subrange(0, p as int),
            token == prefix.subrange(b as int, e as int),
            strip_open(token) == strip_open(prefix.subrange(t as int, e as int)),
        decreases e - t,
    {
        proof {
            let cur = prefix.subrange(t as int, e as int);
            assert(cur[0] == chars@[t as int]);
            assert(cur.subrange(1, cur.len() as int) =~= prefix.subrange(
                t + 1,
                e as int,
            ));
        }
        t = t + 1;
    }
    proof {
        let cur = prefix.subrange(t as int, e as int);
        if t < e {
            assert(cur[0] == chars@[t as int]);
        }
        assert(strip_open(cur) == cur);
        assert(cur =~= chars@.subrange(t as int, e as int));
    }

    parse_decimal(&chars, t, e)
}

} // verus!
