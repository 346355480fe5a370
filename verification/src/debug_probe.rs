//! Inputs of the scripted debug probe: breakpoint requests and the address
//! syntax they use (optional `0x`/`0X` hexadecimal, otherwise decimal).
use vstd::prelude::*;

verus! {

/// A breakpoint request: by address, by symbol, or by source line.
#[derive(Debug, Clone, PartialEq)]
pub enum BreakpointSpec {
    Address { address: String },
    Symbol { symbol: String },
    Line { line: u32, file: Option<String> },
}

/// Unicode `White_Space`, the characters `str::trim` removes.
pub open spec fn is_white_space(c: char) -> bool {
    let u = c as u32;
    ||| 0x09 <= u <= 0x0d
    ||| u == 0x20
    ||| u == 0x85
    ||| u == 0xa0
    ||| u == 0x1680
    ||| 0x2000 <= u <= 0x200a
    ||| u == 0x2028
    ||| u == 0x2029
    ||| u == 0x202f
    ||| u == 0x205f
    ||| u == 0x3000
}

/// `s` without leading and trailing white space.
pub open spec fn trimmed(s: Seq<char>) -> Seq<char> {
    if forall|i: int| 0 <= i < s.len() ==> is_white_space(#[trigger] s[i]) {
        Seq::empty()
    } else {
        let a = choose|a: int|
            0 <= a < s.len() && !is_white_space(#[trigger] s[a]) && forall|i: int|
                0 <= i < a ==> is_white_space(#[trigger] s[i]);
        let b = choose|b: int|
            0 <= b < s.len() && !is_white_space(#[trigger] s[b]) && forall|i: int|
                b < i < s.len() ==> is_white_space(#[trigger] s[i]);
        s.subrange(a, b + 1)
    }
}

/// The value of digit `c` in `radix` (10 or 16), if it is one.
pub open spec fn digit_of(c: char, radix: u32) -> Option<u32> {
    let u = c as u32;
    if 0x30 <= u <= 0x39 {
        if u - 0x30 < radix {
            Some((u - 0x30) as u32)
        } else {
            None
        }
    } else if radix == 16 && 0x61 <= u <= 0x66 {
        Some((u - 0x61 + 10) as u32)
    } else if radix == 16 && 0x41 <= u <= 0x46 {
        Some((u - 0x41 + 10) as u32)
    } else {
        None
    }
}

/// Every character of `cs` is a digit in `radix`.
pub open spec fn all_digits(cs: Seq<char>, radix: u32) -> bool {
    forall|i: int| 0 <= i < cs.len() ==> (#[trigger] digit_of(cs[i], radix)) is Some
}

/// The value of the digit string `cs` in `radix`.
pub open spec fn digits_value(cs: Seq<char>, radix: u32) -> nat
    decreases cs.len(),
{
    if cs.len() == 0 {
        0
    } else {
        (digits_value(cs.drop_last(), radix) * radix + digit_of(cs.last(), radix).unwrap()) as nat
    }
}

/// `u32::from_str_radix` for radix 10 or 16: an optional `+`, then at least
/// one digit, and a value that fits in 32 bits.
pub open spec fn parse_u32(cs: Seq<char>, radix: u32) -> Option<u32> {
    let body = if cs.len() > 0 && cs[0] == '+' {
        cs.drop_first()
    } else {
        cs
    };
    if body.len() == 0 || !all_digits(body, radix) || digits_value(body, radix) > u32::MAX {
        None
    } else {
        Some(digits_value(body, radix) as u32)
    }
}

/// The address `s` denotes: white space trimmed, then hexadecimal after a
/// `0x` or `0X` prefix, otherwise decimal.
pub open spec fn address_of(s: Seq<char>) -> Option<u32> {
    let t = trimmed(s);
    if t.len() >= 2 && t[0] == '0' && (t[1] == 'x' || t[1] == 'X') {
        parse_u32(t.drop_first().drop_first(), 16)
    } else {
        parse_u32(t, 10)
    }
}

/// The hexadecimal digits in lower case, by value.
pub open spec fn lower_hex_digits() -> Seq<char> {
    seq!['0', '1', '2', '3', '4', '5', '6', '7', '8', '9', 'a', 'b', 'c', 'd', 'e', 'f']
}

/// The hexadecimal digits in upper case, by value.
pub open spec fn upper_hex_digits() -> Seq<char> {
    seq!['0', '1', '2', '3', '4', '5', '6', '7', '8', '9', 'A', 'B', 'C', 'D', 'E', 'F']
}

/// `0`-`9` are decimal and hexadecimal digits of their usual values, `a`-`f`
/// and `A`-`F` are the hexadecimal digits 10 to 15 and not decimal ones, and
/// nothing else is a digit: exactly what `u32::from_str_radix` accepts.
pub proof fn lemma_digit_values(c: char, i: int)
    ensures
        0 <= i < 16 ==> digit_of(lower_hex_digits()[i], 16) == Some(i as u32),
        0 <= i < 16 ==> digit_of(upper_hex_digits()[i], 16) == Some(i as u32),
        0 <= i < 10 ==> digit_of(lower_hex_digits()[i], 10) == Some(i as u32),
        10 <= i < 16 ==> digit_of(lower_hex_digits()[i], 10) is None,
        10 <= i < 16 ==> digit_of(upper_hex_digits()[i], 10) is None,
        digit_of(c, 16) matches Some(d) ==> d < 16 && (lower_hex_digits()[d as int] == c
            || upper_hex_digits()[d as int] == c),
        digit_of(c, 10) matches Some(d) ==> d < 10 && lower_hex_digits()[d as int] == c,
{
    assert(lower_hex_digits()[0] == '0');
    assert(seq!['0', '1', '2', '3', '4', '5', '6', '7', '8', '9', 'a', 'b', 'c', 'd', 'e', 'f'][10] == 'a');
}

/// `from_str_radix` is positional: one digit is its own value, appending a
/// digit multiplies by the radix and adds it (while the value fits in 32
/// bits), and a leading `+` changes nothing.
pub proof fn lemma_parse_positional(cs: Seq<char>, c: char, radix: u32)
    requires
        radix == 10 || radix == 16,
    ensures
        digit_of(c, radix) matches Some(d) ==> parse_u32(seq![c], radix) == Some(d),
        cs.len() > 0 && cs[0] != '+' && parse_u32(cs, radix) is Some && digit_of(c, radix) is Some
            && parse_u32(cs, radix).unwrap() * radix + digit_of(c, radix).unwrap() <= u32::MAX
            ==> parse_u32(cs.push(c), radix) == Some(
            (parse_u32(cs, radix).unwrap() * radix + digit_of(c, radix).unwrap()) as u32,
        ),
        cs.len() > 0 && cs[0] != '+' ==> parse_u32(seq!['+'] + cs, radix) == parse_u32(cs, radix),
{
    if digit_of(c, radix) is Some {
        let one = seq![c];
        assert(one.drop_last() =~= Seq::<char>::empty());
        assert(all_digits(one, radix));
        assert(c != '+');
        assert(one[0] == c && one.last() == c);
        assert(digits_value(Seq::<char>::empty(), radix) == 0);
        assert(digits_value(one, radix) == digit_of(c, radix).unwrap());
    }
    let pushed = cs.push(c);
    assert(pushed.drop_last() =~= cs);
    if cs.len() > 0 && cs[0] != '+' && parse_u32(cs, radix) is Some && digit_of(c, radix) is Some {
        assert(all_digits(pushed, radix)) by {
            assert forall|j: int| 0 <= j < pushed.len() implies (#[trigger] digit_of(pushed[j], radix))
                is Some by {
                if j < cs.len() {
                    assert(pushed[j] == cs[j]);
                }
            }
        }
    }
    if cs.len() > 0 && cs[0] != '+' {
        assert((seq!['+'] + cs).drop_first() =~= cs);
    }
}

/// No white space at either end leaves a string as it is.
proof fn lemma_trimmed_unchanged(s: Seq<char>)
    requires
        s.len() > 0,
        !is_white_space(s[0]),
        !is_white_space(s.last()),
    ensures
        trimmed(s) == s,
{
    assert(!is_white_space(s[0]));
    let a = choose|a: int|
        0 <= a < s.len() && !is_white_space(#[trigger] s[a]) && forall|i: int|
            0 <= i < a ==> is_white_space(#[trigger] s[i]);
    let b = choose|b: int|
        0 <= b < s.len() && !is_white_space(#[trigger] s[b]) && forall|i: int|
            b < i < s.len() ==> is_white_space(#[trigger] s[i]);
    assert(0 <= 0 < s.len() && !is_white_space(s[0]) && forall|i: int|
        0 <= i < 0 ==> is_white_space(#[trigger] s[i]));
    assert(0 <= s.len() - 1 < s.len() && !is_white_space(s[s.len() - 1]) && forall|i: int|
        s.len() - 1 < i < s.len() ==> is_white_space(#[trigger] s[i]));
    if a > 0 {
        assert(is_white_space(s[0]));
    }
    if b < s.len() - 1 {
        assert(is_white_space(s[s.len() - 1]));
    }
    assert(s.subrange(0, s.len() as int) =~= s);
}

/// An address already trimmed is read by its prefix.
proof fn lemma_address_of_trimmed(t: Seq<char>)
    requires
        trimmed(t) == t,
    ensures
        address_of(t) == if t.len() >= 2 && t[0] == '0' && (t[1] == 'x' || t[1] == 'X') {
            parse_u32(t.drop_first().drop_first(), 16)
        } else {
            parse_u32(t, 10)
        },
{
}

proof fn lemma_hex_prefix(cs: Seq<char>, x: char)
    requires
        cs.len() > 0,
        !is_white_space(cs.last()),
        x == 'x' || x == 'X',
    ensures
        address_of(seq!['0', x] + cs) == parse_u32(cs, 16),
{
    let t = seq!['0', x] + cs;
    assert(t[0] == '0' && t[1] == x && t.last() == cs.last() && t.len() >= 2);
    lemma_trimmed_unchanged(t);
    lemma_address_of_trimmed(t);
    assert(t.drop_first().drop_first() =~= cs);
}

/// `0x` or `0X` followed by hexadecimal digits is the hexadecimal number they
/// spell; a digit string without the prefix is read as decimal.
pub proof fn lemma_address_prefix(cs: Seq<char>)
    requires
        cs.len() > 0,
        digit_of(cs.last(), 16) is Some,
    ensures
        address_of(seq!['0', 'x'] + cs) == parse_u32(cs, 16),
        address_of(seq!['0', 'X'] + cs) == parse_u32(cs, 16),
        cs[0] != '0' && digit_of(cs[0], 10) is Some && digit_of(cs.last(), 10) is Some ==> address_of(cs)
            == parse_u32(cs, 10),
{
    assert(!is_white_space(cs.last()));
    lemma_hex_prefix(cs, 'x');
    lemma_hex_prefix(cs, 'X');
    if cs[0] != '0' && digit_of(cs[0], 10) is Some && digit_of(cs.last(), 10) is Some {
        assert(!is_white_space(cs[0]));
        lemma_trimmed_unchanged(cs);
        lemma_address_of_trimmed(cs);
    }
}

fn is_white_space_char(c: char) -> (r: bool)
    ensures
        r == is_white_space(c),
{
    let u = c as u32;
    (0x09 <= u && u <= 0x0d) || u == 0x20 || u == 0x85 || u == 0xa0 || u == 0x1680 || (0x2000 <= u
        && u <= 0x200a) || u == 0x2028 || u == 0x2029 || u == 0x202f || u == 0x205f || u == 0x3000
}

fn digit_value(c: char, radix: u32) -> (r: Option<u32>)
    ensures
        r == digit_of(c, radix),
{
    let u = c as u32;
    if 0x30 <= u && u <= 0x39 {
        if u - 0x30 < radix {
            Some(u - 0x30)
        } else {
            None
        }
    } else if radix == 16 && 0x61 <= u && u <= 0x66 {
        Some(u - 0x61 + 10)
    } else if radix == 16 && 0x41 <= u && u <= 0x46 {
        Some(u - 0x41 + 10)
    } else {
        None
    }
}

/// A longer digit string is worth at least as much as its prefix.
proof fn lemma_digits_value_monotone(cs: Seq<char>, radix: u32, i: int)
    requires
        1 <= radix,
        0 <= i <= cs.len(),
        all_digits(cs, radix),
    ensures
        digits_value(cs.subrange(0, i), radix) <= digits_value(cs, radix),
    decreases cs.len() - i,
{
    if i < cs.len() {
        let next = cs.subrange(0, i + 1);
        assert(next.drop_last() =~= cs.subrange(0, i));
        assert(digit_of(cs[i], radix) is Some);
        let d = digits_value(cs.subrange(0, i), radix);
        assert(d * radix >= d) by (nonlinear_arith)
            requires
                radix >= 1,
        ;
        lemma_digits_value_monotone(cs, radix, i + 1);
    } else {
        assert(cs.subrange(0, i) =~= cs);
    }
}

/// Parses characters `start..end` of `s` as `u32::from_str_radix` would.
fn parse_u32_range(s: &str, start: usize, end: usize, radix: u32) -> (r: Option<u32>)
    requires
        start <= end <= s@.len(),
        radix == 10 || radix == 16,
    ensures
        r == parse_u32(s@.subrange(start as int, end as int), radix),
{
    let ghost cs = s@.subrange(start as int, end as int);
    let mut i = start;
    if i < end && s.get_char(i) == '+' {
        i = i + 1;
    }
    let ghost body = s@.subrange(i as int, end as int);
    assert(body =~= if cs.len() > 0 && cs[0] == '+' {
        cs.drop_first()
    } else {
        cs
    });
    if i == end {
        return None;
    }
    let first = i;
    let mut v: u64 = 0;
    while i < end
        invariant
            first <= i <= end <= s@.len(),
            body == s@.subrange(first as int, end as int),
            cs == s@.subrange(start as int, end as int),
            body == (if cs.len() > 0 && cs[0] == '+' {
                cs.drop_first()
            } else {
                cs
            }),
            body.len() > 0,
            radix == 10 || radix == 16,
            all_digits(s@.subrange(first as int, i as int), radix),
            v == digits_value(s@.subrange(first as int, i as int), radix),
            v <= u32::MAX,
        decreases end - i,
    {
        let c = s.get_char(i);
        let d = match digit_value(c, radix) {
            Some(d) => d,
            None => {
                assert(body[i - first] == c);
                assert(digit_of(body[i - first], radix) is None);
                return None;
            },
        };
        let ghost prefix = s@.subrange(first as int, i + 1);
        assert(prefix.drop_last() =~= s@.subrange(first as int, i as int));
        assert(prefix.last() == c);
        assert(all_digits(prefix, radix)) by {
            assert forall|j: int| 0 <= j < prefix.len() implies (#[trigger] digit_of(
                prefix[j],
                radix,
            )) is Some by {
                if j < prefix.len() - 1 {
                    assert(prefix[j] == s@.subrange(first as int, i as int)[j]);
                }
            }
        }
        assert(v * (radix as u64) <= 0xffff_ffff * 16) by (nonlinear_arith)
            requires
                v <= 0xffff_ffff,
                radix <= 16,
        ;
        v = v * (radix as u64) + (d as u64);
        assert(v == digits_value(prefix, radix));
        if v > 0xffff_ffff {
            proof {
                if all_digits(body, radix) {
                    assert(prefix =~= body.subrange(0, i + 1 - first));
                    lemma_digits_value_monotone(body, radix, i + 1 - first);
                }
            }
            return None;
        }
        i = i + 1;
    }
    assert(s@.subrange(first as int, i as int) =~= body);
    Some(v as u32)
}

/// Parses an address: white space trimmed, then `0x`/`0X` hexadecimal or
/// decimal, with no separators; `None` when it is not one.
pub fn parse_address(s: &str) -> (r: Option<u32>)
    ensures
        r == address_of(s@),
{
    let n = s.unicode_len();
    let mut a: usize = 0;
    while a < n && is_white_space_char(s.get_char(a))
        invariant
            0 <= a <= n,
            n == s@.len(),
            forall|i: int| 0 <= i < a ==> is_white_space(#[trigger] s@[i]),
        decreases n - a,
    {
        a = a + 1;
    }
    let mut b: usize = n;
    while b > a && is_white_space_char(s.get_char(b - 1))
        invariant
            a <= b <= n,
            n == s@.len(),
            forall|i: int| 0 <= i < a ==> is_white_space(#[trigger] s@[i]),
            forall|i: int| b <= i < n ==> is_white_space(#[trigger] s@[i]),
            a < n ==> !is_white_space(s@[a as int]),
        decreases b - a,
    {
        b = b - 1;
    }
    proof {
        let t = s@.subrange(a as int, b as int);
        if a == b {
            assert forall|i: int| 0 <= i < s@.len() implies is_white_space(#[trigger] s@[i]) by {
                if a <= i < b {
                } else if i < a {
                } else {
                }
            }
            assert(trimmed(s@) =~= t);
        } else {
            let sa = choose|x: int|
                0 <= x < s@.len() && !is_white_space(#[trigger] s@[x]) && forall|i: int|
                    0 <= i < x ==> is_white_space(#[trigger] s@[i]);
            let sb = choose|x: int|
                0 <= x < s@.len() && !is_white_space(#[trigger] s@[x]) && forall|i: int|
                    x < i < s@.len() ==> is_white_space(#[trigger] s@[i]);
            assert(!is_white_space(s@[a as int]));
            assert(!is_white_space(s@[b - 1]));
            assert(0 <= a < s@.len() && !is_white_space(s@[a as int]) && forall|i: int|
                0 <= i < a ==> is_white_space(#[trigger] s@[i]));
            assert(0 <= b - 1 < s@.len() && !is_white_space(s@[b - 1]) && forall|i: int|
                b - 1 < i < s@.len() ==> is_white_space(#[trigger] s@[i]));
            assert(sa == a) by {
                if sa < a {
                    assert(is_white_space(s@[sa]));
                }
                if sa > a {
                    assert(is_white_space(s@[a as int]));
                }
            }
            assert(sb == b - 1) by {
                if sb < b - 1 {
                    assert(is_white_space(s@[b - 1]));
                }
                if sb > b - 1 {
                    assert(is_white_space(s@[sb]));
                }
            }
            assert(trimmed(s@) =~= t);
        }
    }
    if b - a >= 2 && s.get_char(a) == '0' && (s.get_char(a + 1) == 'x' || s.get_char(a + 1)
        == 'X') {
        let ghost t = s@.subrange(a as int, b as int);
        assert(t.drop_first().drop_first() =~= s@.subrange(a + 2, b as int));
        parse_u32_range(s, a + 2, b, 16)
    } else {
        parse_u32_range(s, a, b, 10)
    }
}

} // verus!
