use vstd::prelude::*;
use vstd::string::*;

verus! {

/// Value of `c` as a digit of base up to 16, or -1 where it is none.
pub open spec fn digit_value(c: char) -> int {
    if '0' <= c && c <= '9' {
        c as int - '0' as int
    } else if 'a' <= c && c <= 'f' {
        c as int - 'a' as int + 10
    } else if 'A' <= c && c <= 'F' {
        c as int - 'A' as int + 10
    } else {
        -1
    }
}

pub open spec fn is_digit(c: char, radix: int) -> bool {
    0 <= digit_value(c) < radix
}

pub open spec fn all_digits(s: Seq<char>, radix: int) -> bool {
    forall|i: int| 0 <= i < s.len() ==> is_digit(#[trigger] s[i], radix)
}

/// The number that a sequence of digits writes, most significant first.
pub open spec fn digits_value(s: Seq<char>, radix: int) -> int
    decreases s.len(),
{
    if s.len() == 0 {
        0
    } else {
        digits_value(s.drop_last(), radix) * radix + digit_value(s.last())
    }
}

/// The text without one leading `+`.
pub open spec fn unsigned_body(s: Seq<char>) -> Seq<char> {
    if s.len() > 0 && s[0] == '+' {
        s.drop_first()
    } else {
        s
    }
}

/// An unsigned integer in base `radix` that is at most `max`: an optional `+`
/// and at least one digit, nothing else.
pub open spec fn parse_unsigned_spec(s: Seq<char>, radix: int, max: int) -> Option<int> {
    let body = unsigned_body(s);
    if body.len() > 0 && all_digits(body, radix) && digits_value(body, radix) <= max {
        Some(digits_value(body, radix))
    } else {
        None
    }
}

pub proof fn lemma_digits_value_nonneg(s: Seq<char>, radix: int)
    requires
        all_digits(s, radix),
        radix >= 1,
    ensures
        digits_value(s, radix) >= 0,
    decreases s.len(),
{
    if s.len() > 0 {
        assert(all_digits(s.drop_last(), radix)) by {
            assert forall|i: int| 0 <= i < s.drop_last().len() implies is_digit(
                #[trigger] s.drop_last()[i],
                radix,
            ) by {
                assert(s.drop_last()[i] == s[i]);
            }
        }
        lemma_digits_value_nonneg(s.drop_last(), radix);
        assert(is_digit(s[s.len() - 1], radix));
        let v = digits_value(s.drop_last(), radix);
        assert(v * radix >= 0) by (nonlinear_arith)
            requires
                v >= 0,
                radix >= 1,
        ;
    }
}

/// Value of a digit character, or 255 where it is none.
pub fn char_digit(c: char) -> (r: u32)
    ensures
        digit_value(c) >= 0 ==> r as int == digit_value(c),
        digit_value(c) < 0 ==> r == 255,
{
    if '0' <= c && c <= '9' {
        (c as u32) - ('0' as u32)
    } else if 'a' <= c && c <= 'f' {
        (c as u32) - ('a' as u32) + 10
    } else if 'A' <= c && c <= 'F' {
        (c as u32) - ('A' as u32) + 10
    } else {
        255
    }
}

/// Reads an unsigned integer written in base `radix` (10 or 16), as `str::parse`
/// and `from_str_radix` read one: an optional `+`, then one or more digits.
/// Values above `max` are refused like text that is no number.
pub fn parse_unsigned(s: &str, radix: u32, max: u32) -> (r: Option<u32>)
    requires
        radix == 10 || radix == 16,
    ensures
        r matches Some(v) ==> parse_unsigned_spec(s@, radix as int, max as int) == Some(v as int),
        r is None ==> parse_unsigned_spec(s@, radix as int, max as int) is None,
{
    let n = s.unicode_len();
    let mut start: usize = 0;
    if n > 0 && s.get_char(0) == '+' {
        start = 1;
    }
    let ghost body = unsigned_body(s@);
    assert(body == s@.subrange(start as int, n as int));
    if start >= n {
        return None;
    }
    let mut acc: u64 = 0;
    let mut big = false;
    let mut i = start;
    while i < n
        invariant
            start <= i <= n,
            n == s@.len(),
            body == s@.subrange(start as int, n as int),
            body == unsigned_body(s@),
            radix == 10 || radix == 16,
            all_digits(s@.subrange(start as int, i as int), radix as int),
            !big ==> acc as int == digits_value(s@.subrange(start as int, i as int), radix as int),
            !big ==> acc <= max,
            big ==> digits_value(s@.subrange(start as int, i as int), radix as int) > max,
        decreases n - i,
    {
        let c = s.get_char(i);
        let d = char_digit(c);
        if d >= radix {
            assert(body[i - start] == c);
            assert(!is_digit(body[i - start], radix as int));
            assert(!all_digits(body, radix as int));
            return None;
        }
        let ghost pre = s@.subrange(start as int, i as int);
        let ghost next = s@.subrange(start as int, i + 1);
        assert(next.drop_last() == pre);
        assert(next.last() == c);
        assert(all_digits(next, radix as int)) by {
            assert forall|j: int| 0 <= j < next.len() implies is_digit(
                #[trigger] next[j],
                radix as int,
            ) by {
                if j < pre.len() {
                    assert(next[j] == pre[j]);
                }
            }
        }
        if !big {
            assert(acc * (radix as u64) <= 0xffff_ffffu64 * 16) by (nonlinear_arith)
                requires
                    acc <= 0xffff_ffffu64,
                    radix <= 16,
            ;
            let v = acc * (radix as u64) + (d as u64);
            assert(v as int == digits_value(next, radix as int));
            if v > max as u64 {
                big = true;
            } else {
                acc = v;
            }
        } else {
            proof {
                lemma_digits_value_nonneg(pre, radix as int);
                let pv = digits_value(pre, radix as int);
                assert(pv * radix >= pv) by (nonlinear_arith)
                    requires
                        pv >= 0,
                        radix >= 1,
                ;
            }
        }
        i = i + 1;
    }
    assert(s@.subrange(start as int, n as int) == body);
    if big {
        None
    } else {
        Some(acc as u32)
    }
}

/// `s` without every leading `c`, as `str::trim_start_matches` with a char.
pub open spec fn trim_leading_spec(s: Seq<char>, c: char) -> Seq<char>
    decreases s.len(),
{
    if s.len() > 0 && s[0] == c {
        trim_leading_spec(s.drop_first(), c)
    } else {
        s
    }
}

pub fn trim_leading(s: &str, c: char) -> (r: &str)
    ensures
        r@ == trim_leading_spec(s@, c),
{
    let n = s.unicode_len();
    let mut i: usize = 0;
    assert(s@.subrange(0, n as int) =~= s@);
    while i < n && s.get_char(i) == c
        invariant
            i <= n,
            n == s@.len(),
            trim_leading_spec(s@.subrange(i as int, n as int), c) == trim_leading_spec(s@, c),
        decreases n - i,
    {
        assert(s@.subrange(i as int, n as int).drop_first() == s@.subrange(i + 1, n as int));
        i = i + 1;
    }
    s.substring_char(i, n)
}

/// Whether `s` holds exactly the characters of `t`.
pub fn text_equals(s: &str, t: &str) -> (r: bool)
    ensures
        r == (s@ == t@),
{
    let n = s.unicode_len();
    if n != t.unicode_len() {
        return false;
    }
    let mut i: usize = 0;
    while i < n
        invariant
            i <= n,
            n == s@.len(),
            n == t@.len(),
            forall|j: int| 0 <= j < i ==> s@[j] == t@[j],
        decreases n - i,
    {
        if s.get_char(i) != t.get_char(i) {
            return false;
        }
        i = i + 1;
    }
    assert(s@ =~= t@);
    true
}

} // verus!
