use vstd::prelude::*;
use vstd::string::*;
use crate::lamp::LampData;
use crate::mode::LightModes;
use crate::parse::all_digits;
use crate::parse::char_digit;
use crate::parse::digit_value;
use crate::parse::digits_value;
use crate::parse::is_digit;
use crate::parse::parse_unsigned;
use crate::parse::text_equals;
use crate::parse::unsigned_body;

verus! {

pub open spec fn digit_char(n: int) -> char {
    if n == 0 {
        '0'
    } else if n == 1 {
        '1'
    } else if n == 2 {
        '2'
    } else if n == 3 {
        '3'
    } else if n == 4 {
        '4'
    } else if n == 5 {
        '5'
    } else if n == 6 {
        '6'
    } else if n == 7 {
        '7'
    } else if n == 8 {
        '8'
    } else {
        '9'
    }
}

/// The shortest decimal text of `n`.
pub open spec fn decimal(n: nat) -> Seq<char>
    decreases n,
{
    if n < 10 {
        seq![digit_char(n as int)]
    } else {
        decimal(n / 10).push(digit_char((n % 10) as int))
    }
}

pub open spec fn lit_mode() -> Seq<char> {
    seq!['{', '"', 'm', 'o', 'd', 'e', '"', ':']
}

pub open spec fn lit_speed() -> Seq<char> {
    seq![',', '"', 's', 'p', 'e', 'e', 'd', '"', ':']
}

pub open spec fn lit_brightness() -> Seq<char> {
    seq![',', '"', 'b', 'r', 'i', 'g', 'h', 't', 'n', 'e', 's', 's', '"', ':']
}

pub open spec fn lit_color() -> Seq<char> {
    seq![',', '"', 'c', 'o', 'l', 'o', 'r', '"', ':', '[']
}

pub open spec fn lit_comma() -> Seq<char> {
    seq![',']
}

pub open spec fn lit_end() -> Seq<char> {
    seq![']', '}']
}

/// The JSON text of a lamp's state, as it is saved and published:
/// `{"mode":M,"speed":S,"brightness":B,"color":[R,G,B]}`.
pub open spec fn json_of(d: LampData) -> Seq<char> {
    lit_mode() + decimal(d.mode.spec_code() as nat) + lit_speed() + decimal(d.speed as nat)
        + lit_brightness() + decimal(d.brightness as nat) + lit_color() + decimal(
        d.color.0 as nat,
    ) + lit_comma() + decimal(d.color.1 as nat) + lit_comma() + decimal(d.color.2 as nat)
        + lit_end()
}

fn digit_text(n: u32) -> (r: &'static str)
    requires
        n < 10,
    ensures
        r@ == seq![digit_char(n as int)],
{
    proof {
        reveal_strlit("0");
        reveal_strlit("1");
        reveal_strlit("2");
        reveal_strlit("3");
        reveal_strlit("4");
        reveal_strlit("5");
        reveal_strlit("6");
        reveal_strlit("7");
        reveal_strlit("8");
        reveal_strlit("9");
    }
    match n {
        0 => "0",
        1 => "1",
        2 => "2",
        3 => "3",
        4 => "4",
        5 => "5",
        6 => "6",
        7 => "7",
        8 => "8",
        _ => "9",
    }
}

/// Appends the decimal text of `n`.
fn push_decimal(out: &mut String, n: u32)
    ensures
        final(out)@ == old(out)@ + decimal(n as nat),
    decreases n,
{
    if n >= 10 {
        push_decimal(out, n / 10);
    }
    out.append(digit_text(n % 10));
    assert(out@ =~= old(out)@ + decimal(n as nat));
}

/// The JSON text of a lamp's state.
pub fn encode(d: &LampData) -> (r: String)
    ensures
        r@ == json_of(*d),
{
    proof {
        reveal_strlit("{\"mode\":");
        reveal_strlit(",\"speed\":");
        reveal_strlit(",\"brightness\":");
        reveal_strlit(",\"color\":[");
        reveal_strlit(",");
        reveal_strlit("]}");
    }
    let mut out = String::new();
    out.append("{\"mode\":");
    push_decimal(&mut out, d.mode.code() as u32);
    out.append(",\"speed\":");
    push_decimal(&mut out, d.speed as u32);
    out.append(",\"brightness\":");
    push_decimal(&mut out, d.brightness as u32);
    out.append(",\"color\":[");
    push_decimal(&mut out, d.color.0 as u32);
    out.append(",");
    push_decimal(&mut out, d.color.1 as u32);
    out.append(",");
    push_decimal(&mut out, d.color.2 as u32);
    out.append("]}");
    assert(out@ =~= json_of(*d));
    out
}

pub proof fn lemma_digit_char(k: int)
    requires
        0 <= k < 10,
    ensures
        digit_value(digit_char(k)) == k,
        digit_char(k) != '+',
{
}

/// The decimal text of `n` is a non-empty run of digits whose value is `n`.
pub proof fn lemma_decimal(n: nat)
    ensures
        decimal(n).len() >= 1,
        all_digits(decimal(n), 10),
        decimal(n)[0] != '+',
        digits_value(decimal(n), 10) == n,
    decreases n,
{
    if n < 10 {
        lemma_digit_char(n as int);
        assert(decimal(n).drop_last() =~= Seq::<char>::empty());
        assert(digits_value(Seq::<char>::empty(), 10) == 0);
    } else {
        lemma_decimal(n / 10);
        lemma_digit_char((n % 10) as int);
        let t = decimal(n / 10);
        assert(decimal(n).drop_last() =~= t);
        assert(decimal(n).last() == digit_char((n % 10) as int));
        assert((n / 10) as int * 10 + (n % 10) as int == n as int);
        assert forall|i: int| 0 <= i < decimal(n).len() implies is_digit(
            #[trigger] decimal(n)[i],
            10,
        ) by {
            if i < t.len() {
                assert(decimal(n)[i] == t[i]);
            }
        }
    }
}

/// `lit` stands in `s` from index `p` on.
#[verifier::opaque]
pub open spec fn literal_at(s: Seq<char>, p: int, lit: Seq<char>) -> bool {
    &&& 0 <= p
    &&& p + lit.len() <= s.len()
    &&& s.subrange(p, p + lit.len()) == lit
}

/// The decimal text of `k` stands in `s` from index `p` on, and no digit follows it.
#[verifier::opaque]
pub open spec fn number_at(s: Seq<char>, p: int, k: nat) -> bool {
    let e = p + decimal(k).len();
    &&& 0 <= p
    &&& e <= s.len()
    &&& s.subrange(p, e) == decimal(k)
    &&& (e == s.len() || !is_digit(s[e], 10))
}

/// Moves past `lit` at `pos`; `None` where it is not there.
fn expect_literal(s: &str, pos: Option<usize>, lit: &str) -> (r: Option<usize>)
    ensures
        r matches Some(q) ==> q <= s@.len(),
        pos is Some && literal_at(s@, pos->0 as int, lit@) ==> r == Some(
            (pos->0 + lit@.len()) as usize,
        ),
{
    reveal(literal_at);
    match pos {
        None => None,
        Some(p) => {
            let n = s.unicode_len();
            let l = lit.unicode_len();
            if p > n || l > n - p {
                return None;
            }
            if text_equals(s.substring_char(p, p + l), lit) {
                Some(p + l)
            } else {
                None
            }
        },
    }
}

/// Reads the run of decimal digits at `pos` as a number of at most `max`, and
/// moves past it.
fn read_number(s: &str, pos: Option<usize>, max: u32) -> (r: (u32, Option<usize>))
    ensures
        r.1 matches Some(q) ==> q <= s@.len(),
        r.0 <= max,
        forall|k: nat|
            pos is Some && k <= max && #[trigger] number_at(s@, pos->0 as int, k) ==> r == (
                k as u32,
                Some((pos->0 + decimal(k).len()) as usize),
            ),
{
    reveal(number_at);
    match pos {
        None => (0, None),
        Some(p) => {
            let n = s.unicode_len();
            if p > n {
                return (0, None);
            }
            let mut q = p;
            while q < n && char_digit(s.get_char(q)) < 10
                invariant
                    p <= q <= n,
                    n == s@.len(),
                    forall|j: int| p <= j < q ==> is_digit(#[trigger] s@[j], 10),
                decreases n - q,
            {
                q = q + 1;
            }
            let r = match parse_unsigned(s.substring_char(p, q), 10, max) {
                Some(v) => (v, Some(q)),
                None => (0, None),
            };
            assert forall|k: nat|
                k <= max && #[trigger] number_at(s@, p as int, k) implies r == (
                k as u32,
                Some((p + decimal(k).len()) as usize),
            ) by {
                lemma_decimal(k);
                let e = p + decimal(k).len();
                if q > e {
                    assert(is_digit(s@[e], 10));
                }
                if q < e {
                    assert(s@[q as int] == s@.subrange(p as int, e)[q - p]);
                    assert(is_digit(decimal(k)[q - p], 10));
                }
                assert(q == e);
                assert(unsigned_body(decimal(k)) == decimal(k));
            }
            r
        },
    }
}

/// The program that a saved code names: 0 to 9, or 255 for the unrecognized one.
pub open spec fn mode_of_wire(c: int) -> Option<LightModes> {
    if 0 <= c <= 9 {
        Some(crate::mode::mode_of_code(c))
    } else if c == 255 {
        Some(LightModes::Unrecognized)
    } else {
        None
    }
}

pub fn mode_from_wire(c: u32) -> (r: Option<LightModes>)
    ensures
        r == mode_of_wire(c as int),
{
    if c <= 9 {
        Some(LightModes::from(c))
    } else if c == 255 {
        Some(LightModes::Unrecognized)
    } else {
        None
    }
}

/// A prefix `pre + piece` of `x` holds `piece` after `pre`.
proof fn lemma_piece(x: Seq<char>, pre: Seq<char>, piece: Seq<char>)
    requires
        pre.len() + piece.len() <= x.len(),
        x.subrange(0, (pre.len() + piece.len()) as int) == pre + piece,
    ensures
        x.subrange(0, pre.len() as int) == pre,
        x.subrange(pre.len() as int, (pre.len() + piece.len()) as int) == piece,
        piece.len() > 0 ==> x[pre.len() as int] == piece[0],
{
    let y = x.subrange(0, (pre.len() + piece.len()) as int);
    assert(x.subrange(0, pre.len() as int) =~= y.subrange(0, pre.len() as int));
    assert(y.subrange(0, pre.len() as int) =~= pre);
    assert(x.subrange(pre.len() as int, (pre.len() + piece.len()) as int) =~= y.subrange(
        pre.len() as int,
        (pre.len() + piece.len()) as int,
    ));
    assert(y.subrange(pre.len() as int, (pre.len() + piece.len()) as int) =~= piece);
    if piece.len() > 0 {
        assert(x[pre.len() as int] == y[pre.len() as int]);
    }
}

proof fn lemma_number_piece(x: Seq<char>, pre: Seq<char>, k: nat, next: Seq<char>)
    requires
        pre.len() + decimal(k).len() + next.len() <= x.len(),
        x.subrange(0, (pre.len() + decimal(k).len()) as int) == pre + decimal(k),
        x.subrange(0, (pre.len() + decimal(k).len() + next.len()) as int) == pre + decimal(k) + next,
        next.len() > 0,
        !is_digit(next[0], 10),
    ensures
        number_at(x, pre.len() as int, k),
{
    reveal(number_at);
    lemma_piece(x, pre, decimal(k));
    lemma_piece(x, pre + decimal(k), next);
}

/// Where each part of the text of `d` stands.
#[verifier::spinoff_prover]
#[verifier::rlimit(100)]
proof fn lemma_layout(d: LampData)
    ensures
        ({
            let x = json_of(d);
            let o1 = lit_mode().len() as int;
            let o2 = o1 + decimal(d.mode.spec_code() as nat).len();
            let o3 = o2 + lit_speed().len();
            let o4 = o3 + decimal(d.speed as nat).len();
            let o5 = o4 + lit_brightness().len();
            let o6 = o5 + decimal(d.brightness as nat).len();
            let o7 = o6 + lit_color().len();
            let o8 = o7 + decimal(d.color.0 as nat).len();
            let o9 = o8 + 1;
            let o10 = o9 + decimal(d.color.1 as nat).len();
            let o11 = o10 + 1;
            &&& x.len() == o11 + decimal(d.color.2 as nat).len() + 2
            &&& literal_at(x, 0, lit_mode())
            &&& number_at(x, o1, d.mode.spec_code() as nat)
            &&& literal_at(x, o2, lit_speed())
            &&& number_at(x, o3, d.speed as nat)
            &&& literal_at(x, o4, lit_brightness())
            &&& number_at(x, o5, d.brightness as nat)
            &&& literal_at(x, o6, lit_color())
            &&& number_at(x, o7, d.color.0 as nat)
            &&& literal_at(x, o8, lit_comma())
            &&& number_at(x, o9, d.color.1 as nat)
            &&& literal_at(x, o10, lit_comma())
            &&& number_at(x, o11, d.color.2 as nat)
        }),
{
    let x = json_of(d);
    let d0 = decimal(d.mode.spec_code() as nat);
    let d1 = decimal(d.speed as nat);
    let d2 = decimal(d.brightness as nat);
    let d3 = decimal(d.color.0 as nat);
    let d4 = decimal(d.color.1 as nat);
    let d5 = decimal(d.color.2 as nat);
    let at1 = lit_mode();
    let at2 = at1 + d0;
    let at3 = at2 + lit_speed();
    let at4 = at3 + d1;
    let at5 = at4 + lit_brightness();
    let at6 = at5 + d2;
    let at7 = at6 + lit_color();
    let at8 = at7 + d3;
    let at9 = at8 + lit_comma();
    let at10 = at9 + d4;
    let at11 = at10 + lit_comma();
    let at12 = at11 + d5;
    assert(x == at12 + lit_end());
    assert(x.subrange(0, x.len() as int) =~= x);
    lemma_piece(x, at12, lit_end());
    lemma_piece(x, at11, d5);
    lemma_piece(x, at10, lit_comma());
    lemma_piece(x, at9, d4);
    lemma_piece(x, at8, lit_comma());
    lemma_piece(x, at7, d3);
    lemma_piece(x, at6, lit_color());
    lemma_piece(x, at5, d2);
    lemma_piece(x, at4, lit_brightness());
    lemma_piece(x, at3, d1);
    lemma_piece(x, at2, lit_speed());
    lemma_piece(x, at1, d0);
    assert(x.subrange(0, 0) =~= Seq::<char>::empty());
    assert(at1 =~= Seq::<char>::empty() + at1);
    lemma_piece(x, Seq::<char>::empty(), at1);
    reveal(literal_at);
    lemma_number_piece(x, at1, d.mode.spec_code() as nat, lit_speed());
    lemma_number_piece(x, at3, d.speed as nat, lit_brightness());
    lemma_number_piece(x, at5, d.brightness as nat, lit_color());
    lemma_number_piece(x, at7, d.color.0 as nat, lit_comma());
    lemma_number_piece(x, at9, d.color.1 as nat, lit_comma());
    lemma_number_piece(x, at11, d.color.2 as nat, lit_end());
}

/// Reads a lamp's state from its JSON text. Only the text that `encode`
/// writes is accepted: `Some(d)` exactly where `s` is the text of `d`.
#[verifier::spinoff_prover]
#[verifier::rlimit(100)]
pub fn decode(s: &str) -> (r: Option<LampData>)
    ensures
        r == parsed_state(s@),
{
    proof {
        reveal_strlit("{\"mode\":");
        reveal_strlit(",\"speed\":");
        reveal_strlit(",\"brightness\":");
        reveal_strlit(",\"color\":[");
        reveal_strlit(",");
        assert("{\"mode\":"@ =~= lit_mode());
        assert(",\"speed\":"@ =~= lit_speed());
        assert(",\"brightness\":"@ =~= lit_brightness());
        assert(",\"color\":["@ =~= lit_color());
        assert(","@ =~= lit_comma());
    }
    let n = s.unicode_len();
    let at0 = expect_literal(s, Some(0), "{\"mode\":");
    let (m, at1) = read_number(s, at0, 255);
    let at2 = expect_literal(s, at1, ",\"speed\":");
    let (sp, at3) = read_number(s, at2, 65535);
    let at4 = expect_literal(s, at3, ",\"brightness\":");
    let (br, at5) = read_number(s, at4, 65535);
    let at6 = expect_literal(s, at5, ",\"color\":[");
    let (c0, at7) = read_number(s, at6, 255);
    let at8 = expect_literal(s, at7, ",");
    let (c1, at9) = read_number(s, at8, 255);
    let at10 = expect_literal(s, at9, ",");
    let (c2, at11) = read_number(s, at10, 255);
    let r = if at11.is_none() {
        None
    } else {
        match mode_from_wire(m) {
            None => None,
            Some(mode) => {
                let d = LampData {
                    mode,
                    speed: sp as u16,
                    brightness: br as u16,
                    color: (c0 as u8, c1 as u8, c2 as u8),
                };
                let text = encode(&d);
                if text_equals(text.as_str(), s) {
                    Some(d)
                } else {
                    None
                }
            },
        }
    };
    assert forall|d: LampData| json_of(d) == s@ implies r == Some(d) by {
        lemma_layout(d);
        let o1 = lit_mode().len() as int;
        let o2 = o1 + decimal(d.mode.spec_code() as nat).len();
        let o3 = o2 + lit_speed().len();
        let o4 = o3 + decimal(d.speed as nat).len();
        let o5 = o4 + lit_brightness().len();
        let o6 = o5 + decimal(d.brightness as nat).len();
        let o7 = o6 + lit_color().len();
        let o8 = o7 + decimal(d.color.0 as nat).len();
        let o9 = o8 + 1;
        let o10 = o9 + decimal(d.color.1 as nat).len();
        let o11 = o10 + 1;
        let o12 = o11 + decimal(d.color.2 as nat).len();
        assert(at0 == Some(o1 as usize));
        assert(m == d.mode.spec_code() && at1 == Some(o2 as usize));
        assert(at2 == Some(o3 as usize));
        assert(sp == d.speed && at3 == Some(o4 as usize));
        assert(at4 == Some(o5 as usize));
        assert(br == d.brightness && at5 == Some(o6 as usize));
        assert(at6 == Some(o7 as usize));
        assert(c0 == d.color.0 && at7 == Some(o8 as usize));
        assert(at8 == Some(o9 as usize));
        assert(c1 == d.color.1 && at9 == Some(o10 as usize));
        assert(at10 == Some(o11 as usize));
        assert(c2 == d.color.2 && at11 == Some(o12 as usize));
        assert(mode_of_wire(d.mode.spec_code() as int) == Some(d.mode));
    }
    if let Some(d) = r {
        let ghost c = choose|c: LampData| json_of(c) == s@;
        proof {
            lemma_json_injective(c, d);
        }
    }
    r
}

/// The state whose JSON text `s` is, if any.
pub open spec fn parsed_state(s: Seq<char>) -> Option<LampData> {
    if exists|d: LampData| json_of(d) == s {
        Some(choose|d: LampData| json_of(d) == s)
    } else {
        None
    }
}

/// At one place a text holds at most one number.
proof fn lemma_number_unique(x: Seq<char>, o: int, k1: nat, k2: nat)
    requires
        number_at(x, o, k1),
        number_at(x, o, k2),
    ensures
        k1 == k2,
{
    reveal(number_at);
    lemma_decimal(k1);
    lemma_decimal(k2);
    let e1 = o + decimal(k1).len();
    let e2 = o + decimal(k2).len();
    if e1 < e2 {
        assert(x[e1] == x.subrange(o, e2)[e1 - o]);
        assert(is_digit(decimal(k2)[e1 - o], 10));
    }
    if e2 < e1 {
        assert(x[e2] == x.subrange(o, e1)[e2 - o]);
        assert(is_digit(decimal(k1)[e2 - o], 10));
    }
    assert(decimal(k1) == decimal(k2));
}

/// Two states with the same text are the same state.
#[verifier::rlimit(100)]
pub proof fn lemma_json_injective(d1: LampData, d2: LampData)
    requires
        json_of(d1) == json_of(d2),
    ensures
        d1 == d2,
{
    lemma_layout(d1);
    lemma_layout(d2);
    let x = json_of(d1);
    let o1 = lit_mode().len() as int;
    lemma_number_unique(x, o1, d1.mode.spec_code() as nat, d2.mode.spec_code() as nat);
    let o3 = o1 + decimal(d1.mode.spec_code() as nat).len() + lit_speed().len();
    lemma_number_unique(x, o3, d1.speed as nat, d2.speed as nat);
    let o5 = o3 + decimal(d1.speed as nat).len() + lit_brightness().len();
    lemma_number_unique(x, o5, d1.brightness as nat, d2.brightness as nat);
    let o7 = o5 + decimal(d1.brightness as nat).len() + lit_color().len();
    lemma_number_unique(x, o7, d1.color.0 as nat, d2.color.0 as nat);
    let o9 = o7 + decimal(d1.color.0 as nat).len() + 1;
    lemma_number_unique(x, o9, d1.color.1 as nat, d2.color.1 as nat);
    let o11 = o9 + decimal(d1.color.1 as nat).len() + 1;
    lemma_number_unique(x, o11, d1.color.2 as nat, d2.color.2 as nat);
    assert(d1.mode == d2.mode);
}

/// Saving a state and loading it back gives the same state.
pub proof fn lemma_round_trip(d: LampData)
    ensures
        parsed_state(json_of(d)) == Some(d),
{
    let c = choose|c: LampData| json_of(c) == json_of(d);
    lemma_json_injective(c, d);
}

} // verus!
