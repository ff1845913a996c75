//! The JSON subset the V1 wire protocol uses, with a verified encoder and
//! parser.
//!
//! Values are nulls, booleans, integers, strings, arrays and objects;
//! numbers with fractions or exponents are outside the subset and are
//! rejected by the parser. The encoder emits compact text; the parser
//! reads that compact form after a verified pre-pass has dropped
//! insignificant whitespace between tokens, which the pre-pass is proved
//! never to find in an encoder's output. Encoding then parsing any
//! well-formed value yields the value back.

use crate::numeric::{dec_str, dec_value, hex_char, hex_digit_value, is_dec_digit, is_hex_digit};
use vstd::prelude::*;

verus! {

/// A JSON integer: sign and magnitude.
#[derive(Clone, Copy, Debug, PartialEq, Eq, Structural)]
pub struct JsonNum {
    pub neg: bool,
    pub mag: u64,
}

/// A value of the JSON subset.
pub enum JsonValue {
    Null,
    Bool(bool),
    Num(JsonNum),
    Str(String),
    Arr(Vec<JsonValue>),
    Obj(Vec<(String, JsonValue)>),
}

/// The mathematical content of a [`JsonValue`].
pub ghost enum JsonV {
    Null,
    Bool(bool),
    Num { neg: bool, mag: u64 },
    Str(Seq<char>),
    Arr(Seq<JsonV>),
    Obj(Seq<(Seq<char>, JsonV)>),
}

/// The view of a [`JsonValue`], deeply.
pub open spec fn jview(v: JsonValue) -> JsonV
    decreases v,
{
    match v {
        JsonValue::Null => JsonV::Null,
        JsonValue::Bool(b) => JsonV::Bool(b),
        JsonValue::Num(n) => JsonV::Num { neg: n.neg, mag: n.mag },
        JsonValue::Str(s) => JsonV::Str(s@),
        JsonValue::Arr(a) => JsonV::Arr(jviews(a@)),
        JsonValue::Obj(o) => JsonV::Obj(mviews(o@)),
    }
}

impl View for JsonValue {
    type V = JsonV;

    open spec fn view(&self) -> JsonV {
        jview(*self)
    }
}

/// The views of a sequence of values.
pub open spec fn jviews(s: Seq<JsonValue>) -> Seq<JsonV>
    decreases s,
{
    Seq::new(
        s.len(),
        |i: int|
            if 0 <= i < s.len() {
                jview(s[i])
            } else {
                JsonV::Null
            },
    )
}

/// The views of a sequence of object members.
pub open spec fn mviews(s: Seq<(String, JsonValue)>) -> Seq<(Seq<char>, JsonV)>
    decreases s,
{
    Seq::new(
        s.len(),
        |i: int|
            if 0 <= i < s.len() {
                (s[i].0@, jview(s[i].1))
            } else {
                (Seq::<char>::empty(), JsonV::Null)
            },
    )
}

/// Well-formedness: numbers are canonical (no negative zero), recursively.
pub open spec fn wf_json(v: JsonV) -> bool
    decreases v,
{
    match v {
        JsonV::Num { neg, mag } => neg ==> mag > 0,
        JsonV::Arr(a) => forall|i: int| 0 <= i < a.len() ==> wf_json(#[trigger] a[i]),
        JsonV::Obj(o) => forall|i: int| 0 <= i < o.len() ==> wf_json(#[trigger] o[i].1),
        _ => true,
    }
}

/// How one character is written inside a string literal: quote and
/// backslash get a two-character escape, control characters a `\u00XX`
/// escape, everything else stands for itself.
pub open spec fn esc_char(c: char) -> Seq<char> {
    if c == '"' {
        seq!['\\', '"']
    } else if c == '\\' {
        seq!['\\', '\\']
    } else if (c as nat) < 32 {
        seq!['\\', 'u', '0', '0', hex_char((c as nat) / 16), hex_char((c as nat) % 16)]
    } else {
        seq![c]
    }
}

/// The body of a string literal: each character escaped as needed.
pub open spec fn enc_str_body(s: Seq<char>) -> Seq<char>
    decreases s.len(),
{
    if s.len() == 0 {
        Seq::empty()
    } else {
        esc_char(s[0]) + enc_str_body(s.drop_first())
    }
}

/// The text of an integer: optional minus sign, then decimal digits.
pub open spec fn enc_num(neg: bool, mag: u64) -> Seq<char> {
    if neg {
        seq!['-'] + dec_str(mag as nat)
    } else {
        dec_str(mag as nat)
    }
}

/// The wire text of a value.
pub open spec fn enc(v: JsonV) -> Seq<char>
    decreases v, 0nat,
{
    match v {
        JsonV::Null => seq!['n', 'u', 'l', 'l'],
        JsonV::Bool(b) => if b {
            seq!['t', 'r', 'u', 'e']
        } else {
            seq!['f', 'a', 'l', 's', 'e']
        },
        JsonV::Num { neg, mag } => enc_num(neg, mag),
        JsonV::Str(s) => seq!['"'] + enc_str_body(s) + seq!['"'],
        JsonV::Arr(a) => seq!['['] + enc_items(a) + seq![']'],
        JsonV::Obj(o) => seq!['{'] + enc_members(o) + seq!['}'],
    }
}

/// The comma-separated texts of array items.
pub open spec fn enc_items(a: Seq<JsonV>) -> Seq<char>
    decreases a, 1nat,
{
    if a.len() == 0 {
        Seq::empty()
    } else if a.len() == 1 {
        enc(a[0])
    } else {
        enc(a[0]) + seq![','] + enc_items(a.drop_first())
    }
}

/// The text of one object member: quoted key, colon, value.
pub open spec fn enc_member(m: (Seq<char>, JsonV)) -> Seq<char>
    decreases m, 2nat,
{
    seq!['"'] + enc_str_body(m.0) + seq!['"', ':'] + enc(m.1)
}

/// The comma-separated texts of object members.
pub open spec fn enc_members(o: Seq<(Seq<char>, JsonV)>) -> Seq<char>
    decreases o, 3nat,
{
    if o.len() == 0 {
        Seq::empty()
    } else if o.len() == 1 {
        enc_member(o[0])
    } else {
        enc_member(o[0]) + seq![','] + enc_members(o.drop_first())
    }
}

/// Appends the escape of one character.
fn push_escaped(c: char, out: &mut Vec<char>)
    ensures
        final(out)@ == old(out)@ + esc_char(c),
{
    if c == '"' {
        out.push('\\');
        out.push('"');
    } else if c == '\\' {
        out.push('\\');
        out.push('\\');
    } else if (c as u32) < 32 {
        let n: u32 = c as u32;
        out.push('\\');
        out.push('u');
        out.push('0');
        out.push('0');
        let hi = crate::numeric::hex_char_u32(n / 16);
        let lo = crate::numeric::hex_char_u32(n % 16);
        out.push(hi);
        out.push(lo);
    } else {
        out.push(c);
    }
}

/// Appends the escaped body of a string.
fn write_str_body(s: &str, out: &mut Vec<char>)
    ensures
        final(out)@ == old(out)@ + enc_str_body(s@),
{
    let n = s.unicode_len();
    let mut i: usize = 0;
    while i < n
        invariant
            0 <= i <= n == s@.len(),
            out@ == old(out)@ + enc_str_body(s@.subrange(0, i as int)),
        decreases n - i,
    {
        proof {
            lemma_enc_str_body_snoc(s@, i as int);
        }
        push_escaped(s.get_char(i), out);
        i = i + 1;
    }
    proof {
        assert(s@.subrange(0, n as int) =~= s@);
    }
}

/// Splitting the last character off a string splits its encoding.
proof fn lemma_enc_str_body_snoc(s: Seq<char>, k: int)
    requires
        0 <= k < s.len(),
    ensures
        enc_str_body(s.subrange(0, k + 1)) == enc_str_body(s.subrange(0, k)) + esc_char(s[k]),
    decreases k,
{
    if k == 0 {
        assert(s.subrange(0, 1).drop_first() =~= Seq::<char>::empty());
        assert(enc_str_body(Seq::<char>::empty()) =~= Seq::<char>::empty());
        assert(enc_str_body(s.subrange(0, 1)) =~= esc_char(s[0]));
        assert(enc_str_body(s.subrange(0, 0)) + esc_char(s[0]) =~= esc_char(s[0]));
    } else {
        let t = s.drop_first();
        lemma_enc_str_body_snoc(t, k - 1);
        assert(s.subrange(0, k + 1).drop_first() =~= t.subrange(0, k));
        assert(s.subrange(0, k).drop_first() =~= t.subrange(0, k - 1));
        assert(enc_str_body(s.subrange(0, k + 1)) == esc_char(s[0]) + enc_str_body(t.subrange(0, k)));
        assert(enc_str_body(s.subrange(0, k)) == esc_char(s[0]) + enc_str_body(t.subrange(0, k - 1)));
        assert(t.subrange(0, k)[k - 1] == s[k]);
        assert(esc_char(s[0]) + (enc_str_body(t.subrange(0, k - 1)) + esc_char(s[k])) =~= (esc_char(
            s[0],
        ) + enc_str_body(t.subrange(0, k - 1))) + esc_char(s[k]));
    }
}

/// Appends the wire text of `v`.
pub fn write_json(v: &JsonValue, out: &mut Vec<char>)
    ensures
        final(out)@ == old(out)@ + enc(v@),
    decreases *v, 0nat,
{
    match v {
        JsonValue::Null => {
            out.push('n');
            out.push('u');
            out.push('l');
            out.push('l');
        },
        JsonValue::Bool(b) => {
            if *b {
                out.push('t');
                out.push('r');
                out.push('u');
                out.push('e');
            } else {
                out.push('f');
                out.push('a');
                out.push('l');
                out.push('s');
                out.push('e');
            }
        },
        JsonValue::Num(n) => {
            if n.neg {
                out.push('-');
            }
            let digits = crate::numeric::format_u64_dec(n.mag);
            let mut i: usize = 0;
            let ghost mid = out@;
            while i < digits.len()
                invariant
                    0 <= i <= digits@.len(),
                    digits@ == dec_str(n.mag as nat),
                    out@ == mid + digits@.subrange(0, i as int),
                decreases digits@.len() - i,
            {
                out.push(digits[i]);
                proof {
                    assert(digits@.subrange(0, i + 1) =~= digits@.subrange(0, i as int).push(
                        digits@[i as int],
                    ));
                }
                i = i + 1;
            }
            proof {
                assert(digits@.subrange(0, digits@.len() as int) =~= digits@);
                assert(out@ =~= old(out)@ + enc(v@));
            }
        },
        JsonValue::Str(s) => {
            out.push('"');
            write_str_body(s.as_str(), out);
            out.push('"');
            proof {
                assert(out@ =~= old(out)@ + enc(v@));
            }
        },
        JsonValue::Arr(a) => {
            out.push('[');
            write_items(a, 0, out);
            out.push(']');
            proof {
                assert(jviews(a@).skip(0) =~= jviews(a@));
                assert(out@ =~= old(out)@ + enc(v@));
            }
        },
        JsonValue::Obj(o) => {
            out.push('{');
            write_members(o, 0, out);
            out.push('}');
            proof {
                assert(mviews(o@).skip(0) =~= mviews(o@));
                assert(out@ =~= old(out)@ + enc(v@));
            }
        },
    }
}

/// Appends the comma-separated items of `a` from index `k` on.
fn write_items(a: &Vec<JsonValue>, k: usize, out: &mut Vec<char>)
    requires
        k <= a@.len(),
    ensures
        final(out)@ == old(out)@ + enc_items(jviews(a@).skip(k as int)),
    decreases a@, 1nat, a@.len() - k,
{
    if k < a.len() {
        proof {
            assert(jviews(a@).skip(k as int)[0] == jview(a@[k as int]));
        }
        write_json(&a[k], out);
        if k + 1 < a.len() {
            out.push(',');
            write_items(a, k + 1, out);
            proof {
                assert(jviews(a@).skip(k as int).drop_first() =~= jviews(a@).skip(k + 1));
                assert(jviews(a@).skip(k as int)[0] == jview(a@[k as int]));
                assert(jviews(a@).skip(k as int).len() >= 2);
                assert(out@ =~= old(out)@ + enc_items(jviews(a@).skip(k as int)));
            }
        } else {
            proof {
                assert(jviews(a@).skip(k as int).len() == 1);
                assert(jviews(a@).skip(k as int)[0] == jview(a@[k as int]));
                assert(out@ =~= old(out)@ + enc_items(jviews(a@).skip(k as int)));
            }
        }
    } else {
        proof {
            assert(jviews(a@).skip(k as int).len() == 0);
            assert(out@ =~= old(out)@ + enc_items(jviews(a@).skip(k as int)));
        }
    }
}

/// Appends the comma-separated members of `o` from index `k` on.
fn write_members(o: &Vec<(String, JsonValue)>, k: usize, out: &mut Vec<char>)
    requires
        k <= o@.len(),
    ensures
        final(out)@ == old(out)@ + enc_members(mviews(o@).skip(k as int)),
    decreases o@, 1nat, o@.len() - k,
{
    if k < o.len() {
        out.push('"');
        write_str_body(o[k].0.as_str(), out);
        out.push('"');
        out.push(':');
        proof {
            assert(mviews(o@).skip(k as int)[0] == (o@[k as int].0@, jview(o@[k as int].1)));
            assert(decreases_to!(o@ => o@[k as int]));
            assert(decreases_to!(o@[k as int] => o@[k as int].1));
        }
        write_json(&o[k].1, out);
        if k + 1 < o.len() {
            out.push(',');
            write_members(o, k + 1, out);
            proof {
                assert(mviews(o@).skip(k as int).drop_first() =~= mviews(o@).skip(k + 1));
                assert(mviews(o@).skip(k as int)[0] == (o@[k as int].0@, jview(o@[k as int].1)));
                assert(mviews(o@).skip(k as int).len() >= 2);
                let m0 = mviews(o@).skip(k as int)[0];
                assert(enc_member(m0) == seq!['"'] + enc_str_body(m0.0) + seq!['"', ':'] + enc(
                    m0.1,
                ));
                assert(out@ =~= old(out)@ + enc_members(mviews(o@).skip(k as int)));
            }
        } else {
            proof {
                assert(mviews(o@).skip(k as int).len() == 1);
                assert(mviews(o@).skip(k as int)[0] == (o@[k as int].0@, jview(o@[k as int].1)));
                let m0 = mviews(o@).skip(k as int)[0];
                assert(enc_member(m0) == seq!['"'] + enc_str_body(m0.0) + seq!['"', ':'] + enc(
                    m0.1,
                ));
                assert(out@ =~= old(out)@ + enc_members(mviews(o@).skip(k as int)));
            }
        }
    } else {
        proof {
            assert(mviews(o@).skip(k as int).len() == 0);
            assert(out@ =~= old(out)@ + enc_members(mviews(o@).skip(k as int)));
        }
    }
}

// ------------------------------------------------------------------
// Parsing: the wire grammar, as spec functions over character sequences.
// The parser reads the compact form the encoder emits.
// ------------------------------------------------------------------

/// The character an escape shorthand stands for.
pub open spec fn unescape(c: char) -> Option<char> {
    if c == '"' {
        Some('"')
    } else if c == '\\' {
        Some('\\')
    } else if c == '/' {
        Some('/')
    } else if c == 'n' {
        Some('\n')
    } else if c == 't' {
        Some('\t')
    } else if c == 'r' {
        Some('\r')
    } else if c == 'b' {
        Some('\u{8}')
    } else if c == 'f' {
        Some('\u{c}')
    } else {
        None
    }
}

/// Whether `u` is a Unicode scalar value, so a `char` can carry it.
pub open spec fn is_scalar_value(u: nat) -> bool {
    u < 0xD800 || (0xE000 <= u && u <= 0x10FFFF)
}

/// Whether four hexadecimal digits stand at `i`.
pub open spec fn hex4_at(s: Seq<char>, i: int) -> bool {
    &&& is_hex_digit(s[i])
    &&& is_hex_digit(s[i + 1])
    &&& is_hex_digit(s[i + 2])
    &&& is_hex_digit(s[i + 3])
}

/// Value of the four hexadecimal digits at `i`.
pub open spec fn hex4_value(s: Seq<char>, i: int) -> nat {
    ((hex_digit_value(s[i]) * 16 + hex_digit_value(s[i + 1])) * 16 + hex_digit_value(s[i + 2]))
        * 16 + hex_digit_value(s[i + 3])
}

/// Parses the body of a string literal from `i` (just past the opening
/// quote): the decoded content, and the index past the closing quote.
pub open spec fn parse_str_body(s: Seq<char>, i: nat) -> Option<(Seq<char>, nat)>
    decreases s.len() - i,
    when i <= s.len()
{
    if i >= s.len() {
        None
    } else if s[i as int] == '"' {
        Some((Seq::empty(), (i + 1) as nat))
    } else if s[i as int] == '\\' {
        if i + 2 > s.len() {
            None
        } else {
            let e = s[i as int + 1];
            if e == 'u' {
                if i + 6 <= s.len() && hex4_at(s, i as int + 2) && is_scalar_value(
                    hex4_value(s, i as int + 2),
                ) {
                    match parse_str_body(s, (i + 6) as nat) {
                        Some(r) => Some(
                            (seq![((hex4_value(s, i as int + 2) as u32) as char)] + r.0, r.1),
                        ),
                        None => None,
                    }
                } else {
                    None
                }
            } else {
                match unescape(e) {
                    Some(u) => match parse_str_body(s, (i + 2) as nat) {
                        Some(r) => Some((seq![u] + r.0, r.1)),
                        None => None,
                    },
                    None => None,
                }
            }
        }
    } else if (s[i as int] as nat) < 32 {
        None
    } else {
        match parse_str_body(s, (i + 1) as nat) {
            Some(r) => Some((seq![s[i as int]] + r.0, r.1)),
            None => None,
        }
    }
}

/// A parsed string body ends past where it began and inside the text.
pub proof fn lemma_str_body_bounds(s: Seq<char>, i: nat)
    requires
        i <= s.len(),
        parse_str_body(s, i) is Some,
    ensures
        i < parse_str_body(s, i)->Some_0.1 <= s.len(),
    decreases s.len() - i,
{
    if i >= s.len() {
    } else if s[i as int] == '"' {
    } else if s[i as int] == '\\' {
        if i + 2 > s.len() {
        } else if s[i as int + 1] == 'u' {
            lemma_str_body_bounds(s, (i + 6) as nat);
        } else {
            lemma_str_body_bounds(s, (i + 2) as nat);
        }
    } else if (s[i as int] as nat) < 32 {
    } else {
        lemma_str_body_bounds(s, (i + 1) as nat);
    }
}

/// Index of the first non-digit at or after `i`.
pub open spec fn scan_digits(s: Seq<char>, i: nat) -> nat
    decreases s.len() - i,
    when i <= s.len()
{
    if i < s.len() && is_dec_digit(s[i as int]) {
        scan_digits(s, (i + 1) as nat)
    } else {
        i
    }
}

/// Where the digit scan stops, and that everything before it is a digit.
pub proof fn lemma_scan_digits(s: Seq<char>, i: nat)
    requires
        i <= s.len(),
    ensures
        i <= scan_digits(s, i) <= s.len(),
        forall|k: int| i <= k < scan_digits(s, i) ==> is_dec_digit(#[trigger] s[k]),
        scan_digits(s, i) < s.len() ==> !is_dec_digit(s[scan_digits(s, i) as int]),
    decreases s.len() - i,
{
    if i < s.len() && is_dec_digit(s[i as int]) {
        lemma_scan_digits(s, (i + 1) as nat);
    }
}

/// Parses an integer at `i`: optional minus sign, then decimal digits
/// whose value fits in a `u64`. A minus sign on zero is dropped.
pub open spec fn parse_number(s: Seq<char>, i: nat) -> Option<(JsonV, nat)> {
    if i >= s.len() {
        None
    } else {
        let neg = s[i as int] == '-';
        let j: nat = if neg {
            (i + 1) as nat
        } else {
            i
        };
        let e = scan_digits(s, j);
        if e == j {
            None
        } else {
            let m = dec_value(s.subrange(j as int, e as int));
            if m > u64::MAX {
                None
            } else {
                Some((JsonV::Num { neg: neg && m > 0, mag: m as u64 }, e))
            }
        }
    }
}

/// Parses one value at `i`: the value and the index just past it.
pub open spec fn parse_value(s: Seq<char>, i: nat) -> Option<(JsonV, nat)>
    decreases s.len() - i, 2nat,
    when i <= s.len()
{
    if i >= s.len() {
        None
    } else {
        let c = s[i as int];
        if c == 'n' {
            if i + 4 <= s.len() && s[i as int + 1] == 'u' && s[i as int + 2] == 'l' && s[i as int
                + 3] == 'l' {
                Some((JsonV::Null, (i + 4) as nat))
            } else {
                None
            }
        } else if c == 't' {
            if i + 4 <= s.len() && s[i as int + 1] == 'r' && s[i as int + 2] == 'u' && s[i as int
                + 3] == 'e' {
                Some((JsonV::Bool(true), (i + 4) as nat))
            } else {
                None
            }
        } else if c == 'f' {
            if i + 5 <= s.len() && s[i as int + 1] == 'a' && s[i as int + 2] == 'l' && s[i as int
                + 3] == 's' && s[i as int + 4] == 'e' {
                Some((JsonV::Bool(false), (i + 5) as nat))
            } else {
                None
            }
        } else if c == '-' || is_dec_digit(c) {
            parse_number(s, i)
        } else if c == '"' {
            match parse_str_body(s, (i + 1) as nat) {
                Some(r) => Some((JsonV::Str(r.0), r.1)),
                None => None,
            }
        } else if c == '[' {
            if i + 2 <= s.len() && s[i as int + 1] == ']' {
                Some((JsonV::Arr(Seq::empty()), (i + 2) as nat))
            } else {
                match parse_items(s, (i + 1) as nat) {
                    Some(r) => Some((JsonV::Arr(r.0), r.1)),
                    None => None,
                }
            }
        } else if c == '{' {
            if i + 2 <= s.len() && s[i as int + 1] == '}' {
                Some((JsonV::Obj(Seq::empty()), (i + 2) as nat))
            } else {
                match parse_members(s, (i + 1) as nat) {
                    Some(r) => Some((JsonV::Obj(r.0), r.1)),
                    None => None,
                }
            }
        } else {
            None
        }
    }
}

/// Parses the items of a non-empty array from `i` (just past the opening
/// bracket): the items, and the index past the closing bracket.
pub open spec fn parse_items(s: Seq<char>, i: nat) -> Option<(Seq<JsonV>, nat)>
    decreases s.len() - i, 3nat,
    when i <= s.len()
{
    match parse_value(s, i) {
        None => None,
        Some(r) => {
            if r.1 <= i || r.1 >= s.len() {
                None
            } else if s[r.1 as int] == ',' {
                match parse_items(s, (r.1 + 1) as nat) {
                    Some(t) => Some((seq![r.0] + t.0, t.1)),
                    None => None,
                }
            } else if s[r.1 as int] == ']' {
                Some((seq![r.0], (r.1 + 1) as nat))
            } else {
                None
            }
        },
    }
}

/// Parses the members of a non-empty object from `i` (just past the
/// opening brace): the members, and the index past the closing brace.
pub open spec fn parse_members(s: Seq<char>, i: nat) -> Option<(Seq<(Seq<char>, JsonV)>, nat)>
    decreases s.len() - i, 3nat,
    when i <= s.len()
{
    if i >= s.len() || s[i as int] != '"' {
        None
    } else {
        match parse_str_body(s, (i + 1) as nat) {
            None => None,
            Some(kr) => {
                if kr.1 <= i + 1 || kr.1 >= s.len() {
                    None
                } else if s[kr.1 as int] != ':' {
                    None
                } else {
                    match parse_value(s, (kr.1 + 1) as nat) {
                        None => None,
                        Some(vr) => {
                            if vr.1 <= i || vr.1 >= s.len() {
                                None
                            } else if s[vr.1 as int] == ',' {
                                match parse_members(s, (vr.1 + 1) as nat) {
                                    Some(t) => Some((seq![(kr.0, vr.0)] + t.0, t.1)),
                                    None => None,
                                }
                            } else if s[vr.1 as int] == '}' {
                                Some((seq![(kr.0, vr.0)], (vr.1 + 1) as nat))
                            } else {
                                None
                            }
                        },
                    }
                }
            },
        }
    }
}

/// Whether a character is insignificant whitespace between tokens.
pub open spec fn is_json_ws(c: char) -> bool {
    c == ' ' || c == '\t' || c == '\n' || c == '\r'
}

/// The text with insignificant whitespace removed: whitespace outside
/// string literals is dropped, everything inside them (tracked across
/// escapes) is kept. `in_str` and `esc` say whether the text starts
/// inside a string literal, and right after a backslash in one.
pub open spec fn strip_from(s: Seq<char>, in_str: bool, esc: bool) -> Seq<char>
    decreases s.len(),
{
    if s.len() == 0 {
        Seq::empty()
    } else {
        let c = s[0];
        let rest = s.drop_first();
        if esc {
            seq![c] + strip_from(rest, true, false)
        } else if in_str {
            if c == '\\' {
                seq![c] + strip_from(rest, true, true)
            } else if c == '"' {
                seq![c] + strip_from(rest, false, false)
            } else {
                seq![c] + strip_from(rest, true, false)
            }
        } else {
            if c == '"' {
                seq![c] + strip_from(rest, true, false)
            } else if is_json_ws(c) {
                strip_from(rest, false, false)
            } else {
                seq![c] + strip_from(rest, false, false)
            }
        }
    }
}

/// The string-literal state after reading `s` from the given state.
pub open spec fn strip_state(s: Seq<char>, in_str: bool, esc: bool) -> (bool, bool)
    decreases s.len(),
{
    if s.len() == 0 {
        (in_str, esc)
    } else {
        let c = s[0];
        let rest = s.drop_first();
        if esc {
            strip_state(rest, true, false)
        } else if in_str {
            if c == '\\' {
                strip_state(rest, true, true)
            } else {
                strip_state(rest, c != '"', false)
            }
        } else {
            strip_state(rest, c == '"', false)
        }
    }
}

/// The text with insignificant whitespace removed, read from outside any
/// string literal.
pub open spec fn strip_ws(s: Seq<char>) -> Seq<char> {
    strip_from(s, false, false)
}

/// Removes insignificant whitespace from a text.
pub fn strip_ws_text(s: &Vec<char>) -> (r: Vec<char>)
    ensures
        r@ == strip_ws(s@),
{
    let n = s.len();
    let mut out: Vec<char> = Vec::new();
    let mut in_str: bool = false;
    let mut esc: bool = false;
    let mut i: usize = 0;
    proof {
        assert(s@.skip(0) =~= s@);
        assert(Seq::<char>::empty() + strip_from(s@, false, false) =~= strip_from(
            s@,
            false,
            false,
        ));
    }
    while i < n
        invariant
            0 <= i <= n == s@.len(),
            esc ==> in_str,
            strip_ws(s@) == out@ + strip_from(s@.skip(i as int), in_str, esc),
        decreases n - i,
    {
        let c = char_at(s, i);
        let ghost suffix = s@.skip(i as int);
        proof {
            assert(suffix[0] == c);
            assert(suffix.drop_first() =~= s@.skip(i + 1));
        }
        let ghost before = out@;
        if esc {
            out.push(c);
            esc = false;
        } else if in_str {
            if c == '\\' {
                out.push(c);
                esc = true;
            } else if c == '"' {
                out.push(c);
                in_str = false;
            } else {
                out.push(c);
            }
        } else {
            if c == '"' {
                out.push(c);
                in_str = true;
            } else if c == ' ' || c == '\t' || c == '\n' || c == '\r' {
            } else {
                out.push(c);
            }
        }
        proof {
            if out@ != before {
                assert(before + (seq![c] + strip_from(s@.skip(i + 1), in_str, esc)) =~= out@
                    + strip_from(s@.skip(i + 1), in_str, esc));
            }
        }
        i = i + 1;
    }
    proof {
        assert(s@.skip(n as int) =~= Seq::<char>::empty());
        assert(out@ + Seq::<char>::empty() =~= out@);
    }
    out
}

/// Parses a whole text as one value: the text must hold exactly one value
/// and nothing after it.
pub open spec fn parse_json(s: Seq<char>) -> Option<JsonV> {
    match parse_value(s, 0) {
        Some(r) => if r.1 == s.len() {
            Some(r.0)
        } else {
            None
        },
        None => None,
    }
}

// ------------------------------------------------------------------
// The executable parser, proved to return exactly what the spec parser
// denotes.
// ------------------------------------------------------------------

/// Relies on `char::from_u32`: `Some` exactly for Unicode scalar values
/// (not a surrogate, at most 0x10FFFF), carrying that code point.
#[verifier::external_body]
fn char_from_u32(u: u32) -> (r: Option<char>)
    ensures
        r == if is_scalar_value(u as nat) {
            Some((u as char))
        } else {
            None::<char>
        },
{
    char::from_u32(u)
}

/// The character an escape shorthand stands for.
fn unescape_exec(c: char) -> (r: Option<char>)
    ensures
        r == unescape(c),
{
    if c == '"' {
        Some('"')
    } else if c == '\\' {
        Some('\\')
    } else if c == '/' {
        Some('/')
    } else if c == 'n' {
        Some('\n')
    } else if c == 't' {
        Some('\t')
    } else if c == 'r' {
        Some('\r')
    } else if c == 'b' {
        Some('\u{8}')
    } else if c == 'f' {
        Some('\u{c}')
    } else {
        None
    }
}

/// Reads one character of `s`.
fn char_at(s: &Vec<char>, i: usize) -> (c: char)
    requires
        i < s@.len(),
    ensures
        c == s@[i as int],
{
    s[i]
}

/// Parses a string literal body starting at `i`, just past the opening
/// quote.
#[verifier::rlimit(60)]
fn p_str_body(s: &Vec<char>, i: usize) -> (r: Option<(Vec<char>, usize)>)
    requires
        i <= s@.len(),
    ensures
        match r {
            Some(p) => parse_str_body(s@, i as nat) == Some((p.0@, p.1 as nat)) && i < p.1
                <= s@.len(),
            None => parse_str_body(s@, i as nat) is None,
        },
{
    let n = s.len();
    let mut cur: usize = i;
    let mut acc: Vec<char> = Vec::new();
    loop
        invariant
            i <= cur <= n == s@.len(),
            match parse_str_body(s@, cur as nat) {
                Some(q) => parse_str_body(s@, i as nat) == Some((acc@ + q.0, q.1)),
                None => parse_str_body(s@, i as nat) is None,
            },
        decreases n - cur,
    {
        if cur >= n {
            return None;
        }
        let c = char_at(s, cur);
        if c == '"' {
            proof {
                assert(acc@ + Seq::<char>::empty() =~= acc@);
                lemma_str_body_bounds(s@, i as nat);
            }
            return Some((acc, cur + 1));
        } else if c == '\\' {
            if n - cur < 2 {
                return None;
            }
            let e = char_at(s, cur + 1);
            if e == 'u' {
                if n - cur < 6 {
                    return None;
                }
                let d0 = crate::numeric::hex_digit_u32(char_at(s, cur + 2));
                let d1 = crate::numeric::hex_digit_u32(char_at(s, cur + 3));
                let d2 = crate::numeric::hex_digit_u32(char_at(s, cur + 4));
                let d3 = crate::numeric::hex_digit_u32(char_at(s, cur + 5));
                match (d0, d1, d2, d3) {
                    (Some(h0), Some(h1), Some(h2), Some(h3)) => {
                        let code: u32 = ((h0 * 16 + h1) * 16 + h2) * 16 + h3;
                        proof {
                            assert(hex4_at(s@, cur + 2));
                            assert(code as nat == hex4_value(s@, cur + 2));
                        }
                        match char_from_u32(code) {
                            Some(u) => {
                                let ghost before = acc@;
                                acc.push(u);
                                proof {
                                    match parse_str_body(s@, cur as nat + 6) {
                                        Some(q) => {
                                            assert((before + (seq![u] + q.0)) =~= (acc@ + q.0));
                                        },
                                        None => {},
                                    }
                                }
                                cur = cur + 6;
                            },
                            None => {
                                return None;
                            },
                        }
                    },
                    _ => {
                        return None;
                    },
                }
            } else {
                match unescape_exec(e) {
                    Some(u) => {
                        let ghost before = acc@;
                        acc.push(u);
                        proof {
                            match parse_str_body(s@, cur as nat + 2) {
                                Some(q) => {
                                    assert((before + (seq![u] + q.0)) =~= (acc@ + q.0));
                                },
                                None => {},
                            }
                        }
                        cur = cur + 2;
                    },
                    None => {
                        return None;
                    },
                }
            }
        } else {
            if ' ' > c {
                return None;
            }
            let ghost before = acc@;
            acc.push(c);
            proof {
                match parse_str_body(s@, cur as nat + 1) {
                    Some(q) => {
                        assert((before + (seq![c] + q.0)) =~= (acc@ + q.0));
                    },
                    None => {},
                }
            }
            cur = cur + 1;
        }
    }
}

/// Parses an integer starting at `i`.
fn p_number(s: &Vec<char>, i: usize) -> (r: Option<(JsonValue, usize)>)
    requires
        i <= s@.len(),
    ensures
        match r {
            Some(p) => parse_number(s@, i as nat) == Some((p.0@, p.1 as nat)) && i < p.1
                <= s@.len(),
            None => parse_number(s@, i as nat) is None,
        },
{
    let n = s.len();
    if i >= n {
        return None;
    }
    let neg = char_at(s, i) == '-';
    let start: usize = if neg {
        i + 1
    } else {
        i
    };
    let mut j: usize = start;
    let mut acc: u64 = 0;
    let mut over: bool = false;
    loop
        invariant
            i <= start <= j <= n == s@.len(),
            scan_digits(s@, start as nat) == scan_digits(s@, j as nat),
            forall|k: int| start <= k < j ==> is_dec_digit(#[trigger] s@[k]),
            !over ==> acc == dec_value(s@.subrange(start as int, j as int)),
            over ==> dec_value(s@.subrange(start as int, j as int)) > u64::MAX,
        ensures
            i <= start <= j <= n == s@.len(),
            scan_digits(s@, start as nat) == scan_digits(s@, j as nat),
            j >= n || !is_dec_digit(s@[j as int]),
            !over ==> acc == dec_value(s@.subrange(start as int, j as int)),
            over ==> dec_value(s@.subrange(start as int, j as int)) > u64::MAX,
        decreases n - j,
    {
        if j >= n {
            break;
        }
        let c = char_at(s, j);
        if c < '0' || c > '9' {
            break;
        }
        let d: u64 = (c as u32 - '0' as u32) as u64;
        proof {
            assert(is_dec_digit(s@[j as int]));
            assert(d == crate::numeric::dec_digit_value(s@[j as int]));
            assert(s@.subrange(start as int, j + 1).drop_last() =~= s@.subrange(
                start as int,
                j as int,
            ));
            assert(s@.subrange(start as int, j + 1).last() == s@[j as int]);
        }
        if over {
            proof {
                assert(s@.subrange(start as int, j + 1).subrange(0, j - start) =~= s@.subrange(
                    start as int,
                    j as int,
                ));
                crate::numeric::lemma_dec_prefix_monotonic(
                    s@.subrange(start as int, j + 1),
                    j - start,
                );
            }
        } else if acc > (u64::MAX - d) / 10 {
            over = true;
            proof {
                assert(dec_value(s@.subrange(start as int, j + 1)) == acc * 10 + d);
            }
        } else {
            acc = acc * 10 + d;
        }
        j = j + 1;
    }
    proof {
        if j < n {
            assert(!is_dec_digit(s@[j as int]));
        }
        assert(scan_digits(s@, j as nat) == j as nat);
    }
    if j == start {
        return None;
    }
    if over {
        return None;
    }
    Some((JsonValue::Num(JsonNum { neg: neg && acc > 0, mag: acc }), j))
}

/// Parses one value starting at `i`.
pub fn p_value(s: &Vec<char>, i: usize) -> (r: Option<(JsonValue, usize)>)
    requires
        i <= s@.len(),
    ensures
        match r {
            Some(p) => parse_value(s@, i as nat) == Some((p.0@, p.1 as nat)) && i < p.1
                <= s@.len(),
            None => parse_value(s@, i as nat) is None,
        },
    decreases s@.len() - i, 2nat,
{
    let n = s.len();
    if i >= n {
        return None;
    }
    let c = char_at(s, i);
    if c == 'n' {
        if n - i >= 4 && char_at(s, i + 1) == 'u' && char_at(s, i + 2) == 'l' && char_at(s, i + 3) == 'l' {
            Some((JsonValue::Null, i + 4))
        } else {
            None
        }
    } else if c == 't' {
        if n - i >= 4 && char_at(s, i + 1) == 'r' && char_at(s, i + 2) == 'u' && char_at(s, i + 3) == 'e' {
            Some((JsonValue::Bool(true), i + 4))
        } else {
            None
        }
    } else if c == 'f' {
        if n - i >= 5 && char_at(s, i + 1) == 'a' && char_at(s, i + 2) == 'l' && char_at(s, i + 3) == 's' && char_at(s, i + 4) == 'e' {
            Some((JsonValue::Bool(false), i + 5))
        } else {
            None
        }
    } else if c == '-' || ('0' <= c && c <= '9') {
        p_number(s, i)
    } else if c == '"' {
        match p_str_body(s, i + 1) {
            Some((content, j)) => {
                let text = crate::strings::chars_to_string(&content);
                Some((JsonValue::Str(text), j))
            },
            None => None,
        }
    } else if c == '[' {
        if n - i >= 2 && char_at(s, i + 1) == ']' {
            let empty: Vec<JsonValue> = Vec::new();
            proof {
                assert(jviews(Seq::<JsonValue>::empty()) =~= Seq::<JsonV>::empty());
            }
            Some((JsonValue::Arr(empty), i + 2))
        } else {
            match p_items(s, i + 1) {
                Some((items, j)) => Some((JsonValue::Arr(items), j)),
                None => None,
            }
        }
    } else if c == '{' {
        if n - i >= 2 && char_at(s, i + 1) == '}' {
            let empty: Vec<(String, JsonValue)> = Vec::new();
            proof {
                assert(mviews(Seq::<(String, JsonValue)>::empty()) =~= Seq::<
                    (Seq<char>, JsonV),
                >::empty());
            }
            Some((JsonValue::Obj(empty), i + 2))
        } else {
            match p_members(s, i + 1) {
                Some((members, j)) => Some((JsonValue::Obj(members), j)),
                None => None,
            }
        }
    } else {
        None
    }
}

/// Parses the items of a non-empty array starting at `i`.
fn p_items(s: &Vec<char>, i: usize) -> (r: Option<(Vec<JsonValue>, usize)>)
    requires
        i <= s@.len(),
    ensures
        match r {
            Some(p) => parse_items(s@, i as nat) == Some((jviews(p.0@), p.1 as nat)) && i < p.1
                <= s@.len(),
            None => parse_items(s@, i as nat) is None,
        },
    decreases s@.len() - i, 3nat,
{
    let n = s.len();
    match p_value(s, i) {
        None => None,
        Some((v, j)) => {
            if j >= n {
                return None;
            }
            let c = char_at(s, j);
            if c == ',' {
                match p_items(s, j + 1) {
                    Some((mut rest, e)) => {
                        let ghost tail = rest@;
                        rest.insert(0, v);
                        proof {
                            assert(jviews(rest@) =~= seq![jview(rest@[0])] + jviews(tail));
                        }
                        Some((rest, e))
                    },
                    None => None,
                }
            } else if c == ']' {
                let mut out: Vec<JsonValue> = Vec::new();
                out.push(v);
                proof {
                    assert(jviews(out@) =~= seq![jview(out@[0])]);
                }
                Some((out, j + 1))
            } else {
                None
            }
        },
    }
}

/// Parses the members of a non-empty object starting at `i`.
fn p_members(s: &Vec<char>, i: usize) -> (r: Option<(Vec<(String, JsonValue)>, usize)>)
    requires
        i <= s@.len(),
    ensures
        match r {
            Some(p) => parse_members(s@, i as nat) == Some((mviews(p.0@), p.1 as nat)) && i < p.1
                <= s@.len(),
            None => parse_members(s@, i as nat) is None,
        },
    decreases s@.len() - i, 3nat,
{
    let n = s.len();
    if i >= n {
        return None;
    }
    if char_at(s, i) != '"' {
        return None;
    }
    match p_str_body(s, i + 1) {
        None => None,
        Some((key_chars, j)) => {
            if j >= n {
                return None;
            }
            if char_at(s, j) != ':' {
                return None;
            }
            let key = crate::strings::chars_to_string(&key_chars);
            match p_value(s, j + 1) {
                None => None,
                Some((v, k)) => {
                    if k >= n {
                        return None;
                    }
                    let c = char_at(s, k);
                    if c == ',' {
                        match p_members(s, k + 1) {
                            Some((mut rest, e)) => {
                                let ghost tail = rest@;
                                rest.insert(0, (key, v));
                                proof {
                                    assert(mviews(rest@) =~= seq![
                                        (rest@[0].0@, jview(rest@[0].1)),
                                    ] + mviews(tail));
                                }
                                Some((rest, e))
                            },
                            None => None,
                        }
                    } else if c == '}' {
                        let mut out: Vec<(String, JsonValue)> = Vec::new();
                        out.push((key, v));
                        proof {
                            assert(mviews(out@) =~= seq![(out@[0].0@, jview(out@[0].1))]);
                        }
                        Some((out, k + 1))
                    } else {
                        None
                    }
                },
            }
        },
    }
}

/// Parses a whole text as one value, after dropping insignificant
/// whitespace between its tokens.
pub fn json_from_text(s: &str) -> (r: Option<JsonValue>)
    ensures
        match r {
            Some(v) => parse_json(strip_ws(s@)) == Some(v@),
            None => parse_json(strip_ws(s@)) is None,
        },
{
    let raw = crate::strings::str_to_chars(s);
    let chars = strip_ws_text(&raw);
    match p_value(&chars, 0) {
        Some((v, j)) => {
            if j == chars.len() {
                Some(v)
            } else {
                None
            }
        },
        None => None,
    }
}

/// The wire text of `v`, as a string.
pub fn to_json_text(v: &JsonValue) -> (r: String)
    ensures
        r@ == enc(v@),
{
    let mut out: Vec<char> = Vec::new();
    write_json(v, &mut out);
    crate::strings::chars_to_string(&out)
}

// ------------------------------------------------------------------
// The round trip: parsing the text a value encodes to yields the value.
// ------------------------------------------------------------------

/// The decimal numeral of `n` is non-empty, all digits, and denotes `n`.
pub proof fn lemma_dec_str_digits(n: nat)
    ensures
        dec_str(n).len() > 0,
        crate::numeric::all_dec_digits(dec_str(n)),
        dec_value(dec_str(n)) == n,
        is_dec_digit(dec_str(n)[0]),
    decreases n,
{
    if n < 10 {
        assert(dec_str(n) =~= seq![crate::numeric::dec_char(n)]);
        assert(dec_str(n).drop_last() =~= Seq::<char>::empty());
        assert(dec_value(Seq::<char>::empty()) == 0);
        assert(dec_str(n).last() == crate::numeric::dec_char(n));
        assert(dec_value(dec_str(n)) == dec_value(dec_str(n).drop_last()) * 10
            + crate::numeric::dec_digit_value(dec_str(n).last()));
    } else {
        lemma_dec_str_digits(n / 10);
        let head = dec_str(n / 10);
        let d = crate::numeric::dec_char(n % 10);
        assert(dec_str(n) == head.push(d));
        assert(dec_str(n).drop_last() =~= head);
        assert(dec_str(n).last() == d);
        assert(dec_value(dec_str(n)) == dec_value(head) * 10 + crate::numeric::dec_digit_value(d));
        assert(crate::numeric::dec_digit_value(d) == n % 10);
        vstd::arithmetic::div_mod::lemma_fundamental_div_mod(n as int, 10);
        assert forall|k: int| 0 <= k < dec_str(n).len() implies is_dec_digit(
            #[trigger] dec_str(n)[k],
        ) by {
            if k < head.len() {
                assert(dec_str(n)[k] == head[k]);
            }
        }
        assert(dec_str(n)[0] == head[0]);
    }
}

/// A low code point survives the cast chain through its numeric value.
proof fn lemma_char_cast_low(c: char)
    requires
        (c as nat) < 32,
    ensures
        (((c as nat) as u32) as char) == c,
{
    assert((c as nat) as u32 == c as u32);
    vstd::utf8::char_u32_cast(c, c as u32);
}

/// A hexadecimal digit character reads back as its value.
pub proof fn lemma_hex_char_value(m: nat)
    requires
        m < 16,
    ensures
        is_hex_digit(hex_char(m)),
        hex_digit_value(hex_char(m)) == m,
{
}

/// Where the digit scan stops when the digit run is known exactly.
proof fn lemma_scan_digits_exact(s: Seq<char>, j: nat, e: nat)
    requires
        j <= e <= s.len(),
        forall|k: int| j <= k < e ==> is_dec_digit(#[trigger] s[k]),
        e == s.len() || !is_dec_digit(s[e as int]),
    ensures
        scan_digits(s, j) == e,
    decreases e - j,
{
    if j < e {
        lemma_scan_digits_exact(s, (j + 1) as nat, e);
    }
}

/// The first character of a value's text identifies its shape to the
/// parser's dispatch.
proof fn lemma_enc_first(v: JsonV)
    ensures
        enc(v).len() > 0,
        match v {
            JsonV::Null => enc(v)[0] == 'n',
            JsonV::Bool(b) => enc(v)[0] == (if b {
                't'
            } else {
                'f'
            }),
            JsonV::Num { neg, mag } => (enc(v)[0] == '-' || is_dec_digit(enc(v)[0])) && enc(v)[0]
                != 'n' && enc(v)[0] != 't' && enc(v)[0] != 'f',
            JsonV::Str(_) => enc(v)[0] == '"',
            JsonV::Arr(_) => enc(v)[0] == '[',
            JsonV::Obj(_) => enc(v)[0] == '{',
        },
        enc(v)[0] != ']' && enc(v)[0] != '}' && enc(v)[0] != ',' && enc(v)[0] != ':',
{
    match v {
        JsonV::Num { neg, mag } => {
            lemma_dec_str_digits(mag as nat);
            if neg {
                assert(enc(v)[0] == '-');
            } else {
                assert(enc(v) == dec_str(mag as nat));
                assert(is_dec_digit(enc(v)[0]));
            }
        },
        _ => {},
    }
}

/// Reading one character of `t` through the equality of a subrange of
/// `s` with `t`.
proof fn lemma_window_char(s: Seq<char>, i: int, t: Seq<char>, k: int)
    requires
        0 <= i,
        i + t.len() <= s.len(),
        s.subrange(i, i + t.len()) == t,
        0 <= k < t.len(),
    ensures
        s[i + k] == t[k],
{
    assert(s.subrange(i, i + t.len())[k] == s[i + k]);
}

/// A window that holds `x + y` holds `x` at its start and `y` after it.
proof fn lemma_window_split(s: Seq<char>, i: int, x: Seq<char>, y: Seq<char>)
    requires
        0 <= i,
        i + x.len() + y.len() <= s.len(),
        s.subrange(i, i + x.len() + y.len()) == x + y,
    ensures
        s.subrange(i, i + x.len()) == x,
        s.subrange(i + x.len(), i + x.len() + y.len()) == y,
{
    let t = x + y;
    assert forall|k: int| 0 <= k < x.len() implies s.subrange(i, i + x.len())[k] == x[k] by {
        assert(s.subrange(i, i + t.len())[k] == s[i + k]);
        assert(t[k] == x[k]);
    }
    assert(s.subrange(i, i + x.len()) =~= x);
    assert forall|k: int| 0 <= k < y.len() implies s.subrange(
        i + x.len(),
        i + x.len() + y.len(),
    )[k] == y[k] by {
        assert(s.subrange(i, i + t.len())[x.len() + k] == s[i + x.len() + k]);
        assert(t[x.len() + k] == y[k]);
    }
    assert(s.subrange(i + x.len(), i + x.len() + y.len()) =~= y);
}

/// Parsing the escaped body of `str` from a window of `s`, with the
/// closing quote right after it, recovers `str`.
proof fn lemma_rt_str_body(str: Seq<char>, s: Seq<char>, i: nat)
    requires
        i + enc_str_body(str).len() < s.len(),
        s.subrange(i as int, i as int + enc_str_body(str).len()) == enc_str_body(str),
        s[i as int + enc_str_body(str).len()] == '"',
    ensures
        parse_str_body(s, i) == Some((str, (i + enc_str_body(str).len() + 1) as nat)),
    decreases str.len(),
{
    let body = enc_str_body(str);
    if str.len() == 0 {
        assert(body =~= Seq::<char>::empty());
        assert(s[i as int] == '"');
    } else {
        let c = str[0];
        let e = esc_char(c);
        let rest = str.drop_first();
        let rb = enc_str_body(rest);
        assert(body == e + rb);
        lemma_window_split(s, i as int, e, rb);
        let i2 = (i + e.len()) as nat;
        lemma_rt_str_body(rest, s, i2);
        assert(parse_str_body(s, i2) == Some((rest, (i2 + rb.len() + 1) as nat)));
        if c == '"' {
            lemma_window_char(s, i as int, e, 0);
            lemma_window_char(s, i as int, e, 1);
            assert(s[i as int] == '\\' && s[i as int + 1] == '"');
            assert(unescape('"') == Some('"'));
            assert(parse_str_body(s, i) == Some((seq!['"'] + rest, (i2 + rb.len() + 1) as nat)));
            assert(seq!['"'] + rest =~= str);
        } else if c == '\\' {
            lemma_window_char(s, i as int, e, 0);
            lemma_window_char(s, i as int, e, 1);
            assert(s[i as int] == '\\' && s[i as int + 1] == '\\');
            assert(unescape('\\') == Some('\\'));
            assert(parse_str_body(s, i) == Some((seq!['\\'] + rest, (i2 + rb.len() + 1) as nat)));
            assert(seq!['\\'] + rest =~= str);
        } else if (c as nat) < 32 {
            lemma_window_char(s, i as int, e, 0);
            lemma_window_char(s, i as int, e, 1);
            lemma_window_char(s, i as int, e, 2);
            lemma_window_char(s, i as int, e, 3);
            lemma_window_char(s, i as int, e, 4);
            lemma_window_char(s, i as int, e, 5);
            assert(s[i as int] == '\\' && s[i as int + 1] == 'u');
            assert(s[i as int + 2] == '0' && s[i as int + 3] == '0');
            assert(s[i as int + 4] == hex_char((c as nat) / 16));
            assert(s[i as int + 5] == hex_char((c as nat) % 16));
            lemma_hex_char_value((c as nat) / 16);
            lemma_hex_char_value((c as nat) % 16);
            assert(hex_digit_value('0') == 0);
            assert(hex4_at(s, i as int + 2));
            vstd::arithmetic::div_mod::lemma_fundamental_div_mod(c as int, 16);
            assert(hex4_value(s, i as int + 2) == (c as nat));
            assert(is_scalar_value(c as nat));
            lemma_char_cast_low(c);
            assert(((hex4_value(s, i as int + 2) as u32) as char) == c);
            assert(parse_str_body(s, i) == Some((seq![c] + rest, (i2 + rb.len() + 1) as nat)));
            assert(seq![c] + rest =~= str);
        } else {
            assert(e =~= seq![c]);
            lemma_window_char(s, i as int, e, 0);
            assert(s[i as int] == c);
            assert(parse_str_body(s, i) == Some((seq![c] + rest, (i2 + rb.len() + 1) as nat)));
            assert(seq![c] + rest =~= str);
        }
    }
}

/// Parsing an integer's text from a window of `s`, with no digit right
/// after it, recovers the integer.
proof fn lemma_rt_num(neg: bool, mag: u64, s: Seq<char>, i: nat)
    requires
        neg ==> mag > 0,
        i + enc_num(neg, mag).len() <= s.len(),
        s.subrange(i as int, i as int + enc_num(neg, mag).len()) == enc_num(neg, mag),
        i + enc_num(neg, mag).len() == s.len() || !is_dec_digit(
            s[i as int + enc_num(neg, mag).len()],
        ),
    ensures
        parse_number(s, i) == Some(
            (JsonV::Num { neg, mag }, (i + enc_num(neg, mag).len()) as nat),
        ),
{
    lemma_dec_str_digits(mag as nat);
    let ds = dec_str(mag as nat);
    let en = enc_num(neg, mag);
    if neg {
        assert(en == seq!['-'] + ds);
        lemma_window_split(s, i as int, seq!['-'], ds);
        lemma_window_char(s, i as int, en, 0);
        assert(s[i as int] == '-');
        let j = (i + 1) as nat;
        assert forall|k: int| j <= k < j + ds.len() implies is_dec_digit(#[trigger] s[k]) by {
            lemma_window_char(s, j as int, ds, k - j);
        }
        lemma_scan_digits_exact(s, j, (j + ds.len()) as nat);
        assert(s.subrange(j as int, j as int + ds.len()) == ds);
        assert(dec_value(s.subrange(j as int, (j + ds.len()) as int)) == mag);
        assert(mag > 0);
    } else {
        assert(en == ds);
        lemma_window_char(s, i as int, en, 0);
        assert(is_dec_digit(s[i as int]));
        assert(s[i as int] != '-');
        assert forall|k: int| i <= k < i + ds.len() implies is_dec_digit(#[trigger] s[k]) by {
            lemma_window_char(s, i as int, ds, k - i);
        }
        lemma_scan_digits_exact(s, i, (i + ds.len()) as nat);
        assert(dec_value(s.subrange(i as int, (i + ds.len()) as int)) == mag);
    }
}

/// Parsing a value's text from a window of `s`, with no digit right
/// after it, recovers the value.
#[verifier::rlimit(100)]
proof fn lemma_rt_value(v: JsonV, s: Seq<char>, i: nat)
    requires
        wf_json(v),
        i + enc(v).len() <= s.len(),
        s.subrange(i as int, i as int + enc(v).len()) == enc(v),
        i + enc(v).len() == s.len() || !is_dec_digit(s[i as int + enc(v).len()]),
    ensures
        parse_value(s, i) == Some((v, (i + enc(v).len()) as nat)),
    decreases v, 0nat,
{
    let t = enc(v);
    lemma_enc_first(v);
    lemma_window_char(s, i as int, t, 0);
    match v {
        JsonV::Null => {
            lemma_window_char(s, i as int, t, 1);
            lemma_window_char(s, i as int, t, 2);
            lemma_window_char(s, i as int, t, 3);
        },
        JsonV::Bool(b) => {
            lemma_window_char(s, i as int, t, 1);
            lemma_window_char(s, i as int, t, 2);
            lemma_window_char(s, i as int, t, 3);
            if !b {
                lemma_window_char(s, i as int, t, 4);
            }
        },
        JsonV::Num { neg, mag } => {
            lemma_rt_num(neg, mag, s, i);
        },
        JsonV::Str(body) => {
            let eb = enc_str_body(body);
            assert(t =~= seq!['"'] + (eb + seq!['"']));
            lemma_window_split(s, i as int, seq!['"'], eb + seq!['"']);
            lemma_window_split(s, i as int + 1, eb, seq!['"']);
            lemma_window_char(s, i as int + 1 + eb.len(), seq!['"'], 0);
            lemma_rt_str_body(body, s, (i + 1) as nat);
            assert(parse_str_body(s, (i + 1) as nat) == Some(
                (body, (i + 1 + eb.len() + 1) as nat),
            ));
        },
        JsonV::Arr(a) => {
            let items = enc_items(a);
            assert(t =~= seq!['['] + (items + seq![']']));
            lemma_window_split(s, i as int, seq!['['], items + seq![']']);
            lemma_window_split(s, i as int + 1, items, seq![']']);
            lemma_window_char(s, i as int + 1 + items.len(), seq![']'], 0);
            if a.len() == 0 {
                assert(items =~= Seq::<char>::empty());
                assert(s[i as int + 1] == ']');
                assert(parse_value(s, i) == Some((JsonV::Arr(Seq::empty()), (i + 2) as nat)));
                assert(a =~= Seq::<JsonV>::empty());
            } else {
                lemma_enc_first(a[0]);
                assert(items[0] == enc(a[0])[0]);
                lemma_window_char(s, i as int + 1, items, 0);
                assert(s[i as int + 1] != ']');
                lemma_rt_items(a, s, (i + 1) as nat);
            }
        },
        JsonV::Obj(o) => {
            let members = enc_members(o);
            assert(t =~= seq!['{'] + (members + seq!['}']));
            lemma_window_split(s, i as int, seq!['{'], members + seq!['}']);
            lemma_window_split(s, i as int + 1, members, seq!['}']);
            lemma_window_char(s, i as int + 1 + members.len(), seq!['}'], 0);
            if o.len() == 0 {
                assert(members =~= Seq::<char>::empty());
                assert(s[i as int + 1] == '}');
                assert(parse_value(s, i) == Some((JsonV::Obj(Seq::empty()), (i + 2) as nat)));
                assert(o =~= Seq::<(Seq<char>, JsonV)>::empty());
            } else {
                assert(enc_member(o[0])[0] == '"');
                assert(members[0] == enc_member(o[0])[0]);
                lemma_window_char(s, i as int + 1, members, 0);
                assert(s[i as int + 1] != '}');
                lemma_rt_members(o, s, (i + 1) as nat);
            }
        },
    }
}

/// Parsing the items of a non-empty array from a window of `s`, with the
/// closing bracket right after them, recovers the items.
proof fn lemma_rt_items(a: Seq<JsonV>, s: Seq<char>, i: nat)
    requires
        a.len() > 0,
        forall|k: int| 0 <= k < a.len() ==> wf_json(#[trigger] a[k]),
        i + enc_items(a).len() < s.len(),
        s.subrange(i as int, i as int + enc_items(a).len()) == enc_items(a),
        s[i as int + enc_items(a).len()] == ']',
    ensures
        parse_items(s, i) == Some((a, (i + enc_items(a).len() + 1) as nat)),
    decreases a, 1nat,
{
    let items = enc_items(a);
    let e0 = enc(a[0]);
    lemma_enc_first(a[0]);
    if a.len() == 1 {
        assert(items == e0);
        lemma_rt_value(a[0], s, i);
        let j = (i + e0.len()) as nat;
        assert(s[j as int] == ']');
        assert(parse_items(s, i) == Some((seq![a[0]], (j + 1) as nat)));
        assert(seq![a[0]] =~= a);
    } else {
        let rest = a.drop_first();
        let er = enc_items(rest);
        assert(items == e0 + seq![','] + er);
        assert(items =~= e0 + (seq![','] + er));
        lemma_window_split(s, i as int, e0, seq![','] + er);
        lemma_window_split(s, i as int + e0.len(), seq![','], er);
        lemma_window_char(s, i as int + e0.len(), seq![','], 0);
        assert(s[i as int + e0.len()] == ',');
        lemma_rt_value(a[0], s, i);
        let j = (i + e0.len()) as nat;
        assert forall|k: int| 0 <= k < rest.len() implies wf_json(#[trigger] rest[k]) by {
            assert(rest[k] == a[k + 1]);
        }
        lemma_rt_items(rest, s, (j + 1) as nat);
        assert(parse_items(s, (j + 1) as nat) == Some((rest, (j + 1 + er.len() + 1) as nat)));
        assert(parse_items(s, i) == Some((seq![a[0]] + rest, (j + 1 + er.len() + 1) as nat)));
        assert(seq![a[0]] + rest =~= a);
        assert(j + 1 + er.len() == i + items.len());
    }
}

/// Parsing the members of a non-empty object from a window of `s`, with
/// the closing brace right after them, recovers the members.
proof fn lemma_rt_members(o: Seq<(Seq<char>, JsonV)>, s: Seq<char>, i: nat)
    requires
        o.len() > 0,
        forall|k: int| 0 <= k < o.len() ==> wf_json((#[trigger] o[k]).1),
        i + enc_members(o).len() < s.len(),
        s.subrange(i as int, i as int + enc_members(o).len()) == enc_members(o),
        s[i as int + enc_members(o).len()] == '}',
    ensures
        parse_members(s, i) == Some((o, (i + enc_members(o).len() + 1) as nat)),
    decreases o, 1nat,
{
    let members = enc_members(o);
    let m0 = o[0];
    let em = enc_member(m0);
    let kb = enc_str_body(m0.0);
    let ev = enc(m0.1);
    assert(em == seq!['"'] + kb + seq!['"', ':'] + ev);
    let emwin: Seq<char> = if o.len() == 1 {
        members
    } else {
        enc_member(o[0])
    };
    // The member's own text stands at the window's start in either case.
    if o.len() == 1 {
        assert(members == em);
    } else {
        assert(members == em + seq![','] + enc_members(o.drop_first()));
        assert(members =~= em + (seq![','] + enc_members(o.drop_first())));
        lemma_window_split(s, i as int, em, seq![','] + enc_members(o.drop_first()));
        lemma_window_split(s, i as int + em.len(), seq![','], enc_members(o.drop_first()));
        lemma_window_char(s, i as int + em.len(), seq![','], 0);
    }
    assert(s.subrange(i as int, i as int + em.len()) == em);
    assert(em =~= seq!['"'] + (kb + (seq!['"', ':'] + ev)));
    lemma_window_split(s, i as int, seq!['"'], kb + (seq!['"', ':'] + ev));
    lemma_window_split(s, i as int + 1, kb, seq!['"', ':'] + ev);
    lemma_window_split(s, i as int + 1 + kb.len(), seq!['"', ':'], ev);
    lemma_window_char(s, i as int, em, 0);
    assert(s[i as int] == '"');
    lemma_window_char(s, i as int + 1 + kb.len(), seq!['"', ':'], 0);
    lemma_window_char(s, i as int + 1 + kb.len(), seq!['"', ':'], 1);
    assert(s[i as int + 1 + kb.len()] == '"');
    assert(s[i as int + 2 + kb.len()] == ':');
    lemma_rt_str_body(m0.0, s, (i + 1) as nat);
    let jk = (i + 1 + kb.len() + 1) as nat;
    assert(parse_str_body(s, (i + 1) as nat) == Some((m0.0, jk)));
    lemma_enc_first(m0.1);
    lemma_rt_value(m0.1, s, (jk + 1) as nat);
    let jv = (jk + 1 + ev.len()) as nat;
    assert(parse_value(s, (jk + 1) as nat) == Some((m0.1, jv)));
    assert(jv == i + em.len());
    if o.len() == 1 {
        assert(s[jv as int] == '}');
        assert(parse_members(s, i) == Some((seq![(m0.0, m0.1)], (jv + 1) as nat)));
        assert((m0.0, m0.1) == m0);
        assert(seq![(m0.0, m0.1)] =~= o);
    } else {
        let rest = o.drop_first();
        let er = enc_members(rest);
        assert(s[jv as int] == ',');
        assert forall|k: int| 0 <= k < rest.len() implies wf_json((#[trigger] rest[k]).1) by {
            assert(rest[k] == o[k + 1]);
        }
        lemma_rt_members(rest, s, (jv + 1) as nat);
        assert(parse_members(s, (jv + 1) as nat) == Some((rest, (jv + 1 + er.len() + 1) as nat)));
        assert(parse_members(s, i) == Some(
            (seq![(m0.0, m0.1)] + rest, (jv + 1 + er.len() + 1) as nat),
        ));
        assert((m0.0, m0.1) == m0);
        assert(seq![(m0.0, m0.1)] + rest =~= o);
        assert(jv + 1 + er.len() == i + members.len());
    }
}

/// The round trip: the wire text of any well-formed value parses back to
/// exactly that value.
pub proof fn lemma_json_round_trip(v: JsonV)
    requires
        wf_json(v),
    ensures
        parse_json(enc(v)) == Some(v),
        parse_json(strip_ws(enc(v))) == Some(v),
{
    let s = enc(v);
    lemma_enc_first(v);
    assert(s.subrange(0, s.len() as int) =~= s);
    lemma_rt_value(v, s, 0);
    lemma_strip_enc(v);
}

/// Removing whitespace distributes over concatenation, threading the
/// string-literal state through.
proof fn lemma_strip_concat(a: Seq<char>, b: Seq<char>, in_str: bool, esc: bool)
    ensures
        strip_from(a + b, in_str, esc) == strip_from(a, in_str, esc) + strip_from(
            b,
            strip_state(a, in_str, esc).0,
            strip_state(a, in_str, esc).1,
        ),
        strip_state(a + b, in_str, esc) == strip_state(
            b,
            strip_state(a, in_str, esc).0,
            strip_state(a, in_str, esc).1,
        ),
    decreases a.len(),
{
    if a.len() == 0 {
        assert(a + b =~= b);
        assert(strip_from(a, in_str, esc) =~= Seq::<char>::empty());
        assert(strip_from(a, in_str, esc) + strip_from(b, in_str, esc) =~= strip_from(
            b,
            in_str,
            esc,
        ));
    } else {
        let c = a[0];
        let rest = a.drop_first();
        assert((a + b).drop_first() =~= rest + b);
        assert((a + b)[0] == c);
        let keep: bool = esc || in_str || c == '"' || !is_json_ws(c);
        let in2: bool = if esc {
            true
        } else if in_str {
            c != '"'
        } else {
            c == '"'
        };
        let esc2: bool = !esc && in_str && c == '\\';
        lemma_strip_concat(rest, b, in2, esc2);
        let st = strip_state(rest, in2, esc2);
        if keep {
            assert(seq![c] + (strip_from(rest, in2, esc2) + strip_from(b, st.0, st.1)) =~= (
            seq![c] + strip_from(rest, in2, esc2)) + strip_from(b, st.0, st.1));
        }
    }
}

/// A run of characters that are neither whitespace nor quotes passes the
/// stripper outside string literals unchanged.
proof fn lemma_strip_plain_out(s: Seq<char>)
    requires
        forall|k: int| 0 <= k < s.len() ==> !is_json_ws(#[trigger] s[k]) && s[k] != '"',
    ensures
        strip_from(s, false, false) == s,
        strip_state(s, false, false) == (false, false),
    decreases s.len(),
{
    if s.len() > 0 {
        lemma_strip_plain_out(s.drop_first());
        assert(seq![s[0]] + s.drop_first() =~= s);
    }
}

/// A run of characters free of backslashes and quotes passes the
/// stripper inside a string literal unchanged.
proof fn lemma_strip_plain_in(s: Seq<char>)
    requires
        forall|k: int| 0 <= k < s.len() ==> (#[trigger] s[k]) != '\\' && s[k] != '"',
    ensures
        strip_from(s, true, false) == s,
        strip_state(s, true, false) == (true, false),
    decreases s.len(),
{
    if s.len() > 0 {
        lemma_strip_plain_in(s.drop_first());
        assert(seq![s[0]] + s.drop_first() =~= s);
    }
}

/// The escape of one character passes the stripper unchanged, staying
/// inside the string literal.
proof fn lemma_strip_esc_char(c: char)
    ensures
        strip_from(esc_char(c), true, false) == esc_char(c),
        strip_state(esc_char(c), true, false) == (true, false),
{
    reveal_with_fuel(strip_from, 8);
    reveal_with_fuel(strip_state, 8);
    let e = esc_char(c);
    if c == '"' || c == '\\' {
        assert(e.drop_first() =~= seq![e[1]]);
        assert(e.drop_first().drop_first() =~= Seq::<char>::empty());
        assert(strip_from(e.drop_first(), true, true) =~= e.drop_first());
        assert(strip_state(e.drop_first(), true, true) == (true, false));
        assert(strip_from(e, true, false) =~= e);
    } else if (c as nat) < 32 {
        let head = seq!['\\', 'u'];
        let tail: Seq<char> = seq!['0', '0', hex_char((c as nat) / 16), hex_char((c as nat) % 16)];
        assert(e =~= head + tail);
        assert(head.drop_first() =~= seq!['u']);
        assert(head.drop_first().drop_first() =~= Seq::<char>::empty());
        assert(strip_from(head.drop_first(), true, true) =~= head.drop_first());
        assert(strip_state(head.drop_first(), true, true) == (true, false));
        assert(strip_from(head, true, false) =~= head);
        assert(strip_state(head, true, false) == (true, false));
        assert forall|k: int| 0 <= k < tail.len() implies (#[trigger] tail[k]) != '\\' && tail[k]
            != '"' by {}
        lemma_strip_plain_in(tail);
        lemma_strip_concat(head, tail, true, false);
    } else {
        assert(e =~= seq![c]);
        lemma_strip_plain_in(e);
    }
}

/// The body of a string literal passes the stripper unchanged: its
/// whitespace is significant and kept.
proof fn lemma_strip_str_body(t: Seq<char>)
    ensures
        strip_from(enc_str_body(t), true, false) == enc_str_body(t),
        strip_state(enc_str_body(t), true, false) == (true, false),
    decreases t.len(),
{
    if t.len() == 0 {
        assert(enc_str_body(t) =~= Seq::<char>::empty());
    } else {
        lemma_strip_str_body(t.drop_first());
        lemma_strip_esc_char(t[0]);
        lemma_strip_concat(esc_char(t[0]), enc_str_body(t.drop_first()), true, false);
    }
}

/// A quote seen outside a string literal is kept and opens one; seen
/// inside, it is kept and closes it.
proof fn lemma_strip_quote()
    ensures
        strip_from(seq!['"'], false, false) == seq!['"'],
        strip_state(seq!['"'], false, false) == (true, false),
        strip_from(seq!['"'], true, false) == seq!['"'],
        strip_state(seq!['"'], true, false) == (false, false),
{
    reveal_with_fuel(strip_from, 4);
    reveal_with_fuel(strip_state, 4);
    assert(seq!['"'].drop_first() =~= Seq::<char>::empty());
    assert(strip_from(seq!['"'], false, false) =~= seq!['"']);
    assert(strip_from(seq!['"'], true, false) =~= seq!['"']);
}

/// The wire text of a value passes the stripper unchanged: the only
/// whitespace it can hold stands inside string literals.
pub proof fn lemma_strip_enc(v: JsonV)
    ensures
        strip_from(enc(v), false, false) == enc(v),
        strip_state(enc(v), false, false) == (false, false),
    decreases v, 0nat,
{
    let t = enc(v);
    match v {
        JsonV::Null => {
            assert forall|k: int| 0 <= k < t.len() implies !is_json_ws(#[trigger] t[k]) && t[k]
                != '"' by {}
            lemma_strip_plain_out(t);
        },
        JsonV::Bool(b) => {
            assert forall|k: int| 0 <= k < t.len() implies !is_json_ws(#[trigger] t[k]) && t[k]
                != '"' by {}
            lemma_strip_plain_out(t);
        },
        JsonV::Num { neg, mag } => {
            lemma_dec_str_digits(mag as nat);
            assert forall|k: int| 0 <= k < t.len() implies !is_json_ws(#[trigger] t[k]) && t[k]
                != '"' by {
                if neg {
                    if k > 0 {
                        assert(t[k] == dec_str(mag as nat)[k - 1]);
                        assert(is_dec_digit(t[k]));
                    }
                } else {
                    assert(is_dec_digit(t[k]));
                }
            }
            lemma_strip_plain_out(t);
        },
        JsonV::Str(body) => {
            let eb = enc_str_body(body);
            assert(t =~= seq!['"'] + (eb + seq!['"']));
            lemma_strip_quote();
            lemma_strip_str_body(body);
            lemma_strip_concat(eb, seq!['"'], true, false);
            lemma_strip_concat(seq!['"'], eb + seq!['"'], false, false);
        },
        JsonV::Arr(a) => {
            let items = enc_items(a);
            assert(t =~= seq!['['] + (items + seq![']']));
            lemma_strip_plain_out(seq!['[']);
            lemma_strip_plain_out(seq![']']);
            lemma_strip_items(a);
            lemma_strip_concat(items, seq![']'], false, false);
            lemma_strip_concat(seq!['['], items + seq![']'], false, false);
        },
        JsonV::Obj(o) => {
            let members = enc_members(o);
            assert(t =~= seq!['{'] + (members + seq!['}']));
            lemma_strip_plain_out(seq!['{']);
            lemma_strip_plain_out(seq!['}']);
            lemma_strip_members(o);
            lemma_strip_concat(members, seq!['}'], false, false);
            lemma_strip_concat(seq!['{'], members + seq!['}'], false, false);
        },
    }
}

/// The comma-separated item texts pass the stripper unchanged.
proof fn lemma_strip_items(a: Seq<JsonV>)
    ensures
        strip_from(enc_items(a), false, false) == enc_items(a),
        strip_state(enc_items(a), false, false) == (false, false),
    decreases a, 1nat,
{
    if a.len() == 0 {
        assert(enc_items(a) =~= Seq::<char>::empty());
    } else if a.len() == 1 {
        lemma_strip_enc(a[0]);
    } else {
        lemma_strip_enc(a[0]);
        lemma_strip_plain_out(seq![',']);
        lemma_strip_items(a.drop_first());
        assert(enc_items(a) =~= enc(a[0]) + (seq![','] + enc_items(a.drop_first())));
        lemma_strip_concat(seq![','], enc_items(a.drop_first()), false, false);
        lemma_strip_concat(enc(a[0]), seq![','] + enc_items(a.drop_first()), false, false);
    }
}

/// One member's text passes the stripper unchanged.
proof fn lemma_strip_member(m: (Seq<char>, JsonV))
    ensures
        strip_from(enc_member(m), false, false) == enc_member(m),
        strip_state(enc_member(m), false, false) == (false, false),
    decreases m, 2nat,
{
    reveal_with_fuel(strip_from, 4);
    reveal_with_fuel(strip_state, 4);
    let kb = enc_str_body(m.0);
    let ev = enc(m.1);
    assert(enc_member(m) =~= seq!['"'] + (kb + (seq!['"', ':'] + ev)));
    lemma_strip_quote();
    lemma_strip_str_body(m.0);
    lemma_strip_enc(m.1);
    assert(seq!['"', ':'].drop_first() =~= seq![':']);
    assert(seq![':'].drop_first() =~= Seq::<char>::empty());
    assert(strip_from(seq![':'], false, false) =~= seq![':']);
    assert(strip_state(seq![':'], false, false) == (false, false));
    assert(strip_from(seq!['"', ':'], true, false) =~= seq!['"', ':']);
    assert(strip_state(seq!['"', ':'], true, false) == (false, false));
    lemma_strip_concat(seq!['"', ':'], ev, true, false);
    lemma_strip_concat(kb, seq!['"', ':'] + ev, true, false);
    lemma_strip_concat(seq!['"'], kb + (seq!['"', ':'] + ev), false, false);
}

/// The comma-separated member texts pass the stripper unchanged.
proof fn lemma_strip_members(o: Seq<(Seq<char>, JsonV)>)
    ensures
        strip_from(enc_members(o), false, false) == enc_members(o),
        strip_state(enc_members(o), false, false) == (false, false),
    decreases o, 3nat,
{
    if o.len() == 0 {
        assert(enc_members(o) =~= Seq::<char>::empty());
    } else if o.len() == 1 {
        lemma_strip_member(o[0]);
    } else {
        lemma_strip_member(o[0]);
        lemma_strip_plain_out(seq![',']);
        lemma_strip_members(o.drop_first());
        assert(enc_members(o) =~= enc_member(o[0]) + (seq![','] + enc_members(o.drop_first())));
        lemma_strip_concat(seq![','], enc_members(o.drop_first()), false, false);
        lemma_strip_concat(enc_member(o[0]), seq![','] + enc_members(o.drop_first()), false, false);
    }
}

} // verus!
