use vstd::prelude::*;

use crate::schema::{FieldModel, FieldSchema, ValueType, extra_field};
use crate::text::{decode_lossy, lossy_text};

verus! {

/// A decoded field. Floating-point fields keep their text, which is known to
/// be a valid decimal or special float literal.
#[derive(Clone, Debug)]
pub enum Value {
    String(String),
    Integer(i64),
    Float(String),
    Date(String),
    Boolean(bool),
}

/// A decoded field as a plain value.
pub enum ValueModel {
    String(Seq<char>),
    Integer(int),
    Float(Seq<char>),
    Date(Seq<char>),
    Boolean(bool),
}

impl View for Value {
    type V = ValueModel;

    open spec fn view(&self) -> ValueModel {
        match self {
            Value::String(s) => ValueModel::String(s@),
            Value::Integer(i) => ValueModel::Integer(*i as int),
            Value::Float(s) => ValueModel::Float(s@),
            Value::Date(s) => ValueModel::Date(s@),
            Value::Boolean(b) => ValueModel::Boolean(*b),
        }
    }
}

impl Value {
    pub fn duplicate(&self) -> (r: Value)
        ensures
            r@ == self@,
    {
        match self {
            Value::String(s) => Value::String(s.clone()),
            Value::Integer(i) => Value::Integer(*i),
            Value::Float(s) => Value::Float(s.clone()),
            Value::Date(s) => Value::Date(s.clone()),
            Value::Boolean(b) => Value::Boolean(*b),
        }
    }
}

pub open spec fn is_digit(c: u8) -> bool {
    48 <= c <= 57
}

pub open spec fn all_digits(d: Seq<u8>) -> bool {
    forall|i: int| 0 <= i < d.len() ==> is_digit(#[trigger] d[i])
}

pub open spec fn is_sign(c: u8) -> bool {
    c == 43 || c == 45
}

/// The number that a run of decimal digits denotes.
pub open spec fn digits_value(d: Seq<u8>) -> int
    decreases d.len(),
{
    if d.len() == 0 {
        0
    } else {
        digits_value(d.drop_last()) * 10 + (d.last() - 48)
    }
}

/// An optional sign followed by at least one decimal digit.
pub open spec fn is_signed_digits(b: Seq<u8>) -> bool {
    if b.len() > 0 && is_sign(b[0]) {
        b.len() > 1 && all_digits(b.drop_first())
    } else {
        b.len() > 0 && all_digits(b)
    }
}

/// The integer that a signed decimal text denotes, whatever its size.
pub open spec fn integer_text(b: Seq<u8>) -> Option<int> {
    if !is_signed_digits(b) {
        None
    } else if b[0] == 45 {
        Some(-digits_value(b.drop_first()))
    } else if b[0] == 43 {
        Some(digits_value(b.drop_first()))
    } else {
        Some(digits_value(b))
    }
}

/// The 64-bit integer that a field holds: its text denotes an integer in range.
pub open spec fn integer_value(b: Seq<u8>) -> Option<int> {
    match integer_text(b) {
        Some(v) => if i64::MIN <= v <= i64::MAX {
            Some(v)
        } else {
            None
        },
        None => None,
    }
}

pub open spec fn is_exponent_mark(c: u8) -> bool {
    c == 101 || c == 69
}

/// Digits with at most one decimal point, and at least one digit.
pub open spec fn is_mantissa(m: Seq<u8>) -> bool {
    (m.len() > 0 && all_digits(m)) || (m.len() > 1 && exists|q: int|
        0 <= q < m.len() && #[trigger] m[q] == 46 && all_digits(m.subrange(0, q)) && all_digits(
            m.subrange(q + 1, m.len() as int),
        ))
}

/// `e` or `E`, then an optional sign and at least one digit.
pub open spec fn is_exponent(e: Seq<u8>) -> bool {
    e.len() > 0 && is_exponent_mark(e[0]) && is_signed_digits(e.drop_first())
}

/// A mantissa with an optional exponent, eg `12`, `.5`, `3.`, `1.5e-3`.
pub open spec fn is_decimal_float(b: Seq<u8>) -> bool {
    exists|p: int|
        0 <= p <= b.len() && (forall|i: int| 0 <= i < p ==> !is_exponent_mark(#[trigger] b[i]))
            && is_mantissa(b.subrange(0, p)) && (p == b.len() || is_exponent(
            b.subrange(p, b.len() as int),
        ))
}

pub open spec fn ascii_lower(c: u8) -> u8 {
    if 65 <= c <= 90 {
        (c + 32) as u8
    } else {
        c
    }
}

pub open spec fn lower_bytes(b: Seq<u8>) -> Seq<u8> {
    b.map_values(|c: u8| ascii_lower(c))
}

/// `inf`, `infinity` or `nan`, in any case.
pub open spec fn is_special_float(b: Seq<u8>) -> bool {
    let l = lower_bytes(b);
    l == seq![105u8, 110, 102] || l == seq![105u8, 110, 102, 105, 110, 105, 116, 121] || l == seq![
        110u8,
        97,
        110,
    ]
}

/// The float syntax of the standard library: an optional sign, then a
/// decimal number or a special value.
pub open spec fn is_float_text(b: Seq<u8>) -> bool {
    let body = if b.len() > 0 && is_sign(b[0]) {
        b.drop_first()
    } else {
        b
    };
    is_decimal_float(body) || is_special_float(body)
}

/// The boolean that a field holds: exactly `true` or `false`.
pub open spec fn boolean_value(b: Seq<u8>) -> Option<bool> {
    if b == seq![116u8, 114, 117, 101] {
        Some(true)
    } else if b == seq![102u8, 97, 108, 115, 101] {
        Some(false)
    } else {
        None
    }
}

/// What a raw field decodes to under a field layout, or `None` where its
/// text is not of the declared type.
pub open spec fn field_value(raw: Seq<u8>, field: FieldModel) -> Option<ValueModel> {
    match field.1 {
        ValueType::String => Some(ValueModel::String(lossy_text(raw))),
        ValueType::Date => Some(ValueModel::Date(lossy_text(raw))),
        ValueType::Integer => match integer_value(raw) {
            Some(v) => Some(ValueModel::Integer(v)),
            None => None,
        },
        ValueType::Float => if is_float_text(raw) {
            Some(ValueModel::Float(lossy_text(raw)))
        } else {
            None
        },
        ValueType::Boolean => match boolean_value(raw) {
            Some(v) => Some(ValueModel::Boolean(v)),
            None => None,
        },
    }
}


/// A run of digits denotes a number that is not negative.
pub proof fn lemma_digits_nonneg(d: Seq<u8>)
    requires
        all_digits(d),
    ensures
        digits_value(d) >= 0,
    decreases d.len(),
{
    if d.len() > 0 {
        lemma_digits_nonneg(d.drop_last());
        assert(is_digit(d[d.len() - 1]));
    }
}

proof fn lemma_digits_step(b: Seq<u8>, s: int, i: int)
    requires
        0 <= s <= i < b.len(),
    ensures
        digits_value(b.subrange(s, i + 1)) == digits_value(b.subrange(s, i)) * 10 + (b[i] - 48),
{
    assert(b.subrange(s, i + 1).drop_last() =~= b.subrange(s, i));
}

/// Reads a signed decimal integer that fits in 64 bits.
pub fn parse_integer(b: &[u8]) -> (r: Option<i64>)
    ensures
        match r {
            Some(v) => integer_value(b@) == Some(v as int),
            None => integer_value(b@) is None,
        },
{
    let n = b.len();
    let start: usize = if n > 0 && (b[0] == 43u8 || b[0] == 45u8) {
        1
    } else {
        0
    };
    if start >= n {
        return None;
    }
    let ghost d = b@.subrange(start as int, n as int);
    assert(start == 1 ==> d =~= b@.drop_first());
    assert(start == 1 ==> is_sign(b@[0]));
    assert(start == 0 ==> d =~= b@);
    // Magnitude of the digits read so far, capped one above 2^63.
    let cap: u64 = 9223372036854775809;
    let mut acc: u64 = 0;
    let mut i: usize = start;
    assert(b@.subrange(start as int, start as int) =~= Seq::<u8>::empty());
    while i < n
        invariant
            start <= i <= n,
            start <= 1,
            n == b@.len(),
            start < n,
            d == b@.subrange(start as int, n as int),
            start == 1 ==> d == b@.drop_first() && is_sign(b@[0]),
            start == 0 ==> d == b@ && !is_sign(b@[0]),
            cap == 9223372036854775809,
            forall|k: int| start <= k < i ==> is_digit(#[trigger] b@[k]),
            acc as int == if digits_value(b@.subrange(start as int, i as int)) < cap {
                digits_value(b@.subrange(start as int, i as int))
            } else {
                cap as int
            },
            digits_value(b@.subrange(start as int, i as int)) >= 0,
        decreases n - i,
    {
        let c = b[i];
        if c < 48u8 || c > 57u8 {
            assert(!is_digit(d[i - start]));
            assert(!all_digits(d));
            assert(!is_signed_digits(b@));
            assert(integer_text(b@) is None);
            return None;
        }
        proof {
            lemma_digits_step(b@, start as int, i as int);
        }
        let ghost v = digits_value(b@.subrange(start as int, i as int));
        let t: u128 = acc as u128 * 10 + (c - 48u8) as u128;
        proof {
            if v >= cap {
                assert(v * 10 >= v) by (nonlinear_arith)
                    requires
                        v >= 0,
                ;
            }
        }
        acc = if t >= cap as u128 {
            cap
        } else {
            t as u64
        };
        i = i + 1;
    }
    assert(b@.subrange(start as int, n as int) == d);
    assert(all_digits(d)) by {
        assert forall|k: int| 0 <= k < d.len() implies is_digit(#[trigger] d[k]) by {
            assert(d[k] == b@[start + k]);
        }
    }
    if b[0] == 45u8 {
        if acc <= 9223372036854775808 {
            if acc == 9223372036854775808 {
                Some(-9223372036854775807i64 - 1)
            } else {
                Some(-(acc as i64))
            }
        } else {
            None
        }
    } else if acc <= 9223372036854775807 {
        Some(acc as i64)
    } else {
        None
    }
}

/// Whether `b` is exactly `true` or `false`, and which.
pub fn parse_boolean(b: &[u8]) -> (r: Option<bool>)
    ensures
        r == boolean_value(b@),
{
    if b.len() == 4 && b[0] == 116u8 && b[1] == 114u8 && b[2] == 117u8 && b[3] == 101u8 {
        assert(b@ =~= seq![116u8, 114, 117, 101]);
        Some(true)
    } else if b.len() == 5 && b[0] == 102u8 && b[1] == 97u8 && b[2] == 108u8 && b[3] == 115u8
        && b[4] == 101u8 {
        assert(b@ =~= seq![102u8, 97, 108, 115, 101]);
        Some(false)
    } else {
        proof {
            if b@ == seq![116u8, 114, 117, 101] {
                assert(b@[3] == 101u8);
            }
            if b@ == seq![102u8, 97, 108, 115, 101] {
                assert(b@[4] == 101u8);
            }
        }
        None
    }
}

pub(crate) fn check_digits(b: &[u8]) -> (r: bool)
    ensures
        r == all_digits(b@),
{
    let n = b.len();
    let mut i: usize = 0;
    while i < n
        invariant
            i <= n,
            n == b@.len(),
            forall|k: int| 0 <= k < i ==> is_digit(#[trigger] b@[k]),
        decreases n - i,
    {
        if b[i] < 48u8 || b[i] > 57u8 {
            return false;
        }
        i = i + 1;
    }
    true
}

fn check_signed_digits(b: &[u8]) -> (r: bool)
    ensures
        r == is_signed_digits(b@),
{
    if b.len() > 0 && (b[0] == 43u8 || b[0] == 45u8) {
        let rest = &b[1..b.len()];
        assert(rest@ =~= b@.drop_first());
        b.len() > 1 && check_digits(rest)
    } else {
        b.len() > 0 && check_digits(b)
    }
}

/// The index of the first byte of `b` equal to `x` or `y`, or the length.
fn first_of(b: &[u8], x: u8, y: u8) -> (r: usize)
    ensures
        r <= b@.len(),
        r < b@.len() ==> b@[r as int] == x || b@[r as int] == y,
        forall|k: int| 0 <= k < r ==> #[trigger] b@[k] != x && b@[k] != y,
{
    let n = b.len();
    let mut i: usize = 0;
    while i < n
        invariant
            i <= n,
            n == b@.len(),
            forall|k: int| 0 <= k < i ==> #[trigger] b@[k] != x && b@[k] != y,
        decreases n - i,
    {
        if b[i] == x || b[i] == y {
            return i;
        }
        i = i + 1;
    }
    n
}

fn check_mantissa(m: &[u8]) -> (r: bool)
    ensures
        r == is_mantissa(m@),
{
    let n = m.len();
    let q = first_of(m, 46u8, 46u8);
    if q == n {
        proof {
            if exists|q: int| 0 <= q < m@.len() && #[trigger] m@[q] == 46 {
                let w = choose|q: int| 0 <= q < m@.len() && #[trigger] m@[q] == 46;
                assert(m@[w] != 46u8);
            }
        }
        n > 0 && check_digits(m)
    } else {
        let before = &m[0..q];
        let after = &m[q + 1..n];
        let r = n > 1 && check_digits(before) && check_digits(after);
        proof {
            assert(!is_digit(m@[q as int]));
            assert(!all_digits(m@));
            if r {
                assert(m@.subrange(0, q as int) == before@);
                assert(m@.subrange(q + 1, n as int) == after@);
            }
            if is_mantissa(m@) {
                let w = choose|w: int|
                    0 <= w < m@.len() && #[trigger] m@[w] == 46 && all_digits(m@.subrange(0, w))
                        && all_digits(m@.subrange(w + 1, m@.len() as int));
                if w > q {
                    assert(m@.subrange(0, w)[q as int] == m@[q as int]);
                }
                assert(w == q);
            }
        }
        r
    }
}

fn check_decimal_float(b: &[u8]) -> (r: bool)
    ensures
        r == is_decimal_float(b@),
{
    let n = b.len();
    let p = first_of(b, 101u8, 69u8);
    let mant = &b[0..p];
    let exp = &b[p..n];
    let r = check_mantissa(mant) && (p == n || (check_signed_digits(&exp[1..exp.len()])));
    proof {
        assert(exp@ == b@.subrange(p as int, n as int));
        if p < n {
            assert(exp@.drop_first() =~= exp@.subrange(1, exp@.len() as int));
        }
        if r {
            assert(forall|i: int| 0 <= i < p ==> !is_exponent_mark(#[trigger] b@[i]));
        }
        if is_decimal_float(b@) {
            let w = choose|w: int|
                0 <= w <= b@.len() && (forall|i: int|
                    0 <= i < w ==> !is_exponent_mark(#[trigger] b@[i])) && is_mantissa(
                    b@.subrange(0, w),
                ) && (w == b@.len() || is_exponent(b@.subrange(w, b@.len() as int)));
            if w > p {
                assert(!is_exponent_mark(b@[p as int]));
            }
            if w < p {
                assert(b@.subrange(w, b@.len() as int)[0] == b@[w]);
            }
            assert(w == p);
        }
    }
    r
}

/// Whether `b`, lowered, is the word `w`.
fn lower_equals(b: &[u8], w: &[u8]) -> (r: bool)
    ensures
        r == (lower_bytes(b@) == w@),
{
    if b.len() != w.len() {
        proof {
            if lower_bytes(b@) == w@ {
                assert(lower_bytes(b@).len() == b@.len());
            }
        }
        return false;
    }
    let n = b.len();
    let mut i: usize = 0;
    while i < n
        invariant
            i <= n,
            n == b@.len(),
            n == w@.len(),
            forall|k: int| 0 <= k < i ==> ascii_lower(#[trigger] b@[k]) == w@[k],
        decreases n - i,
    {
        let c = b[i];
        let l: u8 = if c >= 65u8 && c <= 90u8 {
            c + 32
        } else {
            c
        };
        if l != w[i] {
            assert(lower_bytes(b@)[i as int] == l);
            return false;
        }
        i = i + 1;
    }
    assert(lower_bytes(b@) =~= w@);
    true
}

fn check_special_float(b: &[u8]) -> (r: bool)
    ensures
        r == is_special_float(b@),
{
    let inf: [u8; 3] = [105u8, 110, 102];
    let infinity: [u8; 8] = [105u8, 110, 102, 105, 110, 105, 116, 121];
    let nan: [u8; 3] = [110u8, 97, 110];
    assert(inf@ =~= seq![105u8, 110, 102]);
    assert(infinity@ =~= seq![105u8, 110, 102, 105, 110, 105, 116, 121]);
    assert(nan@ =~= seq![110u8, 97, 110]);
    lower_equals(b, &inf) || lower_equals(b, &infinity) || lower_equals(b, &nan)
}

/// Whether `b` is in the float syntax of the standard library.
pub fn is_float(b: &[u8]) -> (r: bool)
    ensures
        r == is_float_text(b@),
{
    let body = if b.len() > 0 && (b[0] == 43u8 || b[0] == 45u8) {
        &b[1..b.len()]
    } else {
        b
    };
    assert(b@.len() > 0 && is_sign(b@[0]) ==> body@ =~= b@.drop_first());
    check_decimal_float(body) || check_special_float(body)
}

/// The layout that a field position has, as plain values.
pub open spec fn layout_of(field: Option<&FieldSchema>) -> FieldModel {
    match field {
        Some(f) => f@,
        None => extra_field(),
    }
}

/// Decodes a raw field under its layout; fields beyond the declared ones
/// are text. `None` where the text is not of the declared type.
pub fn parse_raw_field_val(raw: &[u8], field: Option<&FieldSchema>) -> (r: Option<Value>)
    ensures
        match r {
            Some(v) => field_value(raw@, layout_of(field)) == Some(v@),
            None => field_value(raw@, layout_of(field)) is None,
        },
{
    let extra = FieldSchema::extra();
    let layout = match field {
        Some(f) => f,
        None => &extra,
    };
    match layout.typ {
        ValueType::String => Some(Value::String(decode_lossy(raw))),
        ValueType::Date => Some(Value::Date(decode_lossy(raw))),
        ValueType::Integer => match parse_integer(raw) {
            Some(i) => Some(Value::Integer(i)),
            None => None,
        },
        ValueType::Float => if is_float(raw) {
            Some(Value::Float(decode_lossy(raw)))
        } else {
            None
        },
        ValueType::Boolean => match parse_boolean(raw) {
            Some(v) => Some(Value::Boolean(v)),
            None => None,
        },
    }
}

} // verus!
