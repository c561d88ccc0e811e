use vstd::prelude::*;
use vstd::string::StrSliceExecFns;
use crate::config::{JTypeV, JsonType};
use crate::strings::{str_eq, trim_str, trimmed};
use crate::value::{JVal, JsonValue};

verus! {

pub open spec fn is_digit(c: char) -> bool {
    '0' <= c && c <= '9'
}

pub open spec fn digit_val(c: char) -> int {
    c as int - 48
}

/// The number denoted by a sequence of decimal digits, most significant
/// first.
pub open spec fn digits_val(s: Seq<char>) -> int
    decreases s.len(),
{
    if s.len() == 0 {
        0
    } else {
        10 * digits_val(s.drop_last()) + digit_val(s.last())
    }
}

pub open spec fn all_digits(s: Seq<char>) -> bool {
    forall|i: int| 0 <= i < s.len() ==> is_digit(s[i])
}

/// The digits of an unsigned decimal literal: a single leading `+` sign is
/// not part of them.
pub open spec fn u64_digits_part(s: Seq<char>) -> Seq<char> {
    if s.len() > 0 && s[0] == '+' {
        s.drop_first()
    } else {
        s
    }
}

/// Whether the text is a valid `u64` literal: an optional `+` sign, then one
/// or more decimal digits, denoting a value that fits in 64 bits.
pub open spec fn parses_as_u64(s: Seq<char>) -> bool {
    let d = u64_digits_part(s);
    d.len() > 0 && all_digits(d) && digits_val(d) <= u64::MAX
}

/// The value of a valid `u64` literal.
pub open spec fn u64_value_of(s: Seq<char>) -> int {
    digits_val(u64_digits_part(s))
}

pub proof fn lemma_digits_val_nonneg(s: Seq<char>)
    requires
        all_digits(s),
    ensures
        digits_val(s) >= 0,
    decreases s.len(),
{
    if s.len() > 0 {
        assert(all_digits(s.drop_last()));
        lemma_digits_val_nonneg(s.drop_last());
    }
}

/// A prefix of a digit string denotes at most the value of the whole.
pub proof fn lemma_digits_val_take_le(s: Seq<char>, i: int)
    requires
        all_digits(s),
        0 <= i <= s.len(),
    ensures
        digits_val(s.take(i)) <= digits_val(s),
    decreases s.len() - i,
{
    if i == s.len() {
        assert(s.take(i) =~= s);
    } else {
        lemma_digits_val_take_le(s, i + 1);
        assert(s.take(i + 1).drop_last() =~= s.take(i));
        assert(all_digits(s.take(i)));
        lemma_digits_val_nonneg(s.take(i));
        assert(digits_val(s.take(i + 1)) == 10 * digits_val(s.take(i)) + digit_val(
            s.take(i + 1).last(),
        ));
    }
}

/// Parses an unsigned 64-bit decimal literal: an optional `+` sign, then one
/// or more decimal digits; fails on any other character or on overflow.
pub fn parse_u64_str(s: &str) -> (r: Option<u64>)
    ensures
        match r {
            Some(v) => parses_as_u64(s@) && v as int == u64_value_of(s@),
            None => !parses_as_u64(s@),
        },
{
    let len = s.unicode_len();
    if len == 0 {
        return None;
    }
    let start: usize = if s.get_char(0) == '+' {
        1
    } else {
        0
    };
    if start == len {
        return None;
    }
    let ghost d = u64_digits_part(s@);
    proof {
        assert(d =~= s@.subrange(start as int, len as int));
    }
    let mut i: usize = start;
    let mut v: u64 = 0;
    while i < len
        invariant
            start <= i <= len,
            len == s@.len(),
            start <= 1,
            d == u64_digits_part(s@),
            d =~= s@.subrange(start as int, len as int),
            all_digits(d.take(i - start)),
            v as int == digits_val(d.take(i - start)),
        decreases len - i,
    {
        let c = s.get_char(i);
        if !('0' <= c && c <= '9') {
            proof {
                assert(d[i - start] == c);
                assert(!all_digits(d));
            }
            return None;
        }
        let dv = (c as u32 - 48) as u64;
        proof {
            assert(d.take(i - start + 1).drop_last() =~= d.take(i - start));
            assert(d.take(i - start + 1).last() == d[i - start]);
            assert(d[i - start] == c);
            assert(digits_val(d.take(i - start + 1)) == 10 * (v as int) + dv as int);
        }
        if v > (u64::MAX - dv) / 10 {
            proof {
                assert(10 * (v as int) + dv as int > u64::MAX);
                if all_digits(d) {
                    assert(all_digits(d.take(i - start + 1)));
                    lemma_digits_val_take_le(d, i - start + 1);
                    assert(digits_val(d) > u64::MAX);
                }
            }
            return None;
        }
        proof {
            assert(10 * (v as int) + dv as int <= u64::MAX);
        }
        v = v * 10 + dv;
        i = i + 1;
    }
    proof {
        assert(d.take(i - start) =~= d);
    }
    Some(v)
}

/// Whether the text is the decimal notation of a finite double-precision
/// floating-point number. The outcome is a function of the text alone.
pub uninterp spec fn is_finite_float_text(s: Seq<char>) -> bool;

/// Relies on `str::parse::<f64>` and `serde_json::Number::from_f64`: the
/// text parses as a floating-point number, and that number is finite (not a
/// NaN and not an infinity). Both outcomes depend on the text alone.
#[verifier::external_body]
fn is_finite_float(text: &str) -> (r: bool)
    ensures
        r == is_finite_float_text(text@),
{
    text.parse().ok().and_then(serde_json::Number::from_f64).is_some()
}

/// A float literal whose leading `0` is not immediately followed by `.`,
/// kept as a string to avoid octal-looking output.
pub open spec fn leading_zero_float_text(t: Seq<char>) -> bool {
    t.len() > 0 && t[0] == '0' && !(t.len() > 1 && t[1] == '.')
}

/// The scalar inferred from trimmed text: an unsigned integer if the text is
/// a decimal integer literal (kept as a string under the leading-zero rule),
/// else a finite float (kept as a string when it looks octal), else a
/// boolean for the exact literals `true`/`false`, else the text itself.
pub open spec fn infer_scalar(t: Seq<char>, leading_zero_as_string: bool) -> JVal {
    if parses_as_u64(t) {
        if leading_zero_as_string && t.len() > 0 && t[0] == '0' && (u64_value_of(t) != 0
            || t.len() > 1) {
            JVal::Str(t)
        } else {
            JVal::UInt(u64_value_of(t) as u64)
        }
    } else if is_finite_float_text(t) {
        if leading_zero_float_text(t) {
            JVal::Str(t)
        } else {
            JVal::Float(t)
        }
    } else if t == "true"@ {
        JVal::Bool(true)
    } else if t == "false"@ {
        JVal::Bool(false)
    } else {
        JVal::Str(t)
    }
}

/// The scalar a piece of text converts to under a type rule, after
/// trimming: `AlwaysString` keeps the text, `Bool` compares it against the
/// rule's literals, `Infer` infers the type.
pub open spec fn scalar_of(t: Seq<char>, leading_zero_as_string: bool, rule: JTypeV) -> JVal {
    match rule {
        JTypeV::AlwaysString => JVal::Str(t),
        JTypeV::Bool(lits) => JVal::Bool(lits.contains(t)),
        JTypeV::Infer => infer_scalar(t, leading_zero_as_string),
    }
}

/// Whether any of the literals equals the text.
fn lits_contain(lits: &Vec<&'static str>, t: &str) -> (r: bool)
    ensures
        r == lits.deep_view().contains(t@),
{
    let n = lits.len();
    let mut i: usize = 0;
    while i < n
        invariant
            0 <= i <= n,
            n == lits@.len(),
            forall|j: int| 0 <= j < i ==> lits.deep_view()[j] != t@,
        decreases n - i,
    {
        if str_eq(lits[i], t) {
            proof {
                assert(lits.deep_view()[i as int] == t@);
            }
            return true;
        }
        i = i + 1;
    }
    proof {
        assert forall|j: int| 0 <= j < lits.deep_view().len() implies lits.deep_view()[j] != t@
        by {}
    }
    false
}

/// Converts text into a scalar `JsonValue` according to the type rule: the
/// trimmed text as a string under `AlwaysString`; a boolean under `Bool`,
/// true exactly when the trimmed text is one of the rule's literals; the
/// inferred integer, float, boolean or string otherwise.
pub fn parse_text(text: &str, leading_zero_as_string: bool, json_type: &JsonType) -> (r:
    JsonValue)
    ensures
        r.deep_view() == scalar_of(trimmed(text@), leading_zero_as_string, json_type.deep_view()),
{
    let t = trim_str(text);
    match json_type {
        JsonType::AlwaysString => {
            return JsonValue::Str(t.to_owned());
        },
        JsonType::Bool(lits) => {
            return JsonValue::Bool(lits_contain(lits, t));
        },
        JsonType::Infer => {},
    }
    match parse_u64_str(t) {
        Some(v) => {
            let tlen = t.unicode_len();
            let starts_zero = tlen > 0 && t.get_char(0) == '0';
            if leading_zero_as_string && starts_zero && (v != 0 || tlen > 1) {
                return JsonValue::Str(t.to_owned());
            }
            return JsonValue::UInt(v);
        },
        None => {},
    }
    if is_finite_float(t) {
        let tlen = t.unicode_len();
        let starts_zero = tlen > 0 && t.get_char(0) == '0';
        if starts_zero && !(tlen > 1 && t.get_char(1) == '.') {
            return JsonValue::Str(t.to_owned());
        }
        return JsonValue::Float(t.to_owned());
    }
    if str_eq(t, "true") {
        return JsonValue::Bool(true);
    }
    if str_eq(t, "false") {
        return JsonValue::Bool(false);
    }
    JsonValue::Str(t.to_owned())
}

} // verus!
