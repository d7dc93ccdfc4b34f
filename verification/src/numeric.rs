//! Admission of measurement text.
//!
//! Upstream measurements arrive as strings. A field is admitted verbatim when
//! its text is numeric — the textual forms a floating-point reader accepts: an
//! optional sign, then either digits with at most one decimal point and an
//! optional exponent, or one of the special words `inf`, `infinity`, `nan` in
//! any letter case. A field whose text is not numeric is replaced by the `"0"`
//! sentinel rather than rejecting the whole row.

use vstd::prelude::*;
use vstd::string::StrSliceExecFns;
use vstd::string::StringExecFns;

verus! {

/// `c` is one of the ten decimal digit characters.
pub open spec fn is_ascii_digit(c: char) -> bool {
    48 <= c as int <= 57
}

/// The numeric value of a decimal digit character.
pub open spec fn digit_val(c: char) -> int {
    c as int - 48
}

/// `c` is the letter `lo` or its upper-case form `up`.
pub open spec fn is_letter_ci(c: char, lo: char, up: char) -> bool {
    c == lo || c == up
}

/// The text with one leading `+` or `-` removed, if there is one.
pub open spec fn strip_sign(s: Seq<char>) -> Seq<char> {
    if s.len() > 0 && (s[0] == '+' || s[0] == '-') {
        s.drop_first()
    } else {
        s
    }
}

/// One of the special words a floating-point reader accepts, in any letter
/// case: `inf`, `infinity` or `nan`.
pub open spec fn is_special_text(t: Seq<char>) -> bool {
    ||| (t.len() == 3 && is_letter_ci(t[0], 'i', 'I') && is_letter_ci(t[1], 'n', 'N')
        && is_letter_ci(t[2], 'f', 'F'))
    ||| (t.len() == 8 && is_letter_ci(t[0], 'i', 'I') && is_letter_ci(t[1], 'n', 'N')
        && is_letter_ci(t[2], 'f', 'F') && is_letter_ci(t[3], 'i', 'I')
        && is_letter_ci(t[4], 'n', 'N') && is_letter_ci(t[5], 'i', 'I')
        && is_letter_ci(t[6], 't', 'T') && is_letter_ci(t[7], 'y', 'Y'))
    ||| (t.len() == 3 && is_letter_ci(t[0], 'n', 'N') && is_letter_ci(t[1], 'a', 'A')
        && is_letter_ci(t[2], 'n', 'N'))
}

/// A mantissa: digits with at most one decimal point among them, and at least
/// one digit.
pub open spec fn is_mantissa(m: Seq<char>) -> bool {
    &&& forall|i: int| 0 <= i < m.len() ==> is_ascii_digit(#[trigger] m[i]) || m[i] == '.'
    &&& exists|i: int| 0 <= i < m.len() && is_ascii_digit(#[trigger] m[i])
    &&& forall|i: int, j: int| 0 <= i < j < m.len() ==> !(#[trigger] m[i] == '.' && #[trigger] m[j]
        == '.')
}

/// An exponent tail (what follows the `e`): an optional sign, then at least
/// one digit and nothing else.
pub open spec fn is_exp_tail(u: Seq<char>) -> bool {
    let v = strip_sign(u);
    &&& v.len() > 0
    &&& forall|i: int| 0 <= i < v.len() ==> is_ascii_digit(#[trigger] v[i])
}

/// The index of the first exponent marker `e` or `E`, or the length of the
/// text when there is none.
pub open spec fn exp_index(t: Seq<char>) -> int
    decreases t.len(),
{
    if t.len() == 0 {
        0
    } else if t[0] == 'e' || t[0] == 'E' {
        0
    } else {
        1 + exp_index(t.drop_first())
    }
}

/// A number: a mantissa, optionally followed by an exponent marker and an
/// exponent tail.
pub open spec fn is_number_text(t: Seq<char>) -> bool {
    let p = exp_index(t);
    &&& is_mantissa(t.subrange(0, p))
    &&& (p == t.len() || is_exp_tail(t.subrange(p + 1, t.len() as int)))
}

/// Numeric text: an optional sign, then a special word or a number.
pub open spec fn is_numeric_text(s: Seq<char>) -> bool {
    let t = strip_sign(s);
    is_special_text(t) || is_number_text(t)
}

/// The `"0"` sentinel that stands in for a malformed measurement.
pub open spec fn zero_text() -> Seq<char> {
    seq!['0']
}

/// What a measurement field is normalized to: its own text when that text is
/// numeric, the `"0"` sentinel otherwise.
pub open spec fn sanitized(s: Seq<char>) -> Seq<char> {
    if is_numeric_text(s) {
        s
    } else {
        zero_text()
    }
}

/// The sentinel itself is numeric text, so every normalized measurement is.
pub broadcast proof fn lemma_zero_text_numeric()
    ensures
        #[trigger] is_numeric_text(zero_text()),
{
    let t = zero_text();
    assert(strip_sign(t) == t);
    reveal_with_fuel(exp_index, 2);
    assert(t.drop_first() =~= Seq::<char>::empty());
    assert(exp_index(t) == 1);
    assert(t.subrange(0, 1) =~= t);
    assert(is_ascii_digit(t[0]));
    assert(is_mantissa(t));
}

/// Every sanitized measurement is numeric text.
pub broadcast proof fn lemma_sanitized_numeric(s: Seq<char>)
    ensures
        is_numeric_text(#[trigger] sanitized(s)),
{
    broadcast use lemma_zero_text_numeric;

}

/// The position and content facts that characterize [`exp_index`]: no
/// exponent marker stands before it, and one stands at it unless it is the
/// length of the text.
pub proof fn lemma_exp_index_facts(t: Seq<char>)
    ensures
        0 <= exp_index(t) <= t.len(),
        forall|k: int| 0 <= k < exp_index(t) ==> !(#[trigger] t[k] == 'e' || t[k] == 'E'),
        exp_index(t) < t.len() ==> (t[exp_index(t)] == 'e' || t[exp_index(t)] == 'E'),
    decreases t.len(),
{
    if t.len() == 0 {
    } else if t[0] == 'e' || t[0] == 'E' {
    } else {
        lemma_exp_index_facts(t.drop_first());
        assert forall|k: int| 0 <= k < exp_index(t) implies !(#[trigger] t[k] == 'e' || t[k]
            == 'E') by {
            if k > 0 {
                assert(t.drop_first()[k - 1] == t[k]);
            }
        }
    }
}

/// Decides whether one character is the exponent marker `e` or `E`.
fn is_exp_marker_at(s: &str, i: usize) -> (b: bool)
    requires
        i < s@.len(),
    ensures
        b == (s@[i as int] == 'e' || s@[i as int] == 'E'),
{
    let c = s.get_char(i);
    c == 'e' || c == 'E'
}

/// Decides whether the text from `start` on is one of the special words.
fn check_special(s: &str, start: usize) -> (b: bool)
    requires
        start <= s@.len(),
    ensures
        b == is_special_text(s@.subrange(start as int, s@.len() as int)),
{
    let ghost t = s@.subrange(start as int, s@.len() as int);
    let n = s.unicode_len();
    let m = n - start;
    if m == 3 {
        let c0 = s.get_char(start);
        let c1 = s.get_char(start + 1);
        let c2 = s.get_char(start + 2);
        proof {
            assert(t[0] == c0 && t[1] == c1 && t[2] == c2);
        }
        ((c0 == 'i' || c0 == 'I') && (c1 == 'n' || c1 == 'N') && (c2 == 'f' || c2 == 'F')) || ((c0
            == 'n' || c0 == 'N') && (c1 == 'a' || c1 == 'A') && (c2 == 'n' || c2 == 'N'))
    } else if m == 8 {
        let c0 = s.get_char(start);
        let c1 = s.get_char(start + 1);
        let c2 = s.get_char(start + 2);
        let c3 = s.get_char(start + 3);
        let c4 = s.get_char(start + 4);
        let c5 = s.get_char(start + 5);
        let c6 = s.get_char(start + 6);
        let c7 = s.get_char(start + 7);
        proof {
            assert(t[0] == c0 && t[1] == c1 && t[2] == c2 && t[3] == c3 && t[4] == c4 && t[5] == c5
                && t[6] == c6 && t[7] == c7);
        }
        (c0 == 'i' || c0 == 'I') && (c1 == 'n' || c1 == 'N') && (c2 == 'f' || c2 == 'F') && (c3
            == 'i' || c3 == 'I') && (c4 == 'n' || c4 == 'N') && (c5 == 'i' || c5 == 'I') && (c6
            == 't' || c6 == 'T') && (c7 == 'y' || c7 == 'Y')
    } else {
        false
    }
}

/// Decides whether the text from `start` on is a number: mantissa, then an
/// optional exponent.
fn check_number(s: &str, start: usize) -> (b: bool)
    requires
        start <= s@.len(),
    ensures
        b == is_number_text(s@.subrange(start as int, s@.len() as int)),
{
    let ghost t = s@.subrange(start as int, s@.len() as int);
    let n = s.unicode_len();
    let mut p: usize = start;
    while p < n && !is_exp_marker_at(s, p)
        invariant
            start <= p <= n,
            n == s@.len(),
            start <= s@.len(),
            forall|k: int| start <= k < p ==> !(#[trigger] s@[k] == 'e' || s@[k] == 'E'),
        decreases n - p,
    {
        p += 1;
    }
    proof {
        assert forall|k: int| 0 <= k < p - start implies !(#[trigger] t[k] == 'e' || t[k]
            == 'E') by {
            assert(t[k] == s@[start + k]);
        }
        if p < n {
            assert(t[p - start] == s@[p as int]);
        }
        lemma_exp_index_found(t, p - start);
    }
    // Mantissa scan over [start, p).
    let mut i: usize = start;
    let mut all_ok = true;
    let mut seen_digit = false;
    let mut seen_dot = false;
    let mut two_dots = false;
    while i < p
        invariant
            start <= i <= p <= n,
            n == s@.len(),
            all_ok == (forall|k: int|
                start <= k < i ==> is_ascii_digit(#[trigger] s@[k]) || s@[k] == '.'),
            seen_digit == (exists|k: int| start <= k < i && is_ascii_digit(#[trigger] s@[k])),
            seen_dot == (exists|k: int| start <= k < i && #[trigger] s@[k] == '.'),
            two_dots == (exists|k: int, l: int|
                start <= k < l < i && #[trigger] s@[k] == '.' && #[trigger] s@[l] == '.'),
        decreases p - i,
    {
        let c = s.get_char(i);
        let u = c as u32;
        if 48 <= u && u <= 57 {
            seen_digit = true;
        } else if c == '.' {
            if seen_dot {
                two_dots = true;
            }
            seen_dot = true;
        } else {
            all_ok = false;
        }
        i += 1;
    }
    let mantissa_ok = all_ok && seen_digit && !two_dots;
    let ghost msub = t.subrange(0, p - start);
    proof {
        assert(msub.len() == p - start);
        if mantissa_ok {
            let kd = choose|k: int| start <= k < p && is_ascii_digit(#[trigger] s@[k]);
            assert(is_ascii_digit(msub[kd - start]));
            assert forall|k: int| 0 <= k < msub.len() implies is_ascii_digit(#[trigger] msub[k])
                || msub[k] == '.' by {
                assert(msub[k] == s@[start + k]);
            }
            assert forall|k: int, l: int| 0 <= k < l < msub.len() implies !(#[trigger] msub[k]
                == '.' && #[trigger] msub[l] == '.') by {
                if msub[k] == '.' && msub[l] == '.' {
                    assert(s@[start + k] == '.' && s@[start + l] == '.');
                }
            }
            assert(is_mantissa(msub));
        }
        if is_mantissa(msub) {
            assert forall|k: int| start <= k < p implies is_ascii_digit(#[trigger] s@[k]) || s@[k]
                == '.' by {
                assert(msub[k - start] == s@[k]);
            }
            let kd = choose|k: int| 0 <= k < msub.len() && is_ascii_digit(#[trigger] msub[k]);
            assert(is_ascii_digit(s@[start + kd]));
            if two_dots {
                let (k, l) = choose|k: int, l: int|
                    start <= k < l < p && #[trigger] s@[k] == '.' && #[trigger] s@[l] == '.';
                assert(msub[k - start] == '.' && msub[l - start] == '.');
                assert(false);
            }
            assert(mantissa_ok);
        }
    }
    if !mantissa_ok {
        return false;
    }
    if p == n {
        return true;
    }
    // Exponent tail over [p + 1, n).
    let q0 = p + 1;
    let ghost tail = t.subrange(p - start + 1, t.len() as int);
    proof {
        assert forall|k: int| 0 <= k < tail.len() implies #[trigger] tail[k] == s@[q0 + k] by {}
    }
    let qs: usize = if q0 < n {
        let c = s.get_char(q0);
        if c == '+' || c == '-' {
            q0 + 1
        } else {
            q0
        }
    } else {
        q0
    };
    let ghost v = strip_sign(tail);
    proof {
        assert(v =~= t.subrange(qs as int - start as int, t.len() as int));
        assert forall|k: int| 0 <= k < v.len() implies #[trigger] v[k] == s@[qs + k] by {}
    }
    if qs >= n {
        proof {
            assert(v.len() == 0);
        }
        return false;
    }
    let mut j: usize = qs;
    let mut digits_ok = true;
    while j < n
        invariant
            qs <= j <= n,
            n == s@.len(),
            digits_ok == (forall|k: int| qs <= k < j ==> is_ascii_digit(#[trigger] s@[k])),
        decreases n - j,
    {
        let c = s.get_char(j);
        let u = c as u32;
        if !(48 <= u && u <= 57) {
            digits_ok = false;
        }
        j += 1;
    }
    proof {
        if digits_ok {
            assert forall|k: int| 0 <= k < v.len() implies is_ascii_digit(#[trigger] v[k]) by {
                assert(v[k] == s@[qs + k]);
            }
            assert(is_exp_tail(tail));
        }
        if is_exp_tail(tail) {
            assert forall|k: int| qs <= k < n implies is_ascii_digit(#[trigger] s@[k]) by {
                assert(v[k - qs] == s@[k]);
            }
            assert(digits_ok);
        }
    }
    digits_ok
}

/// Decides whether a measurement string is numeric text.
pub fn check_numeric_text(s: &str) -> (b: bool)
    ensures
        b == is_numeric_text(s@),
{
    let n = s.unicode_len();
    let start: usize = if n > 0 {
        let c0 = s.get_char(0);
        if c0 == '+' || c0 == '-' {
            1
        } else {
            0
        }
    } else {
        0
    };
    let ghost t = strip_sign(s@);
    proof {
        assert(t =~= s@.subrange(start as int, s@.len() as int));
    }
    if check_special(s, start) {
        true
    } else {
        check_number(s, start)
    }
}

/// Normalizes one measurement field: the text itself when it is numeric, the
/// `"0"` sentinel otherwise.
pub fn sanitize_measurement(s: &str) -> (r: String)
    ensures
        r@ == sanitized(s@),
{
    if check_numeric_text(s) {
        String::from_str(s)
    } else {
        let z = String::from_str("0");
        proof {
            reveal_strlit("0");
            assert(z@ =~= zero_text());
        }
        z
    }
}

/// A scan that saw no exponent marker before `i`, and one at `i` (or ran off
/// the end), has found [`exp_index`].
pub proof fn lemma_exp_index_found(t: Seq<char>, i: int)
    requires
        0 <= i <= t.len(),
        forall|k: int| 0 <= k < i ==> !(#[trigger] t[k] == 'e' || t[k] == 'E'),
        i < t.len() ==> (t[i] == 'e' || t[i] == 'E'),
    ensures
        exp_index(t) == i,
{
    lemma_exp_index_facts(t);
    let p = exp_index(t);
    if p < i {
        assert(t[p] == 'e' || t[p] == 'E');
    } else if i < p {
        assert(t[i] == 'e' || t[i] == 'E');
    }
}

} // verus!
