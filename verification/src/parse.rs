//! The row parser's field-coercion policy: every field of a record is
//! present in the output even when the source field is absent or unparsable.
//! Integer fields default to 0, real fields to "0", text fields to "".
use vstd::prelude::*;
use vstd::string::StrSliceExecFns;

verus! {

// ---------------------------------------------------------------------------
// Decimal digits
// ---------------------------------------------------------------------------

pub open spec fn is_digit(c: char) -> bool {
    48 <= c as u32 && c as u32 <= 57
}

pub open spec fn digit_val(c: char) -> int {
    c as u32 - 48
}

pub open spec fn all_digits(s: Seq<char>) -> bool {
    forall|i: int| 0 <= i < s.len() ==> is_digit(#[trigger] s[i])
}

/// The value of a string of decimal digits, most significant first.
pub open spec fn digits_val(s: Seq<char>) -> int
    decreases s.len(),
{
    if s.len() == 0 {
        0
    } else {
        10 * digits_val(s.drop_last()) + digit_val(s.last())
    }
}

/// An optional leading `+` or `-` removed.
pub open spec fn strip_sign(s: Seq<char>) -> Seq<char> {
    if s.len() > 0 && (s[0] == '+' || s[0] == '-') {
        s.skip(1)
    } else {
        s
    }
}

pub open spec fn sign_of(s: Seq<char>) -> int {
    if s.len() > 0 && s[0] == '-' {
        -1
    } else {
        1
    }
}

/// The texts accepted as integers: an optional sign followed by one or
/// more decimal digits.
pub open spec fn is_int_literal(s: Seq<char>) -> bool {
    strip_sign(s).len() > 0 && all_digits(strip_sign(s))
}

pub open spec fn int_literal_val(s: Seq<char>) -> int {
    sign_of(s) * digits_val(strip_sign(s))
}

pub open spec fn opt_view(v: Option<&str>) -> Option<Seq<char>> {
    match v {
        Option::Some(s) => Option::Some(s@),
        Option::None => Option::None,
    }
}

/// Coercion policy for an integer-typed field: a missing field, a text that
/// is not an integer literal, or a value outside the 32-bit range all
/// silently become 0.
pub open spec fn coerce_int_spec(f: Option<Seq<char>>) -> int {
    match f {
        Option::None => 0,
        Option::Some(s) => if is_int_literal(s) && i32::MIN <= int_literal_val(s)
            && int_literal_val(s) <= i32::MAX {
            int_literal_val(s)
        } else {
            0
        },
    }
}

pub proof fn lemma_digits_val_nonneg(s: Seq<char>)
    requires
        all_digits(s),
    ensures
        digits_val(s) >= 0,
    decreases s.len(),
{
    if s.len() > 0 {
        assert(all_digits(s.drop_last()));
        lemma_digits_val_nonneg(s.drop_last());
    }
}

/// Extending a digit string on the right never decreases its value.
pub proof fn lemma_digits_val_prefix(s: Seq<char>, k: int)
    requires
        all_digits(s),
        0 <= k <= s.len(),
    ensures
        digits_val(s) >= digits_val(s.take(k)),
    decreases s.len() - k,
{
    if k < s.len() {
        lemma_digits_val_prefix(s, k + 1);
        let t = s.take(k + 1);
        assert(t.drop_last() =~= s.take(k));
        assert(all_digits(t));
        lemma_digits_val_nonneg(s.take(k));
        assert(digits_val(t) == 10 * digits_val(s.take(k)) + digit_val(t.last()));
    } else {
        assert(s.take(k) =~= s);
    }
}

/// Parses one digit string, returning its value capped just above the
/// 32-bit range (any capped result is out of range for an `i32` either way).
fn digits_value_capped(s: &str, from: usize, n: usize) -> (r: Option<u64>)
    requires
        from <= n,
        n == s@.len(),
    ensures
        r matches Some(v) ==> n > from && all_digits(s@.skip(from as int)) && v
            == digits_val(s@.skip(from as int)) && v <= 0x8000_0000u64,
        r is None ==> !all_digits(s@.skip(from as int)) || s@.skip(from as int).len() == 0
            || digits_val(s@.skip(from as int)) > 0x8000_0000,
{
    if n == from {
        return None;
    }
    let ghost t = s@.skip(from as int);
    let mut i: usize = from;
    let mut acc: u64 = 0;
    while i < n
        invariant
            from <= i <= n,
            n == s@.len(),
            t == s@.skip(from as int),
            all_digits(t.take(i - from)),
            acc == digits_val(t.take(i - from)),
            acc <= 0x8000_0000u64,
        decreases n - i,
    {
        let c = s.get_char(i);
        let u = c as u32;
        if u < 48 || u > 57 {
            assert(t[i - from] == s@[i as int]);
            assert(!is_digit(t[i - from]));
            assert(!all_digits(t));
            return None;
        }
        let d = (u - 48) as u64;
        let new_acc: u64 = acc * 10 + d;
        proof {
            let p = t.take(i - from);
            let q = t.take(i - from + 1);
            assert(q.drop_last() =~= p);
            assert(q.last() == t[i - from]);
            assert(t[i - from] == s@[i as int]);
            assert(digits_val(q) == 10 * digits_val(p) + digit_val(q.last()));
        }
        if new_acc > 0x8000_0000 {
            proof {
                let q = t.take(i - from + 1);
                if all_digits(t) {
                    lemma_digits_val_prefix(t, i - from + 1);
                    assert(digits_val(t) >= digits_val(q));
                }
            }
            return None;
        }
        acc = new_acc;
        i = i + 1;
    }
    proof {
        assert(t.take(n - from) =~= t);
    }
    Some(acc)
}

/// Parses an integer field as the loader does: a missing or unparsable
/// field becomes 0 rather than an error.
pub fn parse_int(value: Option<&str>) -> (r: i32)
    ensures
        r as int == coerce_int_spec(opt_view(value)),
{
    match value {
        Option::None => 0,
        Option::Some(s) => parse_int_str(s),
    }
}

fn parse_int_str(s: &str) -> (r: i32)
    ensures
        r as int == coerce_int_spec(Some(s@)),
{
    let n = s.unicode_len();
    if n == 0 {
        return 0;
    }
    let c0 = s.get_char(0);
    let neg = c0 == '-';
    let has_sign = neg || c0 == '+';
    let start: usize = if has_sign {
        1
    } else {
        0
    };
    proof {
        if has_sign {
            assert(strip_sign(s@) == s@.skip(1));
        } else {
            assert(s@.skip(0) =~= s@);
            assert(strip_sign(s@) == s@.skip(0));
        }
    }
    match digits_value_capped(s, start, n) {
        Option::None => {
            proof {
                let t = strip_sign(s@);
                if is_int_literal(s@) {
                    lemma_digits_val_nonneg(t);
                    assert(digits_val(t) > 0x8000_0000);
                    if sign_of(s@) == 1 {
                        assert(int_literal_val(s@) > i32::MAX);
                    } else {
                        assert(int_literal_val(s@) < i32::MIN);
                    }
                }
            }
            0
        },
        Option::Some(v) => {
            proof {
                assert(is_int_literal(s@));
                lemma_digits_val_nonneg(strip_sign(s@));
            }
            if neg {
                if v == 0x8000_0000 {
                    i32::MIN
                } else {
                    proof {
                        assert(int_literal_val(s@) == -(v as int));
                    }
                    -(v as i32)
                }
            } else {
                if v > 0x7FFF_FFFF {
                    proof {
                        assert(int_literal_val(s@) > i32::MAX);
                    }
                    0
                } else {
                    v as i32
                }
            }
        },
    }
}

// ---------------------------------------------------------------------------
// Real-typed fields
// ---------------------------------------------------------------------------
// A real field keeps its source text when that text is a real literal and
// falls back to "0" otherwise; the store binds the text to a REAL column.

/// Case-insensitive match of one character.
pub open spec fn ci(c: char, l: char, u: char) -> bool {
    c == l || c == u
}

pub open spec fn is_inf_kw(s: Seq<char>) -> bool {
    s.len() == 3 && ci(s[0], 'i', 'I') && ci(s[1], 'n', 'N') && ci(s[2], 'f', 'F')
}

pub open spec fn is_infinity_kw(s: Seq<char>) -> bool {
    s.len() == 8 && ci(s[0], 'i', 'I') && ci(s[1], 'n', 'N') && ci(s[2], 'f', 'F') && ci(
        s[3],
        'i',
        'I',
    ) && ci(s[4], 'n', 'N') && ci(s[5], 'i', 'I') && ci(s[6], 't', 'T') && ci(s[7], 'y', 'Y')
}

pub open spec fn is_nan_kw(s: Seq<char>) -> bool {
    s.len() == 3 && ci(s[0], 'n', 'N') && ci(s[1], 'a', 'A') && ci(s[2], 'n', 'N')
}

/// Digits with at most one decimal point and at least one digit.
pub open spec fn is_mantissa(s: Seq<char>) -> bool {
    (s.len() > 0 && all_digits(s)) || (s.len() > 1 && exists|k: int|
        0 <= k < s.len() && #[trigger] s[k] == '.' && all_digits(s.take(k)) && all_digits(
            s.skip(k + 1),
        ))
}

/// The grammar of real literals, after the optional leading sign:
/// one of the keywords `inf`, `infinity`, `nan` (in any case), or a
/// mantissa with an optional exponent part.
pub open spec fn is_number(s: Seq<char>) -> bool {
    is_mantissa(s) || (exists|k: int|
        0 <= k < s.len() && (#[trigger] s[k] == 'e' || s[k] == 'E') && is_mantissa(s.take(k))
            && is_int_literal(s.skip(k + 1)))
}

pub open spec fn is_real_literal(s: Seq<char>) -> bool {
    is_inf_kw(strip_sign(s)) || is_infinity_kw(strip_sign(s)) || is_nan_kw(strip_sign(s))
        || is_number(strip_sign(s))
}

/// The text a real-typed field is loaded as: its own text when that text is
/// a real literal, the default "0" when the field is missing or unparsable.
pub open spec fn coerce_real_spec(f: Option<Seq<char>>) -> Seq<char> {
    match f {
        Option::None => seq!['0'],
        Option::Some(s) => if is_real_literal(s) {
            s
        } else {
            seq!['0']
        },
    }
}

proof fn lemma_mantissa_has_no_exp_char(s: Seq<char>, j: int)
    requires
        is_mantissa(s),
        0 <= j < s.len(),
    ensures
        s[j] != 'e' && s[j] != 'E' && s[j] != '+' && s[j] != '-',
{
    if s.len() > 0 && all_digits(s) {
        assert(is_digit(s[j]));
    } else {
        let k = choose|k: int|
            0 <= k < s.len() && #[trigger] s[k] == '.' && all_digits(s.take(k)) && all_digits(
                s.skip(k + 1),
            );
        if j < k {
            assert(is_digit(s.take(k)[j]));
        } else if j > k {
            assert(is_digit(s.skip(k + 1)[j - k - 1]));
        }
    }
}

fn all_digits_str(s: &str) -> (b: bool)
    ensures
        b == all_digits(s@),
{
    let n = s.unicode_len();
    let mut i: usize = 0;
    while i < n
        invariant
            0 <= i <= n,
            n == s@.len(),
            forall|j: int| 0 <= j < i ==> is_digit(#[trigger] s@[j]),
        decreases n - i,
    {
        let u = s.get_char(i) as u32;
        if u < 48 || u > 57 {
            assert(!is_digit(s@[i as int]));
            return false;
        }
        i = i + 1;
    }
    true
}

/// Strips an optional leading sign, returning the rest of the text.
fn strip_sign_str<'a>(s: &'a str) -> (t: &'a str)
    ensures
        t@ == strip_sign(s@),
{
    let n = s.unicode_len();
    if n > 0 {
        let c = s.get_char(0);
        if c == '+' || c == '-' {
            let t = s.substring_char(1, n);
            proof {
                assert(t@ =~= s@.skip(1));
            }
            return t;
        }
    }
    proof {
        assert(s@.skip(0) =~= s@);
    }
    s
}

fn is_int_lit_str(s: &str) -> (b: bool)
    ensures
        b == is_int_literal(s@),
{
    let t = strip_sign_str(s);
    if t.unicode_len() == 0 {
        return false;
    }
    all_digits_str(t)
}

/// Finds the first position holding one of two characters, if any.
fn find_first(s: &str, a: char, b: char) -> (r: Option<usize>)
    ensures
        r matches Some(k) ==> k < s@.len() && (s@[k as int] == a || s@[k as int] == b) && forall|
            j: int,
        | 0 <= j < k ==> s@[j] != a && s@[j] != b,
        r is None ==> forall|j: int| 0 <= j < s@.len() ==> s@[j] != a && s@[j] != b,
{
    let n = s.unicode_len();
    let mut i: usize = 0;
    while i < n
        invariant
            0 <= i <= n,
            n == s@.len(),
            forall|j: int| 0 <= j < i ==> s@[j] != a && s@[j] != b,
        decreases n - i,
    {
        let c = s.get_char(i);
        if c == a || c == b {
            return Some(i);
        }
        i = i + 1;
    }
    None
}

fn is_mantissa_str(s: &str) -> (b: bool)
    ensures
        b == is_mantissa(s@),
{
    let n = s.unicode_len();
    match find_first(s, '.', '.') {
        Option::None => {
            if n == 0 {
                return false;
            }
            all_digits_str(s)
        },
        Option::Some(k) => {
            if n <= 1 {
                proof {
                    if is_mantissa(s@) {
                        assert(s@[k as int] == '.');
                        assert(!all_digits(s@));
                    }
                }
                return false;
            }
            let left = s.substring_char(0, k);
            let right = s.substring_char(k + 1, n);
            proof {
                assert(left@ =~= s@.take(k as int));
                assert(right@ =~= s@.skip(k as int + 1));
            }
            let b = all_digits_str(left) && all_digits_str(right);
            proof {
                assert(!all_digits(s@));
                if !b && is_mantissa(s@) {
                    let k2 = choose|k2: int|
                        0 <= k2 < s@.len() && #[trigger] s@[k2] == '.' && all_digits(
                            s@.take(k2),
                        ) && all_digits(s@.skip(k2 + 1));
                    if k2 > k {
                        assert(s@.take(k2)[k as int] == '.');
                        assert(!is_digit('.'));
                    }
                    assert(k2 == k);
                }
            }
            b
        },
    }
}

fn is_number_str(s: &str) -> (b: bool)
    ensures
        b == is_number(s@),
{
    let n = s.unicode_len();
    match find_first(s, 'e', 'E') {
        Option::None => {
            let b = is_mantissa_str(s);
            proof {
                if !b && is_number(s@) {
                    let k = choose|k: int|
                        0 <= k < s@.len() && (#[trigger] s@[k] == 'e' || s@[k] == 'E')
                            && is_mantissa(s@.take(k)) && is_int_literal(s@.skip(k + 1));
                    assert(false);
                }
            }
            b
        },
        Option::Some(k) => {
            let left = s.substring_char(0, k);
            let right = s.substring_char(k + 1, n);
            proof {
                assert(left@ =~= s@.take(k as int));
                assert(right@ =~= s@.skip(k as int + 1));
            }
            let b = is_mantissa_str(left) && is_int_lit_str(right);
            proof {
                if is_mantissa(s@) {
                    lemma_mantissa_has_no_exp_char(s@, k as int);
                }
                if !b && is_number(s@) {
                    let k2 = choose|k2: int|
                        0 <= k2 < s@.len() && (#[trigger] s@[k2] == 'e' || s@[k2] == 'E')
                            && is_mantissa(s@.take(k2)) && is_int_literal(s@.skip(k2 + 1));
                    if k2 > k {
                        lemma_mantissa_has_no_exp_char(s@.take(k2), k as int);
                    }
                    assert(k2 == k);
                }
                if b {
                    assert(is_number(s@));
                }
            }
            b
        },
    }
}

/// Case-insensitive comparison against an all-lower-case ASCII word.
fn eq_ci(s: &str, w: &Vec<char>) -> (b: bool)
    ensures
        b == (s@.len() == w@.len() && forall|j: int|
            0 <= j < s@.len() ==> ci(#[trigger] s@[j], w@[j], upper_of(w@[j]))),
{
    let n = s.unicode_len();
    if n != w.len() {
        return false;
    }
    let mut i: usize = 0;
    while i < n
        invariant
            0 <= i <= n,
            n == s@.len() == w@.len(),
            forall|j: int| 0 <= j < i ==> ci(#[trigger] s@[j], w@[j], upper_of(w@[j])),
        decreases n - i,
    {
        let c = s.get_char(i);
        let l = w[i];
        let u = upper_of_exec(l);
        if c != l && c != u {
            assert(!ci(s@[i as int], w@[i as int], upper_of(w@[i as int])));
            return false;
        }
        i = i + 1;
    }
    true
}

pub open spec fn upper_of(c: char) -> char {
    if c == 'i' {
        'I'
    } else if c == 'n' {
        'N'
    } else if c == 'f' {
        'F'
    } else if c == 'a' {
        'A'
    } else if c == 't' {
        'T'
    } else if c == 'y' {
        'Y'
    } else {
        c
    }
}

fn upper_of_exec(c: char) -> (u: char)
    ensures
        u == upper_of(c),
{
    if c == 'i' {
        'I'
    } else if c == 'n' {
        'N'
    } else if c == 'f' {
        'F'
    } else if c == 'a' {
        'A'
    } else if c == 't' {
        'T'
    } else if c == 'y' {
        'Y'
    } else {
        c
    }
}

/// Decides whether a text is a real literal: what `coerce_real` keeps.
pub fn is_real_lit(s: &str) -> (b: bool)
    ensures
        b == is_real_literal(s@),
{
    let t = strip_sign_str(s);
    let inf_w: Vec<char> = vec!['i', 'n', 'f'];
    let infinity_w: Vec<char> = vec!['i', 'n', 'f', 'i', 'n', 'i', 't', 'y'];
    let nan_w: Vec<char> = vec!['n', 'a', 'n'];
    if eq_ci(t, &inf_w) {
        assert(is_inf_kw(t@));
        return true;
    }
    if eq_ci(t, &infinity_w) {
        assert(is_infinity_kw(t@));
        return true;
    }
    if eq_ci(t, &nan_w) {
        assert(is_nan_kw(t@));
        return true;
    }
    proof {
        assert(!is_inf_kw(t@));
        assert(!is_infinity_kw(t@));
        assert(!is_nan_kw(t@));
    }
    is_number_str(t)
}

fn default_real_text() -> (r: String)
    ensures
        r@ == seq!['0'],
{
    let s = "0";
    proof {
        reveal_strlit("0");
        assert(s@ =~= seq!['0']);
    }
    s.to_owned()
}

/// Coerces a real-typed field: its text survives when it is a real literal,
/// otherwise the field silently becomes the default "0".
pub fn coerce_real(value: Option<&str>) -> (r: String)
    ensures
        r@ == coerce_real_spec(opt_view(value)),
{
    match value {
        Option::None => default_real_text(),
        Option::Some(s) => {
            if is_real_lit(s) {
                s.to_owned()
            } else {
                default_real_text()
            }
        },
    }
}

// ---------------------------------------------------------------------------
// Text fields
// ---------------------------------------------------------------------------

/// Coercion policy for a text field: a missing field becomes the empty string.
pub open spec fn coerce_text_spec(f: Option<Seq<char>>) -> Seq<char> {
    match f {
        Option::None => Seq::empty(),
        Option::Some(s) => s,
    }
}

pub fn coerce_text(value: Option<&str>) -> (r: String)
    ensures
        r@ == coerce_text_spec(opt_view(value)),
{
    match value {
        Option::None => {
            let r = String::new();
            proof {
                assert(r@ =~= coerce_text_spec(Option::None));
            }
            r
        },
        Option::Some(s) => s.to_owned(),
    }
}

} // verus!
