use vstd::prelude::*;

verus! {

/// ASCII `{`.
pub const LBRACE: u8 = 123;

/// ASCII `}`.
pub const RBRACE: u8 = 125;

/// ASCII `"`.
pub const QUOTE: u8 = 34;

/// ASCII `,`.
pub const COMMA: u8 = 44;

/// ASCII `:`.
pub const COLON: u8 = 58;

/// ASCII `0`.
pub const DIGIT_LO: u8 = 48;

/// ASCII `9`.
pub const DIGIT_HI: u8 = 57;

/// True of the byte of an ASCII decimal digit.
pub open spec fn is_digit(b: u8) -> bool {
    DIGIT_LO <= b && b <= DIGIT_HI
}

/// The first position at or after `i` that does not hold a digit.
pub open spec fn digits_end(s: Seq<u8>, i: int) -> int
    decreases s.len() - i,
{
    if 0 <= i && i < s.len() && is_digit(s[i]) {
        digits_end(s, i + 1)
    } else {
        i
    }
}

/// The value of the decimal digits `s[i..j]`.
pub open spec fn digits_val(s: Seq<u8>, i: int, j: int) -> int
    decreases j - i,
{
    if i >= j {
        0
    } else {
        digits_val(s, i, j - 1) * 10 + (s[j - 1] - DIGIT_LO)
    }
}

/// Ten to the power `k`.
pub open spec fn pow10(k: int) -> int
    decreases k,
{
    if k <= 0 {
        1
    } else {
        10 * pow10(k - 1)
    }
}

pub proof fn lemma_pow10_pos(k: int)
    ensures
        pow10(k) >= 1,
    decreases k,
{
    if k > 0 {
        lemma_pow10_pos(k - 1);
    }
}

pub proof fn lemma_pow10_mono(a: int, b: int)
    requires
        a <= b,
    ensures
        pow10(a) <= pow10(b),
    decreases b - a,
{
    if a < b {
        lemma_pow10_mono(a, b - 1);
        lemma_pow10_pos(b - 1);
    }
}

/// A run of digits of length `j - i` is worth less than `pow10(j - i)`.
pub proof fn lemma_digits_val_bound(s: Seq<u8>, i: int, j: int)
    requires
        0 <= i <= j <= s.len(),
        forall|k: int| i <= k < j ==> is_digit(#[trigger] s[k]),
    ensures
        0 <= digits_val(s, i, j) < pow10(j - i),
    decreases j - i,
{
    if i < j {
        lemma_digits_val_bound(s, i, j - 1);
    }
}

/// The method string of the one instruction the engine accepts: `copy`
/// (ASCII bytes of `c`, `o`, `p`, `y`).
pub open spec fn copy_method() -> Seq<u8> {
    seq![99u8, 111u8, 112u8, 121u8]
}

/// `s` opens with `{"from":`.
pub open spec fn has_copy_prefix(s: Seq<u8>) -> bool {
    &&& s.len() >= 8
    &&& s[0] == LBRACE
    &&& s[1] == QUOTE
    &&& s[2] == 102u8  // f
    &&& s[3] == 114u8  // r
    &&& s[4] == 111u8  // o
    &&& s[5] == 109u8  // m
    &&& s[6] == QUOTE
    &&& s[7] == COLON
}

/// `s` holds `,"to":` starting at position `i`.
pub open spec fn has_to_separator(s: Seq<u8>, i: int) -> bool {
    &&& 0 <= i
    &&& i + 6 <= s.len()
    &&& s[i] == COMMA
    &&& s[i + 1] == QUOTE
    &&& s[i + 2] == 116u8  // t
    &&& s[i + 3] == 111u8  // o
    &&& s[i + 4] == QUOTE
    &&& s[i + 5] == COLON
}

/// The payload grammar of a `copy` instruction: `{"from":F,"to":T}` where
/// `F` and `T` are runs of one to nine decimal digits.  The result holds
/// the two values, or nothing when `s` is not of that exact shape.
pub open spec fn parse_copy(s: Seq<u8>) -> Option<(int, int)> {
    let fe = digits_end(s, 8);
    let ts = fe + 6;
    let te = digits_end(s, ts);
    if has_copy_prefix(s) && 8 < fe <= 17 && has_to_separator(s, fe) && ts < te <= ts + 9 && te
        + 1 == s.len() && s[te] == RBRACE {
        Some((digits_val(s, 8, fe), digits_val(s, ts, te)))
    } else {
        None
    }
}

/// The response the engine returns for a successful instruction:
/// `{"success":true}`.
pub open spec fn success_response() -> Seq<u8> {
    seq![
        LBRACE,
        QUOTE,
        115u8,  // s
        117u8,  // u
        99u8,  // c
        99u8,  // c
        101u8,  // e
        115u8,  // s
        115u8,  // s
        QUOTE,
        COLON,
        116u8,  // t
        114u8,  // r
        117u8,  // u
        101u8,  // e
        RBRACE,
    ]
}

/// Builds the success response bytes.
pub fn success_response_bytes() -> (r: Vec<u8>)
    ensures
        r@ == success_response(),
{
    let r: Vec<u8> = vec![
        LBRACE,
        QUOTE,
        115u8,
        117u8,
        99u8,
        99u8,
        101u8,
        115u8,
        115u8,
        QUOTE,
        COLON,
        116u8,
        114u8,
        117u8,
        101u8,
        RBRACE,
    ];
    proof {
        assert(r@ =~= success_response());
    }
    r
}

/// Decides whether `m` is the `copy` method string.
pub fn method_is_copy(m: &[u8]) -> (r: bool)
    ensures
        r == (m@ == copy_method()),
{
    if m.len() != 4 {
        proof {
            assert(m@ != copy_method());
        }
        return false;
    }
    let r = m[0] == 99u8 && m[1] == 111u8 && m[2] == 112u8 && m[3] == 121u8;
    proof {
        if r {
            assert(m@ =~= copy_method());
        } else {
            assert(m@ != copy_method());
        }
    }
    r
}

/// Scans the run of digits that starts at `start`, returning the first
/// position at or after it that holds none.
fn scan_digits(s: &[u8], start: usize) -> (r: usize)
    requires
        start <= s@.len(),
    ensures
        start <= r <= s@.len(),
        r == digits_end(s@, start as int),
        forall|k: int| start <= k < r ==> is_digit(#[trigger] s@[k]),
{
    let mut i: usize = start;
    while i < s.len() && DIGIT_LO <= s[i] && s[i] <= DIGIT_HI
        invariant
            start <= i <= s@.len(),
            digits_end(s@, start as int) == digits_end(s@, i as int),
            forall|k: int| start <= k < i ==> is_digit(#[trigger] s@[k]),
        decreases s@.len() - i,
    {
        i = i + 1;
    }
    i
}

/// Reads the value of the digits `s[i..j]`, which fits in a `u32`
/// because at most nine digits are admitted.
fn digits_to_u32(s: &[u8], i: usize, j: usize) -> (r: u32)
    requires
        i <= j <= s@.len(),
        j - i <= 9,
        forall|k: int| i <= k < j ==> is_digit(#[trigger] s@[k]),
    ensures
        r as int == digits_val(s@, i as int, j as int),
        (r as int) < pow10(j - i),
{
    proof {
        lemma_digits_val_bound(s@, i as int, j as int);
    }
    let mut v: u32 = 0;
    let mut k: usize = i;
    while k < j
        invariant
            i <= k <= j <= s@.len(),
            j - i <= 9,
            forall|m: int| i <= m < j ==> is_digit(#[trigger] s@[m]),
            v as int == digits_val(s@, i as int, k as int),
        decreases j - k,
    {
        proof {
            lemma_digits_val_bound(s@, i as int, k as int);
            lemma_pow10_mono(k - i, 8);
            assert(pow10(8) == 100000000) by {
                reveal_with_fuel(pow10, 9);
            }
        }
        let d = s[k];
        v = v * 10 + (d - DIGIT_LO) as u32;
        k = k + 1;
    }
    v
}

/// Parses a `copy` payload.  The result is exactly what the payload
/// grammar `parse_copy` assigns to the bytes.
pub fn parse_copy_payload(s: &[u8]) -> (r: Option<(i32, i32)>)
    ensures
        match r {
            Some(p) => parse_copy(s@) == Some((p.0 as int, p.1 as int)),
            None => parse_copy(s@) is None,
        },
{
    let n = s.len();
    if n < 8 {
        return None;
    }
    if !(s[0] == LBRACE && s[1] == QUOTE && s[2] == 102u8 && s[3] == 114u8 && s[4] == 111u8 && s[5]
        == 109u8 && s[6] == QUOTE && s[7] == COLON) {
        return None;
    }
    let fe = scan_digits(s, 8);
    if !(8 < fe && fe <= 17) {
        return None;
    }
    if fe + 6 > n {
        return None;
    }
    if !(s[fe] == COMMA && s[fe + 1] == QUOTE && s[fe + 2] == 116u8 && s[fe + 3] == 111u8 && s[fe
        + 4] == QUOTE && s[fe + 5] == COLON) {
        return None;
    }
    let ts = fe + 6;
    let te = scan_digits(s, ts);
    if !(ts < te && te <= ts + 9) {
        return None;
    }
    if te >= n || te + 1 != n {
        return None;
    }
    if s[te] != RBRACE {
        return None;
    }
    let fval = digits_to_u32(s, 8, fe);
    let tval = digits_to_u32(s, ts, te);
    proof {
        assert(pow10(9) == 1000000000) by {
            reveal_with_fuel(pow10, 10);
        }
        lemma_pow10_mono(fe - 8, 9);
        lemma_pow10_mono(te - ts, 9);
    }
    Some((fval as i32, tval as i32))
}

} // verus!
