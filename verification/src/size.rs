//! Parsing of buffer-size mode tokens such as `512`, `64K` or `64MB`.
//!
//! A size token is a non-empty run of decimal digits followed immediately by
//! a unit suffix.  A bare unit letter (`K`, `M`, ..., `Y`) scales by a power
//! of 1024; the same letter followed by `B` scales by the matching power of
//! 1000; an empty suffix scales by 1.  A result that does not fit in 64 bits
//! is rejected, never wrapped.

use vstd::arithmetic::mul::lemma_mul_is_associative;
use vstd::arithmetic::mul::lemma_mul_is_commutative;
use vstd::arithmetic::power::lemma_pow_increases;
use vstd::arithmetic::power::pow;
use vstd::prelude::*;

verus! {

/// The character is an ASCII decimal digit.
pub open spec fn spec_is_digit(c: char) -> bool {
    48 <= c as u32 <= 57
}

/// The character is an ASCII letter.
pub open spec fn spec_is_letter(c: char) -> bool {
    (65 <= c as u32 <= 90) || (97 <= c as u32 <= 122)
}

/// End of the run of digits of `s` that starts at index `i`.
pub open spec fn digit_run_end(s: Seq<char>, i: int) -> int
    decreases s.len() - i,
{
    if i < 0 || i >= s.len() {
        s.len() as int
    } else if spec_is_digit(s[i]) {
        digit_run_end(s, i + 1)
    } else {
        i
    }
}

/// Start of the run of letters of `s` that ends right before index `i`.
pub open spec fn letter_run_start(s: Seq<char>, i: int) -> int
    decreases i,
{
    if i <= 0 || i > s.len() {
        0
    } else if spec_is_letter(s[i - 1]) {
        letter_run_start(s, i - 1)
    } else {
        i
    }
}

/// Numeric value of an ASCII decimal digit.
pub open spec fn digit_val(c: char) -> nat {
    (c as u32 - 48) as nat
}

/// Value of a string of decimal digits, most significant digit first.
pub open spec fn digits_val(s: Seq<char>) -> nat
    decreases s.len(),
{
    if s.len() == 0 {
        0
    } else {
        digits_val(s.drop_last()) * 10 + digit_val(s.last())
    }
}

/// Rank of a unit letter: K is 1, M is 2, and so on up to Y, which is 8.
pub open spec fn unit_rank(c: char) -> Option<nat> {
    if c == 'K' {
        Some(1 as nat)
    } else if c == 'M' {
        Some(2 as nat)
    } else if c == 'G' {
        Some(3 as nat)
    } else if c == 'T' {
        Some(4 as nat)
    } else if c == 'P' {
        Some(5 as nat)
    } else if c == 'E' {
        Some(6 as nat)
    } else if c == 'Z' {
        Some(7 as nat)
    } else if c == 'Y' {
        Some(8 as nat)
    } else {
        None
    }
}

/// Multiplier denoted by a unit suffix: the empty suffix means 1, a bare
/// unit letter scales by a power of 1024, a unit letter followed by `B`
/// scales by a power of 1000.
pub open spec fn suffix_scale(ext: Seq<char>) -> Option<int> {
    if ext.len() == 0 {
        Some(1)
    } else if ext.len() == 1 {
        match unit_rank(ext[0]) {
            Some(r) => Some(pow(1024, r)),
            None => None,
        }
    } else if ext.len() == 2 && ext[1] == 'B' {
        match unit_rank(ext[0]) {
            Some(r) => Some(pow(1000, r)),
            None => None,
        }
    } else {
        None
    }
}

/// Meaning of a size token.  The token must split into a leading digit run
/// and a trailing letter run with nothing in between, the digit run must be
/// non-empty, the letter run must be a recognised unit suffix, and the scaled
/// value must fit in 64 bits; otherwise the token is rejected.
pub open spec fn parse_size_spec(s: Seq<char>) -> Option<u64> {
    let p = digit_run_end(s, 0);
    let q = letter_run_start(s, s.len() as int);
    if p != q || p == 0 {
        None
    } else {
        let v = digits_val(s.take(p));
        match suffix_scale(s.skip(p)) {
            None => None,
            Some(scale) => {
                if v > u64::MAX || v * scale > u64::MAX {
                    None
                } else {
                    Some((v * scale) as u64)
                }
            },
        }
    }
}

fn char_is_digit(c: char) -> (r: bool)
    ensures
        r == spec_is_digit(c),
{
    let u = c as u32;
    48 <= u && u <= 57
}

fn char_is_letter(c: char) -> (r: bool)
    ensures
        r == spec_is_letter(c),
{
    let u = c as u32;
    (65 <= u && u <= 90) || (97 <= u && u <= 122)
}

/// The value of a longer digit prefix is at least the value of a shorter one.
proof fn lemma_digits_val_mono(s: Seq<char>, i: int, j: int)
    requires
        0 <= i <= j <= s.len(),
    ensures
        digits_val(s.take(i)) <= digits_val(s.take(j)),
    decreases j - i,
{
    if i < j {
        lemma_digits_val_mono(s, i, j - 1);
        assert(s.take(j).drop_last() =~= s.take(j - 1));
        assert(digits_val(s.take(j)) == digits_val(s.take(j - 1)) * 10 + digit_val(s.take(j).last()));
    }
}

/// Everything strictly before the end of a digit run is a digit.
proof fn lemma_digit_run_end_digits(s: Seq<char>, i: int)
    requires
        0 <= i <= s.len(),
    ensures
        i <= digit_run_end(s, i) <= s.len(),
        forall|j: int| i <= j < digit_run_end(s, i) ==> spec_is_digit(s[j]),
    decreases s.len() - i,
{
    if i < s.len() && spec_is_digit(s[i]) {
        lemma_digit_run_end_digits(s, i + 1);
    }
}

/// A digit run bounded by a non-digit (or the end) ends exactly there.
proof fn lemma_digit_run_end_at(s: Seq<char>, i: int, p: int)
    requires
        0 <= i <= p <= s.len(),
        forall|j: int| i <= j < p ==> spec_is_digit(s[j]),
        p == s.len() || !spec_is_digit(s[p]),
    ensures
        digit_run_end(s, i) == p,
    decreases p - i,
{
    if i < p {
        lemma_digit_run_end_at(s, i + 1, p);
    }
}

/// A letter run preceded by a non-letter (or the start) starts exactly there.
proof fn lemma_letter_run_start_at(s: Seq<char>, i: int, q: int)
    requires
        0 <= q <= i <= s.len(),
        forall|j: int| q <= j < i ==> spec_is_letter(s[j]),
        q == 0 || !spec_is_letter(s[q - 1]),
    ensures
        letter_run_start(s, i) == q,
    decreases i - q,
{
    if q < i {
        lemma_letter_run_start_at(s, i - 1, q);
    }
}

/// A character with a unit rank is a letter.
proof fn lemma_unit_is_letter(c: char)
    requires
        unit_rank(c) is Some,
    ensures
        spec_is_letter(c),
{
}

/// Unit scaling: a token made of a non-empty digit run followed by a
/// recognised unit letter of rank `r` parses to its numeric value scaled by
/// `1024^r` for the bare letter and by `1000^r` for the letter followed by
/// `B`; a scaled value beyond 64-bit range makes the token rejected, never
/// wrapped.
pub proof fn lemma_unit_scaling(num: Seq<char>, c: char, with_b: bool, r: nat)
    requires
        num.len() > 0,
        forall|j: int| 0 <= j < num.len() ==> spec_is_digit(num[j]),
        unit_rank(c) == Some(r),
    ensures
        ({
            let ext = if with_b {
                seq![c, 'B']
            } else {
                seq![c]
            };
            let scale = if with_b {
                pow(1000, r)
            } else {
                pow(1024, r)
            };
            let v = digits_val(num);
            &&& (v <= u64::MAX && v * scale <= u64::MAX ==> parse_size_spec(num + ext) == Some(
                (v * scale) as u64,
            ))
            &&& (v > u64::MAX || v * scale > u64::MAX ==> parse_size_spec(num + ext) is None)
        }),
{
    let ext = if with_b {
        seq![c, 'B']
    } else {
        seq![c]
    };
    let t = num + ext;
    let p = num.len() as int;
    lemma_unit_is_letter(c);
    assert(forall|j: int| 0 <= j < p ==> spec_is_digit(#[trigger] t[j]));
    assert(!spec_is_digit(t[p]));
    lemma_digit_run_end_at(t, 0, p);
    assert(forall|j: int| p <= j < t.len() ==> spec_is_letter(#[trigger] t[j]));
    assert(!spec_is_letter(t[p - 1]));
    lemma_letter_run_start_at(t, t.len() as int, p);
    assert(t.take(p) =~= num);
    assert(t.skip(p) =~= ext);
    assert(suffix_scale(ext) == Some(
        if with_b {
            pow(1000, r)
        } else {
            pow(1024, r)
        },
    ));
}

/// A plain token of digits alone parses to its numeric value, rejected
/// exactly when that value exceeds 64-bit range.
pub proof fn lemma_plain_token(num: Seq<char>)
    requires
        num.len() > 0,
        forall|j: int| 0 <= j < num.len() ==> spec_is_digit(num[j]),
    ensures
        digits_val(num) <= u64::MAX ==> parse_size_spec(num) == Some(digits_val(num) as u64),
        digits_val(num) > u64::MAX ==> parse_size_spec(num) is None,
{
    let p = num.len() as int;
    lemma_digit_run_end_at(num, 0, p);
    lemma_letter_run_start_at(num, p, p);
    assert(num.take(p) =~= num);
    assert(num.skip(p) =~= Seq::<char>::empty());
    assert(suffix_scale(num.skip(p)) == Some(1int));
    assert(digits_val(num) * 1 == digits_val(num));
}

/// Round trip: an accepted token decomposes exactly into its numeric prefix
/// and its unit suffix.  The digit run and the letter run meet at one index,
/// so the numeric prefix concatenated with the unit suffix reconstructs the
/// token; a token with anything between the two runs is rejected.
pub proof fn lemma_accepted_token_round_trip(s: Seq<char>)
    requires
        parse_size_spec(s) is Some,
    ensures
        ({
            let p = digit_run_end(s, 0);
            &&& 0 < p <= s.len()
            &&& p == letter_run_start(s, s.len() as int)
            &&& (forall|j: int| 0 <= j < p ==> spec_is_digit(s[j]))
            &&& suffix_scale(s.skip(p)) is Some
            &&& s == s.take(p) + s.skip(p)
        }),
{
    let p = digit_run_end(s, 0);
    lemma_digit_run_end_digits(s, 0);
    assert(s =~= s.take(p) + s.skip(p));
}

/// Parse a size token into a byte count, as `parse_size_spec` describes.
#[verifier::loop_isolation(false)]
pub fn parse_size(size: &str) -> (r: Option<u64>)
    ensures
        r == parse_size_spec(size@),
{
    let ghost s = size@;
    let n = size.unicode_len();

    let mut p: usize = 0;
    while p < n && char_is_digit(size.get_char(p))
        invariant
            p <= n,
            n == s.len(),
            s == size@,
            digit_run_end(s, 0) == digit_run_end(s, p as int),
            forall|j: int| 0 <= j < p ==> spec_is_digit(s[j]),
        decreases n - p,
    {
        p += 1;
    }
    assert(digit_run_end(s, p as int) == p);

    let mut q: usize = n;
    while q > 0 && char_is_letter(size.get_char(q - 1))
        invariant
            q <= n,
            n == s.len(),
            s == size@,
            letter_run_start(s, n as int) == letter_run_start(s, q as int),
        decreases q,
    {
        q -= 1;
    }
    assert(letter_run_start(s, q as int) == q);

    if p != q || p == 0 {
        return None;
    }

    let mut val: u64 = 0;
    let mut i: usize = 0;
    while i < p
        invariant
            i <= p,
            p <= n,
            n == s.len(),
            s == size@,
            p == digit_run_end(s, 0),
            forall|j: int| 0 <= j < p ==> spec_is_digit(s[j]),
            val == digits_val(s.take(i as int)),
        decreases p - i,
    {
        let c = size.get_char(i);
        let d: u64 = (c as u32 - 48) as u64;
        assert(d == digit_val(s[i as int]));
        proof {
            assert(s.take(i + 1).drop_last() =~= s.take(i as int));
            assert(s.take(i + 1).last() == s[i as int]);
        }
        let next = match val.checked_mul(10) {
            Some(v10) => v10.checked_add(d),
            None => None,
        };
        match next {
            Some(v2) => {
                val = v2;
                i += 1;
            },
            None => {
                proof {
                    assert(digits_val(s.take(i + 1)) > u64::MAX);
                    lemma_digits_val_mono(s, i + 1, p as int);
                }
                return None;
            },
        }
    }
    assert(val == digits_val(s.take(p as int)));

    let ghost ext = s.skip(p as int);
    if p == n {
        assert(ext.len() == 0);
        assert(suffix_scale(ext) == Some(1int));
        assert(digits_val(s.take(p as int)) * 1int == digits_val(s.take(p as int)));
        return Some(val);
    }
    let ext_len = n - p;
    if ext_len > 2 {
        return None;
    }
    let c0 = size.get_char(p);
    assert(c0 == ext[0]);
    let rank: u64 = match c0 {
        'K' => 1,
        'M' => 2,
        'G' => 3,
        'T' => 4,
        'P' => 5,
        'E' => 6,
        'Z' => 7,
        'Y' => 8,
        _ => {
            return None;
        },
    };
    assert(unit_rank(ext[0]) == Some(rank as nat));
    let base: u64 = if ext_len == 2 {
        assert(s[p + 1] == ext[1]);
        if size.get_char(p + 1) == 'B' {
            1000
        } else {
            return None;
        }
    } else {
        1024
    };
    let ghost scale = pow(base as int, rank as nat);
    assert(suffix_scale(ext) == Some(scale));

    let mut result: u64 = val;
    let mut k: u64 = 0;
    proof {
        vstd::arithmetic::power::lemma_pow0(base as int);
        assert(result as int == val as int * pow(base as int, 0));
    }
    while k < rank
        invariant
            k <= rank,
            base == 1000 || base == 1024,
            result as int == val as int * pow(base as int, k as nat),
        decreases rank - k,
    {
        let ghost pk = pow(base as int, k as nat);
        let ghost pk1 = pow(base as int, k as nat + 1);
        proof {
            reveal(pow);
            assert(pk1 == base as int * pk);
            lemma_mul_is_associative(val as int, pk, base as int);
            lemma_mul_is_commutative(pk, base as int);
            lemma_mul_is_associative(val as int, base as int, pk);
            assert(val as int * pk1 == (val as int * pk) * (base as int));
        }
        match result.checked_mul(base) {
            Some(r2) => {
                result = r2;
                k += 1;
            },
            None => {
                proof {
                    assert(val as int * pk1 > u64::MAX);
                    lemma_pow_increases(base as nat, k as nat + 1, rank as nat);
                    assert(base as nat as int == base as int);
                    assert(pk1 <= scale);
                    assert(val as int * scale > u64::MAX) by (nonlinear_arith)
                        requires
                            val as int * pk1 > u64::MAX,
                            pk1 <= scale,
                            val as int >= 0,
                    ;
                }
                return None;
            },
        }
    }
    assert(result as int == val as int * scale);
    Some(result)
}

} // verus!
