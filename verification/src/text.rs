//! Verified text helpers: ASCII case folding, trimming, substring search and
//! decimal number scanning over character sequences, plus the two trusted
//! bridges to std (Unicode lowercasing and collecting characters).

use vstd::prelude::*;
use vstd::string::*;

verus! {

/// Largest integer part a scanned decimal may have before the scan gives up:
/// any larger value has no faithful thousandths representation in an `i64`.
pub const MAX_SCAN_INT: i64 = 999_999_999_999_999;

// ---------------------------------------------------------------------------
// ASCII case folding
// ---------------------------------------------------------------------------

/// The character's code with ASCII upper-case letters folded to lower case.
pub open spec fn lower_code(c: char) -> int {
    if 65 <= c as u32 && c as u32 <= 90 {
        c as u32 + 32
    } else {
        c as u32 as int
    }
}

/// The two sequences are equal up to ASCII case.
pub open spec fn codes_eq_nocase(a: Seq<char>, b: Seq<char>) -> bool {
    a.len() == b.len() && forall|i: int| 0 <= i < a.len() ==> lower_code(a[i]) == lower_code(b[i])
}

pub fn lower_code_x(c: char) -> (r: u32)
    ensures
        r == lower_code(c),
{
    let u = c as u32;
    if 65 <= u && u <= 90 {
        u + 32
    } else {
        u
    }
}

/// ASCII-case-insensitive equality of two strings.
pub fn eq_ignore_ascii_case_str(a: &str, b: &str) -> (r: bool)
    ensures
        r == codes_eq_nocase(a@, b@),
{
    let n = a.unicode_len();
    let m = b.unicode_len();
    if n != m {
        return false;
    }
    let mut i: usize = 0;
    while i < n
        invariant
            n == a@.len(),
            n == b@.len(),
            0 <= i <= n,
            forall|k: int| 0 <= k < i ==> lower_code(a@[k]) == lower_code(b@[k]),
        decreases n - i,
    {
        if lower_code_x(a.get_char(i)) != lower_code_x(b.get_char(i)) {
            return false;
        }
        i += 1;
    }
    true
}

/// Exact string equality, character by character.
pub fn str_eq(a: &str, b: &str) -> (r: bool)
    ensures
        r == (a@ == b@),
{
    let n = a.unicode_len();
    let m = b.unicode_len();
    if n != m {
        return false;
    }
    let mut i: usize = 0;
    while i < n
        invariant
            n == a@.len(),
            n == b@.len(),
            0 <= i <= n,
            forall|k: int| 0 <= k < i ==> a@[k] == b@[k],
        decreases n - i,
    {
        if a.get_char(i) != b.get_char(i) {
            return false;
        }
        i += 1;
    }
    proof {
        assert(a@ =~= b@);
    }
    true
}

// ---------------------------------------------------------------------------
// Trimming
// ---------------------------------------------------------------------------

/// The Unicode white-space set, as `str::trim` trims it.
pub open spec fn is_space_char(c: char) -> bool {
    let u = c as u32;
    (9 <= u && u <= 13) || u == 0x20 || u == 0x85 || u == 0xA0 || u == 0x1680 || (0x2000 <= u
        && u <= 0x200A) || u == 0x2028 || u == 0x2029 || u == 0x202F || u == 0x205F || u == 0x3000
}

fn is_space_x(c: char) -> (r: bool)
    ensures
        r == is_space_char(c),
{
    let u = c as u32;
    (9 <= u && u <= 13) || u == 0x20 || u == 0x85 || u == 0xA0 || u == 0x1680 || (0x2000 <= u
        && u <= 0x200A) || u == 0x2028 || u == 0x2029 || u == 0x202F || u == 0x205F || u == 0x3000
}

/// The sequence with leading and trailing whitespace removed.
pub open spec fn spec_trim(s: Seq<char>) -> Seq<char>
    decreases s.len(),
{
    if s.len() == 0 {
        s
    } else if is_space_char(s[0]) {
        spec_trim(s.drop_first())
    } else if is_space_char(s[s.len() - 1]) {
        spec_trim(s.drop_last())
    } else {
        s
    }
}

proof fn lemma_trim_range(s: Seq<char>, i: int, j: int)
    requires
        0 <= i <= j <= s.len(),
        forall|k: int| 0 <= k < i ==> is_space_char(s[k]),
        forall|k: int| j <= k < s.len() ==> is_space_char(s[k]),
        i < j ==> !is_space_char(s[i]),
        i < j ==> !is_space_char(s[j - 1]),
    ensures
        spec_trim(s) == s.subrange(i, j),
    decreases s.len(),
{
    if s.len() == 0 {
        assert(s.subrange(i, j) =~= s);
    } else if is_space_char(s[0]) {
        let t = s.drop_first();
        if i == 0 {
            // A non-space first trimmed character would contradict s[0] being a space.
            assert(j == 0);
            lemma_trim_range(t, 0, 0);
            assert(s.subrange(0, 0) =~= t.subrange(0, 0));
        } else {
            lemma_trim_range(t, i - 1, j - 1);
            assert(s.subrange(i, j) =~= t.subrange(i - 1, j - 1));
        }
    } else if is_space_char(s[s.len() - 1]) {
        assert(i == 0);
        assert(j < s.len());
        let t = s.drop_last();
        lemma_trim_range(t, i, j);
        assert(s.subrange(i, j) =~= t.subrange(i, j));
    } else {
        assert(i == 0);
        assert(j == s.len());
        assert(s.subrange(0, s.len() as int) =~= s);
    }
}

/// Leading and trailing whitespace removed, as the original `trim` does.
pub fn trim_str(s: &str) -> (r: String)
    ensures
        r@ == spec_trim(s@),
{
    let n = s.unicode_len();
    let mut i: usize = 0;
    while i < n && is_space_x(s.get_char(i))
        invariant
            n == s@.len(),
            0 <= i <= n,
            forall|k: int| 0 <= k < i ==> is_space_char(s@[k]),
        decreases n - i,
    {
        i += 1;
    }
    let mut j: usize = n;
    while j > i && is_space_x(s.get_char(j - 1))
        invariant
            n == s@.len(),
            0 <= i <= j <= n,
            forall|k: int| j <= k < n ==> is_space_char(s@[k]),
            i < n ==> !is_space_char(s@[i as int]),
        decreases j,
    {
        j -= 1;
    }
    proof {
        lemma_trim_range(s@, i as int, j as int);
    }
    s.substring_char(i, j).to_owned()
}

// ---------------------------------------------------------------------------
// Substring search
// ---------------------------------------------------------------------------

/// `pat` occurs contiguously somewhere in `hay`.
pub open spec fn spec_contains(hay: Seq<char>, pat: Seq<char>) -> bool {
    exists|k: int|
        0 <= k && k + pat.len() <= hay.len() && #[trigger] hay.subrange(k, k + pat.len() as int)
            == pat
}

fn match_at(hay: &str, pat: &str, k: usize) -> (r: bool)
    requires
        k + pat@.len() <= hay@.len(),
        hay@.len() <= usize::MAX,
    ensures
        r == (hay@.subrange(k as int, k as int + pat@.len() as int) == pat@),
{
    let m = pat.unicode_len();
    let mut t: usize = 0;
    while t < m
        invariant
            m == pat@.len(),
            k + m <= hay@.len(),
            hay@.len() <= usize::MAX,
            0 <= t <= m,
            forall|u: int| 0 <= u < t ==> hay@[k + u] == pat@[u],
        decreases m - t,
    {
        if hay.get_char(k + t) != pat.get_char(t) {
            proof {
                assert(hay@.subrange(k as int, k as int + m as int)[t as int] == hay@[k + t]);
            }
            return false;
        }
        t += 1;
    }
    proof {
        assert(hay@.subrange(k as int, k as int + m as int) =~= pat@);
    }
    true
}

/// Substring search, as the original `str::contains` on these inputs.
pub fn contains_str(hay: &str, pat: &str) -> (r: bool)
    ensures
        r == spec_contains(hay@, pat@),
{
    let n = hay.unicode_len();
    let m = pat.unicode_len();
    if m > n {
        proof {
            if spec_contains(hay@, pat@) {
                let kk = choose|kk: int|
                    0 <= kk && kk + pat@.len() <= hay@.len() && #[trigger] hay@.subrange(
                        kk,
                        kk + pat@.len() as int,
                    ) == pat@;
                assert(false);
            }
        }
        return false;
    }
    if m == 0 {
        proof {
            assert(hay@.subrange(0, 0 + pat@.len() as int) =~= pat@);
            assert(spec_contains(hay@, pat@));
        }
        return true;
    }
    let mut k: usize = 0;
    while k <= n - m
        invariant
            n == hay@.len(),
            m == pat@.len(),
            1 <= m <= n,
            0 <= k <= n - m + 1,
            forall|k2: int|
                0 <= k2 < k ==> #[trigger] hay@.subrange(k2, k2 + m as int) != pat@,
        decreases n - k,
    {
        if match_at(hay, pat, k) {
            proof {
                assert(hay@.subrange(k as int, k as int + pat@.len() as int) == pat@);
                assert(spec_contains(hay@, pat@));
            }
            return true;
        }
        k += 1;
    }
    proof {
        if spec_contains(hay@, pat@) {
            let kk = choose|kk: int|
                0 <= kk && kk + pat@.len() <= hay@.len() && #[trigger] hay@.subrange(
                    kk,
                    kk + pat@.len() as int,
                ) == pat@;
            assert(hay@.subrange(kk, kk + m as int) != pat@);
            assert(false);
        }
    }
    false
}

// ---------------------------------------------------------------------------
// Digits and decimal scanning
// ---------------------------------------------------------------------------

/// The character is an ASCII decimal digit.
pub open spec fn is_digit(c: char) -> bool {
    48 <= c as u32 && c as u32 <= 57
}

/// Numeric value of an ASCII decimal digit.
pub open spec fn digit_val(c: char) -> int
    recommends
        is_digit(c),
{
    c as u32 - 48
}

pub fn is_digit_x(c: char) -> (r: bool)
    ensures
        r == is_digit(c),
{
    let u = c as u32;
    48 <= u && u <= 57
}

/// Index just past the run of digits that starts at `i`.
pub open spec fn digit_run_end(s: Seq<char>, i: int) -> int
    recommends
        0 <= i <= s.len(),
    decreases s.len() - i,
{
    if i < s.len() && is_digit(s[i]) {
        digit_run_end(s, i + 1)
    } else {
        i
    }
}

proof fn lemma_digit_run_end_bounds(s: Seq<char>, i: int)
    requires
        0 <= i <= s.len(),
    ensures
        i <= digit_run_end(s, i) <= s.len(),
        forall|k: int| i <= k < digit_run_end(s, i) ==> is_digit(s[k]),
        digit_run_end(s, i) < s.len() ==> !is_digit(s[digit_run_end(s, i)]),
    decreases s.len() - i,
{
    if i < s.len() && is_digit(s[i]) {
        lemma_digit_run_end_bounds(s, i + 1);
    }
}

fn digit_run_end_x(s: &str, i: usize, n: usize) -> (e: usize)
    requires
        n == s@.len(),
        i <= n,
    ensures
        e == digit_run_end(s@, i as int),
        i <= e <= n,
{
    let mut e: usize = i;
    while e < n && is_digit_x(s.get_char(e))
        invariant
            n == s@.len(),
            i <= e <= n,
            digit_run_end(s@, i as int) == digit_run_end(s@, e as int),
        decreases n - e,
    {
        e += 1;
    }
    e
}

/// Decimal value of the digit characters `s[i..j)`.
pub open spec fn digits_val(s: Seq<char>, i: int, j: int) -> int
    recommends
        0 <= i <= j <= s.len(),
    decreases j - i,
{
    if i >= j {
        0
    } else {
        digits_val(s, i, j - 1) * 10 + digit_val(s[j - 1])
    }
}

proof fn lemma_digits_val_nonneg(s: Seq<char>, i: int, j: int)
    requires
        0 <= i <= j <= s.len(),
        forall|k: int| i <= k < j ==> is_digit(s[k]),
    ensures
        digits_val(s, i, j) >= 0,
    decreases j - i,
{
    if i < j {
        lemma_digits_val_nonneg(s, i, j - 1);
    }
}

proof fn lemma_digits_val_mono(s: Seq<char>, i: int, j: int, j2: int)
    requires
        0 <= i <= j <= j2 <= s.len(),
        forall|k: int| i <= k < j2 ==> is_digit(s[k]),
    ensures
        digits_val(s, i, j) <= digits_val(s, i, j2),
    decreases j2 - j,
{
    if j < j2 {
        lemma_digits_val_mono(s, i, j, j2 - 1);
        lemma_digits_val_nonneg(s, i, j2 - 1);
    }
}

fn digits_val_capped(s: &str, i: usize, j: usize, n: usize) -> (r: Option<i64>)
    requires
        n == s@.len(),
        0 <= i <= j <= n,
        forall|k: int| i <= k < j ==> is_digit(s@[k]),
    ensures
        digits_val(s@, i as int, j as int) <= MAX_SCAN_INT ==> r == Some(
            digits_val(s@, i as int, j as int) as i64,
        ),
        digits_val(s@, i as int, j as int) > MAX_SCAN_INT ==> r is None,
{
    let mut acc: i64 = 0;
    let mut k: usize = i;
    while k < j
        invariant
            n == s@.len(),
            i <= k <= j <= n,
            forall|t: int| i <= t < j ==> is_digit(s@[t]),
            0 <= acc <= MAX_SCAN_INT,
            acc == digits_val(s@, i as int, k as int),
        decreases j - k,
    {
        let d = (s.get_char(k) as u32 - 48) as i64;
        let next = acc * 10 + d;
        if next > MAX_SCAN_INT {
            proof {
                lemma_digits_val_mono(s@, i as int, k as int + 1, j as int);
            }
            return None;
        }
        acc = next;
        k += 1;
    }
    Some(acc)
}

/// A decimal number token (optionally signed) starts at `i`.
pub open spec fn num_token_at(s: Seq<char>, i: int) -> bool
    recommends
        0 <= i < s.len(),
{
    is_digit(s[i]) || (s[i] == '-' && i + 1 < s.len() && is_digit(s[i + 1]))
}

/// Whether the token starting at `p` carries a fraction part.
pub open spec fn token_has_frac(s: Seq<char>, p: int) -> bool {
    let d0 = if s[p] == '-' {
        p + 1
    } else {
        p
    };
    let ie = digit_run_end(s, d0);
    ie + 1 < s.len() && s[ie] == '.' && is_digit(s[ie + 1])
}

/// Index just past the token starting at `p`.
pub open spec fn token_end_at(s: Seq<char>, p: int) -> int {
    let d0 = if s[p] == '-' {
        p + 1
    } else {
        p
    };
    let ie = digit_run_end(s, d0);
    if token_has_frac(s, p) {
        digit_run_end(s, ie + 1)
    } else {
        ie
    }
}

/// Value in thousandths of up to the first three fraction digits `s[i..j)`.
pub open spec fn frac_milli(s: Seq<char>, i: int, j: int) -> int {
    if j - i >= 3 {
        digit_val(s[i]) * 100 + digit_val(s[i + 1]) * 10 + digit_val(s[i + 2])
    } else if j - i == 2 {
        digit_val(s[i]) * 100 + digit_val(s[i + 1]) * 10
    } else if j - i == 1 {
        digit_val(s[i]) * 100
    } else {
        0
    }
}

/// Value in thousandths of the number token starting at `p`, when its integer
/// part is small enough to be represented; further fraction digits are cut.
pub open spec fn token_milli_at(s: Seq<char>, p: int) -> Option<i64>
    recommends
        0 <= p < s.len(),
        num_token_at(s, p),
{
    let neg = s[p] == '-';
    let d0 = if neg {
        p + 1
    } else {
        p
    };
    let ie = digit_run_end(s, d0);
    let iv = digits_val(s, d0, ie);
    let fm = if token_has_frac(s, p) {
        frac_milli(s, ie + 1, digit_run_end(s, ie + 1))
    } else {
        0
    };
    if iv > MAX_SCAN_INT {
        None
    } else if neg {
        Some((-(iv * 1000 + fm)) as i64)
    } else {
        Some((iv * 1000 + fm) as i64)
    }
}

pub fn token_milli_x(s: &str, p: usize, n: usize) -> (r: (Option<i64>, usize))
    requires
        n == s@.len(),
        p < n,
        num_token_at(s@, p as int),
    ensures
        r.0 == token_milli_at(s@, p as int),
        r.1 == token_end_at(s@, p as int),
        p < r.1 <= n,
{
    let neg = s.get_char(p) == '-';
    let d0: usize = if neg {
        p + 1
    } else {
        p
    };
    proof {
        lemma_digit_run_end_bounds(s@, d0 as int);
    }
    let ie = digit_run_end_x(s, d0, n);
    let has_frac = ie < n && s.get_char(ie) == '.' && ie + 1 < n && is_digit_x(
        s.get_char(ie + 1),
    );
    proof {
        assert(has_frac == token_has_frac(s@, p as int));
        if !neg {
            // a digit sits at p, so the run reaches past it
            assert(digit_run_end(s@, p as int) == digit_run_end(s@, p as int + 1));
            lemma_digit_run_end_bounds(s@, p as int + 1);
        }
    }
    let fe: usize = if has_frac {
        proof {
            lemma_digit_run_end_bounds(s@, ie as int + 1);
        }
        digit_run_end_x(s, ie + 1, n)
    } else {
        ie
    };
    let iv = digits_val_capped(s, d0, ie, n);
    let fm: i64 = if has_frac {
        proof {
            lemma_digit_run_end_bounds(s@, ie as int + 1);
        }
        let flen = fe - (ie + 1);
        if flen >= 3 {
            (s.get_char(ie + 1) as u32 - 48) as i64 * 100 + (s.get_char(ie + 2) as u32 - 48) as i64
                * 10 + (s.get_char(ie + 3) as u32 - 48) as i64
        } else if flen == 2 {
            (s.get_char(ie + 1) as u32 - 48) as i64 * 100 + (s.get_char(ie + 2) as u32 - 48) as i64
                * 10
        } else {
            (s.get_char(ie + 1) as u32 - 48) as i64 * 100
        }
    } else {
        0
    };
    proof {
        assert(0 <= fm <= 999);
    }
    match iv {
        None => (None, fe),
        Some(v) => {
            proof {
                lemma_digits_val_nonneg(s@, d0 as int, ie as int);
            }
            if neg {
                (Some(-(v * 1000 + fm)), fe)
            } else {
                (Some(v * 1000 + fm), fe)
            }
        },
    }
}

proof fn lemma_token_milli_bounds(s: Seq<char>, p: int)
    requires
        0 <= p < s.len(),
        num_token_at(s, p),
    ensures
        token_milli_at(s, p) matches Some(v) ==> -999_999_999_999_999_999 <= v
            <= 999_999_999_999_999_999,
{
    let neg = s[p] == '-';
    let d0 = if neg {
        p + 1
    } else {
        p
    };
    lemma_digit_run_end_bounds(s, d0);
    let ie = digit_run_end(s, d0);
    lemma_digits_val_nonneg(s, d0, ie);
    if token_has_frac(s, p) {
        lemma_digit_run_end_bounds(s, ie + 1);
        let fe = digit_run_end(s, ie + 1);
        assert(0 <= frac_milli(s, ie + 1, fe) <= 999);
    }
}

proof fn lemma_first_token_props(s: Seq<char>, i: int)
    requires
        0 <= i <= s.len(),
    ensures
        first_token_from(s, i) matches Some(p) ==> i <= p < s.len() && num_token_at(s, p),
    decreases s.len() - i,
{
    if i < s.len() && !num_token_at(s, i) {
        lemma_first_token_props(s, i + 1);
    }
}

/// The scanner never yields a value outside what an `i64` holds with room
/// for whole-unit arithmetic.
pub proof fn lemma_first_number_milli_bounds(s: Seq<char>)
    ensures
        spec_first_number_milli(s) matches Some(v) ==> -999_999_999_999_999_999 <= v
            <= 999_999_999_999_999_999,
{
    lemma_first_token_props(s, 0);
    match first_token_from(s, 0) {
        Some(p) => {
            lemma_token_milli_bounds(s, p);
        },
        None => {},
    }
}

/// Index of the first number token, scanning from `i`.
pub open spec fn first_token_from(s: Seq<char>, i: int) -> Option<int>
    recommends
        0 <= i <= s.len(),
    decreases s.len() - i,
{
    if i >= s.len() {
        None
    } else if num_token_at(s, i) {
        Some(i)
    } else {
        first_token_from(s, i + 1)
    }
}

/// Value in thousandths of the first decimal number in `s`, as the original's
/// first-number scan over header text.
pub open spec fn spec_first_number_milli(s: Seq<char>) -> Option<i64> {
    match first_token_from(s, 0) {
        None => None,
        Some(p) => token_milli_at(s, p),
    }
}

/// Scan `s` for its first decimal number and return it in thousandths.
pub fn first_number_milli(s: &str) -> (r: Option<i64>)
    ensures
        r == spec_first_number_milli(s@),
{
    let n = s.unicode_len();
    let mut i: usize = 0;
    while i < n
        invariant
            n == s@.len(),
            0 <= i <= n,
            first_token_from(s@, 0) == first_token_from(s@, i as int),
        decreases n - i,
    {
        let c = s.get_char(i);
        let hit = is_digit_x(c) || (c == '-' && i + 1 < n && is_digit_x(s.get_char(i + 1)));
        if hit {
            let (v, _) = token_milli_x(s, i, n);
            return v;
        }
        i += 1;
    }
    None
}

/// Value in thousandths when the whole of `s` is one decimal number.
pub open spec fn spec_full_number_milli(s: Seq<char>) -> Option<i64> {
    if s.len() > 0 && num_token_at(s, 0) && token_end_at(s, 0) == s.len() {
        token_milli_at(s, 0)
    } else {
        None
    }
}

/// Parse `s` as one decimal number in thousandths; anything else is `None`.
pub fn full_number_milli(s: &str) -> (r: Option<i64>)
    ensures
        r == spec_full_number_milli(s@),
{
    let n = s.unicode_len();
    if n == 0 {
        return None;
    }
    let c = s.get_char(0);
    let hit = is_digit_x(c) || (c == '-' && 1 < n && is_digit_x(s.get_char(1)));
    if !hit {
        return None;
    }
    let (v, e) = token_milli_x(s, 0, n);
    if e == n {
        v
    } else {
        None
    }
}

// ---------------------------------------------------------------------------
// Decimal rendering
// ---------------------------------------------------------------------------

/// The decimal digit character for `d`.
pub open spec fn digit_char(d: int) -> char
    recommends
        0 <= d <= 9,
{
    ((d + 48) as u8) as char
}

/// Decimal digit characters of a non-negative number.
pub open spec fn spec_u64_digits(n: int) -> Seq<char>
    recommends
        n >= 0,
    decreases n,
{
    if n < 10 {
        seq![digit_char(n)]
    } else {
        spec_u64_digits(n / 10).push(digit_char(n % 10))
    }
}

fn push_u64_chars(n: u64, out: &mut Vec<char>)
    ensures
        final(out)@ == old(out)@ + spec_u64_digits(n as int),
    decreases n,
{
    if n >= 10 {
        push_u64_chars(n / 10, out);
    }
    let d = ((n % 10) as u8 + 48) as char;
    out.push(d);
    proof {
        if n < 10 {
            assert(out@ =~= old(out)@ + spec_u64_digits(n as int));
        } else {
            assert(out@ =~= old(out)@ + spec_u64_digits(n as int));
        }
    }
}

/// Decimal rendering of a number, as `to_string` does.
pub fn u64_to_string(n: u64) -> (r: String)
    ensures
        r@ == spec_u64_digits(n as int),
{
    let mut v: Vec<char> = Vec::new();
    push_u64_chars(n, &mut v);
    proof {
        assert(v@ =~= spec_u64_digits(n as int));
    }
    chars_to_string(&v)
}

// ---------------------------------------------------------------------------
// Trusted bridges to std
// ---------------------------------------------------------------------------

/// The characters that `str::to_lowercase` yields for the given characters.
pub uninterp spec fn lower_of(s: Seq<char>) -> Seq<char>;

/// Relies on str::to_lowercase: its result depends on the characters alone.
#[verifier::external_body]
pub fn lowercase(s: &str) -> (r: String)
    ensures
        r@ == lower_of(s@),
{
    s.to_lowercase()
}

/// Relies on String's FromIterator of char: collecting characters yields
/// exactly those characters in order.
#[verifier::external_body]
pub fn chars_to_string(v: &Vec<char>) -> (r: String)
    ensures
        r@ == v@,
{
    v.iter().collect()
}

} // verus!
