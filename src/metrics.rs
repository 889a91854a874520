//! Container metrics: reading byte sizes such as `1.5KiB` or `512MB` as the
//! container runtime prints them.

use vstd::prelude::*;
use vstd::string::*;
use vstd::arithmetic::div_mod::{lemma_div_denominator, lemma_hoist_over_denominator};
use crate::template::drop_trailing;
use crate::text::{chars_of, string_from_chars};

verus! {

/// Why metrics could not be collected or sent, with a description.
#[derive(Debug)]
pub enum MetricsError {
    WebSocket(String),
    Io(String),
    Parse(String),
    Url(String),
    Serialize(String),
}

/// Whether `c` has the Unicode `Alphabetic` property.
pub uninterp spec fn alphabetic(c: char) -> bool;

/// The Unicode upper-case mapping of `s`.
pub uninterp spec fn upper_of(s: Seq<char>) -> Seq<char>;

/// Relies on `char::is_alphabetic`.
#[verifier::external_body]
fn is_alphabetic(c: char) -> (r: bool)
    ensures
        r == alphabetic(c),
{
    c.is_alphabetic()
}

/// Relies on `str::to_uppercase`.
#[verifier::external_body]
fn uppercase(s: &str) -> (r: String)
    ensures
        r@ == upper_of(s@),
{
    s.to_uppercase()
}

/// Whether `c` has the Unicode `White_Space` property.
pub open spec fn is_white(c: char) -> bool {
    let u = c as u32;
    (9 <= u <= 13) || u == 32 || u == 0x85 || u == 0xa0 || u == 0x1680 || (0x2000 <= u <= 0x200a)
        || u == 0x2028 || u == 0x2029 || u == 0x202f || u == 0x205f || u == 0x3000
}

/// `s` without leading white space.
pub open spec fn trim_start_white(s: Seq<char>) -> Seq<char>
    decreases s.len(),
{
    if s.len() > 0 && is_white(s[0]) {
        trim_start_white(s.drop_first())
    } else {
        s
    }
}

/// `s` without trailing white space.
pub open spec fn trim_end_white(s: Seq<char>) -> Seq<char>
    decreases s.len(),
{
    if s.len() > 0 && is_white(s.last()) {
        trim_end_white(s.drop_last())
    } else {
        s
    }
}

/// `s` without leading and trailing white space.
pub open spec fn trim_white(s: Seq<char>) -> Seq<char> {
    trim_end_white(trim_start_white(s))
}

/// The position of the first alphabetic character of `s`, or its length.
pub open spec fn first_alpha(s: Seq<char>) -> nat
    decreases s.len(),
{
    if s.len() == 0 {
        0
    } else if alphabetic(s[0]) {
        0
    } else {
        1 + first_alpha(s.drop_first())
    }
}

/// Whether `c` is an ASCII decimal digit.
pub open spec fn is_digit(c: char) -> bool {
    48 <= (c as u32) <= 57
}

/// Whether every character of `s` is a decimal digit.
pub open spec fn all_digits(s: Seq<char>) -> bool {
    forall|i: int| 0 <= i < s.len() ==> #[trigger] is_digit(s[i])
}

/// The number written by the decimal digits `s` (0 when empty).
pub open spec fn digits_value(s: Seq<char>) -> nat
    decreases s.len(),
{
    if s.len() == 0 {
        0
    } else {
        digits_value(s.drop_last()) * 10 + ((s.last() as u32) - 48) as nat
    }
}

/// Ten to the power `k`.
pub open spec fn pow10(k: nat) -> nat
    decreases k,
{
    if k == 0 {
        1
    } else {
        10 * pow10((k - 1) as nat)
    }
}

/// The position of the first `.` of `s`, or its length.
pub open spec fn dot_index(s: Seq<char>) -> nat
    decreases s.len(),
{
    if s.len() == 0 {
        0
    } else if s[0] == '.' {
        0
    } else {
        1 + dot_index(s.drop_first())
    }
}

/// `num` without its sign.
pub open spec fn unsigned_part(num: Seq<char>) -> Seq<char> {
    if num.len() > 0 && (num[0] == '+' || num[0] == '-') {
        num.drop_first()
    } else {
        num
    }
}

/// Whether `num` starts with a minus sign.
pub open spec fn is_negative(num: Seq<char>) -> bool {
    num.len() > 0 && num[0] == '-'
}

/// The digits before the decimal point.
pub open spec fn int_digits(num: Seq<char>) -> Seq<char> {
    unsigned_part(num).take(dot_index(unsigned_part(num)) as int)
}

/// The digits after the decimal point.
pub open spec fn frac_digits(num: Seq<char>) -> Seq<char> {
    let u = unsigned_part(num);
    if dot_index(u) < u.len() {
        u.skip(dot_index(u) as int + 1)
    } else {
        Seq::empty()
    }
}

/// Whether `num` is a decimal number: an optional sign, digits, and an
/// optional decimal point followed by digits, with at least one digit.
pub open spec fn is_number(num: Seq<char>) -> bool {
    all_digits(int_digits(num)) && all_digits(frac_digits(num)) && int_digits(num).len()
        + frac_digits(num).len() > 0
}

/// The number `num` times `m`, rounded down; 0 when `num` is negative.
pub open spec fn scaled(num: Seq<char>, m: nat) -> nat {
    if is_negative(num) {
        0
    } else {
        let k = frac_digits(num).len();
        ((digits_value(int_digits(num)) * pow10(k) + digits_value(frac_digits(num))) * m / pow10(
            k,
        )) as nat
    }
}

/// The number of bytes in a unit, matched after upper-casing.
pub open spec fn unit_size(unit: Seq<char>) -> Option<nat> {
    if unit == "B"@ {
        Some(1)
    } else if unit == "KB"@ || unit == "KIB"@ {
        Some(1024)
    } else if unit == "MB"@ || unit == "MIB"@ {
        Some(1024 * 1024)
    } else if unit == "GB"@ || unit == "GIB"@ {
        Some(1024 * 1024 * 1024)
    } else {
        None
    }
}

/// `n`, or the largest `u64` when it does not fit.
pub open spec fn saturate(n: nat) -> u64 {
    if n > u64::MAX {
        u64::MAX
    } else {
        n as u64
    }
}

/// The byte count written in `s`, or the message of why it cannot be read.
/// Surrounding white space is ignored and an empty text counts 0 bytes. The
/// number ends at the first alphabetic character, where the unit begins; the
/// count is the number times the unit's size, rounded down and capped at the
/// largest `u64`.
pub open spec fn byte_count(s: Seq<char>) -> Result<u64, Seq<char>> {
    let t = trim_white(s);
    if t.len() == 0 {
        Ok(0)
    } else if first_alpha(t) >= t.len() {
        Err("Invalid byte format"@)
    } else {
        let num = trim_white(t.take(first_alpha(t) as int));
        let unit = upper_of(trim_white(t.skip(first_alpha(t) as int)));
        if !is_number(num) {
            Err("invalid float literal"@)
        } else {
            match unit_size(unit) {
                None => Err("Unknown unit"@),
                Some(m) => Ok(saturate(scaled(num, m))),
            }
        }
    }
}

fn is_white_char(c: char) -> (r: bool)
    ensures
        r == is_white(c),
{
    let u = c as u32;
    (9 <= u && u <= 13) || u == 32 || u == 0x85 || u == 0xa0 || u == 0x1680 || (0x2000 <= u && u
        <= 0x200a) || u == 0x2028 || u == 0x2029 || u == 0x202f || u == 0x205f || u == 0x3000
}

fn slice_chars(s: &Vec<char>, from: usize, to: usize) -> (r: Vec<char>)
    requires
        from <= to <= s.len(),
    ensures
        r@ == s@.subrange(from as int, to as int),
{
    let mut r: Vec<char> = Vec::new();
    let mut k: usize = from;
    while k < to
        invariant
            from <= k <= to <= s.len(),
            r@ == s@.subrange(from as int, k as int),
        decreases to - k,
    {
        r.push(s[k]);
        k = k + 1;
        assert(r@ =~= s@.subrange(from as int, k as int));
    }
    r
}

fn trim_white_chars(s: &Vec<char>) -> (r: Vec<char>)
    ensures
        r@ == trim_white(s@),
{
    let n = s.len();
    let mut i: usize = 0;
    assert(s@.subrange(0, n as int) =~= s@);
    while i < n && is_white_char(s[i])
        invariant
            i <= n,
            n == s@.len(),
            trim_start_white(s@) == trim_start_white(s@.subrange(i as int, n as int)),
        decreases n - i,
    {
        assert(s@.subrange(i as int, n as int).drop_first() =~= s@.subrange(i + 1, n as int));
        i = i + 1;
    }
    let mut j: usize = n;
    while j > i && is_white_char(s[j - 1])
        invariant
            i <= j <= n,
            n == s@.len(),
            trim_white(s@) == trim_end_white(s@.subrange(i as int, j as int)),
        decreases j,
    {
        assert(s@.subrange(i as int, j as int).drop_last() =~= s@.subrange(i as int, j - 1));
        j = j - 1;
    }
    slice_chars(s, i, j)
}

fn first_alpha_index(s: &Vec<char>) -> (r: usize)
    ensures
        r == first_alpha(s@),
{
    let n = s.len();
    let mut i: usize = 0;
    assert(s@.skip(0) =~= s@);
    while i < n && !is_alphabetic(s[i])
        invariant
            i <= n,
            n == s@.len(),
            first_alpha(s@) == i + first_alpha(s@.skip(i as int)),
        decreases n - i,
    {
        assert(s@.skip(i as int).drop_first() =~= s@.skip(i + 1));
        i = i + 1;
    }
    i
}

fn dot_position(s: &Vec<char>) -> (r: usize)
    ensures
        r == dot_index(s@),
{
    let n = s.len();
    let mut i: usize = 0;
    assert(s@.skip(0) =~= s@);
    while i < n && s[i] != '.'
        invariant
            i <= n,
            n == s@.len(),
            dot_index(s@) == i + dot_index(s@.skip(i as int)),
        decreases n - i,
    {
        assert(s@.skip(i as int).drop_first() =~= s@.skip(i + 1));
        i = i + 1;
    }
    i
}

fn all_digit_chars(s: &Vec<char>) -> (r: bool)
    ensures
        r == all_digits(s@),
{
    let mut i: usize = 0;
    while i < s.len()
        invariant
            i <= s.len(),
            forall|j: int| 0 <= j < i ==> #[trigger] is_digit(s@[j]),
        decreases s.len() - i,
    {
        let u = s[i] as u32;
        if !(48 <= u && u <= 57) {
            assert(!is_digit(s@[i as int]));
            return false;
        }
        i = i + 1;
    }
    true
}

proof fn lemma_pow10_positive(k: nat)
    ensures
        pow10(k) >= 1,
    decreases k,
{
    if k > 0 {
        lemma_pow10_positive((k - 1) as nat);
    }
}

/// A digit prepended to a digit string adds it at the highest place.
proof fn lemma_digits_value_prepend(s: Seq<char>)
    requires
        s.len() > 0,
    ensures
        digits_value(s) == ((s[0] as u32) - 48) as nat * pow10((s.len() - 1) as nat) + digits_value(
            s.drop_first(),
        ),
    decreases s.len(),
{
    if s.len() == 1 {
        assert(s.drop_first() =~= Seq::<char>::empty());
        assert(s.drop_last() =~= Seq::<char>::empty());
        assert(s.last() == s[0]);
        assert(pow10(0) == 1);
        assert(digits_value(s.drop_last()) == 0);
        assert(digits_value(s.drop_first()) == 0);
        let d = ((s[0] as u32) - 48) as nat;
        assert(digits_value(s) == d);
        assert(d * pow10(0) == d);
    } else {
        let d = ((s[0] as u32) - 48) as nat;
        let p = pow10((s.len() - 2) as nat);
        lemma_digits_value_prepend(s.drop_last());
        assert(s.drop_last().drop_first() =~= s.drop_first().drop_last());
        assert(s.drop_first().last() == s.last());
        assert(s.drop_last()[0] == s[0]);
        let a = digits_value(s.drop_first().drop_last());
        let l = ((s.last() as u32) - 48) as nat;
        assert(digits_value(s.drop_last()) == d * p + a);
        assert(digits_value(s.drop_first()) == a * 10 + l);
        assert(digits_value(s) == digits_value(s.drop_last()) * 10 + l);
        assert(pow10((s.len() - 1) as nat) == 10 * p);
        let q = pow10((s.len() - 1) as nat);
        let x = digits_value(s);
        let y = digits_value(s.drop_first());
        assert(x == d * q + y) by (nonlinear_arith)
            requires
                x == (d * p + a) * 10 + l,
                y == a * 10 + l,
                q == 10 * p,
        ;
    }
}

/// The first `.` is within the text.
proof fn lemma_dot_index_bound(s: Seq<char>)
    ensures
        dot_index(s) <= s.len(),
        dot_index(s) < s.len() ==> s[dot_index(s) as int] == '.',
    decreases s.len(),
{
    if s.len() > 0 && s[0] != '.' {
        lemma_dot_index_bound(s.drop_first());
    }
}

/// The integer part of a digit string, capped at the largest `u64`.
fn capped_digits_value(s: &Vec<char>) -> (r: u64)
    requires
        all_digits(s@),
    ensures
        r == saturate(digits_value(s@)),
{
    let mut v: u64 = 0;
    let mut i: usize = 0;
    assert(s@.take(0) =~= Seq::<char>::empty());
    while i < s.len()
        invariant
            i <= s.len(),
            all_digits(s@),
            v == saturate(digits_value(s@.take(i as int))),
        decreases s.len() - i,
    {
        assert(is_digit(s@[i as int]));
        let d = (s[i] as u32 - 48) as u64;
        let t: u128 = (v as u128) * 10 + (d as u128);
        let ghost old_true = digits_value(s@.take(i as int));
        assert(s@.take(i + 1).drop_last() =~= s@.take(i as int));
        assert(digits_value(s@.take(i + 1)) == old_true * 10 + d);
        if t > u64::MAX as u128 {
            proof {
                if old_true > u64::MAX {
                    assert(old_true * 10 + d > u64::MAX) by (nonlinear_arith)
                        requires
                            old_true > u64::MAX,
                    ;
                } else {
                    assert(v == old_true);
                }
            }
            v = u64::MAX;
        } else {
            proof {
                if old_true > u64::MAX {
                    assert(v == u64::MAX);
                    assert(false);
                }
            }
            v = t as u64;
        }
        i = i + 1;
    }
    assert(s@.take(i as int) =~= s@);
    v
}

/// The fraction `0.s` times `m`, rounded down.
fn scaled_fraction(s: &Vec<char>, m: u64) -> (r: u64)
    requires
        all_digits(s@),
        1 <= m <= 1073741824,
    ensures
        r == digits_value(s@) * m / (pow10(s@.len()) as int),
        r < m,
{
    let n = s.len();
    let mut c: u64 = 0;
    let mut j: usize = n;
    assert(s@.skip(n as int) =~= Seq::<char>::empty());
    while j > 0
        invariant
            j <= n,
            n == s@.len(),
            all_digits(s@),
            1 <= m <= 1073741824,
            c == digits_value(s@.skip(j as int)) * m / (pow10((n - j) as nat) as int),
            c < m,
        decreases j,
    {
        let ghost tail = s@.skip(j as int);
        let ghost l = (n - j) as nat;
        let ghost f = digits_value(tail);
        let ghost p = pow10(l);
        assert(is_digit(s@[j - 1]));
        let d = (s[j - 1] as u32 - 48) as u64;
        let ghost longer = s@.skip(j - 1);
        assert(longer.drop_first() =~= tail);
        assert(longer[0] == s@[j - 1]);
        proof {
            lemma_digits_value_prepend(longer);
            lemma_pow10_positive(l);
            assert(digits_value(longer) == d * p + f);
            let x = f * m;
            assert((d * p + f) * m == (d * m) * p + x) by (nonlinear_arith)
                requires
                    x == f * m,
            ;
            lemma_hoist_over_denominator(x as int, (d * m) as int, p);
            lemma_div_denominator(((d * m) * p + x) as int, p as int, 10);
            assert(pow10((n - (j - 1)) as nat) == 10 * p);
            assert(p * 10 == 10 * p);
            assert(digits_value(longer) * m / (pow10((n - (j - 1)) as nat) as int) == (d * m + c) / 10);
        }
        assert(d * m <= 9 * 1073741824) by (nonlinear_arith)
            requires
                d <= 9,
                m <= 1073741824,
        ;
        assert(d * m + c <= 10 * m) by (nonlinear_arith)
            requires
                d <= 9,
                c < m,
        ;
        let next = (d * m + c) / 10;
        proof {
            assert(next < m) by (nonlinear_arith)
                requires
                    next == (d * m + c) / 10,
                    d <= 9,
                    c < m,
            ;
        }
        c = next;
        j = j - 1;
    }
    assert(s@.skip(0) =~= s@);
    c
}

/// The number `num` (already checked) times `m`, rounded down and capped.
fn scale_number(num: &Vec<char>, m: u64) -> (r: u64)
    requires
        is_number(num@),
        unit_size_is(m),
    ensures
        r == saturate(scaled(num@, m as nat)),
{
    let negative = num.len() > 0 && num[0] == '-';
    let signed = num.len() > 0 && (num[0] == '+' || num[0] == '-');
    let unsigned = if signed {
        slice_chars(num, 1, num.len())
    } else {
        slice_chars(num, 0, num.len())
    };
    assert(unsigned@ == unsigned_part(num@)) by {
        if signed {
            assert(num@.subrange(1, num@.len() as int) =~= num@.drop_first());
        } else {
            assert(num@.subrange(0, num@.len() as int) =~= num@);
        }
    }
    if negative {
        return 0;
    }
    let dot = dot_position(&unsigned);
    proof {
        lemma_dot_index_bound(unsigned@);
    }
    let ip = slice_chars(&unsigned, 0, dot);
    let fp = if dot < unsigned.len() {
        slice_chars(&unsigned, dot + 1, unsigned.len())
    } else {
        Vec::new()
    };
    assert(ip@ =~= int_digits(num@));
    assert(fp@ =~= frac_digits(num@));
    let i = capped_digits_value(&ip);
    let c = scaled_fraction(&fp, m);
    assert((i as u128) * (m as u128) <= 18446744073709551615u128 * 1073741824u128) by (nonlinear_arith)
        requires
            i <= u64::MAX,
            m <= 1073741824,
    ;
    let total: u128 = (i as u128) * (m as u128) + (c as u128);
    proof {
        let iv = digits_value(ip@);
        let fv = digits_value(fp@);
        let p = pow10(fp@.len());
        lemma_pow10_positive(fp@.len());
        // (iv * p + fv) * m / p == iv * m + fv * m / p
        assert((iv * p + fv) * m == fv * m + (iv * m) * p) by (nonlinear_arith);
        lemma_hoist_over_denominator((fv * m) as int, (iv * m) as int, p);
        if iv > u64::MAX {
            assert(i == u64::MAX);
            assert(iv * m >= iv) by (nonlinear_arith)
                requires
                    m >= 1,
            ;
            assert(i * m >= i) by (nonlinear_arith)
                requires
                    m >= 1,
            ;
        }
    }
    if total > u64::MAX as u128 {
        u64::MAX
    } else {
        total as u64
    }
}

/// Whether `m` is the size of one of the units.
pub open spec fn unit_size_is(m: u64) -> bool {
    m == 1 || m == 1024 || m == 1024 * 1024 || m == 1024 * 1024 * 1024
}

fn unit_bytes(unit: &String) -> (r: Option<u64>)
    ensures
        match unit_size(unit@) {
            None => r is None,
            Some(m) => r == Some(m as u64),
        },
{
    let b = String::from_str("B");
    let kb = String::from_str("KB");
    let kib = String::from_str("KIB");
    let mb = String::from_str("MB");
    let mib = String::from_str("MIB");
    let gb = String::from_str("GB");
    let gib = String::from_str("GIB");
    if *unit == b {
        Some(1)
    } else if *unit == kb || *unit == kib {
        Some(1024)
    } else if *unit == mb || *unit == mib {
        Some(1024 * 1024)
    } else if *unit == gb || *unit == gib {
        Some(1024 * 1024 * 1024)
    } else {
        None
    }
}

/// Reads a byte size such as `1.5KiB`: a decimal number followed by one of
/// the units B, KB, KiB, MB, MiB, GB, GiB in any case.
pub fn parse_bytes(s: &str) -> (r: Result<u64, MetricsError>)
    ensures
        match byte_count(s@) {
            Ok(n) => r == Ok::<u64, MetricsError>(n),
            Err(msg) => r matches Err(MetricsError::Parse(m)) && m@ == msg,
        },
{
    let cs = chars_of(s);
    let t = trim_white_chars(&cs);
    if t.len() == 0 {
        return Ok(0);
    }
    let i = first_alpha_index(&t);
    if i >= t.len() {
        return Err(MetricsError::Parse(String::from_str("Invalid byte format")));
    }
    let num = trim_white_chars(&slice_chars(&t, 0, i));
    let rest = trim_white_chars(&slice_chars(&t, i, t.len()));
    assert(t@.subrange(0, i as int) =~= t@.take(i as int));
    assert(t@.subrange(i as int, t@.len() as int) =~= t@.skip(i as int));
    let unit = uppercase(string_from_chars(&rest).as_str());
    let well_formed = number_check(&num);
    if !well_formed {
        return Err(MetricsError::Parse(String::from_str("invalid float literal")));
    }
    match unit_bytes(&unit) {
        None => Err(MetricsError::Parse(String::from_str("Unknown unit"))),
        Some(m) => Ok(scale_number(&num, m)),
    }
}

fn number_check(num: &Vec<char>) -> (r: bool)
    ensures
        r == is_number(num@),
{
    let signed = num.len() > 0 && (num[0] == '+' || num[0] == '-');
    let unsigned = if signed {
        slice_chars(num, 1, num.len())
    } else {
        slice_chars(num, 0, num.len())
    };
    assert(unsigned@ == unsigned_part(num@)) by {
        if signed {
            assert(num@.subrange(1, num@.len() as int) =~= num@.drop_first());
        } else {
            assert(num@.subrange(0, num@.len() as int) =~= num@);
        }
    }
    let dot = dot_position(&unsigned);
    proof {
        lemma_dot_index_bound(unsigned@);
    }
    let ip = slice_chars(&unsigned, 0, dot);
    let fp = if dot < unsigned.len() {
        slice_chars(&unsigned, dot + 1, unsigned.len())
    } else {
        Vec::new()
    };
    assert(ip@ =~= int_digits(num@));
    assert(fp@ =~= frac_digits(num@));
    all_digit_chars(&ip) && all_digit_chars(&fp) && (ip.len() > 0 || fp.len() > 0)
}

/// The pieces of `s` between the occurrences of `c`; one piece when `c`
/// does not occur, and empty pieces where two occurrences meet.
pub open spec fn split_on(s: Seq<char>, c: char) -> Seq<Seq<char>>
    decreases s.len(),
{
    if s.len() == 0 {
        seq![Seq::<char>::empty()]
    } else {
        let rest = split_on(s.drop_last(), c);
        if s.last() == c {
            rest.push(Seq::<char>::empty())
        } else {
            rest.update(rest.len() - 1, rest.last().push(s.last()))
        }
    }
}

/// The pieces of `s` between the occurrences of `c`.
pub fn split_chars(s: &Vec<char>, c: char) -> (r: Vec<Vec<char>>)
    ensures
        r@.map_values(|v: Vec<char>| v@) == split_on(s@, c),
{
    let mut pieces: Vec<Vec<char>> = Vec::new();
    let mut cur: Vec<char> = Vec::new();
    let mut i: usize = 0;
    assert(s@.take(0) =~= Seq::<char>::empty());
    assert(pieces@.map_values(|v: Vec<char>| v@).push(cur@) =~= split_on(s@.take(0), c));
    while i < s.len()
        invariant
            i <= s.len(),
            pieces@.map_values(|v: Vec<char>| v@).push(cur@) == split_on(s@.take(i as int), c),
        decreases s.len() - i,
    {
        let ghost before = pieces@.map_values(|v: Vec<char>| v@).push(cur@);
        assert(s@.take(i + 1).drop_last() =~= s@.take(i as int));
        assert(s@.take(i + 1).last() == s@[i as int]);
        if s[i] == c {
            let done = cur;
            let ghost dv = done@;
            let ghost prev = pieces@;
            pieces.push(done);
            cur = Vec::new();
            assert(pieces@.map_values(|v: Vec<char>| v@) =~= prev.map_values(|v: Vec<char>| v@).push(dv));
            assert(pieces@.map_values(|v: Vec<char>| v@).push(cur@) =~= before.push(Seq::<char>::empty()));
        } else {
            cur.push(s[i]);
            assert(pieces@.map_values(|v: Vec<char>| v@).push(cur@) =~= before.update(
                before.len() - 1,
                before.last().push(s@[i as int]),
            ));
        }
        i = i + 1;
    }
    assert(s@.take(i as int) =~= s@);
    let ghost prev = pieces@;
    let ghost cv = cur@;
    pieces.push(cur);
    assert(pieces@.map_values(|v: Vec<char>| v@) =~= prev.map_values(|v: Vec<char>| v@).push(cv));
    pieces
}

/// The two byte counts of a `used / total` field, or why they cannot be read.
pub open spec fn byte_pair(f: Seq<char>) -> Result<(u64, u64), Seq<char>> {
    let p = split_on(f, '/');
    if p.len() < 2 {
        Err("Invalid stats format"@)
    } else {
        match byte_count(p[0]) {
            Err(m) => Err(m),
            Ok(a) => match byte_count(p[1]) {
                Err(m) => Err(m),
                Ok(b) => Ok((a, b)),
            },
        }
    }
}

/// One line of container statistics: identifier, name, processor share as
/// printed (without its `%`), memory used and limit, bytes received and sent.
pub struct StatsLine {
    pub container_id: String,
    pub name: String,
    pub cpu_percent: String,
    pub memory_usage: u64,
    pub memory_limit: u64,
    pub network_rx_bytes: u64,
    pub network_tx_bytes: u64,
}

fn read_pair(f: &Vec<char>) -> (r: Result<(u64, u64), MetricsError>)
    ensures
        match byte_pair(f@) {
            Ok(p) => r == Ok::<(u64, u64), MetricsError>(p),
            Err(m) => r matches Err(MetricsError::Parse(e)) && e@ == m,
        },
{
    let p = split_chars(f, '/');
    let ghost pv = p@.map_values(|v: Vec<char>| v@);
    if p.len() < 2 {
        return Err(MetricsError::Parse(String::from_str("Invalid stats format")));
    }
    assert(pv[0] == p@[0]@ && pv[1] == p@[1]@);
    let a = parse_bytes(string_from_chars(&p[0]).as_str());
    match a {
        Err(e) => Err(e),
        Ok(a) => match parse_bytes(string_from_chars(&p[1]).as_str()) {
            Err(e) => Err(e),
            Ok(b) => Ok((a, b)),
        },
    }
}

/// Reads a line of `docker stats` output: five tab-separated fields
/// (identifier, name, processor share, memory `used / limit`, network
/// `received / sent`) after surrounding white space is removed.
pub fn parse_stats_line(stats: &str) -> (r: Result<StatsLine, MetricsError>)
    ensures
        ({
            let f = split_on(trim_white(stats@), '\t');
            if f.len() < 5 {
                r matches Err(MetricsError::Parse(e)) && e@ == "Invalid stats format"@
            } else {
                match (byte_pair(f[3]), byte_pair(f[4])) {
                    (Err(m), _) => r matches Err(MetricsError::Parse(e)) && e@ == m,
                    (Ok(_), Err(m)) => r matches Err(MetricsError::Parse(e)) && e@ == m,
                    (Ok(mem), Ok(net)) => r matches Ok(l) && l.container_id@ == f[0] && l.name@ == f[1]
                        && l.cpu_percent@ == drop_trailing(f[2], '%', '%') && l.memory_usage == mem.0
                        && l.memory_limit == mem.1 && l.network_rx_bytes == net.0 && l.network_tx_bytes
                        == net.1,
                }
            }
        }),
{
    let t = trim_white_chars(&chars_of(stats));
    let f = split_chars(&t, '\t');
    let ghost fv = f@.map_values(|v: Vec<char>| v@);
    if f.len() < 5 {
        return Err(MetricsError::Parse(String::from_str("Invalid stats format")));
    }
    assert(fv[0] == f@[0]@ && fv[1] == f@[1]@ && fv[2] == f@[2]@ && fv[3] == f@[3]@ && fv[4] == f@[4]@);
    let mem = read_pair(&f[3]);
    let (memory_usage, memory_limit) = match mem {
        Err(e) => return Err(e),
        Ok(p) => p,
    };
    let net = read_pair(&f[4]);
    let (network_rx_bytes, network_tx_bytes) = match net {
        Err(e) => return Err(e),
        Ok(p) => p,
    };
    let cpu = &f[2];
    let mut end: usize = cpu.len();
    assert(cpu@.subrange(0, end as int) =~= cpu@);
    while end > 0 && cpu[end - 1] == '%'
        invariant
            end <= cpu.len(),
            drop_trailing(cpu@, '%', '%') == drop_trailing(cpu@.subrange(0, end as int), '%', '%'),
        decreases end,
    {
        assert(cpu@.subrange(0, end as int).drop_last() =~= cpu@.subrange(0, end - 1));
        end = end - 1;
    }
    let cpu_percent = string_from_chars(&slice_chars(cpu, 0, end));
    Ok(StatsLine {
        container_id: string_from_chars(&f[0]),
        name: string_from_chars(&f[1]),
        cpu_percent,
        memory_usage,
        memory_limit,
        network_rx_bytes,
        network_tx_bytes,
    })
}

} // verus!
