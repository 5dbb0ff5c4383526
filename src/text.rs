//! Character-level helpers: Unicode whitespace trimming, case folding of
//! ASCII letters, decimal numbers.
use vstd::prelude::*;

verus! {

/// The code points of the Unicode `White_Space` property.
pub open spec fn is_ws(c: char) -> bool {
    let u = c as u32;
    (0x9 <= u && u <= 0xd) || u == 0x20 || u == 0x85 || u == 0xa0 || u == 0x1680 || (0x2000 <= u
        && u <= 0x200a) || u == 0x2028 || u == 0x2029 || u == 0x202f || u == 0x205f || u == 0x3000
}

/// `s` without its leading whitespace.
pub open spec fn trim_start_spec(s: Seq<char>) -> Seq<char>
    decreases s.len(),
{
    if s.len() > 0 && is_ws(s[0]) {
        trim_start_spec(s.drop_first())
    } else {
        s
    }
}

/// `s` without its trailing whitespace.
pub open spec fn trim_end_spec(s: Seq<char>) -> Seq<char>
    decreases s.len(),
{
    if s.len() > 0 && is_ws(s.last()) {
        trim_end_spec(s.drop_last())
    } else {
        s
    }
}

/// `s` without leading and trailing whitespace.
pub open spec fn trim_spec(s: Seq<char>) -> Seq<char> {
    trim_end_spec(trim_start_spec(s))
}

/// Relies on `str::trim`: it removes exactly the leading and trailing
/// characters of the Unicode `White_Space` property.
#[verifier::external_body]
pub(crate) fn trim_ws(s: &str) -> (r: String)
    ensures
        r@ == trim_spec(s@),
{
    s.trim().to_string()
}

/// What `str::to_uppercase` makes of a text.
pub uninterp spec fn upper_of(s: Seq<char>) -> Seq<char>;

/// Relies on `str::to_uppercase`: the result is determined by the characters
/// of the argument alone.
#[verifier::external_body]
pub(crate) fn to_upper(s: &str) -> (r: String)
    ensures
        r@ == upper_of(s@),
{
    s.to_uppercase()
}


/// The number of leading whitespace characters that `trim_start_spec` drops.
pub proof fn lemma_trim_start(s: Seq<char>) -> (i: int)
    ensures
        0 <= i <= s.len(),
        trim_start_spec(s) == s.subrange(i, s.len() as int),
        forall|k: int| 0 <= k < i ==> is_ws(#[trigger] s[k]),
        i < s.len() ==> !is_ws(s[i]),
    decreases s.len(),
{
    if s.len() > 0 && is_ws(s[0]) {
        let j = lemma_trim_start(s.drop_first());
        assert(s.drop_first().subrange(j, s.len() - 1) =~= s.subrange(j + 1, s.len() as int));
        assert forall|k: int| 0 <= k < j + 1 implies is_ws(#[trigger] s[k]) by {
            if k > 0 {
                assert(s[k] == s.drop_first()[k - 1]);
            }
        }
        j + 1
    } else {
        assert(s.subrange(0, s.len() as int) =~= s);
        0
    }
}

/// The length of what `trim_end_spec` keeps.
pub proof fn lemma_trim_end(s: Seq<char>) -> (j: int)
    ensures
        0 <= j <= s.len(),
        trim_end_spec(s) == s.subrange(0, j),
        forall|k: int| j <= k < s.len() ==> is_ws(#[trigger] s[k]),
        j > 0 ==> !is_ws(s[j - 1]),
    decreases s.len(),
{
    if s.len() > 0 && is_ws(s.last()) {
        let j = lemma_trim_end(s.drop_last());
        assert(s.drop_last().subrange(0, j) =~= s.subrange(0, j));
        assert forall|k: int| j <= k < s.len() implies is_ws(#[trigger] s[k]) by {
            if k < s.len() - 1 {
                assert(s[k] == s.drop_last()[k]);
            }
        }
        j
    } else {
        assert(s.subrange(0, s.len() as int) =~= s);
        s.len() as int
    }
}

/// Trimming keeps one contiguous run of the text unchanged: everything before
/// it and after it is whitespace, and it neither starts nor ends with
/// whitespace. The returned pair is where that run starts and ends.
pub proof fn lemma_trim_keeps_interior(s: Seq<char>) -> (r: (int, int))
    ensures
        0 <= r.0 <= r.1 <= s.len(),
        trim_spec(s) == s.subrange(r.0, r.1),
        forall|k: int| 0 <= k < r.0 ==> is_ws(#[trigger] s[k]),
        forall|k: int| r.1 <= k < s.len() ==> is_ws(#[trigger] s[k]),
        r.0 < r.1 ==> !is_ws(s[r.0]) && !is_ws(s[r.1 - 1]),
{
    let i = lemma_trim_start(s);
    let t = s.subrange(i, s.len() as int);
    let j = lemma_trim_end(t);
    assert(t.subrange(0, j) =~= s.subrange(i, i + j));
    assert forall|k: int| i + j <= k < s.len() implies is_ws(#[trigger] s[k]) by {
        assert(s[k] == t[k - i]);
    }
    if j > 0 {
        assert(s[i + j - 1] == t[j - 1]);
    }
    (i, i + j)
}

/// A text trims to nothing exactly when all of its characters are whitespace.
pub proof fn lemma_trim_empty_iff_all_ws(s: Seq<char>)
    ensures
        trim_spec(s).len() == 0 <==> (forall|k: int| 0 <= k < s.len() ==> is_ws(#[trigger] s[k])),
{
    let (i, j) = lemma_trim_keeps_interior(s);
    if trim_spec(s).len() == 0 {
        assert forall|k: int| 0 <= k < s.len() implies is_ws(#[trigger] s[k]) by {
            if k >= i {
                assert(j <= k);
            }
        }
    }
    if forall|k: int| 0 <= k < s.len() ==> is_ws(#[trigger] s[k]) {
        if i < j {
            assert(is_ws(s[i]));
        }
    }
}

/// `c` equals the character `p` up to the case of an ASCII letter, where `p`
/// is written in lower case.
pub open spec fn ci_eq(c: char, p: char) -> bool {
    c == p || ('a' <= p && p <= 'z' && (c as u32) + 32 == (p as u32))
}

/// `s` equals the lower-case pattern `p` up to the case of ASCII letters.
pub open spec fn matches_ci(s: Seq<char>, p: Seq<char>) -> bool {
    s.len() == p.len() && forall|i: int| 0 <= i < s.len() ==> ci_eq(#[trigger] s[i], p[i])
}

/// Compares `s` with the lower-case pattern `p`, ignoring the case of ASCII
/// letters in `s`.
pub fn eq_ignore_case(s: &str, p: &str) -> (r: bool)
    ensures
        r == matches_ci(s@, p@),
{
    let n = s.unicode_len();
    if n != p.unicode_len() {
        return false;
    }
    let mut i: usize = 0;
    while i < n
        invariant
            n == s@.len(),
            n == p@.len(),
            i <= n,
            forall|k: int| 0 <= k < i ==> ci_eq(#[trigger] s@[k], p@[k]),
        decreases n - i,
    {
        let c = s.get_char(i);
        let q = p.get_char(i);
        let same = c == q || ('a' <= q && q <= 'z' && (c as u32) + 32 == (q as u32));
        if !same {
            return false;
        }
        i = i + 1;
    }
    true
}

/// Whether `s` and `t` hold the same characters.
pub fn same_text(s: &str, t: &str) -> (r: bool)
    ensures
        r == (s@ == t@),
{
    let n = s.unicode_len();
    if n != t.unicode_len() {
        return false;
    }
    let mut i: usize = 0;
    while i < n
        invariant
            n == s@.len(),
            n == t@.len(),
            i <= n,
            forall|k: int| 0 <= k < i ==> #[trigger] s@[k] == t@[k],
        decreases n - i,
    {
        if s.get_char(i) != t.get_char(i) {
            return false;
        }
        i = i + 1;
    }
    assert(s@ =~= t@);
    true
}

/// An ASCII decimal digit.
pub open spec fn is_digit(c: char) -> bool {
    '0' <= c && c <= '9'
}

/// A non-empty run of decimal digits.
pub open spec fn all_digits(s: Seq<char>) -> bool {
    s.len() > 0 && forall|i: int| 0 <= i < s.len() ==> is_digit(#[trigger] s[i])
}

/// The number that a run of decimal digits denotes.
pub open spec fn digits_value(s: Seq<char>) -> nat
    decreases s.len(),
{
    if s.len() == 0 {
        0
    } else {
        digits_value(s.drop_last()) * 10 + ((s.last() as u32) - ('0' as u32)) as nat
    }
}

/// A decimal integer with an optional sign, as `str::parse` reads one.
pub open spec fn decimal_text(s: Seq<char>) -> Option<int> {
    if s.len() > 0 && (s[0] == '-' || s[0] == '+') {
        if all_digits(s.drop_first()) {
            if s[0] == '-' {
                Some(-digits_value(s.drop_first()))
            } else {
                Some(digits_value(s.drop_first()) as int)
            }
        } else {
            None
        }
    } else if all_digits(s) {
        Some(digits_value(s) as int)
    } else {
        None
    }
}

/// The integer that a configuration value denotes: the words `true`, `on`,
/// `yes` stand for 1 and `false`, `off`, `no` for 0, in any letter case;
/// anything else is read as a decimal integer.
pub open spec fn int_text(s: Seq<char>) -> Option<int> {
    if matches_ci(s, "true"@) || matches_ci(s, "on"@) || matches_ci(s, "yes"@) {
        Some(1)
    } else if matches_ci(s, "false"@) || matches_ci(s, "off"@) || matches_ci(s, "no"@) {
        Some(0)
    } else {
        decimal_text(s)
    }
}

/// Magnitudes beyond this bound are out of range for every caller.
pub const PARSE_CAP: u64 = 4294967296;

/// Reads the integer that `s` denotes (see `int_text`) and accepts it only
/// within `lo..=hi`.
pub fn parse_int_in(s: &str, lo: i64, hi: i64) -> (r: Option<i64>)
    requires
        -(PARSE_CAP as int) <= lo <= hi <= PARSE_CAP,
    ensures
        match int_text(s@) {
            Some(v) => if lo <= v <= hi {
                r == Some(v as i64)
            } else {
                r is None
            },
            None => r is None,
        },
{
    let v: i64;
    if eq_ignore_case(s, "true") || eq_ignore_case(s, "on") || eq_ignore_case(s, "yes") {
        v = 1;
    } else if eq_ignore_case(s, "false") || eq_ignore_case(s, "off") || eq_ignore_case(s, "no") {
        v = 0;
    } else {
        let n = s.unicode_len();
        let mut start: usize = 0;
        let mut neg = false;
        if n > 0 {
            let c = s.get_char(0);
            if c == '-' {
                neg = true;
                start = 1;
            } else if c == '+' {
                start = 1;
            }
        }
        if start == n {
            return None;
        }
        let mut acc: u64 = 0;
        let mut big = false;
        let mut i: usize = start;
        while i < n
            invariant
                n == s@.len(),
                start <= i <= n,
                start < n,
                start <= 1,
                int_text(s@) == decimal_text(s@),
                start == 0 ==> s@[0] != '-' && s@[0] != '+',
                start == 1 ==> s@[0] == '-' || s@[0] == '+',
                neg <==> (start == 1 && s@[0] == '-'),
                forall|k: int| start <= k < i ==> is_digit(#[trigger] s@[k]),
                !big ==> acc == digits_value(s@.subrange(start as int, i as int)),
                !big ==> acc <= PARSE_CAP,
                big ==> digits_value(s@.subrange(start as int, i as int)) > PARSE_CAP,
            decreases n - i,
        {
            let c = s.get_char(i);
            if !('0' <= c && c <= '9') {
                proof {
                    let d = s@.subrange(start as int, n as int);
                    assert(d[i - start] == c);
                    if start == 1 {
                        assert(d =~= s@.drop_first());
                    } else {
                        assert(d =~= s@);
                    }
                }
                return None;
            }
            let ghost before = s@.subrange(start as int, i as int);
            let ghost after = s@.subrange(start as int, i + 1);
            proof {
                assert(after.drop_last() =~= before);
                assert(after.last() == c);
            }
            if !big {
                let d = (c as u32 - '0' as u32) as u64;
                acc = acc * 10 + d;
                if acc > PARSE_CAP {
                    big = true;
                }
            } else {
                let ghost b = digits_value(before);
                assert(b * 10 >= b) by (nonlinear_arith)
                    requires
                        b >= 0,
                ;
            }
            i = i + 1;
        }
        let ghost d = s@.subrange(start as int, n as int);
        proof {
            if start == 1 {
                assert(d =~= s@.drop_first());
            } else {
                assert(d =~= s@);
            }
        }
        if big {
            return None;
        }
        if neg {
            v = -(acc as i64);
        } else {
            v = acc as i64;
        }
    }
    if lo <= v && v <= hi {
        Some(v)
    } else {
        None
    }
}

/// The decimal text of one digit.
pub open spec fn digit_text(d: nat) -> Seq<char> {
    if d == 0 {
        "0"@
    } else if d == 1 {
        "1"@
    } else if d == 2 {
        "2"@
    } else if d == 3 {
        "3"@
    } else if d == 4 {
        "4"@
    } else if d == 5 {
        "5"@
    } else if d == 6 {
        "6"@
    } else if d == 7 {
        "7"@
    } else if d == 8 {
        "8"@
    } else {
        "9"@
    }
}

/// The decimal text of a natural number, without leading zeros.
pub open spec fn decimal(n: nat) -> Seq<char>
    decreases n,
{
    if n < 10 {
        digit_text(n)
    } else {
        decimal(n / 10) + digit_text(n % 10)
    }
}

/// The decimal text of an integer, with a minus sign when it is negative.
pub open spec fn signed_decimal(v: int) -> Seq<char> {
    if v < 0 {
        "-"@ + decimal((-v) as nat)
    } else {
        decimal(v as nat)
    }
}

fn digit_str(d: u64) -> (r: &'static str)
    requires
        d < 10,
    ensures
        r@ == digit_text(d as nat),
{
    if d == 0 {
        "0"
    } else if d == 1 {
        "1"
    } else if d == 2 {
        "2"
    } else if d == 3 {
        "3"
    } else if d == 4 {
        "4"
    } else if d == 5 {
        "5"
    } else if d == 6 {
        "6"
    } else if d == 7 {
        "7"
    } else if d == 8 {
        "8"
    } else {
        "9"
    }
}

/// Appends the decimal text of `n` to `out`.
pub fn push_decimal(out: &mut String, n: u64)
    ensures
        final(out)@ == old(out)@ + decimal(n as nat),
    decreases n,
{
    if n >= 10 {
        push_decimal(out, n / 10);
        out.append(digit_str(n % 10));
        proof {
            assert(old(out)@ + decimal((n / 10) as nat) + digit_text((n % 10) as nat) =~= old(out)@
                + decimal(n as nat));
        }
    } else {
        out.append(digit_str(n));
    }
}

/// Appends the decimal text of `v`, signed, to `out`.
pub fn push_signed(out: &mut String, v: i64)
    ensures
        final(out)@ == old(out)@ + signed_decimal(v as int),
{
    if v < 0 {
        out.append("-");
        let m: u64 = (-(v as i128)) as u64;
        push_decimal(out, m);
        proof {
            assert(old(out)@ + "-"@ + decimal(m as nat) =~= old(out)@ + signed_decimal(v as int));
        }
    } else {
        push_decimal(out, v as u64);
    }
}

} // verus!
