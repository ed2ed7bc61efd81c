//! Text helpers the editors and lists share: whitespace trimming, decimal
//! integers in both directions, substring search and string equality, each
//! stated over the characters of the strings involved.

use vstd::prelude::*;

verus! {

// ---------------------------------------------------------------------------
// whitespace and trimming
// ---------------------------------------------------------------------------

/// The Unicode `White_Space` characters (what `char::is_whitespace` accepts).
pub open spec fn is_ws(c: char) -> bool {
    let u = c as u32;
    (0x9 <= u <= 0xd) || u == 0x20 || u == 0x85 || u == 0xa0 || u == 0x1680 || (0x2000 <= u
        <= 0x200a) || u == 0x2028 || u == 0x2029 || u == 0x202f || u == 0x205f || u == 0x3000
}

/// `s` without its leading whitespace.
pub open spec fn trim_start_seq(s: Seq<char>) -> Seq<char>
    decreases s.len(),
{
    if s.len() > 0 && is_ws(s[0]) {
        trim_start_seq(s.drop_first())
    } else {
        s
    }
}

/// `s` without its trailing whitespace.
pub open spec fn trim_end_seq(s: Seq<char>) -> Seq<char>
    decreases s.len(),
{
    if s.len() > 0 && is_ws(s.last()) {
        trim_end_seq(s.drop_last())
    } else {
        s
    }
}

/// `s` without leading and trailing whitespace (`str::trim`).
pub open spec fn trim_seq(s: Seq<char>) -> Seq<char> {
    trim_end_seq(trim_start_seq(s))
}

pub fn is_whitespace_char(c: char) -> (r: bool)
    ensures
        r == is_ws(c),
{
    let u = c as u32;
    (0x9 <= u && u <= 0xd) || u == 0x20 || u == 0x85 || u == 0xa0 || u == 0x1680 || (0x2000 <= u
        && u <= 0x200a) || u == 0x2028 || u == 0x2029 || u == 0x202f || u == 0x205f || u == 0x3000
}

proof fn lemma_trim_start_skip(s: Seq<char>, i: int)
    requires
        0 <= i <= s.len(),
        forall|k: int| 0 <= k < i ==> is_ws(#[trigger] s[k]),
    ensures
        trim_start_seq(s) == trim_start_seq(s.subrange(i, s.len() as int)),
    decreases i,
{
    if i > 0 {
        assert(s.drop_first() == s.subrange(1, s.len() as int));
        lemma_trim_start_skip(s.drop_first(), i - 1);
        assert(s.drop_first().subrange(i - 1, s.drop_first().len() as int) == s.subrange(
            i,
            s.len() as int,
        ));
    } else {
        assert(s.subrange(0, s.len() as int) == s);
    }
}

proof fn lemma_trim_end_skip(s: Seq<char>, j: int)
    requires
        0 <= j <= s.len(),
        forall|k: int| j <= k < s.len() ==> is_ws(#[trigger] s[k]),
    ensures
        trim_end_seq(s) == trim_end_seq(s.subrange(0, j)),
    decreases s.len() - j,
{
    if j < s.len() {
        lemma_trim_end_skip(s.drop_last(), j);
        assert(s.drop_last().subrange(0, j) == s.subrange(0, j));
    } else {
        assert(s.subrange(0, j) == s);
    }
}

/// `str::trim`: the characters of `s` without leading or trailing whitespace.
pub fn trim(s: &str) -> (r: String)
    ensures
        r@ == trim_seq(s@),
{
    let n = s.unicode_len();
    let mut i: usize = 0;
    while i < n && is_whitespace_char(s.get_char(i))
        invariant
            n == s@.len(),
            i <= n,
            forall|k: int| 0 <= k < i ==> is_ws(#[trigger] s@[k]),
        decreases n - i,
    {
        i = i + 1;
    }
    proof {
        lemma_trim_start_skip(s@, i as int);
    }
    let ghost rest = s@.subrange(i as int, n as int);
    assert(trim_start_seq(s@) == rest) by {
        if rest.len() > 0 {
            assert(rest[0] == s@[i as int]);
        }
    }
    let mut j: usize = n;
    while j > i && is_whitespace_char(s.get_char(j - 1))
        invariant
            n == s@.len(),
            i <= j <= n,
            forall|k: int| j <= k < n ==> is_ws(#[trigger] s@[k]),
        decreases j,
    {
        j = j - 1;
    }
    proof {
        let t = j - i;
        assert forall|k: int| t <= k < rest.len() implies is_ws(#[trigger] rest[k]) by {
            assert(rest[k] == s@[k + i]);
        }
        lemma_trim_end_skip(rest, t as int);
        let kept = rest.subrange(0, t as int);
        assert(kept == s@.subrange(i as int, j as int));
        if kept.len() > 0 {
            assert(kept.last() == s@[j - 1]);
        }
    }
    String::from_str(s.substring_char(i, j))
}

// ---------------------------------------------------------------------------
// decimal integers
// ---------------------------------------------------------------------------

pub open spec fn is_digit(c: char) -> bool {
    '0' as u32 <= c as u32 <= '9' as u32
}

pub open spec fn digit_value(c: char) -> int {
    c as u32 - '0' as u32
}

pub open spec fn all_digits(s: Seq<char>) -> bool {
    forall|k: int| 0 <= k < s.len() ==> is_digit(#[trigger] s[k])
}

/// The number the decimal digits `s` spell.
pub open spec fn digits_value(s: Seq<char>) -> nat
    decreases s.len(),
{
    if s.len() == 0 {
        0
    } else {
        (digits_value(s.drop_last()) * 10 + digit_value(s.last())) as nat
    }
}

/// What `str::parse::<i64>` and friends read: an optional `+` or `-`, then
/// at least one ASCII digit and nothing else.
pub open spec fn int_text_value(s: Seq<char>) -> Option<int> {
    if s.len() > 0 && (s[0] == '+' || s[0] == '-') {
        let d = s.drop_first();
        if d.len() > 0 && all_digits(d) {
            Some(if s[0] == '-' { -digits_value(d) } else { digits_value(d) as int })
        } else {
            None
        }
    } else if s.len() > 0 && all_digits(s) {
        Some(digits_value(s) as int)
    } else {
        None
    }
}

/// `s.parse::<i64>().ok()`: the value when `s` is an integer that fits.
pub open spec fn parse_i64_spec(s: Seq<char>) -> Option<i64> {
    match int_text_value(s) {
        Some(v) => if i64::MIN <= v <= i64::MAX {
            Some(v as i64)
        } else {
            None
        },
        None => None,
    }
}

proof fn lemma_digits_prefix_grows(s: Seq<char>, k: int)
    requires
        0 <= k <= s.len(),
        all_digits(s),
    ensures
        digits_value(s.subrange(0, k)) <= digits_value(s),
    decreases s.len() - k,
{
    if k < s.len() {
        lemma_digits_prefix_grows(s, k + 1);
        let p = s.subrange(0, k + 1);
        assert(p.drop_last() == s.subrange(0, k));
        assert(is_digit(s[k]));
    } else {
        assert(s.subrange(0, k) == s);
    }
}

/// The value of the digits `s[start..]`, or `None` when it exceeds `bound`.
fn digits_upto(s: &str, start: usize, bound: u64) -> (r: Option<u64>)
    requires
        start <= s@.len(),
        9 <= bound,
        all_digits(s@.subrange(start as int, s@.len() as int)),
    ensures
        match r {
            Some(v) => v == digits_value(s@.subrange(start as int, s@.len() as int)) && v <= bound,
            None => digits_value(s@.subrange(start as int, s@.len() as int)) > bound,
        },
{
    let n = s.unicode_len();
    let ghost d = s@.subrange(start as int, n as int);
    let mut i: usize = start;
    let mut acc: u64 = 0;
    while i < n
        invariant
            n == s@.len(),
            start <= i <= n,
            d == s@.subrange(start as int, n as int),
            all_digits(d),
            acc == digits_value(d.subrange(0, i - start)),
            acc <= bound,
            9 <= bound,
        decreases n - i,
    {
        let c = s.get_char(i);
        assert(c == d[i - start]);
        assert(is_digit(d[i - start]));
        let dv = (c as u32 - '0' as u32) as u64;
        let ghost p = d.subrange(0, i - start + 1);
        assert(p.drop_last() == d.subrange(0, i - start));
        assert(p.last() == c);
        if acc > (bound - dv) / 10 {
            assert(acc * 10 + dv > bound) by (nonlinear_arith)
                requires
                    acc > (bound - dv) / 10,
                    dv <= 9,
                    9 <= bound,
            ;
            proof {
                lemma_digits_prefix_grows(d, i - start + 1);
            }
            return None;
        }
        assert(acc * 10 + dv <= bound) by (nonlinear_arith)
            requires
                acc <= (bound - dv) / 10,
                dv <= bound,
        ;
        acc = acc * 10 + dv;
        i = i + 1;
    }
    assert(d.subrange(0, n - start) == d);
    Some(acc)
}

/// `s.parse::<i64>().ok()` (no surrounding whitespace is skipped).
pub fn parse_i64(s: &str) -> (r: Option<i64>)
    ensures
        r == parse_i64_spec(s@),
{
    let n = s.unicode_len();
    if n == 0 {
        return None;
    }
    let first = s.get_char(0);
    let signed = first == '+' || first == '-';
    let start: usize = if signed { 1 } else { 0 };
    if signed && n == 1 {
        return None;
    }
    let mut i: usize = start;
    while i < n
        invariant
            n == s@.len(),
            n >= 1,
            first == s@[0],
            signed == (first == '+' || first == '-'),
            start == (if signed { 1usize } else { 0usize }),
            start <= i <= n,
            forall|k: int| start <= k < i ==> is_digit(#[trigger] s@[k]),
        decreases n - i,
    {
        let c = s.get_char(i);
        if !((c as u32) >= ('0' as u32) && (c as u32) <= ('9' as u32)) {
            proof {
                let d = s@.subrange(start as int, n as int);
                assert(d[i - start] == c);
                if signed {
                    assert(s@.drop_first() == d);
                } else {
                    assert(d == s@);
                }
                assert(!all_digits(d));
            }
            return None;
        }
        i = i + 1;
    }
    let ghost d = s@.subrange(start as int, n as int);
    assert(all_digits(d)) by {
        assert forall|k: int| 0 <= k < d.len() implies is_digit(#[trigger] d[k]) by {
            assert(d[k] == s@[k + start]);
        }
    }
    if signed {
        assert(s@.drop_first() == d);
    } else {
        assert(s@ == d);
    }
    if first == '-' {
        match digits_upto(s, start, 9223372036854775808u64) {
            Some(v) => {
                if v == 9223372036854775808u64 {
                    Some(i64::MIN)
                } else {
                    Some(-(v as i64))
                }
            },
            None => None,
        }
    } else {
        match digits_upto(s, start, 9223372036854775807u64) {
            Some(v) => Some(v as i64),
            None => None,
        }
    }
}

/// The decimal digits of `n`, most significant first.
pub open spec fn decimal_digits(n: nat) -> Seq<char>
    decreases n,
{
    if n < 10 {
        seq![digit_char(n)]
    } else {
        decimal_digits(n / 10).push(digit_char(n % 10))
    }
}

pub open spec fn digit_char(d: nat) -> char {
    (('0' as u32) + d) as char
}

/// `i.to_string()`: an optional `-`, then the decimal digits.
pub open spec fn int_text(i: int) -> Seq<char> {
    if i < 0 {
        seq!['-'] + decimal_digits((-i) as nat)
    } else {
        decimal_digits(i as nat)
    }
}

/// The decimal digits of `n` are digits and spell `n`.
pub proof fn lemma_decimal_digits_value(n: nat)
    ensures
        all_digits(decimal_digits(n)),
        digits_value(decimal_digits(n)) == n,
    decreases n,
{
    let d = decimal_digits(n);
    if n < 10 {
        assert(d.drop_last() =~= Seq::<char>::empty());
        assert(d.last() == digit_char(n));
        assert(digit_value(digit_char(n)) == n);
        assert(digits_value(d) == digits_value(d.drop_last()) * 10 + digit_value(d.last()));
    } else {
        lemma_decimal_digits_value(n / 10);
        assert(d.drop_last() =~= decimal_digits(n / 10));
        assert(digit_value(digit_char(n % 10)) == n % 10);
        assert forall|k: int| 0 <= k < d.len() implies is_digit(#[trigger] d[k]) by {
            if k < d.len() - 1 {
                assert(d[k] == decimal_digits(n / 10)[k]);
            }
        }
        assert(d.last() == digit_char(n % 10));
        assert((n / 10) * 10 + n % 10 == n);
        assert(digits_value(d) == digits_value(d.drop_last()) * 10 + digit_value(d.last()));
    }
}

/// A number printed and read back is the same number: `to_string` then
/// `parse`, with the trimming the fields apply.
pub proof fn lemma_int_text_reads_back(i: i64)
    ensures
        trim_seq(int_text(i as int)) == int_text(i as int),
        parse_i64_spec(trim_seq(int_text(i as int))) == Some(i),
{
    let m: nat = if i < 0 { (-(i as int)) as nat } else { i as nat };
    lemma_decimal_digits_value(m);
    lemma_decimal_digits_len(m);
    let d = decimal_digits(m);
    let s = int_text(i as int);
    assert(is_digit(d[0]));
    assert(is_digit(d.last()));
    if i < 0 {
        assert(s[0] == '-');
        assert(s.last() == d.last());
        assert(s.drop_first() =~= d);
    } else {
        assert(s == d);
    }
    assert(!is_ws(s[0]));
    assert(!is_ws(s.last()));
    assert(trim_start_seq(s) == s);
    assert(trim_end_seq(s) == s);
}

/// Different numbers have different decimal digits.
pub proof fn lemma_decimal_digits_injective(a: nat, b: nat)
    requires
        decimal_digits(a) == decimal_digits(b),
    ensures
        a == b,
    decreases a,
{
    lemma_decimal_digits_len(a);
    lemma_decimal_digits_len(b);
    if a < 10 && b < 10 {
        assert(decimal_digits(a)[0] == digit_char(a));
        assert(decimal_digits(b)[0] == digit_char(b));
        lemma_digit_char_injective(a, b);
    } else if a >= 10 && b >= 10 {
        let da = decimal_digits(a);
        let db = decimal_digits(b);
        assert(da.last() == digit_char(a % 10));
        assert(db.last() == digit_char(b % 10));
        lemma_digit_char_injective(a % 10, b % 10);
        assert(da.drop_last() =~= decimal_digits(a / 10));
        assert(db.drop_last() =~= decimal_digits(b / 10));
        lemma_decimal_digits_injective(a / 10, b / 10);
    }
}

/// The digits of a number: one for a single digit, more from ten on.
pub proof fn lemma_decimal_digits_len(n: nat)
    ensures
        decimal_digits(n).len() >= 1,
        n < 10 <==> decimal_digits(n).len() == 1,
    decreases n,
{
    if n >= 10 {
        lemma_decimal_digits_len(n / 10);
    }
}

proof fn lemma_digit_char_injective(a: nat, b: nat)
    requires
        a < 10,
        b < 10,
        digit_char(a) == digit_char(b),
    ensures
        a == b,
{
    assert(('0' as u32) + a < 0x3a);
    assert(('0' as u32) + b < 0x3a);
}

/// `String::push` (one character appended).
#[verifier::external_body]
pub(crate) fn push_char(s: &mut String, c: char)
    ensures
        final(s)@ == old(s)@.push(c),
{
    s.push(c);
}

proof fn lemma_digit_char(d: nat)
    requires
        d < 10,
    ensures
        is_digit(digit_char(d)),
        digit_value(digit_char(d)) == d,
{
    assert(('0' as u32) + d < 0x3a);
}

/// Appends the decimal digits of `n` to `out`.
fn push_decimal(out: &mut String, n: u64)
    ensures
        final(out)@ == old(out)@ + decimal_digits(n as nat),
    decreases n,
{
    if n >= 10 {
        push_decimal(out, n / 10);
    }
    let d = (n % 10) as u32;
    proof {
        lemma_digit_char(d as nat);
    }
    let c: char = (48u8 + (d as u8)) as char;
    push_char(out, c);
    proof {
        if n >= 10 {
            assert(decimal_digits(n as nat) == decimal_digits((n / 10) as nat).push(
                digit_char((n % 10) as nat),
            ));
        }
    }
}

/// `n.to_string()` for an `i64`.
pub fn i64_text(n: i64) -> (r: String)
    ensures
        r@ == int_text(n as int),
{
    let mut out = String::new();
    if n < 0 {
        push_char(&mut out, '-');
        let m: u64 = ((-(n + 1)) as u64) + 1;
        push_decimal(&mut out, m);
    } else {
        push_decimal(&mut out, n as u64);
    }
    out
}

/// Appends the decimal digits of a `u128` to `out`.
fn push_decimal_wide(out: &mut String, n: u128)
    ensures
        final(out)@ == old(out)@ + decimal_digits(n as nat),
    decreases n,
{
    if n >= 10 {
        push_decimal_wide(out, n / 10);
    }
    let d = (n % 10) as u32;
    proof {
        lemma_digit_char(d as nat);
    }
    let c: char = (48u8 + (d as u8)) as char;
    push_char(out, c);
    proof {
        if n >= 10 {
            assert(decimal_digits(n as nat) == decimal_digits((n / 10) as nat).push(
                digit_char((n % 10) as nat),
            ));
        }
    }
}

/// `n.to_string()` for an `i128`.
pub fn i128_text(n: i128) -> (r: String)
    ensures
        r@ == int_text(n as int),
{
    let mut out = String::new();
    if n < 0 {
        push_char(&mut out, '-');
        let m: u128 = ((-(n + 1)) as u128) + 1;
        push_decimal_wide(&mut out, m);
    } else {
        push_decimal_wide(&mut out, n as u128);
    }
    out
}

/// `n.to_string()` for a `u64`.
pub fn u64_text(n: u64) -> (r: String)
    ensures
        r@ == decimal_digits(n as nat),
{
    let mut out = String::new();
    push_decimal(&mut out, n);
    out
}

// ---------------------------------------------------------------------------
// equality and search
// ---------------------------------------------------------------------------

/// Whether `a` and `b` hold the same characters.
pub fn eq_str(a: &String, b: &str) -> (r: bool)
    ensures
        r == (a@ == b@),
{
    let bs = String::from_str(b);
    *a == bs
}

/// Whether `needle` occurs in `hay` at position `i`.
pub open spec fn occurs_at(hay: Seq<char>, needle: Seq<char>, i: int) -> bool {
    0 <= i && i + needle.len() <= hay.len() && hay.subrange(i, i + needle.len()) == needle
}

/// Whether `needle` occurs anywhere in `hay` (`str::contains`).
pub open spec fn contains_seq(hay: Seq<char>, needle: Seq<char>) -> bool {
    exists|i: int| occurs_at(hay, needle, i)
}

/// Whether `hay` starts with `prefix` (`str::starts_with`).
pub open spec fn starts_with_seq(hay: Seq<char>, prefix: Seq<char>) -> bool {
    prefix.len() <= hay.len() && hay.subrange(0, prefix.len() as int) == prefix
}

fn occurs_at_exec(hay: &Vec<char>, needle: &Vec<char>, i: usize) -> (r: bool)
    requires
        i + needle.len() <= hay.len(),
    ensures
        r == occurs_at(hay@, needle@, i as int),
{
    let m = needle.len();
    let mut k: usize = 0;
    while k < m
        invariant
            m == needle.len(),
            i + m <= hay.len(),
            k <= m,
            forall|t: int| 0 <= t < k ==> hay@[i + t] == #[trigger] needle@[t],
        decreases m - k,
    {
        if hay[i + k] != needle[k] {
            assert(hay@.subrange(i as int, i + m)[k as int] != needle@[k as int]);
            return false;
        }
        k = k + 1;
    }
    assert(hay@.subrange(i as int, i + m) == needle@);
    true
}

/// The characters of `s`, one per element.
pub fn chars_of(s: &str) -> (v: Vec<char>)
    ensures
        v@ == s@,
{
    let n = s.unicode_len();
    let mut v: Vec<char> = Vec::new();
    let mut i: usize = 0;
    while i < n
        invariant
            n == s@.len(),
            i <= n,
            v@ == s@.subrange(0, i as int),
        decreases n - i,
    {
        v.push(s.get_char(i));
        i = i + 1;
        assert(v@ == s@.subrange(0, i as int));
    }
    assert(s@.subrange(0, n as int) == s@);
    v
}

/// `hay.contains(needle)`.
pub fn contains_str(hay: &str, needle: &str) -> (r: bool)
    ensures
        r == contains_seq(hay@, needle@),
{
    let h = chars_of(hay);
    let nd = chars_of(needle);
    if nd.len() == 0 {
        assert(hay@.subrange(0, 0) == needle@);
        assert(occurs_at(hay@, needle@, 0));
        return true;
    }
    if nd.len() > h.len() {
        assert forall|i: int| !occurs_at(hay@, needle@, i) by {}
        return false;
    }
    let last = h.len() - nd.len();
    let mut i: usize = 0;
    while i <= last
        invariant
            h@ == hay@,
            nd@ == needle@,
            nd.len() >= 1,
            last + nd.len() == h.len(),
            i <= last + 1,
            forall|t: int| 0 <= t < i ==> !occurs_at(hay@, needle@, t),
        decreases last + 1 - i,
    {
        if occurs_at_exec(&h, &nd, i) {
            return true;
        }
        i = i + 1;
    }
    false
}

/// `hay.starts_with(prefix)`.
pub fn starts_with_str(hay: &str, prefix: &str) -> (r: bool)
    ensures
        r == starts_with_seq(hay@, prefix@),
{
    let h = chars_of(hay);
    let p = chars_of(prefix);
    if p.len() > h.len() {
        return false;
    }
    let r = occurs_at_exec(&h, &p, 0);
    r
}

// ---------------------------------------------------------------------------
// case folding
// ---------------------------------------------------------------------------

/// What `str::to_lowercase` makes of a string (Unicode's full lowercase
/// mapping, context-sensitive for the final sigma).
pub uninterp spec fn lowercase(s: Seq<char>) -> Seq<char>;

/// `str::to_lowercase`; the result is a function of the characters alone.
#[verifier::external_body]
pub(crate) fn to_lowercase(s: &str) -> (r: String)
    ensures
        r@ == lowercase(s@),
{
    s.to_lowercase()
}

/// What `str::to_uppercase` makes of a string (Unicode's full uppercase
/// mapping).
pub uninterp spec fn uppercase(s: Seq<char>) -> Seq<char>;

/// `str::to_uppercase`; the result is a function of the characters alone.
#[verifier::external_body]
pub(crate) fn to_uppercase(s: &str) -> (r: String)
    ensures
        r@ == uppercase(s@),
{
    s.to_uppercase()
}

/// The message a rejected integer field reports, in the wording users know
/// from the log.
pub open spec fn invalid_int_message(raw: Seq<char>) -> Seq<char> {
    "invalid literal for int() with base 10: '"@ + raw + "'"@
}

pub fn invalid_int_error(raw: &str) -> (r: String)
    ensures
        r@ == invalid_int_message(raw@),
{
    let mut m = String::from_str("invalid literal for int() with base 10: '");
    m.append(raw);
    m.append("'");
    m
}

} // verus!
