//! Character-level string utilities: conversion between `&str`/`String` and
//! `Vec<char>`, decimal formatting and parsing, and trimming, each against a
//! direct mathematical description of its result.

use vstd::prelude::*;
use vstd::std_specs::iter::IteratorSpec;

verus! {

broadcast use vstd::string::group_string_axioms;

/// The characters of `s`, in order.
pub fn str_chars(s: &str) -> (v: Vec<char>)
    ensures
        v@ == s@,
{
    let mut v: Vec<char> = Vec::new();
    let mut it = s.chars();
    assert(v@ + it.remaining() =~= s@);
    loop
        invariant
            it.obeys_prophetic_iter_laws(),
            it.decrease() is Some,
            v@ + it.remaining() == s@,
        ensures
            v@ == s@,
        decreases it.decrease()->0,
    {
        let ghost prev = it.remaining();
        match it.next() {
            Some(c) => {
                proof {
                    assert(prev =~= seq![c] + prev.drop_first());
                }
                v.push(c);
                assert(v@ + it.remaining() =~= s@);
            },
            None => {
                proof {
                    assert(prev.len() == 0);
                    assert(v@ =~= s@);
                }
                break ;
            },
        }
    }
    v
}

/// Relies on `String::push` from std: appends exactly one character.
#[verifier::external_body]
pub(crate) fn push_char(s: &mut String, c: char)
    ensures
        final(s)@ == old(s)@ + seq![c],
{
    s.push(c);
}

/// A `String` holding exactly the characters of `v`, in order.
pub fn chars_to_string(v: &Vec<char>) -> (s: String)
    ensures
        s@ == v@,
{
    let mut s = String::new();
    let mut i: usize = 0;
    assert(s@ =~= v@.take(0));
    while i < v.len()
        invariant
            i <= v.len(),
            s@ == v@.take(i as int),
        decreases v.len() - i,
    {
        push_char(&mut s, v[i]);
        i = i + 1;
        assert(s@ =~= v@.take(i as int));
    }
    assert(v@.take(v.len() as int) =~= v@);
    s
}

/// The character for a single decimal digit.
pub open spec fn spec_digit_char(d: nat) -> char {
    if d == 0 {
        '0'
    } else if d == 1 {
        '1'
    } else if d == 2 {
        '2'
    } else if d == 3 {
        '3'
    } else if d == 4 {
        '4'
    } else if d == 5 {
        '5'
    } else if d == 6 {
        '6'
    } else if d == 7 {
        '7'
    } else if d == 8 {
        '8'
    } else {
        '9'
    }
}

/// The usual decimal rendering of `n`, with no leading zeros (except for 0
/// itself).
pub open spec fn spec_dec(n: nat) -> Seq<char>
    decreases n,
{
    if n < 10 {
        seq![spec_digit_char(n)]
    } else {
        spec_dec(n / 10) + seq![spec_digit_char(n % 10)]
    }
}

fn digit_char(d: u64) -> (c: char)
    requires
        d < 10,
    ensures
        c == spec_digit_char(d as nat),
{
    if d == 0 {
        '0'
    } else if d == 1 {
        '1'
    } else if d == 2 {
        '2'
    } else if d == 3 {
        '3'
    } else if d == 4 {
        '4'
    } else if d == 5 {
        '5'
    } else if d == 6 {
        '6'
    } else if d == 7 {
        '7'
    } else if d == 8 {
        '8'
    } else {
        '9'
    }
}

/// Appends the decimal rendering of `n` to `out`.
fn push_dec(out: &mut String, n: u64)
    ensures
        final(out)@ == old(out)@ + spec_dec(n as nat),
    decreases n,
{
    if n < 10 {
        push_char(out, digit_char(n));
    } else {
        push_dec(out, n / 10);
        push_char(out, digit_char(n % 10));
        proof {
            assert(old(out)@ + spec_dec(n as nat / 10) + seq![spec_digit_char(n as nat % 10)]
                =~= old(out)@ + spec_dec(n as nat));
        }
    }
}

/// The decimal rendering of `n` as a fresh `String`.
pub fn u64_to_dec(n: u64) -> (s: String)
    ensures
        s@ == spec_dec(n as nat),
{
    let mut s = String::new();
    push_dec(&mut s, n);
    proof {
        assert(Seq::<char>::empty() + spec_dec(n as nat) =~= spec_dec(n as nat));
    }
    s
}

/// Whether `c` is an ASCII decimal digit.
pub open spec fn spec_is_dec_digit(c: char) -> bool {
    '0' <= c && c <= '9'
}

/// The numeric value of a digit character.
pub open spec fn spec_digit_val(c: char) -> nat {
    (c as nat - 48) as nat
}

/// The value of a digit string read in base ten.
pub open spec fn spec_dec_val(s: Seq<char>) -> nat
    decreases s.len(),
{
    if s.len() == 0 {
        0
    } else {
        spec_dec_val(s.drop_last()) * 10 + spec_digit_val(s.last())
    }
}

/// Whether every character of `s` is a decimal digit.
pub open spec fn spec_all_dec_digits(s: Seq<char>) -> bool {
    forall|i: int| 0 <= i < s.len() ==> spec_is_dec_digit(#[trigger] s[i])
}

/// What `str::parse::<u64>` accepts: an optional leading `+`, then one or
/// more decimal digits whose value fits in the type.
pub open spec fn spec_parse_u64(s: Seq<char>) -> Option<u64> {
    let t = if s.len() > 0 && s[0] == '+' {
        s.drop_first()
    } else {
        s
    };
    if t.len() > 0 && spec_all_dec_digits(t) && spec_dec_val(t) <= u64::MAX {
        Some(spec_dec_val(t) as u64)
    } else {
        None
    }
}

/// What `str::parse::<u32>` accepts, by the same rule at the narrower width.
pub open spec fn spec_parse_u32(s: Seq<char>) -> Option<u32> {
    let t = if s.len() > 0 && s[0] == '+' {
        s.drop_first()
    } else {
        s
    };
    if t.len() > 0 && spec_all_dec_digits(t) && spec_dec_val(t) <= u32::MAX {
        Some(spec_dec_val(t) as u32)
    } else {
        None
    }
}

proof fn lemma_dec_val_prefix(s: Seq<char>, i: int)
    requires
        0 <= i <= s.len(),
    ensures
        spec_dec_val(s.take(i)) <= spec_dec_val(s),
    decreases s.len() - i,
{
    if i < s.len() {
        assert(s.drop_last().take(i) =~= s.take(i));
        lemma_dec_val_prefix(s.drop_last(), i);
        assert(spec_dec_val(s) == spec_dec_val(s.drop_last()) * 10 + spec_digit_val(s.last()));
        assert(spec_dec_val(s.drop_last()) * 10 >= spec_dec_val(s.drop_last())) by (nonlinear_arith);
    } else {
        assert(s.take(i) =~= s);
    }
}

/// Parses the digit run `t` (no sign) as a `u64`, by the base-ten rule.
fn parse_digits_u64(t: &Vec<char>, from: usize) -> (r: Option<u64>)
    requires
        from < t@.len(),
    ensures
        ({
            let d = t@.skip(from as int);
            if spec_all_dec_digits(d) && spec_dec_val(d) <= u64::MAX {
                r == Some(spec_dec_val(d) as u64)
            } else {
                r == None::<u64>
            }
        }),
{
    let ghost d = t@.skip(from as int);
    let mut acc: u64 = 0;
    let mut i: usize = from;
    while i < t.len()
        invariant
            from <= i <= t@.len(),
            d == t@.skip(from as int),
            spec_all_dec_digits(d.take(i - from)),
            acc == spec_dec_val(d.take(i - from)),
        decreases t@.len() - i,
    {
        let c = t[i];
        if !('0' <= c && c <= '9') {
            proof {
                assert(d[i - from] == c);
            }
            return None;
        }
        let dv: u64 = (c as u32 as u64) - 48;
        proof {
            assert(d.take(i + 1 - from).drop_last() =~= d.take(i - from));
            assert(d.take(i + 1 - from).last() == c);
        }
        if acc > (u64::MAX - dv) / 10 {
            proof {
                assert(spec_dec_val(d.take(i + 1 - from)) == acc * 10 + dv);
                assert(acc * 10 + dv > u64::MAX) by (nonlinear_arith)
                    requires
                        acc > (u64::MAX - dv) / 10,
                        dv < 10,
                ;
                lemma_dec_val_prefix(d, i + 1 - from);
            }
            return None;
        }
        proof {
            assert(acc * 10 + dv <= u64::MAX) by (nonlinear_arith)
                requires
                    acc <= (u64::MAX - dv) / 10,
                    dv < 10,
            ;
        }
        acc = acc * 10 + dv;
        i = i + 1;
    }
    proof {
        assert(d.take(i - from) =~= d);
    }
    Some(acc)
}

/// What `str::parse::<u64>` returns on the characters `v`.
pub fn parse_u64_chars(v: &Vec<char>) -> (r: Option<u64>)
    ensures
        r == spec_parse_u64(v@),
{
    let from: usize = if v.len() > 0 && v[0] == '+' {
        1
    } else {
        0
    };
    proof {
        if from == 1 {
            assert(v@.skip(1) =~= v@.drop_first());
        } else {
            assert(v@.skip(0) =~= v@);
        }
    }
    if v.len() <= from {
        return None;
    }
    parse_digits_u64(v, from)
}

/// What `str::parse::<u32>` returns on the characters `v`.
pub fn parse_u32_chars(v: &Vec<char>) -> (r: Option<u32>)
    ensures
        r == spec_parse_u32(v@),
{
    match parse_u64_chars(v) {
        Some(n) => if n <= u32::MAX as u64 {
            Some(n as u32)
        } else {
            None
        },
        None => None,
    }
}

/// `s` with every leading `c` removed.
pub open spec fn spec_drop_leading_char(s: Seq<char>, c: char) -> Seq<char>
    decreases s.len(),
{
    if s.len() > 0 && s[0] == c {
        spec_drop_leading_char(s.drop_first(), c)
    } else {
        s
    }
}

/// `s` with every trailing `c` removed.
pub open spec fn spec_drop_trailing_char(s: Seq<char>, c: char) -> Seq<char>
    decreases s.len(),
{
    if s.len() > 0 && s.last() == c {
        spec_drop_trailing_char(s.drop_last(), c)
    } else {
        s
    }
}

/// What `str::trim_matches(c)` returns: `s` with every leading and trailing
/// `c` removed.
pub open spec fn spec_trim_char(s: Seq<char>, c: char) -> Seq<char> {
    spec_drop_trailing_char(spec_drop_leading_char(s, c), c)
}

/// Whether `c` has the Unicode `White_Space` property, as
/// `char::is_whitespace` decides it.
pub open spec fn spec_is_ws(c: char) -> bool {
    ||| c == ' '
    ||| c == '\t'
    ||| c == '\n'
    ||| c == '\r'
    ||| c as u32 == 0x0B
    ||| c as u32 == 0x0C
    ||| c as u32 == 0x85
    ||| c as u32 == 0xA0
    ||| c as u32 == 0x1680
    ||| (0x2000 <= c as u32 && c as u32 <= 0x200A)
    ||| c as u32 == 0x2028
    ||| c as u32 == 0x2029
    ||| c as u32 == 0x202F
    ||| c as u32 == 0x205F
    ||| c as u32 == 0x3000
}

fn is_ws_char(c: char) -> (r: bool)
    ensures
        r == spec_is_ws(c),
{
    let u = c as u32;
    u == 0x20 || u == 0x09 || u == 0x0A || u == 0x0D || u == 0x0B || u == 0x0C || u == 0x85
        || u == 0xA0 || u == 0x1680 || (0x2000 <= u && u <= 0x200A) || u == 0x2028 || u == 0x2029
        || u == 0x202F || u == 0x205F || u == 0x3000
}

/// `s` with every leading whitespace character removed.
pub open spec fn spec_drop_leading_ws(s: Seq<char>) -> Seq<char>
    decreases s.len(),
{
    if s.len() > 0 && spec_is_ws(s[0]) {
        spec_drop_leading_ws(s.drop_first())
    } else {
        s
    }
}

/// `s` with every trailing whitespace character removed.
pub open spec fn spec_drop_trailing_ws(s: Seq<char>) -> Seq<char>
    decreases s.len(),
{
    if s.len() > 0 && spec_is_ws(s.last()) {
        spec_drop_trailing_ws(s.drop_last())
    } else {
        s
    }
}

/// What `str::trim` returns: `s` with leading and trailing whitespace
/// removed.
pub open spec fn spec_trim_ws(s: Seq<char>) -> Seq<char> {
    spec_drop_trailing_ws(spec_drop_leading_ws(s))
}

proof fn lemma_drop_leading_skip(s: Seq<char>, c: char, i: int)
    requires
        0 <= i <= s.len(),
        forall|j: int| 0 <= j < i ==> s[j] == c,
        i < s.len() ==> s[i] != c,
    ensures
        spec_drop_leading_char(s, c) == s.skip(i),
    decreases i,
{
    if i == 0 {
        assert(s.skip(0) =~= s);
    } else {
        assert(s[0] == c);
        lemma_drop_leading_skip(s.drop_first(), c, i - 1);
        assert(s.drop_first().skip(i - 1) =~= s.skip(i));
    }
}

proof fn lemma_drop_trailing_take(s: Seq<char>, c: char, i: int)
    requires
        0 <= i <= s.len(),
        forall|j: int| i <= j < s.len() ==> s[j] == c,
        i > 0 ==> s[i - 1] != c,
    ensures
        spec_drop_trailing_char(s, c) == s.take(i),
    decreases s.len() - i,
{
    if i == s.len() {
        if s.len() > 0 && s.last() == c {
            assert(false);
        }
        assert(s.take(i) =~= s);
    } else {
        assert(s.last() == c);
        lemma_drop_trailing_take(s.drop_last(), c, i);
        assert(s.drop_last().take(i) =~= s.take(i));
    }
}

proof fn lemma_drop_leading_ws_skip(s: Seq<char>, i: int)
    requires
        0 <= i <= s.len(),
        forall|j: int| 0 <= j < i ==> spec_is_ws(#[trigger] s[j]),
        i < s.len() ==> !spec_is_ws(s[i]),
    ensures
        spec_drop_leading_ws(s) == s.skip(i),
    decreases i,
{
    if i == 0 {
        assert(s.skip(0) =~= s);
    } else {
        assert(spec_is_ws(s[0]));
        lemma_drop_leading_ws_skip(s.drop_first(), i - 1);
        assert(s.drop_first().skip(i - 1) =~= s.skip(i));
    }
}

proof fn lemma_drop_trailing_ws_take(s: Seq<char>, i: int)
    requires
        0 <= i <= s.len(),
        forall|j: int| i <= j < s.len() ==> spec_is_ws(#[trigger] s[j]),
        i > 0 ==> !spec_is_ws(s[i - 1]),
    ensures
        spec_drop_trailing_ws(s) == s.take(i),
    decreases s.len() - i,
{
    if i == s.len() {
        if s.len() > 0 && spec_is_ws(s.last()) {
            assert(false);
        }
        assert(s.take(i) =~= s);
    } else {
        assert(spec_is_ws(s.last()));
        lemma_drop_trailing_ws_take(s.drop_last(), i);
        assert(s.drop_last().take(i) =~= s.take(i));
    }
}

/// Copies `v[start..end]` into a fresh vector.
pub fn copy_range(v: &Vec<char>, start: usize, end: usize) -> (r: Vec<char>)
    requires
        start <= end <= v@.len(),
    ensures
        r@ == v@.subrange(start as int, end as int),
{
    let mut r: Vec<char> = Vec::new();
    let mut i: usize = start;
    assert(r@ =~= v@.subrange(start as int, start as int));
    while i < end
        invariant
            start <= i <= end <= v@.len(),
            r@ == v@.subrange(start as int, i as int),
        decreases end - i,
    {
        r.push(v[i]);
        i = i + 1;
        assert(r@ =~= v@.subrange(start as int, i as int));
    }
    r
}

proof fn lemma_trim_char_bounds(v: Seq<char>, c: char, start: int, end: int)
    requires
        0 <= start <= end <= v.len(),
        forall|j: int| 0 <= j < start ==> v[j] == c,
        start < v.len() ==> v[start] != c,
        forall|j: int| end <= j < v.len() ==> v[j] == c,
        end > start ==> v[end - 1] != c,
    ensures
        spec_trim_char(v, c) == v.subrange(start, end),
{
    lemma_drop_leading_skip(v, c, start);
    let mid = v.skip(start);
    assert(forall|j: int|
        end - start <= j < mid.len() ==> #[trigger] mid[j] == v[j + start] && mid[j] == c);
    if end > start {
        assert(mid[end - start - 1] == v[end - 1]);
    }
    lemma_drop_trailing_take(mid, c, end - start);
    assert(v.subrange(start, end) =~= mid.take(end - start));
}

proof fn lemma_trim_ws_bounds(v: Seq<char>, start: int, end: int)
    requires
        0 <= start <= end <= v.len(),
        forall|j: int| 0 <= j < start ==> spec_is_ws(#[trigger] v[j]),
        start < v.len() ==> !spec_is_ws(v[start]),
        forall|j: int| end <= j < v.len() ==> spec_is_ws(#[trigger] v[j]),
        end > start ==> !spec_is_ws(v[end - 1]),
    ensures
        spec_trim_ws(v) == v.subrange(start, end),
{
    lemma_drop_leading_ws_skip(v, start);
    let mid = v.skip(start);
    assert(forall|j: int|
        end - start <= j < mid.len() ==> #[trigger] mid[j] == v[j + start] && spec_is_ws(mid[j]));
    if end > start {
        assert(mid[end - start - 1] == v[end - 1]);
    }
    lemma_drop_trailing_ws_take(mid, end - start);
    assert(v.subrange(start, end) =~= mid.take(end - start));
}

/// The characters of `v` with every leading and trailing `c` removed, as
/// `str::trim_matches` would leave them.
pub fn trim_char_vec(v: &Vec<char>, c: char) -> (r: Vec<char>)
    ensures
        r@ == spec_trim_char(v@, c),
{
    let mut start: usize = 0;
    while start < v.len() && v[start] == c
        invariant
            start <= v@.len(),
            forall|j: int| 0 <= j < start ==> v@[j] == c,
        decreases v@.len() - start,
    {
        start = start + 1;
    }
    let mut end: usize = v.len();
    while end > start && v[end - 1] == c
        invariant
            start <= end <= v@.len(),
            forall|j: int| end <= j < v@.len() ==> v@[j] == c,
        decreases end,
    {
        end = end - 1;
    }
    proof {
        lemma_trim_char_bounds(v@, c, start as int, end as int);
    }
    copy_range(v, start, end)
}

/// The characters of `v` with leading and trailing whitespace removed, as
/// `str::trim` would leave them.
pub fn trim_ws_vec(v: &Vec<char>) -> (r: Vec<char>)
    ensures
        r@ == spec_trim_ws(v@),
{
    let mut start: usize = 0;
    while start < v.len() && is_ws_char(v[start])
        invariant
            start <= v@.len(),
            forall|j: int| 0 <= j < start ==> spec_is_ws(v@[j]),
        decreases v@.len() - start,
    {
        start = start + 1;
    }
    let mut end: usize = v.len();
    while end > start && is_ws_char(v[end - 1])
        invariant
            start <= end <= v@.len(),
            forall|j: int| end <= j < v@.len() ==> spec_is_ws(v@[j]),
        decreases end,
    {
        end = end - 1;
    }
    proof {
        lemma_trim_ws_bounds(v@, start as int, end as int);
    }
    copy_range(v, start, end)
}

/// Whether two character sequences are the same.
pub fn chars_eq(a: &Vec<char>, b: &Vec<char>) -> (r: bool)
    ensures
        r == (a@ == b@),
{
    if a.len() != b.len() {
        proof {
            assert(a@ != b@);
        }
        return false;
    }
    let mut i: usize = 0;
    while i < a.len()
        invariant
            i <= a@.len(),
            a@.len() == b@.len(),
            forall|j: int| 0 <= j < i ==> a@[j] == b@[j],
        decreases a@.len() - i,
    {
        if a[i] != b[i] {
            return false;
        }
        i = i + 1;
    }
    proof {
        assert(a@ =~= b@);
    }
    true
}

} // verus!
