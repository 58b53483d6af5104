//! Text primitives of the /proc and /sys readers, stated over `Seq<char>`:
//! line splitting as `str::lines`, word splitting as `str::split_whitespace`,
//! trimming as `str::trim`, and unsigned decimal parsing as `u64::from_str`.
//! Tokens are handed around as half-open index ranges into the scanned text.

use vstd::prelude::*;

verus! {

/// Unicode `White_Space`, the set that `char::is_whitespace` tests.
pub open spec fn is_ws(c: char) -> bool {
    let u = c as u32;
    ||| 0x09 <= u <= 0x0D
    ||| u == 0x20
    ||| u == 0x85
    ||| u == 0xA0
    ||| u == 0x1680
    ||| 0x2000 <= u <= 0x200A
    ||| u == 0x2028
    ||| u == 0x2029
    ||| u == 0x202F
    ||| u == 0x205F
    ||| u == 0x3000
}

pub fn is_whitespace(c: char) -> (b: bool)
    ensures
        b == is_ws(c),
{
    let u = c as u32;
    (0x09 <= u && u <= 0x0D) || u == 0x20 || u == 0x85 || u == 0xA0 || u == 0x1680 || (0x2000
        <= u && u <= 0x200A) || u == 0x2028 || u == 0x2029 || u == 0x202F || u == 0x205F || u
        == 0x3000
}

/// Drops one trailing carriage return.
pub open spec fn strip_cr(l: Seq<char>) -> Seq<char> {
    if l.len() > 0 && l.last() == '\r' {
        l.drop_last()
    } else {
        l
    }
}

/// Lines finished so far, and the line being read, after scanning `s`.
pub open spec fn line_state(s: Seq<char>) -> (Seq<Seq<char>>, Seq<char>)
    decreases s.len(),
{
    if s.len() == 0 {
        (seq![], seq![])
    } else {
        let (done, cur) = line_state(s.drop_last());
        if s.last() == '\n' {
            (done.push(strip_cr(cur)), seq![])
        } else {
            (done, cur.push(s.last()))
        }
    }
}

/// The lines of `s` as `str::lines` yields them: split at `\n`, a `\r`
/// before the `\n` dropped, no empty line after a final `\n`.
pub open spec fn lines(s: Seq<char>) -> Seq<Seq<char>> {
    let (done, cur) = line_state(s);
    if cur.len() == 0 {
        done
    } else {
        done.push(cur)
    }
}

/// Words finished so far, and the word being read, after scanning `s`.
pub open spec fn word_state(s: Seq<char>) -> (Seq<Seq<char>>, Seq<char>)
    decreases s.len(),
{
    if s.len() == 0 {
        (seq![], seq![])
    } else {
        let (done, cur) = word_state(s.drop_last());
        if is_ws(s.last()) {
            if cur.len() == 0 {
                (done, cur)
            } else {
                (done.push(cur), seq![])
            }
        } else {
            (done, cur.push(s.last()))
        }
    }
}

/// The maximal runs of non-whitespace characters of `s`, in order, as
/// `str::split_whitespace` yields them.
pub open spec fn words(s: Seq<char>) -> Seq<Seq<char>> {
    let (done, cur) = word_state(s);
    if cur.len() == 0 {
        done
    } else {
        done.push(cur)
    }
}

/// `s` with leading and trailing whitespace removed, as `str::trim`.
pub open spec fn trim_start(s: Seq<char>) -> Seq<char>
    decreases s.len(),
{
    if s.len() > 0 && is_ws(s[0]) {
        trim_start(s.drop_first())
    } else {
        s
    }
}

pub open spec fn trim_end(s: Seq<char>) -> Seq<char>
    decreases s.len(),
{
    if s.len() > 0 && is_ws(s.last()) {
        trim_end(s.drop_last())
    } else {
        s
    }
}

pub open spec fn trim(s: Seq<char>) -> Seq<char> {
    trim_end(trim_start(s))
}

pub open spec fn is_digit(c: char) -> bool {
    '0' as u32 <= c as u32 <= '9' as u32
}

pub open spec fn digit_val(c: char) -> nat {
    (c as u32 - '0' as u32) as nat
}

pub open spec fn all_digits(t: Seq<char>) -> bool {
    forall|i: int| 0 <= i < t.len() ==> is_digit(#[trigger] t[i])
}

/// The number that the decimal digits `t` spell.
pub open spec fn dec_value(t: Seq<char>) -> nat
    decreases t.len(),
{
    if t.len() == 0 {
        0
    } else {
        dec_value(t.drop_last()) * 10 + digit_val(t.last())
    }
}

/// `u64::from_str`: an optional `+`, then one or more ASCII digits whose
/// value fits in a `u64`; anything else is an error.
pub open spec fn parse_u64_spec(t: Seq<char>) -> Option<u64> {
    let d = if t.len() > 0 && t[0] == '+' {
        t.drop_first()
    } else {
        t
    };
    if d.len() > 0 && all_digits(d) && dec_value(d) <= u64::MAX {
        Some(dec_value(d) as u64)
    } else {
        None
    }
}

/// The decimal digits of `n`, without leading zeros ("0" for zero).
pub open spec fn dec(n: nat) -> Seq<char>
    decreases n,
{
    if n < 10 {
        seq![digit_char(n)]
    } else {
        dec(n / 10).push(digit_char(n % 10))
    }
}

pub open spec fn digit_char(d: nat) -> char {
    ('0' as u32 + d) as char
}

/// `(a + b) mod 2^64`, what `+=` on `u64` gives in a release build.
pub open spec fn wrap_add(a: u64, b: u64) -> u64 {
    if a + b <= u64::MAX {
        (a + b) as u64
    } else {
        (a + b - 0x1_0000_0000_0000_0000) as u64
    }
}

pub fn wrapping_add(a: u64, b: u64) -> (r: u64)
    ensures
        r == wrap_add(a, b),
{
    if a <= u64::MAX - b {
        a + b
    } else {
        a - (u64::MAX - b) - 1
    }
}

/// A token: the characters of `s` in `[span.0, span.1)`.
pub open spec fn span_of(s: Seq<char>, span: (usize, usize)) -> Seq<char> {
    s.subrange(span.0 as int, span.1 as int)
}

pub open spec fn spans_in(s: Seq<char>, spans: Seq<(usize, usize)>) -> bool {
    forall|j: int|
        0 <= j < spans.len() ==> #[trigger] spans[j].0 <= spans[j].1 && spans[j].1 <= s.len()
}

/// `spans` cut out of `s` exactly the pieces `pieces`.
pub open spec fn spans_are(s: Seq<char>, spans: Seq<(usize, usize)>, pieces: Seq<Seq<char>>) -> bool {
    &&& spans_in(s, spans)
    &&& spans.len() == pieces.len()
    &&& forall|j: int| 0 <= j < spans.len() ==> span_of(s, #[trigger] spans[j]) == pieces[j]
}

/// Characters of a string slice, in order.
pub fn chars_of(s: &str) -> (v: Vec<char>)
    ensures
        v@ == s@,
{
    let mut v: Vec<char> = Vec::new();
    for c in it: s.chars()
        invariant
            v@ == it.seq().take(it.index() as int),
    {
        v.push(c);
    }
    v
}

/// The lines of `s[a..b]`, as ranges into `s`.
pub fn split_lines(s: &[char], a: usize, b: usize) -> (r: Vec<(usize, usize)>)
    requires
        a <= b <= s@.len(),
    ensures
        spans_are(s@, r@, lines(s@.subrange(a as int, b as int))),
        forall|j: int| 0 <= j < r@.len() ==> a <= #[trigger] r@[j].0,
{
    let mut out: Vec<(usize, usize)> = Vec::new();
    let mut start = a;
    let mut i = a;
    while i < b
        invariant
            a <= start <= i <= b <= s@.len(),
            spans_are(s@, out@, line_state(s@.subrange(a as int, i as int)).0),
            line_state(s@.subrange(a as int, i as int)).1 == s@.subrange(start as int, i as int),
            forall|j: int| 0 <= j < out@.len() ==> a <= #[trigger] out@[j].0,
        decreases b - i,
    {
        let ghost pre = s@.subrange(a as int, i as int);
        let ghost nxt = s@.subrange(a as int, i + 1);
        assert(nxt.drop_last() =~= pre);
        if s[i] == '\n' {
            let end = if i > start && s[i - 1] == '\r' {
                i - 1
            } else {
                i
            };
            let ghost cur = s@.subrange(start as int, i as int);
            assert(s@.subrange(start as int, end as int) =~= strip_cr(cur));
            out.push((start, end));
            start = i + 1;
        } else {
            assert(s@.subrange(start as int, i + 1) =~= s@.subrange(start as int, i as int).push(
                s@[i as int],
            ));
        }
        i = i + 1;
        assert(s@.subrange(start as int, i as int) =~= line_state(nxt).1);
    }
    if start < b {
        out.push((start, b));
    }
    proof {
        assert(s@.subrange(start as int, b as int).len() == b - start);
    }
    out
}

/// The words of `s[a..b]`, as ranges into `s`.
pub fn split_words(s: &[char], a: usize, b: usize) -> (r: Vec<(usize, usize)>)
    requires
        a <= b <= s@.len(),
    ensures
        spans_are(s@, r@, words(s@.subrange(a as int, b as int))),
{
    let mut out: Vec<(usize, usize)> = Vec::new();
    let mut start = a;
    let mut i = a;
    while i < b
        invariant
            a <= start <= i <= b <= s@.len(),
            spans_are(s@, out@, word_state(s@.subrange(a as int, i as int)).0),
            word_state(s@.subrange(a as int, i as int)).1 == s@.subrange(start as int, i as int),
        decreases b - i,
    {
        let ghost pre = s@.subrange(a as int, i as int);
        let ghost nxt = s@.subrange(a as int, i + 1);
        assert(nxt.drop_last() =~= pre);
        if is_whitespace(s[i]) {
            if start < i {
                out.push((start, i));
            }
            start = i + 1;
        } else {
            assert(s@.subrange(start as int, i + 1) =~= s@.subrange(start as int, i as int).push(
                s@[i as int],
            ));
        }
        i = i + 1;
        assert(s@.subrange(start as int, i as int) =~= word_state(nxt).1);
    }
    if start < b {
        out.push((start, b));
    }
    proof {
        assert(s@.subrange(start as int, b as int).len() == b - start);
    }
    out
}

/// Does `s[a..b]` equal `lit`?
pub fn range_eq(s: &[char], a: usize, b: usize, lit: &str) -> (r: bool)
    requires
        a <= b <= s@.len(),
    ensures
        r == (s@.subrange(a as int, b as int) == lit@),
{
    let l = chars_of(lit);
    if b - a != l.len() {
        assert(s@.subrange(a as int, b as int).len() != lit@.len());
        return false;
    }
    let mut i: usize = 0;
    while i < l.len()
        invariant
            b - a == l@.len(),
            l@ == lit@,
            a <= b <= s@.len(),
            i <= l@.len(),
            forall|k: int| 0 <= k < i ==> s@[a + k] == l@[k],
        decreases l@.len() - i,
    {
        if s[a + i] != l[i] {
            assert(s@.subrange(a as int, b as int)[i as int] != l@[i as int]);
            return false;
        }
        i = i + 1;
    }
    assert(s@.subrange(a as int, b as int) =~= l@);
    true
}

/// Does `s[a..b]` begin with `lit`?
pub fn range_starts_with(s: &[char], a: usize, b: usize, lit: &str) -> (r: bool)
    requires
        a <= b <= s@.len(),
    ensures
        r == (lit@.len() <= b - a && s@.subrange(a as int, a + lit@.len()) == lit@),
{
    let l = chars_of(lit);
    if b - a < l.len() {
        return false;
    }
    range_eq(s, a, a + l.len(), lit)
}

/// `s[a..b]` with surrounding whitespace cut off, as a range.
pub fn trim_range(s: &[char], a: usize, b: usize) -> (r: (usize, usize))
    requires
        a <= b <= s@.len(),
    ensures
        a <= r.0 <= r.1 <= b,
        s@.subrange(r.0 as int, r.1 as int) == trim(s@.subrange(a as int, b as int)),
{
    let mut x = a;
    while x < b && is_whitespace(s[x])
        invariant
            a <= x <= b <= s@.len(),
            trim_start(s@.subrange(a as int, b as int)) == trim_start(
                s@.subrange(x as int, b as int),
            ),
        decreases b - x,
    {
        assert(s@.subrange(x as int, b as int).drop_first() =~= s@.subrange(x + 1, b as int));
        x = x + 1;
    }
    assert(trim_start(s@.subrange(x as int, b as int)) == s@.subrange(x as int, b as int));
    let mut y = b;
    while y > x && is_whitespace(s[y - 1])
        invariant
            a <= x <= y <= b <= s@.len(),
            trim(s@.subrange(a as int, b as int)) == trim_end(s@.subrange(x as int, y as int)),
        decreases y - x,
    {
        assert(s@.subrange(x as int, y as int).drop_last() =~= s@.subrange(x as int, y - 1));
        y = y - 1;
    }
    (x, y)
}

proof fn lemma_dec_value_grows(t: Seq<char>, i: int)
    requires
        0 <= i <= t.len(),
    ensures
        dec_value(t.take(i)) <= dec_value(t),
    decreases t.len() - i,
{
    if i < t.len() {
        lemma_dec_value_grows(t, i + 1);
        assert(t.take(i + 1).drop_last() =~= t.take(i));
    } else {
        assert(t.take(i) =~= t);
    }
}

/// `u64::from_str` on `s[a..b]`.
pub fn parse_u64_range(s: &[char], a: usize, b: usize) -> (r: Option<u64>)
    requires
        a <= b <= s@.len(),
    ensures
        r == parse_u64_spec(s@.subrange(a as int, b as int)),
{
    let ghost t = s@.subrange(a as int, b as int);
    let mut i = a;
    if a < b && s[a] == '+' {
        i = a + 1;
        assert(t.drop_first() =~= s@.subrange(i as int, b as int));
    }
    let ghost d = s@.subrange(i as int, b as int);
    assert(d == (if t.len() > 0 && t[0] == '+' {
        t.drop_first()
    } else {
        t
    }));
    if i == b {
        return None;
    }
    let start = i;
    let mut acc: u64 = 0;
    while i < b
        invariant
            a <= start <= i <= b <= s@.len(),
            d == s@.subrange(start as int, b as int),
            t == s@.subrange(a as int, b as int),
            d.len() > 0,
            d == (if t.len() > 0 && t[0] == '+' {
                t.drop_first()
            } else {
                t
            }),
            all_digits(s@.subrange(start as int, i as int)),
            acc as nat == dec_value(s@.subrange(start as int, i as int)),
        decreases b - i,
    {
        let c = s[i];
        let ghost pre = s@.subrange(start as int, i as int);
        let ghost nxt = s@.subrange(start as int, i + 1);
        assert(nxt.drop_last() =~= pre);
        assert(nxt =~= d.take(i + 1 - start));
        let u = c as u32;
        if !(48 <= u && u <= 57) {
            assert(d[i - start] == c);
            assert(!is_digit(d[i - start]));
            return None;
        }
        let v = (acc as u128) * 10 + ((u - 48) as u128);
        assert(nxt.last() == c);
        assert(dec_value(nxt) == dec_value(pre) * 10 + digit_val(c));
        if v > u64::MAX as u128 {
            proof {
                lemma_dec_value_grows(d, i + 1 - start);
            }
            return None;
        }
        acc = v as u64;
        i = i + 1;
    }
    assert(s@.subrange(start as int, b as int) =~= d);
    Some(acc)
}

#[verifier::external_body]
fn push_char(s: &mut String, c: char)
    ensures
        final(s)@ == old(s)@.push(c),
{
    s.push(c);
}

/// Appends the decimal digits of `n`.
pub fn push_dec(s: &mut String, n: u64)
    ensures
        final(s)@ == old(s)@ + dec(n as nat),
    decreases n,
{
    if n >= 10 {
        push_dec(s, n / 10);
    }
    let d = (n % 10) as u32;
    let c = char_from_digit(d);
    push_char(s, c);
    assert(final(s)@ =~= old(s)@ + dec(n as nat));
}

fn char_from_digit(d: u32) -> (c: char)
    requires
        d < 10,
    ensures
        c == digit_char(d as nat),
{
    if d == 0 {
        '0'
    } else if d == 1 {
        '1'
    } else if d == 2 {
        '2'
    } else if d == 3 {
        '3'
    } else if d == 4 {
        '4'
    } else if d == 5 {
        '5'
    } else if d == 6 {
        '6'
    } else if d == 7 {
        '7'
    } else if d == 8 {
        '8'
    } else {
        '9'
    }
}

/// Appends a string slice.
pub fn push_str(s: &mut String, t: &str)
    ensures
        final(s)@ == old(s)@ + t@,
{
    s.append(t);
}

/// A fresh `String` holding `t`.
pub fn string_of(t: &str) -> (r: String)
    ensures
        r@ == t@,
{
    String::from_str(t)
}


/// Does `s`, trimmed, equal `lit`?
pub fn trimmed_eq(s: &str, lit: &str) -> (r: bool)
    ensures
        r == (trim(s@) == lit@),
{
    let v = chars_of(s);
    let (x, y) = trim_range(v.as_slice(), 0, v.len());
    assert(v@.subrange(0, v@.len() as int) =~= s@);
    range_eq(v.as_slice(), x, y, lit)
}

/// Does `s`, trimmed, begin with `lit`?
pub fn trimmed_starts_with(s: &str, lit: &str) -> (r: bool)
    ensures
        r == (lit@.len() <= trim(s@).len() && trim(s@).subrange(0, lit@.len() as int) == lit@),
{
    let v = chars_of(s);
    let (x, y) = trim_range(v.as_slice(), 0, v.len());
    assert(v@.subrange(0, v@.len() as int) =~= s@);
    let r = range_starts_with(v.as_slice(), x, y, lit);
    assert(r ==> v@.subrange(x as int, x + lit@.len()) =~= trim(s@).subrange(0, lit@.len() as int));
    assert((lit@.len() <= trim(s@).len() && trim(s@).subrange(0, lit@.len() as int) == lit@) ==> v@.subrange(x as int, x + lit@.len()) =~= trim(s@).subrange(0, lit@.len() as int));
    r
}

/// `u64::from_str` on `s` trimmed.
pub fn parse_trimmed_u64(s: &str) -> (r: Option<u64>)
    ensures
        r == parse_u64_spec(trim(s@)),
{
    let v = chars_of(s);
    let (x, y) = trim_range(v.as_slice(), 0, v.len());
    assert(v@.subrange(0, v@.len() as int) =~= s@);
    parse_u64_range(v.as_slice(), x, y)
}


/// `s` begins with `p`.
pub open spec fn has_prefix(s: Seq<char>, p: Seq<char>) -> bool {
    p.len() <= s.len() && s.subrange(0, p.len() as int) == p
}

/// A fresh `String` holding `s[a..b]`.
pub fn string_from_range(s: &[char], a: usize, b: usize) -> (r: String)
    requires
        a <= b <= s@.len(),
    ensures
        r@ == s@.subrange(a as int, b as int),
{
    let mut out = String::new();
    let mut i = a;
    while i < b
        invariant
            a <= i <= b <= s@.len(),
            out@ == s@.subrange(a as int, i as int),
        decreases b - i,
    {
        push_char(&mut out, s[i]);
        i = i + 1;
        assert(out@ =~= s@.subrange(a as int, i as int));
    }
    out
}

/// `s` begins with `lit`.
pub fn str_starts_with(s: &str, lit: &str) -> (r: bool)
    ensures
        r == has_prefix(s@, lit@),
{
    let v = chars_of(s);
    range_starts_with(v.as_slice(), 0, v.len(), lit)
}


proof fn lemma_digit_char(d: nat)
    requires
        d < 10,
    ensures
        is_digit(digit_char(d)),
        digit_val(digit_char(d)) == d,
{
    assert(('0' as u32 + d) as char as u32 == '0' as u32 + d);
}

proof fn lemma_dec_digits(n: nat)
    ensures
        dec(n).len() > 0,
        all_digits(dec(n)),
        dec_value(dec(n)) == n,
    decreases n,
{
    lemma_digit_char(n % 10);
    if n < 10 {
        assert(n % 10 == n);
        assert(dec(n).drop_last() =~= Seq::<char>::empty());
        assert(dec_value(dec(n)) == dec_value(dec(n).drop_last()) * 10 + digit_val(dec(n).last()));
    }
    if n >= 10 {
        lemma_dec_digits(n / 10);
        assert((n / 10) * 10 + n % 10 == n);
        let p = dec(n / 10);
        assert(dec(n).drop_last() =~= p);
        assert(dec(n).last() == digit_char(n % 10));
        assert(dec_value(dec(n)) == dec_value(p) * 10 + digit_val(digit_char(n % 10)));
        assert forall|i: int| 0 <= i < dec(n).len() implies is_digit(#[trigger] dec(n)[i]) by {
            if i < p.len() {
                assert(dec(n)[i] == p[i]);
            }
        }
    }
}

/// Parsing the decimal text of a number gives the number back.
pub proof fn lemma_parse_dec_roundtrip(n: u64)
    ensures
        parse_u64_spec(dec(n as nat)) == Some(n),
{
    lemma_dec_digits(n as nat);
    assert(is_digit(dec(n as nat)[0]));
}


/// `s` with every occurrence of `pat` replaced by `rep`, matches taken
/// from the left without overlap, as `str::replace` does (`pat` non-empty).
pub open spec fn replace_all(s: Seq<char>, pat: Seq<char>, rep: Seq<char>) -> Seq<char>
    decreases s.len(),
{
    if s.len() == 0 || pat.len() == 0 {
        s
    } else if has_prefix(s, pat) {
        rep + replace_all(s.subrange(pat.len() as int, s.len() as int), pat, rep)
    } else {
        seq![s[0]] + replace_all(s.drop_first(), pat, rep)
    }
}

/// `str::replace(s, pat, rep)` for a non-empty `pat`.
pub fn replace_str(s: &str, pat: &str, rep: &str) -> (r: String)
    requires
        pat@.len() > 0,
    ensures
        r@ == replace_all(s@, pat@, rep@),
{
    let v = chars_of(s);
    let p = chars_of(pat);
    let mut out = String::new();
    let mut i: usize = 0;
    assert(v@.subrange(0, v@.len() as int) =~= s@);
    while i < v.len()
        invariant
            i <= v@.len(),
            v@ == s@,
            p@ == pat@,
            p@.len() > 0,
            out@ + replace_all(v@.subrange(i as int, v@.len() as int), pat@, rep@) == replace_all(
                s@,
                pat@,
                rep@,
            ),
        decreases v@.len() - i,
    {
        let ghost rest = v@.subrange(i as int, v@.len() as int);
        let hit = range_starts_with(v.as_slice(), i, v.len(), pat);
        proof {
            if hit || has_prefix(rest, pat@) {
                assert(rest.subrange(0, pat@.len() as int) =~= v@.subrange(i as int, i + pat@.len()));
            }
        }
        if hit {
            let ghost before = out@;
            push_str(&mut out, rep);
            assert(rest.subrange(pat@.len() as int, rest.len() as int) =~= v@.subrange(
                i + p@.len(),
                v@.len() as int,
            ));
            assert(before + (rep@ + replace_all(rest.subrange(pat@.len() as int, rest.len() as int), pat@, rep@)) =~= out@ + replace_all(rest.subrange(pat@.len() as int, rest.len() as int), pat@, rep@));
            i = i + p.len();
        } else {
            let ghost before = out@;
            push_char(&mut out, v[i]);
            assert(rest.drop_first() =~= v@.subrange(i + 1, v@.len() as int));
            assert(before + (seq![rest[0]] + replace_all(rest.drop_first(), pat@, rep@)) =~= out@ + replace_all(rest.drop_first(), pat@, rep@));
            i = i + 1;
        }
    }
    assert(v@.subrange(i as int, v@.len() as int) =~= Seq::<char>::empty());
    assert(out@ + Seq::<char>::empty() =~= out@);
    out
}


/// Lexicographic order of character sequences, a proper prefix first: the
/// order of `str` and, for names in one directory, of `Path`.
pub open spec fn lex_le(a: Seq<char>, b: Seq<char>) -> bool
    decreases a.len(),
{
    if a.len() == 0 {
        true
    } else if b.len() == 0 {
        false
    } else if (a[0] as u32) < (b[0] as u32) {
        true
    } else if (a[0] as u32) == (b[0] as u32) {
        lex_le(a.drop_first(), b.drop_first())
    } else {
        false
    }
}

pub proof fn lemma_lex_total(a: Seq<char>, b: Seq<char>)
    ensures
        lex_le(a, b) || lex_le(b, a),
    decreases a.len(),
{
    if a.len() > 0 && b.len() > 0 && (a[0] as u32) == (b[0] as u32) {
        lemma_lex_total(a.drop_first(), b.drop_first());
    }
}

pub proof fn lemma_lex_trans(a: Seq<char>, b: Seq<char>, c: Seq<char>)
    requires
        lex_le(a, b),
        lex_le(b, c),
    ensures
        lex_le(a, c),
    decreases a.len(),
{
    if a.len() > 0 && b.len() > 0 && c.len() > 0 && (a[0] as u32) == (b[0] as u32) && (b[0] as u32) == (c[0] as u32) {
        lemma_lex_trans(a.drop_first(), b.drop_first(), c.drop_first());
    }
}

/// Does `a` come before or equal `b` (see `lex_le`)?
pub fn str_lex_le(a: &str, b: &str) -> (r: bool)
    ensures
        r == lex_le(a@, b@),
{
    let x = chars_of(a);
    let y = chars_of(b);
    let mut i: usize = 0;
    assert(x@.subrange(0, x@.len() as int) =~= x@);
    assert(y@.subrange(0, y@.len() as int) =~= y@);
    while i < x.len() && i < y.len()
        invariant
            i <= x@.len(),
            i <= y@.len(),
            x@ == a@,
            y@ == b@,
            lex_le(a@, b@) == lex_le(x@.subrange(i as int, x@.len() as int), y@.subrange(
                i as int,
                y@.len() as int,
            )),
        decreases x@.len() - i,
    {
        let ghost xs = x@.subrange(i as int, x@.len() as int);
        let ghost ys = y@.subrange(i as int, y@.len() as int);
        assert(xs[0] == x@[i as int] && ys[0] == y@[i as int]);
        if (x[i] as u32) < (y[i] as u32) {
            return true;
        }
        if (x[i] as u32) != (y[i] as u32) {
            return false;
        }
        assert(xs.drop_first() =~= x@.subrange(i + 1, x@.len() as int));
        assert(ys.drop_first() =~= y@.subrange(i + 1, y@.len() as int));
        i = i + 1;
    }
    i == x.len()
}

pub open spec fn is_sorted_strs(v: Seq<String>) -> bool {
    forall|i: int, j: int| 0 <= i < j < v.len() ==> lex_le(#[trigger] v[i]@, #[trigger] v[j]@)
}

/// The strings of `v`, sorted (see `lex_le`).
pub fn sort_strings(v: &Vec<String>) -> (r: Vec<String>)
    ensures
        is_sorted_strs(r@),
        r@.to_multiset() == v@.to_multiset(),
{
    let mut out: Vec<String> = Vec::new();
    let mut i: usize = 0;
    assert(out@ =~= v@.take(0));
    while i < v.len()
        invariant
            i <= v@.len(),
            is_sorted_strs(out@),
            out@.to_multiset() == v@.take(i as int).to_multiset(),
        decreases v@.len() - i,
    {
        let x = v[i].clone();
        let mut k: usize = 0;
        while k < out.len() && str_lex_le(out[k].as_str(), x.as_str())
            invariant
                k <= out@.len(),
                forall|j: int| 0 <= j < k ==> lex_le(#[trigger] out@[j]@, x@),
            decreases out@.len() - k,
        {
            k = k + 1;
        }
        let ghost old_out = out@;
        proof {
            if k < old_out.len() {
                assert(!lex_le(old_out[k as int]@, x@));
                lemma_lex_total(old_out[k as int]@, x@);
            }
        }
        out.insert(k, x);
        proof {
            assert(out@ == old_out.insert(k as int, x));
            assert forall|a: int, b: int| 0 <= a < b < out@.len() implies lex_le(
                #[trigger] out@[a]@,
                #[trigger] out@[b]@,
            ) by {
                if a < k && b < k {
                    assert(out@[a] == old_out[a] && out@[b] == old_out[b]);
                } else if a < k && b == k {
                    assert(out@[a] == old_out[a]);
                } else if a < k && b > k {
                    assert(out@[a] == old_out[a] && out@[b] == old_out[b - 1]);
                    if b - 1 >= k {
                        assert(lex_le(x@, old_out[k as int]@));
                        if b - 1 > k {
                            assert(lex_le(old_out[k as int]@, old_out[b - 1]@));
                            lemma_lex_trans(x@, old_out[k as int]@, old_out[b - 1]@);
                        }
                        lemma_lex_trans(old_out[a]@, x@, old_out[b - 1]@);
                    }
                } else if a == k {
                    assert(out@[b] == old_out[b - 1]);
                    assert(lex_le(x@, old_out[k as int]@));
                    if b - 1 > k {
                        assert(lex_le(old_out[k as int]@, old_out[b - 1]@));
                        lemma_lex_trans(x@, old_out[k as int]@, old_out[b - 1]@);
                    }
                } else {
                    assert(out@[a] == old_out[a - 1] && out@[b] == old_out[b - 1]);
                }
            }
            assert(v@.take(i + 1) =~= v@.take(i as int).push(v@[i as int]));
            vstd::seq_lib::to_multiset_insert(old_out, k as int, x);
            vstd::seq_lib::to_multiset_build(v@.take(i as int), v@[i as int]);
        }
        i = i + 1;
    }
    assert(v@.take(v@.len() as int) =~= v@);
    out
}

} // verus!
