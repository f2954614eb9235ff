//! Text helpers: characters, decimal and hexadecimal digits, and the
//! splitting and matching of strings that the protocol logic needs.

use vstd::prelude::*;
use vstd::string::StringSliceAdditionalSpecFns;

verus! {

/// Appends one character (`String::push`).
#[verifier::external_body]
pub(crate) fn string_push(s: &mut String, c: char)
    ensures
        final(s)@ == old(s)@.push(c),
{
    s.push(c);
}

/// The characters of a string, in order.
pub fn chars_vec(s: &str) -> (r: Vec<char>)
    ensures
        r@ == s@,
{
    let mut out: Vec<char> = Vec::new();
    for c in it: s.chars()
        invariant
            out@ == it.seq().take(it.index() as int),
    {
        out.push(c);
    }
    out
}

/// Appends the characters `cs` to `s`.
pub fn push_chars(s: &mut String, cs: &[char])
    ensures
        final(s)@ == old(s)@ + cs@,
{
    let mut i: usize = 0;
    while i < cs.len()
        invariant
            0 <= i <= cs.len(),
            s@ == old(s)@ + cs@.take(i as int),
        decreases cs.len() - i,
    {
        string_push(s, cs[i]);
        i = i + 1;
        assert(cs@.take(i as int) == cs@.take((i - 1) as int).push(cs@[i - 1]));
    }
    assert(cs@.take(cs.len() as int) == cs@);
}

/// Appends the string `t` to `s`.
pub fn push_str(s: &mut String, t: &str)
    ensures
        final(s)@ == old(s)@ + t@,
{
    let cs = chars_vec(t);
    push_chars(s, cs.as_slice());
}

/// A string holding the characters `cs`.
pub fn string_from_chars(cs: &[char]) -> (r: String)
    ensures
        r@ == cs@,
{
    let mut s = String::new();
    push_chars(&mut s, cs);
    s
}

/// Copies a string slice into a `String`.
pub fn to_string(t: &str) -> (r: String)
    ensures
        r@ == t@,
{
    let mut s = String::new();
    push_str(&mut s, t);
    s
}

/// The concatenation of two strings.
pub fn concat(a: &str, b: &str) -> (r: String)
    ensures
        r@ == a@ + b@,
{
    let mut s = to_string(a);
    push_str(&mut s, b);
    s
}

/// Equality of two strings.
pub fn str_eq(a: &str, b: &str) -> (r: bool)
    ensures
        r == (a@ == b@),
{
    let x = chars_vec(a);
    let y = chars_vec(b);
    if x.len() != y.len() {
        return false;
    }
    let mut i: usize = 0;
    while i < x.len()
        invariant
            x@ == a@,
            y@ == b@,
            x.len() == y.len(),
            0 <= i <= x.len(),
            forall|j: int| 0 <= j < i ==> x@[j] == y@[j],
        decreases x.len() - i,
    {
        if x[i] != y[i] {
            return false;
        }
        i = i + 1;
    }
    assert(x@ =~= y@);
    true
}

// ── decimal and hexadecimal digits ─────────────────────────────────

/// The character of a digit value below 16, in lower case.
pub open spec fn hex_digit_lower(d: int) -> char {
    if d < 10 {
        (48 + d) as char
    } else {
        (87 + d) as char
    }
}

/// The character of a digit value below 16, in upper case.
pub open spec fn hex_digit_upper(d: int) -> char {
    if d < 10 {
        (48 + d) as char
    } else {
        (55 + d) as char
    }
}

/// The decimal digits of a natural number, without leading zeros.
pub open spec fn decimal(n: nat) -> Seq<char>
    decreases n,
{
    if n < 10 {
        seq![hex_digit_lower(n as int)]
    } else {
        decimal(n / 10).push(hex_digit_lower((n % 10) as int))
    }
}

/// The decimal text of an integer, with a leading `-` when it is negative.
pub open spec fn int_decimal(i: int) -> Seq<char> {
    if i < 0 {
        seq!['-'] + decimal((-i) as nat)
    } else {
        decimal(i as nat)
    }
}

/// The digit character of a value below 16.
pub fn digit_char(d: u8, upper: bool) -> (c: char)
    requires
        d < 16,
    ensures
        c == (if upper { hex_digit_upper(d as int) } else { hex_digit_lower(d as int) }),
{
    let code: u8 = if d < 10 {
        48 + d
    } else if upper {
        55 + d
    } else {
        87 + d
    };
    code as char
}

fn push_decimal(s: &mut String, n: u64)
    ensures
        final(s)@ == old(s)@ + decimal(n as nat),
    decreases n,
{
    if n >= 10 {
        push_decimal(s, n / 10);
    }
    let c = digit_char((n % 10) as u8, false);
    string_push(s, c);
}

/// The decimal text of an unsigned integer.
pub fn u64_to_decimal(n: u64) -> (r: String)
    ensures
        r@ == decimal(n as nat),
{
    let mut s = String::new();
    push_decimal(&mut s, n);
    s
}

/// The decimal text of a signed integer.
pub fn i64_to_decimal(i: i64) -> (r: String)
    ensures
        r@ == int_decimal(i as int),
{
    let mut s = String::new();
    if i < 0 {
        string_push(&mut s, '-');
        let m: u64 = if i == i64::MIN {
            9223372036854775808u64
        } else {
            (-i) as u64
        };
        push_decimal(&mut s, m);
    } else {
        push_decimal(&mut s, i as u64);
    }
    s
}

/// Two hexadecimal digits of a byte, high digit first.
pub open spec fn hex_byte(b: u8, upper: bool) -> Seq<char> {
    if upper {
        seq![hex_digit_upper((b / 16) as int), hex_digit_upper((b % 16) as int)]
    } else {
        seq![hex_digit_lower((b / 16) as int), hex_digit_lower((b % 16) as int)]
    }
}

/// The hexadecimal text of a byte sequence, two digits per byte.
pub open spec fn hex_bytes(bs: Seq<u8>, upper: bool) -> Seq<char>
    decreases bs.len(),
{
    if bs.len() == 0 {
        Seq::empty()
    } else {
        hex_bytes(bs.drop_last(), upper) + hex_byte(bs.last(), upper)
    }
}

/// Appends the two hexadecimal digits of a byte.
pub fn push_hex_byte(s: &mut String, b: u8, upper: bool)
    ensures
        final(s)@ == old(s)@ + hex_byte(b, upper),
{
    string_push(s, digit_char(b / 16, upper));
    string_push(s, digit_char(b % 16, upper));
}

/// Lower-case hexadecimal text of bytes.
pub fn to_hex_lower(bs: &[u8]) -> (r: String)
    ensures
        r@ == hex_bytes(bs@, false),
{
    let mut s = String::new();
    let mut i: usize = 0;
    while i < bs.len()
        invariant
            0 <= i <= bs.len(),
            s@ == hex_bytes(bs@.take(i as int), false),
        decreases bs.len() - i,
    {
        push_hex_byte(&mut s, bs[i], false);
        i = i + 1;
        assert(bs@.take(i as int).drop_last() == bs@.take((i - 1) as int));
    }
    assert(bs@.take(bs.len() as int) == bs@);
    s
}

// ── whitespace and splitting ───────────────────────────────────────

/// Unicode `White_Space`, the property behind `char::is_whitespace`.
pub open spec fn is_ws(c: char) -> bool {
    let u = c as u32;
    (0x9 <= u && u <= 0xd) || u == 0x20 || u == 0x85 || u == 0xa0 || u == 0x1680
        || (0x2000 <= u && u <= 0x200a) || u == 0x2028 || u == 0x2029 || u == 0x202f
        || u == 0x205f || u == 0x3000
}

/// Whether a character is white space.
pub fn is_whitespace(c: char) -> (r: bool)
    ensures
        r == is_ws(c),
{
    let u = c as u32;
    (0x9 <= u && u <= 0xd) || u == 0x20 || u == 0x85 || u == 0xa0 || u == 0x1680 || (0x2000
        <= u && u <= 0x200a) || u == 0x2028 || u == 0x2029 || u == 0x202f || u == 0x205f || u
        == 0x3000
}

/// The number of white-space characters that `s` begins with.
pub open spec fn lead_ws(s: Seq<char>) -> nat
    decreases s.len(),
{
    if s.len() > 0 && is_ws(s[0]) {
        1 + lead_ws(s.drop_first())
    } else {
        0
    }
}

/// The number of white-space characters that `s` ends with.
pub open spec fn trail_ws(s: Seq<char>) -> nat
    decreases s.len(),
{
    if s.len() > 0 && is_ws(s.last()) {
        1 + trail_ws(s.drop_last())
    } else {
        0
    }
}

/// `s` without its leading and trailing white space.
pub open spec fn trim_spec(s: Seq<char>) -> Seq<char> {
    if lead_ws(s) >= s.len() {
        Seq::empty()
    } else {
        s.subrange(lead_ws(s) as int, s.len() - trail_ws(s))
    }
}

proof fn lemma_lead_ws(s: Seq<char>, a: int)
    requires
        0 <= a <= s.len(),
        forall|j: int| 0 <= j < a ==> is_ws(s[j]),
        a == s.len() || !is_ws(s[a]),
    ensures
        lead_ws(s) == a,
    decreases a,
{
    if a > 0 {
        assert forall|j: int| 0 <= j < a - 1 implies is_ws(s.drop_first()[j]) by {
            assert(s.drop_first()[j] == s[j + 1]);
        }
        if a < s.len() {
            assert(s.drop_first()[a - 1] == s[a]);
        }
        lemma_lead_ws(s.drop_first(), a - 1);
    }
}

proof fn lemma_trail_ws(s: Seq<char>, t: int)
    requires
        0 <= t <= s.len(),
        forall|j: int| s.len() - t <= j < s.len() ==> is_ws(s[j]),
        t == s.len() || !is_ws(s[s.len() - t - 1]),
    ensures
        trail_ws(s) == t,
    decreases t,
{
    if t > 0 {
        let p = s.drop_last();
        assert forall|j: int| p.len() - (t - 1) <= j < p.len() implies is_ws(p[j]) by {
            assert(p[j] == s[j]);
        }
        if t < s.len() {
            assert(p[p.len() - (t - 1) - 1] == s[s.len() - t - 1]);
        }
        lemma_trail_ws(p, t - 1);
    }
}

/// The text without its leading and trailing white space (Unicode
/// `White_Space`, as `char::is_whitespace` and `str::trim` have it).
pub fn trim(s: &str) -> (r: String)
    ensures
        r@ == trim_spec(s@),
{
    let cs = chars_vec(s);
    let n = cs.len();
    let mut a: usize = 0;
    while a < n && is_whitespace(cs[a])
        invariant
            n == cs.len(),
            a <= n,
            forall|j: int| 0 <= j < a ==> is_ws(cs@[j]),
        decreases n - a,
    {
        a = a + 1;
    }
    proof {
        lemma_lead_ws(cs@, a as int);
    }
    let mut out = String::new();
    if a == n {
        return out;
    }
    let mut b: usize = n;
    while b > a && is_whitespace(cs[b - 1])
        invariant
            n == cs.len(),
            a < b <= n,
            !is_ws(cs@[a as int]),
            forall|j: int| b <= j < n ==> is_ws(cs@[j]),
        decreases b,
    {
        b = b - 1;
    }
    proof {
        lemma_trail_ws(cs@, (n - b) as int);
    }
    let mut i: usize = a;
    while i < b
        invariant
            a <= i <= b <= n,
            n == cs.len(),
            out@ == cs@.subrange(a as int, i as int),
        decreases b - i,
    {
        string_push(&mut out, cs[i]);
        i = i + 1;
        assert(out@ =~= cs@.subrange(a as int, i as int));
    }
    out
}

/// The maximal runs of non-white-space characters of `s`, in order
/// (what `str::split_whitespace` yields).
pub open spec fn words(s: Seq<char>) -> Seq<Seq<char>>
    decreases s.len(),
{
    if s.len() == 0 {
        Seq::empty()
    } else {
        let p = s.drop_last();
        let c = s.last();
        let w = words(p);
        if is_ws(c) {
            w
        } else if p.len() > 0 && !is_ws(p.last()) && w.len() > 0 {
            w.update(w.len() - 1, w.last().push(c))
        } else {
            w.push(seq![c])
        }
    }
}

/// A text of white space alone has no words.
pub proof fn lemma_words_blank(s: Seq<char>)
    requires
        forall|i: int| 0 <= i < s.len() ==> is_ws(#[trigger] s[i]),
    ensures
        words(s).len() == 0,
    decreases s.len(),
{
    if s.len() > 0 {
        lemma_words_blank(s.drop_last());
    }
}

/// A non-empty text that ends in a non-white-space character has a word.
pub proof fn lemma_words_nonempty(s: Seq<char>)
    requires
        s.len() > 0,
        !is_ws(s.last()),
    ensures
        words(s).len() > 0,
{
}

/// The words of two texts joined by a space are the words of the first,
/// then those of the second.
pub proof fn lemma_words_join(a: Seq<char>, b: Seq<char>)
    ensures
        words(a + seq![' '] + b) == words(a) + words(b),
    decreases b.len(),
{
    let sp = a + seq![' '];
    assert(is_ws(' '));
    if b.len() == 0 {
        assert(sp + b =~= sp);
        assert(sp.drop_last() =~= a);
        assert(words(b) =~= Seq::<Seq<char>>::empty());
        assert(words(a) + words(b) =~= words(a));
    } else {
        let b1 = b.drop_last();
        let c = b.last();
        let s = sp + b;
        let p = sp + b1;
        assert(s.drop_last() =~= p);
        assert(s.last() == c);
        lemma_words_join(a, b1);
        let wp = words(p);
        let wa = words(a);
        let wb1 = words(b1);
        assert(wp == wa + wb1);
        if b1.len() > 0 {
            assert(p.last() == b1.last());
        } else {
            assert(p.last() == ' ');
        }
        if is_ws(c) {
        } else if p.len() > 0 && !is_ws(p.last()) && wp.len() > 0 {
            assert(b1.len() > 0);
            lemma_words_nonempty(b1);
            assert(words(b) == wb1.update(wb1.len() - 1, wb1.last().push(c)));
            assert(wp.update(wp.len() - 1, wp.last().push(c)) =~= wa + wb1.update(
                wb1.len() - 1,
                wb1.last().push(c),
            ));
        } else {
            if b1.len() > 0 && !is_ws(b1.last()) {
                lemma_words_nonempty(b1);
                assert(false);
            }
            assert(words(b) == wb1.push(seq![c]));
            assert(wp.push(seq![c]) =~= wa + wb1.push(seq![c]));
        }
    }
}

/// The words of `s` (`str::split_whitespace`).
pub fn split_whitespace(s: &str) -> (r: Vec<Vec<char>>)
    ensures
        r@.len() == words(s@).len(),
        forall|i: int| 0 <= i < r@.len() ==> #[trigger] r@[i]@ == words(s@)[i],
{
    let cs = chars_vec(s);
    let mut out: Vec<Vec<char>> = Vec::new();
    let mut i: usize = 0;
    while i < cs.len()
        invariant
            cs@ == s@,
            0 <= i <= cs.len(),
            out@.len() == words(cs@.take(i as int)).len(),
            forall|j: int| 0 <= j < out@.len() ==> #[trigger] out@[j]@ == words(cs@.take(i as int))[j],
        decreases cs.len() - i,
    {
        let c = cs[i];
        let ghost p = cs@.take(i as int);
        assert(cs@.take(i + 1).drop_last() == p);
        assert(cs@.take(i + 1).last() == c);
        if is_whitespace(c) {
        } else if i > 0 && !is_whitespace(cs[i - 1]) && out.len() > 0 {
            proof {
                assert(p.last() == cs@[i - 1]);
            }
            let mut last = out.pop().unwrap();
            last.push(c);
            out.push(last);
        } else {
            proof {
                if i > 0 {
                    assert(p.last() == cs@[i - 1]);
                }
            }
            let mut w: Vec<char> = Vec::new();
            w.push(c);
            out.push(w);
            assert(out@.last()@ =~= seq![c]);
        }
        i = i + 1;
        assert(out@.len() == words(cs@.take(i as int)).len());
    }
    assert(cs@.take(cs.len() as int) == cs@);
    out
}


// ── searching ──────────────────────────────────────────────────────

/// Whether `w` occurs in `s` as a contiguous run.
pub open spec fn contains_seq(s: Seq<char>, w: Seq<char>) -> bool {
    exists|i: int| 0 <= i && i + w.len() <= s.len() && #[trigger] s.subrange(i, i + w.len()) == w
}

fn matches_at(s: &Vec<char>, w: &Vec<char>, i: usize) -> (r: bool)
    requires
        i + w.len() <= s.len(),
    ensures
        r == (s@.subrange(i as int, i + w.len()) == w@),
{
    let mut j: usize = 0;
    while j < w.len()
        invariant
            i + w.len() <= s.len(),
            0 <= j <= w.len(),
            forall|k: int| 0 <= k < j ==> s@[i + k] == w@[k],
        decreases w.len() - j,
    {
        if s[i + j] != w[j] {
            assert(s@.subrange(i as int, i + w.len())[j as int] != w@[j as int]);
            return false;
        }
        j = j + 1;
    }
    assert(s@.subrange(i as int, i + w.len()) =~= w@);
    true
}

/// Whether `w` occurs in `s` (`str::contains` with a string pattern).
pub fn contains(s: &str, w: &str) -> (r: bool)
    ensures
        r == contains_seq(s@, w@),
{
    let sc = chars_vec(s);
    let wc = chars_vec(w);
    if wc.len() > sc.len() {
        return false;
    }
    let mut i: usize = 0;
    let last = sc.len() - wc.len();
    loop
        invariant
            last == sc.len() - wc.len(),
            sc@ == s@,
            wc@ == w@,
            wc.len() <= sc.len(),
            0 <= i <= last,
            forall|k: int| 0 <= k < i ==> #[trigger] sc@.subrange(k, k + wc.len()) != wc@,
        decreases last - i,
    {
        if matches_at(&sc, &wc, i) {
            return true;
        }
        if i == last {
            return false;
        }
        i = i + 1;
    }
}

/// Whether `s` begins with `p`.
pub open spec fn starts_with_seq(s: Seq<char>, p: Seq<char>) -> bool {
    p.len() <= s.len() && s.take(p.len() as int) == p
}

/// `str::strip_prefix` with a string pattern.
pub fn strip_prefix(s: &[char], p: &str) -> (r: Option<Vec<char>>)
    ensures
        match r {
            Some(rest) => starts_with_seq(s@, p@) && rest@ == s@.skip(p@.len() as int),
            None => !starts_with_seq(s@, p@),
        },
{
    let pc = chars_vec(p);
    if pc.len() > s.len() {
        return None;
    }
    let mut j: usize = 0;
    while j < pc.len()
        invariant
            pc@ == p@,
            pc.len() <= s.len(),
            0 <= j <= pc.len(),
            forall|k: int| 0 <= k < j ==> s@[k] == pc@[k],
        decreases pc.len() - j,
    {
        if s[j] != pc[j] {
            assert(s@.take(pc.len() as int)[j as int] != pc@[j as int]);
            return None;
        }
        j = j + 1;
    }
    assert(s@.take(pc.len() as int) =~= pc@);
    let mut rest: Vec<char> = Vec::new();
    let mut i: usize = pc.len();
    while i < s.len()
        invariant
            pc.len() <= i <= s.len(),
            rest@ == s@.subrange(pc.len() as int, i as int),
        decreases s.len() - i,
    {
        rest.push(s[i]);
        i = i + 1;
        assert(rest@ =~= s@.subrange(pc.len() as int, i as int));
    }
    Some(rest)
}

/// The first `n` characters of `s` (all of them when it is shorter).
pub open spec fn take_chars_spec(s: Seq<char>, n: nat) -> Seq<char> {
    if n < s.len() {
        s.take(n as int)
    } else {
        s
    }
}

/// `s.chars().take(n).collect::<String>()`.
pub fn take_chars(s: &str, n: usize) -> (r: String)
    ensures
        r@ == take_chars_spec(s@, n as nat),
{
    let cs = chars_vec(s);
    let m = if n < cs.len() {
        n
    } else {
        cs.len()
    };
    let mut out = String::new();
    let mut i: usize = 0;
    while i < m
        invariant
            cs@ == s@,
            m <= cs.len(),
            m == (if n < cs.len() { n as int } else { cs.len() as int }),
            0 <= i <= m,
            out@ == cs@.take(i as int),
        decreases m - i,
    {
        string_push(&mut out, cs[i]);
        i = i + 1;
        assert(out@ =~= cs@.take(i as int));
    }
    assert(cs@.take(cs.len() as int) =~= cs@);
    out
}

/// The index of the first `c` in `s`, or `s.len()` when there is none.
pub open spec fn first_index(s: Seq<char>, c: char) -> nat
    decreases s.len(),
{
    if s.len() == 0 {
        0
    } else if s[0] == c {
        0
    } else {
        1 + first_index(s.drop_first(), c)
    }
}

pub proof fn lemma_first_index(s: Seq<char>, c: char, m: int)
    requires
        0 <= m <= s.len(),
        forall|j: int| 0 <= j < m ==> s[j] != c,
        m == s.len() || s[m] == c,
    ensures
        first_index(s, c) == m,
    decreases m,
{
    if m > 0 {
        assert forall|j: int| 0 <= j < m - 1 implies s.drop_first()[j] != c by {
            assert(s.drop_first()[j] == s[j + 1]);
        }
        if m < s.len() {
            assert(s.drop_first()[m - 1] == s[m]);
        }
        lemma_first_index(s.drop_first(), c, m - 1);
    }
}

pub proof fn lemma_first_index_bound(s: Seq<char>, c: char)
    ensures
        first_index(s, c) <= s.len(),
        first_index(s, c) < s.len() ==> s[first_index(s, c) as int] == c,
        forall|j: int| 0 <= j < first_index(s, c) ==> s[j] != c,
    decreases s.len(),
{
    if s.len() > 0 && s[0] != c {
        lemma_first_index_bound(s.drop_first(), c);
        assert forall|j: int| 0 <= j < first_index(s, c) implies s[j] != c by {
            if j > 0 {
                assert(s[j] == s.drop_first()[j - 1]);
            }
        }
    }
}

/// Splits `s` at its first `sep` (`str::split_once` with a character).
pub fn split_once(s: &str, sep: char) -> (r: Option<(String, String)>)
    ensures
        first_index(s@, sep) == s@.len() ==> r is None,
        first_index(s@, sep) < s@.len() ==> (r matches Some(p) && p.0@ == s@.take(
            first_index(s@, sep) as int,
        ) && p.1@ == s@.skip(first_index(s@, sep) + 1int)),
{
    let cs = chars_vec(s);
    let mut i: usize = 0;
    while i < cs.len()
        invariant
            cs@ == s@,
            0 <= i <= cs.len(),
            forall|j: int| 0 <= j < i ==> cs@[j] != sep,
        decreases cs.len() - i,
    {
        if cs[i] == sep {
            proof {
                lemma_first_index(cs@, sep, i as int);
            }
            let mut a = String::new();
            let mut k: usize = 0;
            while k < i
                invariant
                    0 <= k <= i < cs.len(),
                    a@ == cs@.take(k as int),
                decreases i - k,
            {
                string_push(&mut a, cs[k]);
                k = k + 1;
                assert(a@ =~= cs@.take(k as int));
            }
            let mut b = String::new();
            let mut k: usize = i + 1;
            while k < cs.len()
                invariant
                    i + 1 <= k <= cs.len(),
                    b@ == cs@.subrange(i + 1, k as int),
                decreases cs.len() - k,
            {
                string_push(&mut b, cs[k]);
                k = k + 1;
                assert(b@ =~= cs@.subrange(i + 1, k as int));
            }
            return Some((a, b));
        }
        i = i + 1;
    }
    proof {
        lemma_first_index(cs@, sep, cs.len() as int);
    }
    None
}

// ── lines ──────────────────────────────────────────────────────────

/// A line with one trailing carriage return removed.
pub open spec fn strip_cr(l: Seq<char>) -> Seq<char> {
    if l.len() > 0 && l.last() == '\r' {
        l.drop_last()
    } else {
        l
    }
}

/// The lines of `s` as `str::lines` yields them: split at `\n`, a `\r`
/// before the `\n` removed, and no empty line after a final `\n`.
pub open spec fn lines(s: Seq<char>) -> Seq<Seq<char>>
    decreases s.len(),
{
    if s.len() == 0 {
        Seq::empty()
    } else {
        let k = first_index(s, '\n');
        if k >= s.len() {
            seq![s]
        } else {
            seq![strip_cr(s.take(k as int))] + lines(s.skip(k + 1int))
        }
    }
}

/// The lines of `s` (`str::lines`).
pub fn split_lines(s: &[char]) -> (r: Vec<Vec<char>>)
    ensures
        r@.len() == lines(s@).len(),
        forall|i: int| 0 <= i < r@.len() ==> #[trigger] r@[i]@ == lines(s@)[i],
{
    let mut out: Vec<Vec<char>> = Vec::new();
    let mut cur: Vec<char> = Vec::new();
    let mut start: usize = 0;
    let mut i: usize = 0;
    assert(s@.skip(0) =~= s@);
    while i < s.len()
        invariant
            0 <= start <= i <= s.len(),
            cur@ == s@.subrange(start as int, i as int),
            forall|j: int| start <= j < i ==> s@[j] != '\n',
            out@.len() + lines(s@.skip(start as int)).len() == lines(s@).len(),
            forall|j: int| 0 <= j < out@.len() ==> #[trigger] out@[j]@ == lines(s@)[j],
            forall|j: int|
                0 <= j < lines(s@.skip(start as int)).len() ==> #[trigger] lines(
                    s@.skip(start as int),
                )[j] == lines(s@)[out@.len() + j],
        decreases s.len() - i,
    {
        if s[i] == '\n' {
            let ghost t = s@.skip(start as int);
            proof {
                assert forall|j: int| 0 <= j < i - start implies t[j] != '\n' by {
                    assert(t[j] == s@[start + j]);
                }
                assert(t[i - start] == s@[i as int]);
                lemma_first_index(t, '\n', i - start);
                assert(t.take(i - start) =~= cur@);
                assert(t.skip(i - start + 1) =~= s@.skip(i + 1));
            }
            let mut line = cur;
            if line.len() > 0 && line[line.len() - 1] == '\r' {
                line.pop();
            }
            assert(line@ == strip_cr(t.take(i - start)));
            let ghost old_len = out@.len();
            out.push(line);
            proof {
                assert(lines(t) == seq![strip_cr(t.take(i - start))] + lines(s@.skip(i + 1)));
                assert(out@[old_len as int]@ == lines(t)[0]);
                assert(lines(t)[0] == lines(s@)[old_len as int]);
                assert forall|j: int| 0 <= j < lines(s@.skip(i + 1)).len() implies #[trigger] lines(
                    s@.skip(i + 1),
                )[j] == lines(s@)[out@.len() + j] by {
                    assert(lines(s@.skip(i + 1))[j] == lines(t)[j + 1]);
                }
            }
            cur = Vec::new();
            start = i + 1;
        } else {
            cur.push(s[i]);
        }
        i = i + 1;
        assert(cur@ =~= s@.subrange(start as int, i as int));
    }
    if start < s.len() {
        let ghost t = s@.skip(start as int);
        proof {
            assert forall|j: int| 0 <= j < t.len() implies t[j] != '\n' by {
                assert(t[j] == s@[start + j]);
            }
            lemma_first_index(t, '\n', t.len() as int);
            assert(lines(t) == seq![t]);
            assert(cur@ =~= t);
        }
        let ghost old_len = out@.len();
        out.push(cur);
        assert(out@[old_len as int]@ == lines(t)[0]);
    } else {
        assert(s@.skip(start as int).len() == 0);
    }
    out
}

/// `std::str::from_utf8`: the text that the bytes encode where they are
/// well-formed UTF-8, else the message of the error.
#[verifier::external_body]
pub(crate) fn utf8_text(bytes: &[u8]) -> (r: Result<&str, String>)
    ensures
        (r is Ok) == vstd::utf8::valid_utf8(bytes@),
        r matches Ok(t) ==> t.spec_bytes() == bytes@,
{
    match std::str::from_utf8(bytes) {
        Ok(t) => Ok(t),
        Err(e) => Err(e.to_string()),
    }
}

/// The lower-case mapping of a string as `str::to_lowercase` defines it
/// (Unicode case mapping, with the final-sigma rule).
pub uninterp spec fn lowercase(s: Seq<char>) -> Seq<char>;

/// `str::to_lowercase`: the result is `lowercase` of the argument.
#[verifier::external_body]
pub(crate) fn to_lowercase(s: &str) -> (r: String)
    ensures
        r@ == lowercase(s@),
{
    s.to_lowercase()
}

/// A text longer than `max` bytes cut to its first `max` bytes, then
/// `...`; a text of at most `max` bytes whole.
pub fn truncate(s: &str, max: usize) -> (r: String)
    requires
        s.spec_bytes().len() <= usize::MAX,
        s.spec_bytes().len() > max ==> vstd::utf8::is_char_boundary(s.spec_bytes(), max as int),
    ensures
        s.spec_bytes().len() <= max ==> r@ == s@,
        s.spec_bytes().len() > max ==> r@ == vstd::utf8::decode_utf8(
            s.spec_bytes().subrange(0, max as int),
        ) + "..."@,
{
    if s.len() <= max {
        to_string(s)
    } else {
        let (head, _tail) = s.split_at(max);
        proof {
            vstd::utf8::encode_utf8_decode_utf8(head@);
            assert(head.spec_bytes() == vstd::utf8::encode_utf8(head@));
            assert(s.spec_bytes().subrange(0, max as int) == head.spec_bytes());
        }
        concat(head, "...")
    }
}

/// Whether every character of a text is ASCII.
pub open spec fn all_ascii(s: Seq<char>) -> bool {
    forall|i: int| 0 <= i < s.len() ==> (s[i] as u32) < 128
}

/// A character with `A`–`Z` turned into `a`–`z` (`char::to_ascii_lowercase`).
pub open spec fn ascii_lower_char(c: char) -> char {
    if 'A' <= c && c <= 'Z' {
        (((c as u8) + 32) as u8) as char
    } else {
        c
    }
}

/// A text with `A`–`Z` turned into `a`–`z` (`str::to_ascii_lowercase`).
pub open spec fn ascii_lower(s: Seq<char>) -> Seq<char> {
    Seq::new(s.len(), |i: int| ascii_lower_char(s[i]))
}

/// The lower-case form of a text: the ASCII mapping for an ASCII text
/// (where the Unicode mapping of `str::to_lowercase` is the same), and
/// `str::to_lowercase` otherwise.
pub open spec fn lower(s: Seq<char>) -> Seq<char> {
    if all_ascii(s) {
        ascii_lower(s)
    } else {
        lowercase(s)
    }
}

/// Lower-casing two ASCII texts joined by a space lower-cases each and
/// keeps the space.
pub proof fn lemma_lower_join(a: Seq<char>, b: Seq<char>)
    requires
        all_ascii(a),
        all_ascii(b),
    ensures
        all_ascii(a + seq![' '] + b),
        lower(a + seq![' '] + b) == lower(a) + seq![' '] + lower(b),
{
    let s = a + seq![' '] + b;
    assert forall|i: int| 0 <= i < s.len() implies (s[i] as u32) < 128 by {
        if i < a.len() {
            assert(s[i] == a[i]);
        } else if i > a.len() {
            assert(s[i] == b[i - a.len() - 1]);
        }
    }
    assert(ascii_lower(s) =~= ascii_lower(a) + seq![' '] + ascii_lower(b));
}

/// Lower-casing an ASCII text keeps white space where it was.
pub proof fn lemma_lower_blank(s: Seq<char>)
    requires
        all_ascii(s),
        forall|i: int| 0 <= i < s.len() ==> is_ws(#[trigger] s[i]),
    ensures
        forall|i: int| 0 <= i < lower(s).len() ==> is_ws(#[trigger] lower(s)[i]),
{
    assert forall|i: int| 0 <= i < lower(s).len() implies is_ws(#[trigger] lower(s)[i]) by {
        assert(is_ws(s[i]));
        assert(lower(s)[i] == s[i]);
    }
}

/// The lower-case form of a text.
pub fn to_lower(s: &str) -> (r: String)
    ensures
        r@ == lower(s@),
{
    let cs = chars_vec(s);
    let mut ascii = true;
    let mut i: usize = 0;
    while i < cs.len()
        invariant
            0 <= i <= cs.len(),
            ascii == (forall|j: int| 0 <= j < i ==> (cs@[j] as u32) < 128),
        decreases cs.len() - i,
    {
        if (cs[i] as u32) >= 128 {
            ascii = false;
        }
        i = i + 1;
    }
    if !ascii {
        return to_lowercase(s);
    }
    let mut out = String::new();
    let mut i: usize = 0;
    while i < cs.len()
        invariant
            0 <= i <= cs.len(),
            cs@ == s@,
            out@ == ascii_lower(cs@.take(i as int)),
        decreases cs.len() - i,
    {
        let c = cs[i];
        let d = if 'A' <= c && c <= 'Z' {
            ((c as u8) + 32) as char
        } else {
            c
        };
        assert(d == ascii_lower_char(c));
        string_push(&mut out, d);
        i = i + 1;
        assert(out@ =~= ascii_lower(cs@.take(i as int)));
    }
    assert(cs@.take(cs.len() as int) =~= cs@);
    out
}

} // verus!
