//! Character-level text helpers with their specifications: whitespace, trimming,
//! prefixes, joining and decimal numbers, over the `Seq<char>` view of strings.

use vstd::prelude::*;

verus! {

/// `String::push` appends one character.
pub assume_specification[ String::push ](s: &mut String, ch: char)
    ensures
        final(s)@ == old(s)@.push(ch),
;

/// The characters of a string slice, in order.
pub fn chars_of(s: &str) -> (v: Vec<char>)
    ensures
        v@ == s@,
{
    let mut v: Vec<char> = Vec::new();
    for c in it: s.chars()
        invariant
            v@ == it.seq().take(it.index() as int),
    {
        v.push(c);
    }
    v
}

/// The character `'0' + d` for a decimal digit `d`.
pub open spec fn digit_char(d: nat) -> char
    recommends
        d < 10,
{
    if d == 0 { '0' }
    else if d == 1 { '1' }
    else if d == 2 { '2' }
    else if d == 3 { '3' }
    else if d == 4 { '4' }
    else if d == 5 { '5' }
    else if d == 6 { '6' }
    else if d == 7 { '7' }
    else if d == 8 { '8' }
    else { '9' }
}

/// The decimal notation of `n`, without sign or leading zeros, as `Display` writes it.
pub open spec fn decimal(n: nat) -> Seq<char>
    decreases n,
{
    if n < 10 {
        seq![digit_char(n)]
    } else {
        decimal(n / 10).push(digit_char(n % 10))
    }
}

/// Whether `c` is an ASCII decimal digit.
pub open spec fn is_digit(c: char) -> bool {
    '0' <= c && c <= '9'
}

/// The value of an ASCII digit.
pub open spec fn digit_value(c: char) -> nat {
    (c as u32 - '0' as u32) as nat
}

/// The number that a string of ASCII digits denotes.
pub open spec fn digits_value(s: Seq<char>) -> nat
    decreases s.len(),
{
    if s.len() == 0 {
        0
    } else {
        digits_value(s.drop_last()) * 10 + digit_value(s.last())
    }
}

/// Whether every character of `s` is an ASCII digit.
pub open spec fn all_digits(s: Seq<char>) -> bool {
    forall|i: int| 0 <= i < s.len() ==> is_digit(#[trigger] s[i])
}

/// `char::is_whitespace`: the Unicode `White_Space` property.
pub open spec fn is_space(c: char) -> bool {
    let u = c as u32;
    ||| 0x9 <= u <= 0xd
    ||| u == 0x20
    ||| u == 0x85
    ||| u == 0xa0
    ||| u == 0x1680
    ||| 0x2000 <= u <= 0x200a
    ||| u == 0x2028
    ||| u == 0x2029
    ||| u == 0x202f
    ||| u == 0x205f
    ||| u == 0x3000
}

/// `s` without its leading whitespace.
pub open spec fn trim_start(s: Seq<char>) -> Seq<char>
    decreases s.len(),
{
    if s.len() > 0 && is_space(s[0]) {
        trim_start(s.drop_first())
    } else {
        s
    }
}

/// `s` without its trailing whitespace.
pub open spec fn trim_end(s: Seq<char>) -> Seq<char>
    decreases s.len(),
{
    if s.len() > 0 && is_space(s.last()) {
        trim_end(s.drop_last())
    } else {
        s
    }
}

/// `str::trim`: `s` without leading and trailing whitespace.
pub open spec fn trim(s: Seq<char>) -> Seq<char> {
    trim_end(trim_start(s))
}

/// The pieces of `parts` with `sep` between each two neighbours, as `[_]::join` builds it.
pub open spec fn join(parts: Seq<Seq<char>>, sep: Seq<char>) -> Seq<char>
    decreases parts.len(),
{
    if parts.len() == 0 {
        seq![]
    } else if parts.len() == 1 {
        parts[0]
    } else {
        join(parts.drop_last(), sep) + sep + parts.last()
    }
}

/// `char::is_whitespace`.
pub fn is_whitespace(c: char) -> (b: bool)
    ensures
        b == is_space(c),
{
    let u = c as u32;
    (0x9 <= u && u <= 0xd) || u == 0x20 || u == 0x85 || u == 0xa0 || u == 0x1680 || (0x2000
        <= u && u <= 0x200a) || u == 0x2028 || u == 0x2029 || u == 0x202f || u == 0x205f || u
        == 0x3000
}

/// The digit character for `d`.
pub fn digit_of(d: u64) -> (c: char)
    requires
        d < 10,
    ensures
        c == digit_char(d as nat),
{
    if d == 0 { '0' }
    else if d == 1 { '1' }
    else if d == 2 { '2' }
    else if d == 3 { '3' }
    else if d == 4 { '4' }
    else if d == 5 { '5' }
    else if d == 6 { '6' }
    else if d == 7 { '7' }
    else if d == 8 { '8' }
    else { '9' }
}

/// Appends the decimal notation of `n` to `s`.
pub fn push_decimal(s: &mut String, n: u64)
    ensures
        final(s)@ == old(s)@ + decimal(n as nat),
    decreases n,
{
    if n >= 10 {
        push_decimal(s, n / 10);
    }
    s.push(digit_of(n % 10));
}

/// A string of the characters of `v`, in order.
pub fn string_of(v: &[char]) -> (s: String)
    ensures
        s@ == v@,
{
    let mut s = String::new();
    let mut i: usize = 0;
    while i < v.len()
        invariant
            i <= v.len(),
            s@ == v@.take(i as int),
        decreases v.len() - i,
    {
        s.push(v[i]);
        assert(v@.take(i + 1) == v@.take(i as int).push(v@[i as int]));
        i = i + 1;
    }
    assert(v@.take(v.len() as int) == v@);
    s
}

/// The bounds `(lo, hi)` of the trimmed part of `v`: `v[lo..hi]` is `trim(v)`.
pub fn trim_bounds(v: &[char]) -> (r: (usize, usize))
    ensures
        r.0 <= r.1 <= v.len(),
        v@.subrange(r.0 as int, r.1 as int) == trim(v@),
{
    let n = v.len();
    let mut lo: usize = 0;
    assert(v@.subrange(0, n as int) == v@);
    while lo < n && is_whitespace(v[lo])
        invariant
            lo <= n,
            n == v.len(),
            trim_start(v@) == trim_start(v@.subrange(lo as int, n as int)),
        decreases n - lo,
    {
        assert(v@.subrange(lo as int, n as int).drop_first() == v@.subrange(lo + 1, n as int));
        lo = lo + 1;
    }
    let mut hi = n;
    while hi > lo && is_whitespace(v[hi - 1])
        invariant
            lo <= hi <= n,
            n == v.len(),
            trim(v@) == trim_end(v@.subrange(lo as int, hi as int)),
        decreases hi - lo,
    {
        assert(v@.subrange(lo as int, hi as int).drop_last() == v@.subrange(lo as int, hi - 1));
        hi = hi - 1;
    }
    (lo, hi)
}

/// The characters `v[lo..hi]` as a string.
pub fn string_of_range(v: &[char], lo: usize, hi: usize) -> (s: String)
    requires
        lo <= hi <= v.len(),
    ensures
        s@ == v@.subrange(lo as int, hi as int),
{
    let mut s = String::new();
    let mut i: usize = lo;
    while i < hi
        invariant
            lo <= i <= hi <= v.len(),
            s@ == v@.subrange(lo as int, i as int),
        decreases hi - i,
    {
        s.push(v[i]);
        assert(v@.subrange(lo as int, i + 1) == v@.subrange(lo as int, i as int).push(v@[i as int]));
        i = i + 1;
    }
    s
}

/// `parts.join(sep)`.
pub fn join_strings(parts: &Vec<String>, sep: &str) -> (s: String)
    ensures
        s@ == join(parts.deep_view(), sep@),
{
    let ghost dv = parts.deep_view();
    let mut s = String::new();
    let mut i: usize = 0;
    while i < parts.len()
        invariant
            i <= parts.len(),
            dv == parts.deep_view(),
            dv.len() == parts.len(),
            s@ == join(dv.take(i as int), sep@),
        decreases parts.len() - i,
    {
        assert(dv[i as int] == parts[i as int]@);
        if i > 0 {
            s.append(sep);
        }
        s.append(parts[i].as_str());
        assert(dv.take(i + 1).drop_last() == dv.take(i as int));
        i = i + 1;
    }
    assert(dv.take(parts.len() as int) == dv);
    s
}

/// `digits_value` never shrinks when digits are appended.
pub proof fn lemma_digits_value_prefix(s: Seq<char>, k: int)
    requires
        0 <= k <= s.len(),
    ensures
        digits_value(s.take(k)) <= digits_value(s),
    decreases s.len(),
{
    if k < s.len() {
        assert(s.drop_last().take(k) == s.take(k));
        lemma_digits_value_prefix(s.drop_last(), k);
    } else {
        assert(s.take(k) == s);
    }
}

/// `u32::from_str` on the digit run `v[lo..hi]`: the value, or `None` where it exceeds `u32::MAX`.
pub fn parse_u32_digits(v: &[char], lo: usize, hi: usize) -> (r: Option<u32>)
    requires
        lo <= hi <= v.len(),
        all_digits(v@.subrange(lo as int, hi as int)),
    ensures
        r == (if digits_value(v@.subrange(lo as int, hi as int)) <= u32::MAX {
            Some(digits_value(v@.subrange(lo as int, hi as int)) as u32)
        } else {
            None::<u32>
        }),
{
    let ghost whole = v@.subrange(lo as int, hi as int);
    let mut acc: u64 = 0;
    let mut i: usize = lo;
    assert(whole.take(0) =~= Seq::<char>::empty());
    while i < hi
        invariant
            lo <= i <= hi <= v.len(),
            whole == v@.subrange(lo as int, hi as int),
            all_digits(whole),
            acc as nat == digits_value(whole.take(i - lo)),
            acc <= u32::MAX,
        decreases hi - i,
    {
        let c = v[i];
        assert(whole[i - lo] == c);
        assert(is_digit(c));
        let d = (c as u32 - '0' as u32) as u64;
        assert(whole.take(i - lo + 1).drop_last() == whole.take(i - lo));
        let next = acc * 10 + d;
        if next > 0xffff_ffff {
            proof {
                lemma_digits_value_prefix(whole, i - lo + 1);
            }
            return None;
        }
        acc = next;
        i = i + 1;
    }
    assert(whole.take(hi - lo) == whole);
    Some(acc as u32)
}

/// The lowercase hexadecimal digit for `d < 16`.
pub open spec fn hex_char(d: nat) -> char {
    if d < 10 {
        digit_char(d)
    } else if d == 10 {
        'a'
    } else if d == 11 {
        'b'
    } else if d == 12 {
        'c'
    } else if d == 13 {
        'd'
    } else if d == 14 {
        'e'
    } else {
        'f'
    }
}

/// Lowercase hexadecimal notation of bytes, two digits per byte, as `{:x}` writes a digest.
pub open spec fn hex_lower(b: Seq<u8>) -> Seq<char>
    decreases b.len(),
{
    if b.len() == 0 {
        seq![]
    } else {
        hex_lower(b.drop_last()) + seq![hex_char((b.last() / 16) as nat), hex_char((b.last() % 16) as nat)]
    }
}

/// Two hexadecimal digits per byte.
pub proof fn lemma_hex_lower_len(b: Seq<u8>)
    ensures
        hex_lower(b).len() == 2 * b.len(),
    decreases b.len(),
{
    if b.len() > 0 {
        lemma_hex_lower_len(b.drop_last());
    }
}

fn hex_digit_of(d: u8) -> (c: char)
    requires
        d < 16,
    ensures
        c == hex_char(d as nat),
{
    if d < 10 {
        digit_of(d as u64)
    } else if d == 10 {
        'a'
    } else if d == 11 {
        'b'
    } else if d == 12 {
        'c'
    } else if d == 13 {
        'd'
    } else if d == 14 {
        'e'
    } else {
        'f'
    }
}

/// Appends the lowercase hexadecimal notation of the first `n` bytes of `b` to `s`.
pub fn push_hex_lower(s: &mut String, b: &[u8], n: usize)
    requires
        n <= b.len(),
    ensures
        final(s)@ == old(s)@ + hex_lower(b@.take(n as int)),
{
    let mut i: usize = 0;
    assert(b@.take(0) =~= Seq::<u8>::empty());
    assert(s@ == old(s)@ + hex_lower(b@.take(0)));
    while i < n
        invariant
            i <= n <= b.len(),
            s@ == old(s)@ + hex_lower(b@.take(i as int)),
        decreases n - i,
    {
        let byte = b[i];
        s.push(hex_digit_of(byte / 16));
        s.push(hex_digit_of(byte % 16));
        assert(b@.take(i + 1).drop_last() == b@.take(i as int));
        i = i + 1;
    }
}

/// The index of the first `'\n'` in `s`, or `s.len()` when there is none.
pub open spec fn newline_index(s: Seq<char>) -> nat
    decreases s.len(),
{
    if s.len() == 0 {
        0
    } else if s[0] == '\n' {
        0
    } else {
        1 + newline_index(s.drop_first())
    }
}

/// `line` without one trailing carriage return.
pub open spec fn strip_cr(line: Seq<char>) -> Seq<char> {
    if line.len() > 0 && line.last() == '\r' {
        line.drop_last()
    } else {
        line
    }
}

/// `newline_index` lies within the sequence.
pub proof fn lemma_newline_index_bound(s: Seq<char>)
    ensures
        newline_index(s) <= s.len(),
        newline_index(s) < s.len() ==> s[newline_index(s) as int] == '\n',
        forall|j: int| 0 <= j < newline_index(s) ==> s[j] != '\n',
    decreases s.len(),
{
    if s.len() > 0 && s[0] != '\n' {
        lemma_newline_index_bound(s.drop_first());
        assert forall|j: int| 0 <= j < newline_index(s) implies s[j] != '\n' by {
            if j > 0 {
                assert(s.drop_first()[j - 1] == s[j]);
            }
        }
    }
}

/// `str::lines`: the lines of `s`, split at `'\n'`, each without its line ending
/// (`"\n"` or `"\r\n"`); a final line ending adds no empty line.
pub open spec fn lines(s: Seq<char>) -> Seq<Seq<char>>
    decreases s.len(),
{
    if s.len() == 0 {
        seq![]
    } else {
        let k = newline_index(s);
        if k >= s.len() {
            seq![s]
        } else {
            proof {
                lemma_newline_index_bound(s);
            }
            seq![strip_cr(s.take(k as int))] + lines(s.skip((k + 1) as int))
        }
    }
}

/// The first newline of `s` is at `k` when `s[..k]` holds none and `s[k]` is one.
pub proof fn lemma_newline_index_at(s: Seq<char>, k: int)
    requires
        0 <= k <= s.len(),
        forall|j: int| 0 <= j < k ==> s[j] != '\n',
        k < s.len() ==> s[k] == '\n',
    ensures
        newline_index(s) == k,
    decreases s.len(),
{
    if s.len() > 0 && s[0] != '\n' {
        assert forall|j: int| 0 <= j < k - 1 implies s.drop_first()[j] != '\n' by {
            assert(s.drop_first()[j] == s[j + 1]);
        }
        lemma_newline_index_at(s.drop_first(), k - 1);
    }
}

/// The lines of `v`, as `str::lines` gives them.
pub fn split_lines(v: &[char]) -> (ls: Vec<Vec<char>>)
    ensures
        ls.deep_view() == lines(v@),
{
    let n = v.len();
    let mut ls: Vec<Vec<char>> = Vec::new();
    let mut cur: Vec<char> = Vec::new();
    let mut start: usize = 0;
    let mut i: usize = 0;
    assert(v@.skip(0) == v@);
    while i < n
        invariant
            n == v.len(),
            start <= i <= n,
            cur@ == v@.subrange(start as int, i as int),
            forall|j: int| start <= j < i ==> v@[j] != '\n',
            lines(v@) == ls.deep_view() + lines(v@.skip(start as int)),
        decreases n - i,
    {
        let c = v[i];
        if c == '\n' {
            let ghost rest = v@.skip(start as int);
            proof {
                lemma_newline_index_at(rest, i - start);
                assert(rest.take(i - start) == cur@);
                assert(rest.skip(i - start + 1) == v@.skip(i + 1));
            }
            let line = if cur.len() > 0 && cur[cur.len() - 1] == '\r' {
                let mut t = cur.clone();
                t.pop();
                t
            } else {
                cur.clone()
            };
            assert(line@ == strip_cr(cur@));
            let ghost before = ls.deep_view();
            assert(line.deep_view() =~= line@);
            ls.push(line);
            assert(ls.deep_view() =~= before.push(strip_cr(cur@)));
            cur = Vec::new();
            start = i + 1;
        } else {
            cur.push(c);
        }
        i = i + 1;
    }
    if start < n {
        let ghost rest = v@.skip(start as int);
        proof {
            lemma_newline_index_at(rest, rest.len() as int);
            assert(rest == cur@);
        }
        let ghost before = ls.deep_view();
        assert(cur.deep_view() =~= cur@);
        ls.push(cur);
        assert(ls.deep_view() =~= before.push(rest));
    }
    ls
}

/// `str::starts_with` for a pattern string.
pub fn starts_with(v: &[char], p: &str) -> (b: bool)
    ensures
        b == p@.is_prefix_of(v@),
{
    let pc = chars_of(p);
    if pc.len() > v.len() {
        return false;
    }
    let mut i: usize = 0;
    while i < pc.len()
        invariant
            i <= pc.len() <= v.len(),
            pc@ == p@,
            forall|j: int| 0 <= j < i ==> pc@[j] == v@[j],
        decreases pc.len() - i,
    {
        if pc[i] != v[i] {
            assert(v@.subrange(0, p@.len() as int)[i as int] != p@[i as int]);
            return false;
        }
        i = i + 1;
    }
    assert(p@ =~= v@.subrange(0, p@.len() as int));
    true
}

/// Whether two strings are equal.
pub fn str_eq(a: &str, b: &str) -> (r: bool)
    ensures
        r == (a@ == b@),
{
    let x = chars_of(a);
    if x.len() != chars_of(b).len() {
        return false;
    }
    let r = starts_with(x.as_slice(), b);
    proof {
        if r {
            assert(x@ =~= x@.subrange(0, b@.len() as int));
        }
    }
    r
}

/// `str::strip_prefix` for a pattern string.
pub fn strip_prefix(v: &[char], p: &str) -> (r: Option<String>)
    ensures
        r is Some <==> p@.is_prefix_of(v@),
        r matches Some(s) ==> s@ == v@.skip(p@.len() as int),
{
    if starts_with(v, p) {
        let n = chars_of(p).len();
        Some(string_of_range(v, n, v.len()))
    } else {
        None
    }
}

/// Lexicographic order on characters by code point; for strings this is the order
/// of `Ord for str`, since UTF-8 keeps the order of code points.
pub open spec fn lex_lt(a: Seq<char>, b: Seq<char>) -> bool
    decreases a.len(),
{
    if a.len() == 0 {
        b.len() > 0
    } else if b.len() == 0 {
        false
    } else if a[0] != b[0] {
        a[0] < b[0]
    } else {
        lex_lt(a.drop_first(), b.drop_first())
    }
}

/// `lex_lt` is a strict total order.
pub proof fn lemma_lex_lt_total(a: Seq<char>, b: Seq<char>)
    ensures
        !lex_lt(a, a),
        lex_lt(a, b) ==> !lex_lt(b, a),
        a != b ==> lex_lt(a, b) || lex_lt(b, a),
    decreases a.len(),
{
    if a.len() > 0 && b.len() > 0 {
        lemma_lex_lt_total(a.drop_first(), b.drop_first());
        if a[0] == b[0] && a != b {
            assert(a == seq![a[0]] + a.drop_first());
            assert(b == seq![b[0]] + b.drop_first());
        }
    } else if a.len() > 0 {
    } else if b.len() > 0 {
    } else {
        assert(a =~= b);
    }
    if a.len() > 0 {
        lemma_lex_lt_total(a.drop_first(), a.drop_first());
    }
}

/// `lex_lt` is transitive.
pub proof fn lemma_lex_lt_trans(a: Seq<char>, b: Seq<char>, c: Seq<char>)
    requires
        lex_lt(a, b),
        lex_lt(b, c),
    ensures
        lex_lt(a, c),
    decreases a.len(),
{
    if a.len() > 0 && b.len() > 0 && c.len() > 0 && a[0] == b[0] && b[0] == c[0] {
        lemma_lex_lt_trans(a.drop_first(), b.drop_first(), c.drop_first());
    }
}

/// Whether `a` comes strictly before `b` as strings.
pub fn str_less(a: &str, b: &str) -> (r: bool)
    ensures
        r == lex_lt(a@, b@),
{
    let x = chars_of(a);
    let y = chars_of(b);
    let mut i: usize = 0;
    assert(a@.skip(0) == a@);
    assert(b@.skip(0) == b@);
    while i < x.len() && i < y.len() && x[i] == y[i]
        invariant
            i <= x.len(),
            i <= y.len(),
            x@ == a@,
            y@ == b@,
            lex_lt(a@, b@) == lex_lt(a@.skip(i as int), b@.skip(i as int)),
        decreases x.len() - i,
    {
        assert(a@.skip(i as int).drop_first() == a@.skip(i + 1));
        assert(b@.skip(i as int).drop_first() == b@.skip(i + 1));
        i = i + 1;
    }
    if i == x.len() {
        i < y.len()
    } else if i == y.len() {
        false
    } else {
        x[i] < y[i]
    }
}

/// `\\d` of the `regex` crate: the Unicode general category `Nd` (decimal number),
/// as Unicode 16.0 lists it.
pub open spec fn is_decimal_number(c: char) -> bool {
    let u = c as u32;
    ||| 0x30 <= u <= 0x39
    ||| 0x660 <= u <= 0x669
    ||| 0x6f0 <= u <= 0x6f9
    ||| 0x7c0 <= u <= 0x7c9
    ||| 0x966 <= u <= 0x96f
    ||| 0x9e6 <= u <= 0x9ef
    ||| 0xa66 <= u <= 0xa6f
    ||| 0xae6 <= u <= 0xaef
    ||| 0xb66 <= u <= 0xb6f
    ||| 0xbe6 <= u <= 0xbef
    ||| 0xc66 <= u <= 0xc6f
    ||| 0xce6 <= u <= 0xcef
    ||| 0xd66 <= u <= 0xd6f
    ||| 0xde6 <= u <= 0xdef
    ||| 0xe50 <= u <= 0xe59
    ||| 0xed0 <= u <= 0xed9
    ||| 0xf20 <= u <= 0xf29
    ||| 0x1040 <= u <= 0x1049
    ||| 0x1090 <= u <= 0x1099
    ||| 0x17e0 <= u <= 0x17e9
    ||| 0x1810 <= u <= 0x1819
    ||| 0x1946 <= u <= 0x194f
    ||| 0x19d0 <= u <= 0x19d9
    ||| 0x1a80 <= u <= 0x1a89
    ||| 0x1a90 <= u <= 0x1a99
    ||| 0x1b50 <= u <= 0x1b59
    ||| 0x1bb0 <= u <= 0x1bb9
    ||| 0x1c40 <= u <= 0x1c49
    ||| 0x1c50 <= u <= 0x1c59
    ||| 0xa620 <= u <= 0xa629
    ||| 0xa8d0 <= u <= 0xa8d9
    ||| 0xa900 <= u <= 0xa909
    ||| 0xa9d0 <= u <= 0xa9d9
    ||| 0xa9f0 <= u <= 0xa9f9
    ||| 0xaa50 <= u <= 0xaa59
    ||| 0xabf0 <= u <= 0xabf9
    ||| 0xff10 <= u <= 0xff19
    ||| 0x104a0 <= u <= 0x104a9
    ||| 0x10d30 <= u <= 0x10d39
    ||| 0x10d40 <= u <= 0x10d49
    ||| 0x11066 <= u <= 0x1106f
    ||| 0x110f0 <= u <= 0x110f9
    ||| 0x11136 <= u <= 0x1113f
    ||| 0x111d0 <= u <= 0x111d9
    ||| 0x112f0 <= u <= 0x112f9
    ||| 0x11450 <= u <= 0x11459
    ||| 0x114d0 <= u <= 0x114d9
    ||| 0x11650 <= u <= 0x11659
    ||| 0x116c0 <= u <= 0x116c9
    ||| 0x116d0 <= u <= 0x116e3
    ||| 0x11730 <= u <= 0x11739
    ||| 0x118e0 <= u <= 0x118e9
    ||| 0x11950 <= u <= 0x11959
    ||| 0x11bf0 <= u <= 0x11bf9
    ||| 0x11c50 <= u <= 0x11c59
    ||| 0x11d50 <= u <= 0x11d59
    ||| 0x11da0 <= u <= 0x11da9
    ||| 0x11f50 <= u <= 0x11f59
    ||| 0x16130 <= u <= 0x16139
    ||| 0x16a60 <= u <= 0x16a69
    ||| 0x16ac0 <= u <= 0x16ac9
    ||| 0x16b50 <= u <= 0x16b59
    ||| 0x16d70 <= u <= 0x16d79
    ||| 0x1ccf0 <= u <= 0x1ccf9
    ||| 0x1d7ce <= u <= 0x1d7ff
    ||| 0x1e140 <= u <= 0x1e149
    ||| 0x1e2f0 <= u <= 0x1e2f9
    ||| 0x1e4f0 <= u <= 0x1e4f9
    ||| 0x1e5f1 <= u <= 0x1e5fa
    ||| 0x1e950 <= u <= 0x1e959
    ||| 0x1fbf0 <= u <= 0x1fbf9
}

/// Whether `c` is in the Unicode general category `Nd`.
pub fn decimal_number(c: char) -> (b: bool)
    ensures
        b == is_decimal_number(c),
{
    let u = c as u32;
    (0x30 <= u && u <= 0x39)
        || (0x660 <= u && u <= 0x669)
        || (0x6f0 <= u && u <= 0x6f9)
        || (0x7c0 <= u && u <= 0x7c9)
        || (0x966 <= u && u <= 0x96f)
        || (0x9e6 <= u && u <= 0x9ef)
        || (0xa66 <= u && u <= 0xa6f)
        || (0xae6 <= u && u <= 0xaef)
        || (0xb66 <= u && u <= 0xb6f)
        || (0xbe6 <= u && u <= 0xbef)
        || (0xc66 <= u && u <= 0xc6f)
        || (0xce6 <= u && u <= 0xcef)
        || (0xd66 <= u && u <= 0xd6f)
        || (0xde6 <= u && u <= 0xdef)
        || (0xe50 <= u && u <= 0xe59)
        || (0xed0 <= u && u <= 0xed9)
        || (0xf20 <= u && u <= 0xf29)
        || (0x1040 <= u && u <= 0x1049)
        || (0x1090 <= u && u <= 0x1099)
        || (0x17e0 <= u && u <= 0x17e9)
        || (0x1810 <= u && u <= 0x1819)
        || (0x1946 <= u && u <= 0x194f)
        || (0x19d0 <= u && u <= 0x19d9)
        || (0x1a80 <= u && u <= 0x1a89)
        || (0x1a90 <= u && u <= 0x1a99)
        || (0x1b50 <= u && u <= 0x1b59)
        || (0x1bb0 <= u && u <= 0x1bb9)
        || (0x1c40 <= u && u <= 0x1c49)
        || (0x1c50 <= u && u <= 0x1c59)
        || (0xa620 <= u && u <= 0xa629)
        || (0xa8d0 <= u && u <= 0xa8d9)
        || (0xa900 <= u && u <= 0xa909)
        || (0xa9d0 <= u && u <= 0xa9d9)
        || (0xa9f0 <= u && u <= 0xa9f9)
        || (0xaa50 <= u && u <= 0xaa59)
        || (0xabf0 <= u && u <= 0xabf9)
        || (0xff10 <= u && u <= 0xff19)
        || (0x104a0 <= u && u <= 0x104a9)
        || (0x10d30 <= u && u <= 0x10d39)
        || (0x10d40 <= u && u <= 0x10d49)
        || (0x11066 <= u && u <= 0x1106f)
        || (0x110f0 <= u && u <= 0x110f9)
        || (0x11136 <= u && u <= 0x1113f)
        || (0x111d0 <= u && u <= 0x111d9)
        || (0x112f0 <= u && u <= 0x112f9)
        || (0x11450 <= u && u <= 0x11459)
        || (0x114d0 <= u && u <= 0x114d9)
        || (0x11650 <= u && u <= 0x11659)
        || (0x116c0 <= u && u <= 0x116c9)
        || (0x116d0 <= u && u <= 0x116e3)
        || (0x11730 <= u && u <= 0x11739)
        || (0x118e0 <= u && u <= 0x118e9)
        || (0x11950 <= u && u <= 0x11959)
        || (0x11bf0 <= u && u <= 0x11bf9)
        || (0x11c50 <= u && u <= 0x11c59)
        || (0x11d50 <= u && u <= 0x11d59)
        || (0x11da0 <= u && u <= 0x11da9)
        || (0x11f50 <= u && u <= 0x11f59)
        || (0x16130 <= u && u <= 0x16139)
        || (0x16a60 <= u && u <= 0x16a69)
        || (0x16ac0 <= u && u <= 0x16ac9)
        || (0x16b50 <= u && u <= 0x16b59)
        || (0x16d70 <= u && u <= 0x16d79)
        || (0x1ccf0 <= u && u <= 0x1ccf9)
        || (0x1d7ce <= u && u <= 0x1d7ff)
        || (0x1e140 <= u && u <= 0x1e149)
        || (0x1e2f0 <= u && u <= 0x1e2f9)
        || (0x1e4f0 <= u && u <= 0x1e4f9)
        || (0x1e5f1 <= u && u <= 0x1e5fa)
        || (0x1e950 <= u && u <= 0x1e959)
        || (0x1fbf0 <= u && u <= 0x1fbf9)
}

} // verus!
