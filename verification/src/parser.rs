//! The unified-diff parser: it cuts `git diff` output into raw hunks.

use vstd::prelude::*;
use crate::models::{RawHunk, RawHunkView};
use crate::text::{
    all_digits, chars_of, decimal_number, is_decimal_number, decimal, digits_value, is_digit, join, join_strings, lines, parse_u32_digits,
    is_space, push_decimal, split_lines, starts_with, string_of, strip_prefix, trim, trim_bounds,
    trim_end, trim_start,
};

verus! {

/// The length of the run of decimal digits (`\\d`, Unicode `Nd`) in `s` that starts at `i`.
pub open spec fn digit_run(s: Seq<char>, i: int) -> nat
    decreases s.len() - i,
{
    if 0 <= i < s.len() && is_decimal_number(s[i]) {
        1 + digit_run(s, i + 1)
    } else {
        0
    }
}

/// An optional `,<digits>` group at `p`: the digits, and where the text after it starts.
pub open spec fn count_group(l: Seq<char>, p: int) -> (Option<Seq<char>>, int) {
    if 0 <= p < l.len() && l[p] == ',' && digit_run(l, p + 1) > 0 {
        (Some(l.subrange(p + 1, p + 1 + digit_run(l, p + 1))), p + 1 + digit_run(l, p + 1))
    } else {
        (None, p)
    }
}

/// The digit groups of a hunk header `@@ -A[,B] +C[,D] @@`.
pub struct HeaderCaps {
    pub old_start: Seq<char>,
    pub old_lines: Option<Seq<char>>,
    pub new_start: Seq<char>,
    pub new_lines: Option<Seq<char>>,
}

/// The digit groups of `l` when `l` begins with a hunk header `@@ -A[,B] +C[,D] @@`
/// (`A`..`D` runs of decimal digits; whatever follows the closing `@@` is free), as the
/// pattern `^@@ -(\\d+)(?:,(\\d+))? \\+(\\d+)(?:,(\\d+))? @@` matches it.
pub open spec fn header_caps(l: Seq<char>) -> Option<HeaderCaps> {
    if !(l.len() >= 4 && l[0] == '@' && l[1] == '@' && l[2] == ' ' && l[3] == '-') {
        None
    } else {
        let la: int = digit_run(l, 4) as int;
        let (b, p) = count_group(l, 4 + la);
        if la == 0 || !(p + 1 < l.len() && l[p] == ' ' && l[p + 1] == '+') {
            None
        } else {
            let lc: int = digit_run(l, p + 2) as int;
            let (d, q) = count_group(l, p + 2 + lc);
            if lc == 0 || !(q + 2 < l.len() && l[q] == ' ' && l[q + 1] == '@' && l[q + 2] == '@') {
                None
            } else {
                Some(
                    HeaderCaps {
                        old_start: l.subrange(4, 4 + la),
                        old_lines: b,
                        new_start: l.subrange(p + 2, p + 2 + lc),
                        new_lines: d,
                    },
                )
            }
        }
    }
}

/// `d.parse::<u32>().unwrap_or(default)` on a digit group: its number, or `default`
/// where it holds a digit that is not ASCII or does not fit in a `u32`.
pub open spec fn number_or(d: Seq<char>, default: u32) -> u32 {
    if all_digits(d) && digits_value(d) <= u32::MAX {
        digits_value(d) as u32
    } else {
        default
    }
}

/// A line count: 1 when the group is absent or does not fit in a `u32`.
pub open spec fn count_or_one(d: Option<Seq<char>>) -> u32 {
    match d {
        Some(d) => number_or(d, 1),
        None => 1,
    }
}

/// The numbers `(old_start, old_lines, new_start, new_lines)` of a hunk header line.
pub open spec fn header_numbers(l: Seq<char>) -> Option<(u32, u32, u32, u32)> {
    match header_caps(l) {
        Some(c) => Some(
            (
                number_or(c.old_start, 0),
                count_or_one(c.old_lines),
                number_or(c.new_start, 0),
                count_or_one(c.new_lines),
            ),
        ),
        None => None,
    }
}

/// The header that a hunk records: `@@ -A,B +C,D @@` with all four numbers written out.
pub open spec fn header_text(os: u32, ol: u32, ns: u32, nl: u32) -> Seq<char> {
    "@@ -"@ + decimal(os as nat) + ","@ + decimal(ol as nat) + " +"@ + decimal(ns as nat) + ","@
        + decimal(nl as nat) + " @@"@
}

/// The id of the `k`-th hunk of a diff: `r<k>`.
pub open spec fn hunk_id(k: nat) -> Seq<char> {
    seq!['r'] + decimal(k)
}

/// What the parser knows after some lines of the diff.
pub struct ParseState {
    pub out: Seq<RawHunkView>,
    pub file: Seq<char>,
    pub header: Seq<char>,
    pub body: Seq<Seq<char>>,
    pub old_start: u32,
    pub old_lines: u32,
    pub new_start: u32,
    pub new_lines: u32,
    pub in_hunk: bool,
}

/// The state before the first line.
pub open spec fn initial_state() -> ParseState {
    ParseState {
        out: seq![],
        file: seq![],
        header: seq![],
        body: seq![],
        old_start: 0,
        old_lines: 0,
        new_start: 0,
        new_lines: 0,
        in_hunk: false,
    }
}

/// The hunk that the state holds open.
pub open spec fn open_hunk(st: ParseState) -> RawHunkView {
    RawHunkView {
        id: hunk_id(st.out.len()),
        file: st.file,
        old_start: st.old_start,
        old_lines: st.old_lines,
        new_start: st.new_start,
        new_lines: st.new_lines,
        header: st.header,
        body: join(st.body, "\n"@),
    }
}

/// The state after the open hunk has been closed and recorded.
pub open spec fn flushed(st: ParseState) -> ParseState {
    ParseState { out: st.out.push(open_hunk(st)), body: seq![], ..st }
}

/// Closes the open hunk, if there is one.
pub open spec fn close_hunk(st: ParseState) -> ParseState {
    if st.in_hunk {
        ParseState { in_hunk: false, ..flushed(st) }
    } else {
        st
    }
}

/// Whether a line can belong to a hunk's body: it is empty or begins with `+`, `-` or a space.
pub open spec fn is_body_line(line: Seq<char>) -> bool {
    line.len() == 0 || line[0] == '+' || line[0] == '-' || line[0] == ' '
}

/// The effect of one line of the diff. A `---` or `+++` line ends the open hunk (a file
/// boundary); `--- a/<path>` names the file of the hunks that follow, and `+++ b/<path>`
/// names it again (a deleted file keeps its `--- a/` name under `+++ /dev/null`); a
/// header line opens a hunk, closing the one before; body lines extend the open hunk.
pub open spec fn step(st: ParseState, line: Seq<char>) -> ParseState {
    if "+++ b/"@.is_prefix_of(line) {
        ParseState { file: line.skip("+++ b/"@.len() as int), ..close_hunk(st) }
    } else if "+++ "@.is_prefix_of(line) {
        close_hunk(st)
    } else if "--- "@.is_prefix_of(line) {
        if "--- a/"@.is_prefix_of(line) {
            ParseState { file: line.skip("--- a/"@.len() as int), ..close_hunk(st) }
        } else {
            close_hunk(st)
        }
    } else if header_numbers(line) is Some {
        let (os, ol, ns, nl) = header_numbers(line)->0;
        let st1 = if st.in_hunk { flushed(st) } else { st };
        ParseState {
            old_start: os,
            old_lines: ol,
            new_start: ns,
            new_lines: nl,
            header: header_text(os, ol, ns, nl),
            in_hunk: true,
            ..st1
        }
    } else if st.in_hunk && is_body_line(line) {
        ParseState { body: st.body.push(line), ..st }
    } else {
        st
    }
}

/// The state after a sequence of lines.
pub open spec fn run(st: ParseState, ls: Seq<Seq<char>>) -> ParseState
    decreases ls.len(),
{
    if ls.len() == 0 {
        st
    } else {
        run(step(st, ls[0]), ls.drop_first())
    }
}

/// The hunks recorded once the last line is read: the open hunk is closed too.
pub open spec fn finish(st: ParseState) -> Seq<RawHunkView> {
    if st.in_hunk {
        st.out.push(open_hunk(st))
    } else {
        st.out
    }
}

/// The raw hunks of a unified diff: none when it is blank, else the lines read one by one.
pub open spec fn raw_hunks(diff: Seq<char>) -> Seq<RawHunkView> {
    if trim(diff).len() == 0 {
        seq![]
    } else {
        finish(run(initial_state(), lines(diff)))
    }
}

/// Whether every character of `s` is a decimal digit (Unicode `Nd`).
pub open spec fn all_decimal(s: Seq<char>) -> bool {
    forall|i: int| 0 <= i < s.len() ==> is_decimal_number(#[trigger] s[i])
}

/// A digit run lies inside the text and holds decimal digits only.
pub proof fn lemma_digit_run(s: Seq<char>, i: int)
    requires
        0 <= i <= s.len(),
    ensures
        i + digit_run(s, i) <= s.len(),
        all_decimal(s.subrange(i, i + digit_run(s, i))),
        i + digit_run(s, i) < s.len() ==> !is_decimal_number(s[i + digit_run(s, i)]),
    decreases s.len() - i,
{
    if i < s.len() && is_decimal_number(s[i]) {
        lemma_digit_run(s, i + 1);
        let k = digit_run(s, i);
        assert forall|j: int| 0 <= j < k implies is_decimal_number(#[trigger] s.subrange(i, i + k)[j]) by {
            if j > 0 {
                assert(s.subrange(i, i + k)[j] == s.subrange(i + 1, i + k)[j - 1]);
            }
        }
    }
}

fn digit_run_at(v: &[char], i: usize) -> (k: usize)
    requires
        i <= v.len(),
    ensures
        k == digit_run(v@, i as int),
        i + k <= v.len(),
{
    let mut j = i;
    while j < v.len() && decimal_number(v[j])
        invariant
            i <= j <= v.len(),
            digit_run(v@, i as int) == (j - i) + digit_run(v@, j as int),
        decreases v.len() - j,
    {
        j = j + 1;
    }
    j - i
}

fn count_group_at(v: &[char], p: usize) -> (r: (Option<(usize, usize)>, usize))
    requires
        p <= v.len(),
    ensures
        r.1 <= v.len(),
        count_group(v@, p as int).1 == r.1,
        match r.0 {
            Some((lo, hi)) => lo <= hi <= v.len() && count_group(v@, p as int).0 == Some(
                v@.subrange(lo as int, hi as int),
            ) && all_decimal(v@.subrange(lo as int, hi as int)),
            None => count_group(v@, p as int).0 is None,
        },
{
    if p < v.len() && v[p] == ',' {
        let k = digit_run_at(v, p + 1);
        if k > 0 {
            proof {
                lemma_digit_run(v@, p + 1);
            }
            return (Some((p + 1, p + 1 + k)), p + 1 + k);
        }
    }
    (None, p)
}

fn number_or_at(v: &[char], lo: usize, hi: usize, default: u32) -> (n: u32)
    requires
        lo <= hi <= v.len(),
    ensures
        n == number_or(v@.subrange(lo as int, hi as int), default),
{
    let ghost d = v@.subrange(lo as int, hi as int);
    let mut i = lo;
    while i < hi
        invariant
            lo <= i <= hi <= v.len(),
            d == v@.subrange(lo as int, hi as int),
            forall|j: int| 0 <= j < i - lo ==> is_digit(#[trigger] d[j]),
        decreases hi - i,
    {
        if !('0' <= v[i] && v[i] <= '9') {
            assert(!is_digit(d[i - lo]));
            return default;
        }
        i = i + 1;
    }
    match parse_u32_digits(v, lo, hi) {
        Some(n) => n,
        None => default,
    }
}

/// The numbers of a hunk header line, as `header_numbers` gives them.
pub fn match_header(v: &[char]) -> (r: Option<(u32, u32, u32, u32)>)
    ensures
        r == header_numbers(v@),
{
    let n = v.len();
    if !(n >= 4 && v[0] == '@' && v[1] == '@' && v[2] == ' ' && v[3] == '-') {
        return None;
    }
    let la = digit_run_at(v, 4);
    proof {
        lemma_digit_run(v@, 4);
    }
    let (b, p) = count_group_at(v, 4 + la);
    if la == 0 || !(n - p >= 2 && v[p] == ' ' && v[p + 1] == '+') {
        return None;
    }
    let lc = digit_run_at(v, p + 2);
    proof {
        lemma_digit_run(v@, p + 2);
    }
    let (d, q) = count_group_at(v, p + 2 + lc);
    if lc == 0 || !(n - q >= 3 && v[q] == ' ' && v[q + 1] == '@' && v[q + 2] == '@') {
        return None;
    }
    let os = number_or_at(v, 4, 4 + la, 0);
    let ol = match b {
        Some((lo, hi)) => number_or_at(v, lo, hi, 1),
        None => 1,
    };
    let ns = number_or_at(v, p + 2, p + 2 + lc, 0);
    let nl = match d {
        Some((lo, hi)) => number_or_at(v, lo, hi, 1),
        None => 1,
    };
    Some((os, ol, ns, nl))
}

/// The parser's working state.
struct HunkParser {
    out: Vec<RawHunk>,
    file: String,
    header: String,
    body: Vec<String>,
    old_start: u32,
    old_lines: u32,
    new_start: u32,
    new_lines: u32,
    in_hunk: bool,
}

impl View for HunkParser {
    type V = ParseState;

    closed spec fn view(&self) -> ParseState {
        ParseState {
            out: self.out@.map_values(|h: RawHunk| h@),
            file: self.file@,
            header: self.header@,
            body: self.body.deep_view(),
            old_start: self.old_start,
            old_lines: self.old_lines,
            new_start: self.new_start,
            new_lines: self.new_lines,
            in_hunk: self.in_hunk,
        }
    }
}

impl HunkParser {
    fn new() -> (p: HunkParser)
        ensures
            p@ == initial_state(),
    {
        let p = HunkParser {
            out: Vec::new(),
            file: String::new(),
            header: String::new(),
            body: Vec::new(),
            old_start: 0,
            old_lines: 0,
            new_start: 0,
            new_lines: 0,
            in_hunk: false,
        };
        assert(p@.out =~= Seq::<RawHunkView>::empty());
        assert(p@.body =~= Seq::<Seq<char>>::empty());
        p
    }

    /// Records the open hunk and empties the body.
    fn flush(&mut self)
        ensures
            final(self)@ == flushed(old(self)@),
    {
        let ghost before = self@;
        let mut id = String::new();
        id.push('r');
        push_decimal(&mut id, self.out.len() as u64);
        assert(id@ == hunk_id(before.out.len())) by {
            assert(seq!['r'] + decimal(self.out.len() as nat) == Seq::<char>::empty().push('r') + decimal(self.out.len() as nat));
        }
        let body = join_strings(&self.body, "\n");
        let hunk = RawHunk {
            id,
            file: self.file.clone(),
            old_start: self.old_start,
            old_lines: self.old_lines,
            new_start: self.new_start,
            new_lines: self.new_lines,
            header: self.header.clone(),
            body,
        };
        assert(hunk@ == open_hunk(before));
        self.out.push(hunk);
        self.body = Vec::new();
        assert(self@.out =~= before.out.push(open_hunk(before)));
        assert(self@.body =~= Seq::<Seq<char>>::empty());
    }

    /// Reads one line.
    fn step(&mut self, line: &[char])
        ensures
            final(self)@ == step(old(self)@, line@),
    {
        let ghost before = self@;
        if let Some(path) = strip_prefix(line, "+++ b/") {
            if self.in_hunk {
                self.flush();
                self.in_hunk = false;
            }
            self.file = path;
        } else if starts_with(line, "+++ ") {
            if self.in_hunk {
                self.flush();
                self.in_hunk = false;
            }
        } else if starts_with(line, "--- ") {
            if self.in_hunk {
                self.flush();
                self.in_hunk = false;
            }
            if let Some(path) = strip_prefix(line, "--- a/") {
                self.file = path;
            }
        } else if let Some((os, ol, ns, nl)) = match_header(line) {
            if self.in_hunk {
                self.flush();
            }
            self.old_start = os;
            self.old_lines = ol;
            self.new_start = ns;
            self.new_lines = nl;
            let mut h = String::new();
            h.append("@@ -");
            push_decimal(&mut h, os as u64);
            h.append(",");
            push_decimal(&mut h, ol as u64);
            h.append(" +");
            push_decimal(&mut h, ns as u64);
            h.append(",");
            push_decimal(&mut h, nl as u64);
            h.append(" @@");
            self.header = h;
            self.in_hunk = true;
        } else if self.in_hunk && (line.len() == 0 || line[0] == '+' || line[0] == '-' || line[0]
            == ' ') {
            let ghost b = self.body.deep_view();
            self.body.push(string_of(line));
            assert(self.body.deep_view() =~= b.push(line@));
        }
    }
}

/// Cuts a unified diff into its raw hunks.
///
/// A blank diff has none. Otherwise the diff is read line by line: `+++ b/<path>`
/// names the file of the hunks that follow (and `--- a/<path>` does when no file is
/// named yet), `+++ ` or a new `@@ -A[,B] +C[,D] @@` header closes the open hunk, and
/// lines that are empty or begin with `+`, `-` or a space make up its body. Hunk
/// `k` gets the id `r<k>`; a missing count is 1.
pub fn parse_raw_hunks(unified_diff: &str) -> (hunks: Vec<RawHunk>)
    ensures
        hunks@.map_values(|h: RawHunk| h@) == raw_hunks(unified_diff@),
{
    let chars = chars_of(unified_diff);
    let (lo, hi) = trim_bounds(chars.as_slice());
    if lo == hi {
        return Vec::new();
    }
    let ls = split_lines(chars.as_slice());
    let ghost all = ls.deep_view();
    let mut p = HunkParser::new();
    let mut i: usize = 0;
    assert(all.skip(0) == all);
    while i < ls.len()
        invariant
            i <= ls.len(),
            all == ls.deep_view(),
            all.len() == ls.len(),
            run(initial_state(), all) == run(p@, all.skip(i as int)),
        decreases ls.len() - i,
    {
        assert(all[i as int] == ls[i as int]@);
        assert(all.skip(i as int).drop_first() == all.skip(i + 1));
        p.step(ls[i].as_slice());
        i = i + 1;
    }
    if p.in_hunk {
        p.flush();
    }
    p.out
}

/// A hunk body: lines that are empty or begin with `+`, `-` or a space, joined by newlines.
pub open spec fn is_hunk_body(b: Seq<char>) -> bool {
    exists|bl: Seq<Seq<char>>|
        join(bl, "\n"@) == b && forall|i: int| 0 <= i < bl.len() ==> is_body_line(#[trigger] bl[i])
}

/// The shape of hunk `k`: id `r<k>`, a header that spells out its numbers, a body of body lines.
pub open spec fn hunk_shape_ok(h: RawHunkView, k: int) -> bool {
    &&& h.id == hunk_id(k as nat)
    &&& h.header == header_text(h.old_start, h.old_lines, h.new_start, h.new_lines)
    &&& is_hunk_body(h.body)
}

/// Every recorded hunk, and the open one, has the shape of `hunk_shape_ok`.
pub open spec fn state_ok(st: ParseState) -> bool {
    &&& forall|k: int| 0 <= k < st.out.len() ==> hunk_shape_ok(#[trigger] st.out[k], k)
    &&& st.in_hunk ==> st.header == header_text(st.old_start, st.old_lines, st.new_start, st.new_lines)
    &&& forall|i: int| 0 <= i < st.body.len() ==> is_body_line(#[trigger] st.body[i])
}

proof fn lemma_flush_ok(st: ParseState)
    requires
        state_ok(st),
        st.in_hunk,
    ensures
        forall|k: int| 0 <= k < flushed(st).out.len() ==> hunk_shape_ok(#[trigger] flushed(st).out[k], k),
{
    let out = flushed(st).out;
    assert(join(st.body, "\n"@) == open_hunk(st).body);
    assert(is_hunk_body(open_hunk(st).body));
    assert forall|k: int| 0 <= k < out.len() implies hunk_shape_ok(#[trigger] out[k], k) by {
        if k < st.out.len() {
            assert(out[k] == st.out[k]);
        }
    }
}

proof fn lemma_step_ok(st: ParseState, line: Seq<char>)
    requires
        state_ok(st),
    ensures
        state_ok(step(st, line)),
{
    if st.in_hunk {
        lemma_flush_ok(st);
    }
}

proof fn lemma_run_ok(st: ParseState, ls: Seq<Seq<char>>)
    requires
        state_ok(st),
    ensures
        state_ok(run(st, ls)),
    decreases ls.len(),
{
    if ls.len() > 0 {
        lemma_step_ok(st, ls[0]);
        lemma_run_ok(step(st, ls[0]), ls.drop_first());
    }
}

/// The shape of every raw hunk: hunk `k` has the id `r<k>`; its header is
/// `@@ -A,B +C,D @@` with its own four numbers written out; its body is made of lines
/// that are empty or begin with `+`, `-` or a space, joined by newlines.
pub proof fn law_hunk_shape(diff: Seq<char>)
    ensures
        forall|k: int| 0 <= k < raw_hunks(diff).len() ==> hunk_shape_ok(#[trigger] raw_hunks(diff)[k], k),
{
    if trim(diff).len() > 0 {
        let st0 = initial_state();
        assert(state_ok(st0));
        lemma_run_ok(st0, lines(diff));
        let st = run(st0, lines(diff));
        if st.in_hunk {
            lemma_flush_ok(st);
            assert(finish(st) == flushed(st).out);
        }
    }
}

/// The number of hunk header lines among `ls`.
pub open spec fn header_count(ls: Seq<Seq<char>>) -> nat
    decreases ls.len(),
{
    if ls.len() == 0 {
        0
    } else {
        (if header_numbers(ls[0]) is Some { 1nat } else { 0nat }) + header_count(ls.drop_first())
    }
}

proof fn lemma_step_count(st: ParseState, line: Seq<char>)
    ensures
        finish(step(st, line)).len() == finish(st).len() + if header_numbers(line) is Some {
            1nat
        } else {
            0nat
        },
{
    reveal_strlit("+++ b/");
    reveal_strlit("+++ ");
    reveal_strlit("--- ");
    if header_numbers(line) is Some {
        assert(line[0] == '@');
        assert(!"+++ b/"@.is_prefix_of(line)) by {
            if "+++ b/"@.is_prefix_of(line) {
                assert(line.subrange(0, 6)[0] == line[0]);
            }
        }
        assert(!"+++ "@.is_prefix_of(line)) by {
            if "+++ "@.is_prefix_of(line) {
                assert(line.subrange(0, 4)[0] == line[0]);
            }
        }
        assert(!"--- "@.is_prefix_of(line)) by {
            if "--- "@.is_prefix_of(line) {
                assert(line.subrange(0, 4)[0] == line[0]);
            }
        }
    }
}

proof fn lemma_run_count(st: ParseState, ls: Seq<Seq<char>>)
    ensures
        finish(run(st, ls)).len() == finish(st).len() + header_count(ls),
    decreases ls.len(),
{
    if ls.len() > 0 {
        lemma_step_count(st, ls[0]);
        lemma_run_count(step(st, ls[0]), ls.drop_first());
    }
}

/// Whether every character of `s` is whitespace.
pub open spec fn all_space(s: Seq<char>) -> bool {
    forall|i: int| 0 <= i < s.len() ==> is_space(#[trigger] s[i])
}

proof fn lemma_trim_start_blank(s: Seq<char>)
    requires
        trim_start(s).len() == 0,
    ensures
        all_space(s),
    decreases s.len(),
{
    if s.len() > 0 {
        lemma_trim_start_blank(s.drop_first());
        assert forall|i: int| 0 <= i < s.len() implies is_space(#[trigger] s[i]) by {
            if i > 0 {
                assert(s.drop_first()[i - 1] == s[i]);
            }
        }
    }
}

proof fn lemma_trim_end_keeps_first(s: Seq<char>)
    requires
        s.len() > 0,
        !is_space(s[0]),
    ensures
        trim_end(s).len() > 0,
    decreases s.len(),
{
    if is_space(s.last()) {
        assert(s.len() > 1);
        assert(s.drop_last()[0] == s[0]);
        lemma_trim_end_keeps_first(s.drop_last());
    }
}

proof fn lemma_trim_blank(s: Seq<char>)
    requires
        trim(s).len() == 0,
    ensures
        all_space(s),
{
    lemma_trim_start_nonspace(s);
    if trim_start(s).len() > 0 {
        lemma_trim_end_keeps_first(trim_start(s));
    }
    lemma_trim_start_blank(s);
}

proof fn lemma_trim_start_nonspace(s: Seq<char>)
    ensures
        trim_start(s).len() > 0 ==> !is_space(trim_start(s)[0]),
    decreases s.len(),
{
    if s.len() > 0 && is_space(s[0]) {
        lemma_trim_start_nonspace(s.drop_first());
    }
}

proof fn lemma_lines_of_blank(s: Seq<char>)
    requires
        all_space(s),
    ensures
        forall|k: int| 0 <= k < lines(s).len() ==> all_space(#[trigger] lines(s)[k]),
    decreases s.len(),
{
    if s.len() > 0 {
        let k = crate::text::newline_index(s);
        crate::text::lemma_newline_index_bound(s);
        if k < s.len() {
            let rest = s.skip((k + 1) as int);
            assert(all_space(rest)) by {
                assert forall|i: int| 0 <= i < rest.len() implies is_space(#[trigger] rest[i]) by {
                    assert(rest[i] == s[i + k + 1]);
                }
            }
            lemma_lines_of_blank(rest);
            let first = crate::text::strip_cr(s.take(k as int));
            assert(all_space(first)) by {
                assert forall|i: int| 0 <= i < first.len() implies is_space(#[trigger] first[i]) by {
                    assert(first[i] == s[i]);
                }
            }
            assert forall|j: int| 0 <= j < lines(s).len() implies all_space(#[trigger] lines(s)[j]) by {
                if j > 0 {
                    assert(lines(s)[j] == lines(rest)[j - 1]);
                }
            }
        }
    }
}

proof fn lemma_blank_lines_no_header(ls: Seq<Seq<char>>)
    requires
        forall|k: int| 0 <= k < ls.len() ==> all_space(#[trigger] ls[k]),
    ensures
        header_count(ls) == 0,
    decreases ls.len(),
{
    if ls.len() > 0 {
        assert(all_space(ls[0]));
        if header_numbers(ls[0]) is Some {
            assert(is_space(ls[0][0]));
        }
        assert forall|k: int| 0 <= k < ls.drop_first().len() implies all_space(#[trigger] ls.drop_first()[k]) by {
            assert(ls.drop_first()[k] == ls[k + 1]);
        }
        lemma_blank_lines_no_header(ls.drop_first());
    }
}

/// A diff has exactly as many raw hunks as it has hunk header lines: every header opens
/// a hunk, and every open hunk is recorded when the next one opens, when a `+++` line
/// comes, or at the end.
pub proof fn law_hunk_count(diff: Seq<char>)
    ensures
        raw_hunks(diff).len() == header_count(lines(diff)),
{
    if trim(diff).len() > 0 {
        lemma_run_count(initial_state(), lines(diff));
    } else {
        lemma_trim_blank(diff);
        lemma_lines_of_blank(diff);
        lemma_blank_lines_no_header(lines(diff));
    }
}


/// The file that a line names: `+++ b/<path>` and `--- a/<path>` name `<path>`; no other
/// line names a file.
pub open spec fn named_by(line: Seq<char>) -> Option<Seq<char>> {
    if "+++ b/"@.is_prefix_of(line) {
        Some(line.skip(6))
    } else if "--- a/"@.is_prefix_of(line) {
        Some(line.skip(6))
    } else {
        None
    }
}

/// The file that the last naming line among `ls` names; empty when no line names one.
pub open spec fn last_named(ls: Seq<Seq<char>>) -> Seq<char>
    decreases ls.len(),
{
    if ls.len() == 0 {
        seq![]
    } else {
        match named_by(ls.last()) {
            Some(f) => f,
            None => last_named(ls.drop_last()),
        }
    }
}

/// The position among `ls` of hunk header line number `k` (counting from 0): the header
/// line with exactly `k` header lines before it.
pub open spec fn header_pos(ls: Seq<Seq<char>>, k: nat) -> int
    decreases ls.len(),
{
    if ls.len() == 0 {
        0
    } else if header_numbers(ls.last()) is Some && header_count(ls.drop_last()) == k {
        ls.len() - 1
    } else {
        header_pos(ls.drop_last(), k)
    }
}

proof fn lemma_header_count_push(ls: Seq<Seq<char>>, l: Seq<char>)
    ensures
        header_count(ls.push(l)) == header_count(ls) + if header_numbers(l) is Some { 1nat } else { 0nat },
    decreases ls.len(),
{
    if ls.len() > 0 {
        assert(ls.push(l)[0] == ls[0]);
        assert(ls.push(l).drop_first() =~= ls.drop_first().push(l));
        lemma_header_count_push(ls.drop_first(), l);
    } else {
        assert(ls.push(l)[0] == l);
        assert(ls.push(l).drop_first() =~= Seq::<Seq<char>>::empty());
        assert(header_count(ls.push(l).drop_first()) == 0);
    }
}

proof fn lemma_header_pos_bound(ls: Seq<Seq<char>>, k: nat)
    requires
        k < header_count(ls),
    ensures
        0 <= header_pos(ls, k) < ls.len(),
        header_numbers(ls[header_pos(ls, k)]) is Some,
    decreases ls.len(),
{
    if ls.len() == 0 {
    } else {
        assert(ls.drop_last().push(ls.last()) =~= ls);
        lemma_header_count_push(ls.drop_last(), ls.last());
        if header_numbers(ls.last()) is Some && header_count(ls.drop_last()) == k {
        } else {
            lemma_header_pos_bound(ls.drop_last(), k);
            assert(ls[header_pos(ls, k)] == ls.drop_last()[header_pos(ls.drop_last(), k)]);
        }
    }
}

proof fn lemma_run_push(st: ParseState, ls: Seq<Seq<char>>, l: Seq<char>)
    ensures
        run(st, ls.push(l)) == step(run(st, ls), l),
    decreases ls.len(),
{
    if ls.len() == 0 {
        assert(ls.push(l)[0] == l);
        assert(ls.push(l).drop_first() =~= Seq::<Seq<char>>::empty());
        assert(run(step(st, l), Seq::<Seq<char>>::empty()) == step(st, l));
    } else {
        assert(ls.push(l)[0] == ls[0]);
        assert(ls.push(l).drop_first() =~= ls.drop_first().push(l));
        lemma_run_push(step(st, ls[0]), ls.drop_first(), l);
    }
}

/// The four numbers of a hunk.
pub open spec fn hunk_numbers(h: RawHunkView) -> (u32, u32, u32, u32) {
    (h.old_start, h.old_lines, h.new_start, h.new_lines)
}

/// What the parser's state says about the lines `pre` read so far.
spec fn lines_inv(st: ParseState, pre: Seq<Seq<char>>) -> bool {
    &&& st.file == last_named(pre)
    &&& st.out.len() + (if st.in_hunk { 1nat } else { 0nat }) == header_count(pre)
    &&& forall|k: int|
        0 <= k < st.out.len() ==> (#[trigger] st.out[k]).file == last_named(pre.take(header_pos(pre, k as nat)))
            && Some(hunk_numbers(st.out[k])) == header_numbers(pre[header_pos(pre, k as nat)])
    &&& st.in_hunk ==> st.file == last_named(pre.take(header_pos(pre, st.out.len())))
        && Some((st.old_start, st.old_lines, st.new_start, st.new_lines)) == header_numbers(
        pre[header_pos(pre, st.out.len())],
    )
}

proof fn lemma_prefix_char(line: Seq<char>, p: Seq<char>, q: Seq<char>)
    requires
        p.len() > 0,
        q.len() > 0,
        p[0] != q[0],
        p.is_prefix_of(line),
    ensures
        !q.is_prefix_of(line),
{
    if q.is_prefix_of(line) {
        assert(line.subrange(0, p.len() as int)[0] == line[0]);
        assert(line.subrange(0, q.len() as int)[0] == line[0]);
    }
}

proof fn lemma_step_inv(st: ParseState, pre: Seq<Seq<char>>, l: Seq<char>)
    requires
        lines_inv(st, pre),
    ensures
        lines_inv(step(st, l), pre.push(l)),
{
    reveal_strlit("+++ b/");
    reveal_strlit("+++ ");
    reveal_strlit("--- ");
    reveal_strlit("--- a/");
    let pre2 = pre.push(l);
    let st2 = step(st, l);
    lemma_header_count_push(pre, l);
    assert(pre2.drop_last() =~= pre);
    assert(pre2.last() == l);
    // The positions of the headers read before `l` do not move.
    assert forall|k: nat| k < header_count(pre) implies header_pos(pre2, k) == header_pos(pre, k)
        && pre2.take(#[trigger] header_pos(pre, k)) =~= pre.take(header_pos(pre, k))
        && pre2[header_pos(pre, k)] == pre[header_pos(pre, k)] by {
        lemma_header_pos_bound(pre, k);
    }
    let is_header = header_numbers(l) is Some;
    if is_header {
        assert(l[0] == '@');
    }
    if "+++ b/"@.is_prefix_of(l) || "+++ "@.is_prefix_of(l) {
        if "+++ b/"@.is_prefix_of(l) {
            assert(l.subrange(0, 4) =~= "+++ "@) by {
                assert(l.subrange(0, 6).subrange(0, 4) =~= l.subrange(0, 4));
            }
        }
        lemma_prefix_char(l, "+++ "@, "--- a/"@);
        assert(!is_header) by {
            if is_header {
                assert(l.subrange(0, 4)[0] == l[0]);
            }
        }
    } else if "--- "@.is_prefix_of(l) {
        assert(!is_header) by {
            if is_header {
                assert(l.subrange(0, 4)[0] == l[0]);
            }
        }
        if "--- a/"@.is_prefix_of(l) {
        }
    } else {
        assert(!"--- a/"@.is_prefix_of(l)) by {
            if "--- a/"@.is_prefix_of(l) {
                assert(l.subrange(0, 6).subrange(0, 4) =~= l.subrange(0, 4));
            }
        }
        assert(named_by(l) is None);
        if is_header {
            let st1 = if st.in_hunk { flushed(st) } else { st };
            assert(st1.out.len() == header_count(pre));
            assert(header_pos(pre2, header_count(pre)) == pre.len());
            assert(pre2.take(pre.len() as int) =~= pre);
            assert(st2.out.len() == header_count(pre));
        }
    }
}

proof fn lemma_run_inv(ls: Seq<Seq<char>>)
    ensures
        lines_inv(run(initial_state(), ls), ls),
    decreases ls.len(),
{
    if ls.len() == 0 {
        assert(header_count(ls) == 0);
    } else {
        let pre = ls.drop_last();
        lemma_run_inv(pre);
        lemma_step_inv(run(initial_state(), pre), pre, ls.last());
        lemma_run_push(initial_state(), pre, ls.last());
        assert(pre.push(ls.last()) =~= ls);
    }
}


/// Whether a line ends the open hunk: a `+++ ` or `--- ` file line, or a hunk header.
pub open spec fn closes_hunk(line: Seq<char>) -> bool {
    "+++ "@.is_prefix_of(line) || "--- "@.is_prefix_of(line) || header_numbers(line) is Some
}

/// The position of the first line at or after `q` that ends a hunk, or the number of
/// lines when none does.
pub open spec fn next_close(ls: Seq<Seq<char>>, q: int) -> int
    decreases ls.len() - q,
{
    if q < 0 || q >= ls.len() {
        ls.len() as int
    } else if closes_hunk(ls[q]) {
        q
    } else {
        next_close(ls, q + 1)
    }
}

/// The body lines of the hunk whose header is line `p` of `ls`: the lines after the
/// header, up to the line that ends the hunk, that are empty or begin with `+`, `-` or a
/// space (other lines, such as `\ No newline at end of file`, are passed over).
pub open spec fn body_lines(ls: Seq<Seq<char>>, p: int) -> Seq<Seq<char>> {
    ls.subrange(p + 1, next_close(ls, p + 1)).filter(|l: Seq<char>| l.len() == 0 || l[0] == '+' || l[0] == '-' || l[0] == ' ')
}

proof fn lemma_next_close_bounds(ls: Seq<Seq<char>>, q: int)
    requires
        0 <= q,
    ensures
        q <= ls.len() ==> q <= next_close(ls, q) <= ls.len(),
        forall|j: int| q <= j < next_close(ls, q) ==> !closes_hunk(#[trigger] ls[j]),
    decreases ls.len() - q,
{
    if q < ls.len() && !closes_hunk(ls[q]) {
        lemma_next_close_bounds(ls, q + 1);
    }
}

proof fn lemma_next_close_push(ls: Seq<Seq<char>>, q: int, l: Seq<char>)
    requires
        0 <= q <= ls.len(),
    ensures
        next_close(ls, q) < ls.len() ==> next_close(ls.push(l), q) == next_close(ls, q),
        next_close(ls, q) == ls.len() ==> next_close(ls.push(l), q) == if closes_hunk(l) {
            ls.len() as int
        } else {
            (ls.len() + 1) as int
        },
    decreases ls.len() - q,
{
    if q < ls.len() {
        assert(ls.push(l)[q] == ls[q]);
        if !closes_hunk(ls[q]) {
            lemma_next_close_push(ls, q + 1, l);
        }
    } else {
        assert(ls.push(l)[q] == l);
        if !closes_hunk(l) {
            assert(next_close(ls.push(l), q + 1) == ls.len() + 1);
        }
    }
}

proof fn lemma_filter_push(xs: Seq<Seq<char>>, x: Seq<char>)
    ensures
        xs.push(x).filter(|l: Seq<char>| l.len() == 0 || l[0] == '+' || l[0] == '-' || l[0] == ' ') == if x.len() == 0
            || x[0] == '+' || x[0] == '-' || x[0] == ' ' {
            xs.filter(|l: Seq<char>| l.len() == 0 || l[0] == '+' || l[0] == '-' || l[0] == ' ').push(x)
        } else {
            xs.filter(|l: Seq<char>| l.len() == 0 || l[0] == '+' || l[0] == '-' || l[0] == ' ')
        },
{
    reveal(Seq::filter);
    assert(xs.push(x).drop_last() =~= xs);
}

/// What the parser's state says about the bodies of the hunks in the lines `pre`.
spec fn closed_body_ok(pre: Seq<Seq<char>>, k: int, h: RawHunkView) -> bool {
    next_close(pre, header_pos(pre, k as nat) + 1) < pre.len() && h.body == join(
        body_lines(pre, header_pos(pre, k as nat)),
        "\n"@,
    )
}

spec fn body_inv(st: ParseState, pre: Seq<Seq<char>>) -> bool {
    &&& forall|k: int| 0 <= k < st.out.len() ==> closed_body_ok(pre, k, #[trigger] st.out[k])
    &&& st.in_hunk ==> next_close(pre, header_pos(pre, st.out.len()) + 1) == pre.len() && st.body
        == body_lines(pre, header_pos(pre, st.out.len()))
    &&& !st.in_hunk ==> st.body.len() == 0
}

proof fn lemma_step_body(st: ParseState, pre: Seq<Seq<char>>, l: Seq<char>)
    requires
        lines_inv(st, pre),
        body_inv(st, pre),
    ensures
        body_inv(step(st, l), pre.push(l)),
{
    reveal_strlit("+++ b/");
    reveal_strlit("+++ ");
    reveal_strlit("--- ");
    reveal_strlit("--- a/");
    let pre2 = pre.push(l);
    let st2 = step(st, l);
    lemma_header_count_push(pre, l);
    assert(pre2.drop_last() =~= pre);
    assert(pre2.last() == l);
    if "+++ b/"@.is_prefix_of(l) {
        assert(l.subrange(0, 4) =~= "+++ "@) by {
            assert(l.subrange(0, 6).subrange(0, 4) =~= l.subrange(0, 4));
        }
    }
    let is_header = header_numbers(l) is Some;
    if is_header {
        assert(l[0] == '@');
        assert(!"+++ b/"@.is_prefix_of(l)) by {
            if "+++ b/"@.is_prefix_of(l) {
                assert(l.subrange(0, 6)[0] == l[0]);
            }
        }
        assert(!"+++ "@.is_prefix_of(l)) by {
            if "+++ "@.is_prefix_of(l) {
                assert(l.subrange(0, 4)[0] == l[0]);
            }
        }
        assert(!"--- "@.is_prefix_of(l)) by {
            if "--- "@.is_prefix_of(l) {
                assert(l.subrange(0, 4)[0] == l[0]);
            }
        }
    }
    let cl = closes_hunk(l);
    // The hunks closed before `l` keep their bodies.
    assert forall|k: int| 0 <= k < st.out.len() implies next_close(pre2, header_pos(pre2, k as nat) + 1)
        < pre2.len() && (#[trigger] st.out[k]).body == join(body_lines(pre2, header_pos(pre2, k as nat)), "\n"@) by {
        let p = header_pos(pre, k as nat);
        lemma_header_pos_bound(pre, k as nat);
        assert(header_pos(pre2, k as nat) == p);
        let hk = st.out[k];
        assert(next_close(pre, p + 1) < pre.len() && hk.body == join(body_lines(pre, p), "\n"@));
        lemma_next_close_push(pre, p + 1, l);
        lemma_next_close_bounds(pre, p + 1);
        let nc = next_close(pre, p + 1);
        assert(next_close(pre2, p + 1) == nc);
        assert(pre2.subrange(p + 1, nc) =~= pre.subrange(p + 1, nc));
        assert(body_lines(pre2, p) == body_lines(pre, p));
    }
    // The hunk that was open, if any.
    let po = header_pos(pre, st.out.len());
    if st.in_hunk {
        lemma_header_pos_bound(pre, st.out.len());
        assert(header_pos(pre2, st.out.len()) == po);
        lemma_next_close_push(pre, po + 1, l);
        if cl {
            assert(pre2.subrange(po + 1, pre.len() as int) =~= pre.subrange(po + 1, pre.len() as int));
            assert(next_close(pre2, po + 1) == pre.len());
            assert(body_lines(pre2, po) == st.body);
        } else {
            assert(pre2.subrange(po + 1, pre2.len() as int) =~= pre.subrange(po + 1, pre.len() as int).push(l));
            lemma_filter_push(pre.subrange(po + 1, pre.len() as int), l);
            assert(next_close(pre2, po + 1) == pre2.len());
        }
    }
    if cl {
        let st1 = if st.in_hunk { flushed(st) } else { st };
        assert(st1.out.len() == header_count(pre));
        assert forall|k: int| 0 <= k < st1.out.len() implies next_close(pre2, header_pos(pre2, k as nat) + 1)
            < pre2.len() && (#[trigger] st1.out[k]).body == join(body_lines(pre2, header_pos(pre2, k as nat)), "\n"@) by {
            if k < st.out.len() {
                assert(st1.out[k] == st.out[k]);
            } else {
                assert(st1.out[k] == open_hunk(st));
            }
        }
        if is_header {
            let k0 = header_count(pre);
            assert(header_pos(pre2, k0) == pre.len());
            assert(st2.out == st1.out);
            assert(st2.in_hunk);
            assert(st2.body == st1.body);
            assert(st1.body =~= Seq::<Seq<char>>::empty());
            assert(st2.body.len() == 0);
            assert(next_close(pre2, (pre.len() + 1) as int) == pre2.len());
            assert(pre2.subrange((pre.len() + 1) as int, pre2.len() as int) =~= Seq::<Seq<char>>::empty());
            assert(Seq::<Seq<char>>::empty().filter(|l: Seq<char>| l.len() == 0 || l[0] == '+' || l[0] == '-' || l[0] == ' ') =~= Seq::<Seq<char>>::empty()) by {
                reveal(Seq::filter);
            }
            assert(header_pos(pre2, st2.out.len()) == pre.len());
            assert(next_close(pre2, header_pos(pre2, st2.out.len()) + 1) == pre2.len());
            assert(st2.body == body_lines(pre2, header_pos(pre2, st2.out.len())));
        } else {
            assert(st2.out == st1.out);
            assert(!st2.in_hunk);
            assert(st2.body.len() == 0);
        }
    } else {
        assert(st2.out == st.out);
        assert(st2.in_hunk == st.in_hunk);
        if st.in_hunk {
            assert(header_pos(pre2, st2.out.len()) == po);
            assert(next_close(pre2, po + 1) == pre2.len());
            if is_body_line(l) {
                assert(st2.body == st.body.push(l));
            } else {
                assert(st2.body == st.body);
            }
            assert(st2.body == body_lines(pre2, po));
        } else {
            assert(st2.body == st.body);
        }
    }
}

proof fn lemma_run_body(ls: Seq<Seq<char>>)
    ensures
        body_inv(run(initial_state(), ls), ls),
    decreases ls.len(),
{
    if ls.len() > 0 {
        let pre = ls.drop_last();
        lemma_run_body(pre);
        lemma_run_inv(pre);
        lemma_step_body(run(initial_state(), pre), pre, ls.last());
        lemma_run_push(initial_state(), pre, ls.last());
        assert(pre.push(ls.last()) =~= ls);
    }
}

/// Hunk `h`, found `k`-th in the lines `ls`, was read off them: it belongs to the
/// `k`-th hunk header line, carries that line's four numbers, its file is the one that
/// the last `+++ b/<path>` or `--- a/<path>` line before that header names (empty when
/// none does), and its body is that header's body lines joined by newlines.
pub open spec fn hunk_read_off(ls: Seq<Seq<char>>, k: nat, h: RawHunkView) -> bool {
    let p = header_pos(ls, k);
    &&& 0 <= p < ls.len()
    &&& h.file == last_named(ls.take(p))
    &&& header_numbers(ls[p]) == Some(hunk_numbers(h))
    &&& h.body == join(body_lines(ls, p), "\n"@)
}

/// Which file, numbers and body each raw hunk gets, read off the diff's own lines (see
/// `hunk_read_off`).
pub proof fn law_hunk_file(diff: Seq<char>)
    ensures
        forall|k: int|
            0 <= k < raw_hunks(diff).len() ==> hunk_read_off(lines(diff), k as nat, #[trigger] raw_hunks(diff)[k]),
{
    law_hunk_count(diff);
    if trim(diff).len() > 0 {
        let ls = lines(diff);
        lemma_run_inv(ls);
        lemma_run_body(ls);
        let st = run(initial_state(), ls);
        assert(raw_hunks(diff) == finish(st));
        assert forall|k: int| 0 <= k < raw_hunks(diff).len() implies hunk_read_off(
            ls,
            k as nat,
            #[trigger] raw_hunks(diff)[k],
        ) by {
            lemma_header_pos_bound(ls, k as nat);
            if k < st.out.len() {
                assert(raw_hunks(diff)[k] == st.out[k]);
            } else {
                assert(st.in_hunk);
                assert(k == st.out.len());
                assert(raw_hunks(diff)[k] == open_hunk(st));
            }
        }
    } else {
        assert(raw_hunks(diff).len() == 0);
    }
}

} // verus!
