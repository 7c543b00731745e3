//! The logic around the two model calls: grouping raw hunks into semantic hunks
//! from the model's answer, reading the answer out of a Markdown fence, and the
//! command line and reply handling of the agent program that answers them.

use vstd::prelude::*;
use crate::models::{RawHunk, RawHunkView, SemanticHunk};
use crate::text::{
    chars_of, join, join_strings, lemma_lex_lt_total, lemma_lex_lt_trans, lex_lt, newline_index,
    str_less, string_of_range, trim, trim_bounds,
};

verus! {

/// The instructions of the semantic stage.
pub const SEMANTIC_PROMPT: &'static str = r#"You receive a list of raw git hunks from one change. Group hunks that share a single SPECIFIC intent into a SemanticHunk. Each SemanticHunk should describe ONE concrete action (e.g., "check_access 함수 추가", "users 테이블에 role 컬럼 추가"). DO NOT lump everything into one giant SemanticHunk — aim for 3-8 SemanticHunks for a typical multi-file change. Group only when hunks are mechanically inseparable.

Output JSON array where each item is: {"id": "s<n>", "intent": "한국어 한 줄 의도 (구체적으로)", "raw_hunk_ids": ["r1", ...]}. Each raw_hunk_id must appear in exactly one SemanticHunk. Output ONLY the JSON array, no markdown fences."#;

/// The instructions of the analysis stage.
pub const ANALYSIS_PROMPT: &'static str = r#"You receive a list of SemanticHunks (each with merged diff). For each, output an object with field "items" whose value is a JSON array of objects with fields: id, risk (high|med|low), risk_reason (한 줄), confidence (confident|uncertain|guess), summary_ko (한국어 한 줄). Be conservative on risk: business logic, security, new dependencies → high. Mechanical (rename/import/format) → low. Output ONLY the JSON object, no markdown fences."#;

/// The JSON schema of the analysis answer: an object whose `items` array holds one
/// analysis per semantic hunk, with `risk` and `confidence` limited to their levels.
pub const ANALYSIS_SCHEMA: &'static str = r#"{
  "type": "object",
  "properties": {
    "items": {
      "type": "array",
      "items": {
        "type": "object",
        "properties": {
          "id": {"type": "string"},
          "risk": {"type": "string", "enum": ["high", "med", "low"]},
          "risk_reason": {"type": "string"},
          "confidence": {"type": "string", "enum": ["confident", "uncertain", "guess"]},
          "summary_ko": {"type": "string"}
        },
        "required": ["id", "risk", "risk_reason", "confidence", "summary_ko"]
      }
    }
  },
  "required": ["items"]
}"#;

/// Whether a code fence (three backquotes) starts at `k` in `t`.
pub open spec fn fence_at(t: Seq<char>, k: int) -> bool {
    0 <= k && k + 3 <= t.len() && t[k] == '`' && t[k + 1] == '`' && t[k + 2] == '`'
}

/// The start of the last fence in `t` that starts at or before `k`, or -1.
pub open spec fn last_fence_upto(t: Seq<char>, k: int) -> int
    decreases k + 1,
{
    if k < 0 {
        -1
    } else if fence_at(t, k) {
        k
    } else {
        last_fence_upto(t, k - 1)
    }
}

/// `str::rfind("```")` on `t`: the start of its last fence, or -1.
pub open spec fn last_fence(t: Seq<char>) -> int {
    last_fence_upto(t, t.len() - 3)
}

/// Where the answer starts inside a fenced text: after its first line, or at 0
/// when the text is one line.
pub open spec fn fence_body_start(t: Seq<char>) -> int {
    if newline_index(t) < t.len() {
        (newline_index(t) + 1) as int
    } else {
        0
    }
}

/// Whether `extract_json` can take `text` apart: a fenced text must not end its
/// first line after the start of its last fence (slicing out the answer would panic).
pub open spec fn extractable(text: Seq<char>) -> bool {
    let t = trim(text);
    fence_at(t, 0) ==> fence_body_start(t) <= last_fence(t)
}

/// The answer inside `text`: the trimmed text, or, when it begins with a fence, the
/// trimmed part between the end of its first line and the start of its last fence.
pub open spec fn extracted_json(text: Seq<char>) -> Seq<char> {
    let t = trim(text);
    if fence_at(t, 0) {
        trim(t.subrange(fence_body_start(t), last_fence(t)))
    } else {
        t
    }
}

fn trimmed_chars(text: &str) -> (t: Vec<char>)
    ensures
        t@ == trim(text@),
{
    let v = chars_of(text);
    let (lo, hi) = trim_bounds(v.as_slice());
    let mut t: Vec<char> = Vec::new();
    let mut i = lo;
    while i < hi
        invariant
            lo <= i <= hi <= v.len(),
            t@ == v@.subrange(lo as int, i as int),
        decreases hi - i,
    {
        t.push(v[i]);
        assert(v@.subrange(lo as int, i + 1) == v@.subrange(lo as int, i as int).push(v@[i as int]));
        i = i + 1;
    }
    t
}

fn is_fence_at(t: &[char], k: usize) -> (b: bool)
    ensures
        b == fence_at(t@, k as int),
{
    t.len() >= 3 && k <= t.len() - 3 && t[k] == '`' && t[k + 1] == '`' && t[k + 2] == '`'
}

fn body_bounds(t: &[char]) -> (r: (usize, usize))
    requires
        fence_at(t@, 0),
    ensures
        r.0 == fence_body_start(t@),
        r.1 as int == last_fence(t@),
        r.1 + 3 <= t.len(),
{
    let mut start: usize = 0;
    let mut i: usize = 0;
    while i < t.len() && t[i] != '\n'
        invariant
            i <= t.len(),
            forall|j: int| 0 <= j < i ==> t@[j] != '\n',
        decreases t.len() - i,
    {
        i = i + 1;
    }
    proof {
        crate::text::lemma_newline_index_at(t@, i as int);
    }
    if i < t.len() {
        start = i + 1;
    }
    let mut k: usize = t.len() - 3;
    assert(last_fence(t@) == last_fence_upto(t@, k as int));
    while !is_fence_at(t, k)
        invariant
            k <= t.len() - 3,
            fence_at(t@, 0),
            last_fence(t@) == last_fence_upto(t@, k as int),
        decreases k,
    {
        k = k - 1;
    }
    (start, k)
}

/// Whether `extract_json` accepts `text` (see `extractable`).
pub fn can_extract_json(text: &str) -> (b: bool)
    ensures
        b == extractable(text@),
{
    let t = trimmed_chars(text);
    if is_fence_at(t.as_slice(), 0) {
        let (start, end) = body_bounds(t.as_slice());
        start <= end
    } else {
        true
    }
}

/// Takes the model's answer out of a Markdown code fence, if it has one.
pub fn extract_json(text: &str) -> (s: String)
    requires
        extractable(text@),
    ensures
        s@ == extracted_json(text@),
{
    let t = trimmed_chars(text);
    if is_fence_at(t.as_slice(), 0) {
        let (start, end) = body_bounds(t.as_slice());
        let inner = string_of_range(t.as_slice(), start, end);
        let body = trimmed_chars(inner.as_str());
        string_of_range(body.as_slice(), 0, body.len())
    } else {
        proof {
            assert(t@.subrange(0, t@.len() as int) == t@);
        }
        string_of_range(t.as_slice(), 0, t.len())
    }
}

/// What the semantic stage reads from one item of the model's answer: its `id` and
/// `intent` where they are strings, and its `raw_hunk_ids` where it is an array, each
/// element where it is a string.
#[derive(Debug, Clone)]
pub struct SemanticGroup {
    pub id: Option<String>,
    pub intent: Option<String>,
    pub raw_hunk_ids: Option<Vec<Option<String>>>,
}

/// The mathematical value of a [`SemanticGroup`].
pub struct SemanticGroupView {
    pub id: Option<Seq<char>>,
    pub intent: Option<Seq<char>>,
    pub raw_hunk_ids: Option<Seq<Option<Seq<char>>>>,
}

impl View for SemanticGroup {
    type V = SemanticGroupView;

    open spec fn view(&self) -> SemanticGroupView {
        SemanticGroupView {
            id: self.id.deep_view(),
            intent: self.intent.deep_view(),
            raw_hunk_ids: self.raw_hunk_ids.deep_view(),
        }
    }
}

/// A string field, or the empty string where it is missing.
pub open spec fn str_or_empty(s: Option<Seq<char>>) -> Seq<char> {
    match s {
        Some(x) => x,
        None => seq![],
    }
}

/// The last raw hunk with the given id (a later hunk hides an earlier one with the same id).
pub open spec fn last_with_id(hs: Seq<RawHunkView>, id: Seq<char>) -> Option<RawHunkView>
    decreases hs.len(),
{
    if hs.len() == 0 {
        None
    } else if hs.last().id == id {
        Some(hs.last())
    } else {
        last_with_id(hs.drop_last(), id)
    }
}

/// The raw hunks that a group names, in the order it names them; names that are not
/// strings, and ids of no raw hunk, are skipped.
pub open spec fn members(hs: Seq<RawHunkView>, ids: Seq<Option<Seq<char>>>) -> Seq<RawHunkView>
    decreases ids.len(),
{
    if ids.len() == 0 {
        seq![]
    } else {
        let rest = members(hs, ids.drop_last());
        match ids.last() {
            Some(id) => match last_with_id(hs, id) {
                Some(h) => rest.push(h),
                None => rest,
            },
            None => rest,
        }
    }
}

/// The names of a group: none where `raw_hunk_ids` is not an array.
pub open spec fn group_ids(g: SemanticGroupView) -> Seq<Option<Seq<char>>> {
    match g.raw_hunk_ids {
        Some(ids) => ids,
        None => seq![],
    }
}

/// The part of the merged diff that one raw hunk contributes.
pub open spec fn hunk_section(m: RawHunkView) -> Seq<char> {
    "--- "@ + m.file + "\n"@ + m.header + "\n"@ + m.body
}

/// Strictly increasing in the order of strings: sorted, and no file twice.
pub open spec fn sorted_strict(fs: Seq<Seq<char>>) -> bool {
    forall|i: int, j: int| 0 <= i < j < fs.len() ==> lex_lt(#[trigger] fs[i], #[trigger] fs[j])
}

/// The semantic hunk that a group of the answer makes: its id and intent (empty where
/// missing), the ids of its member hunks, their sections of diff joined by an empty line,
/// and the files of its members, sorted, each once.
pub open spec fn is_semantic_hunk_of(
    res: crate::models::SemanticHunkView,
    hs: Seq<RawHunkView>,
    g: SemanticGroupView,
) -> bool {
    let ms = members(hs, group_ids(g));
    &&& res.id == str_or_empty(g.id)
    &&& res.intent == str_or_empty(g.intent)
    &&& res.raw_hunk_ids == ms.map_values(|m: RawHunkView| m.id)
    &&& res.merged_diff == join(ms.map_values(|m: RawHunkView| hunk_section(m)), "\n\n"@)
    &&& sorted_strict(res.files)
    &&& forall|f: Seq<char>|
        res.files.contains(f) <==> ms.map_values(|m: RawHunkView| m.file).contains(f)
}

/// The views of a sequence of raw hunks.
pub open spec fn hunks_view(hs: Seq<RawHunk>) -> Seq<RawHunkView> {
    hs.map_values(|h: RawHunk| h@)
}

/// The index of the last raw hunk with the given id. The hunks are looked up by id the
/// way a map from id to hunk, filled in order, would answer (a later hunk replaces an
/// earlier one); a scan from the end gives that answer with a proof, where vstd's
/// `HashMap` specification is of no use for `String` keys.
fn find_last(hs: &[RawHunk], id: &String) -> (r: Option<usize>)
    ensures
        match r {
            Some(j) => j < hs.len() && last_with_id(hunks_view(hs@), id@) == Some(hs@[j as int]@),
            None => last_with_id(hunks_view(hs@), id@) is None,
        },
{
    let ghost all = hunks_view(hs@);
    let mut k = hs.len();
    assert(all.take(k as int) == all);
    while k > 0
        invariant
            k <= hs.len(),
            all == hunks_view(hs@),
            last_with_id(all, id@) == last_with_id(all.take(k as int), id@),
        decreases k,
    {
        assert(all.take(k as int).last() == hs@[k - 1]@);
        assert(all.take(k as int).drop_last() == all.take(k - 1));
        if hs[k - 1].id == *id {
            return Some(k - 1);
        }
        k = k - 1;
    }
    None
}

fn insert_sorted(v: &mut Vec<String>, f: &String)
    requires
        sorted_strict(old(v).deep_view()),
    ensures
        sorted_strict(final(v).deep_view()),
        forall|x: Seq<char>|
            final(v).deep_view().contains(x) <==> (old(v).deep_view().contains(x) || x == f@),
{
    let ghost old_dv = v.deep_view();
    let mut j: usize = 0;
    while j < v.len() && str_less(v[j].as_str(), f.as_str())
        invariant
            j <= v.len(),
            v.deep_view() == old_dv,
            forall|i: int| 0 <= i < j ==> lex_lt(old_dv[i], f@),
        decreases v.len() - j,
    {
        j = j + 1;
    }
    if j < v.len() && v[j] == *f {
        assert(old_dv[j as int] == f@);
        return;
    }
    proof {
        if j < v.len() {
            lemma_lex_lt_total(old_dv[j as int], f@);
        }
    }
    v.insert(j, f.clone());
    let ghost new_dv = v.deep_view();
    assert(new_dv =~= old_dv.insert(j as int, f@));
    assert forall|a: int, b: int| 0 <= a < b < new_dv.len() implies lex_lt(
        #[trigger] new_dv[a],
        #[trigger] new_dv[b],
    ) by {
        if b < j {
        } else if b == j {
        } else if a > j {
            assert(new_dv[a] == old_dv[a - 1]);
            assert(new_dv[b] == old_dv[b - 1]);
        } else if a == j {
            assert(new_dv[b] == old_dv[b - 1]);
            if b - 1 > j {
                lemma_lex_lt_trans(f@, old_dv[j as int], old_dv[b - 1]);
            }
        } else {
            assert(new_dv[b] == old_dv[b - 1]);
        }
    }
    assert forall|x: Seq<char>| new_dv.contains(x) <==> (old_dv.contains(x) || x == f@) by {
        if new_dv.contains(x) {
            let k = choose|k: int| 0 <= k < new_dv.len() && new_dv[k] == x;
            if k < j {
                assert(old_dv[k] == x);
            } else if k > j {
                assert(old_dv[k - 1] == x);
            }
        }
        if old_dv.contains(x) {
            let k = choose|k: int| 0 <= k < old_dv.len() && old_dv[k] == x;
            if k < j {
                assert(new_dv[k] == x);
            } else {
                assert(new_dv[k + 1] == x);
            }
        }
        if x == f@ {
            assert(new_dv[j as int] == x);
        }
    }
}

/// A semantic hunk only ever holds raw hunks that exist: each member is one of the raw
/// hunks, and its id is one of the names the group gave.
pub proof fn law_members_known(hs: Seq<RawHunkView>, ids: Seq<Option<Seq<char>>>)
    ensures
        forall|i: int|
            0 <= i < members(hs, ids).len() ==> hs.contains(#[trigger] members(hs, ids)[i])
                && ids.contains(Some(members(hs, ids)[i].id)),
    decreases ids.len(),
{
    if ids.len() > 0 {
        law_members_known(hs, ids.drop_last());
        let rest = members(hs, ids.drop_last());
        assert forall|i: int| 0 <= i < members(hs, ids).len() implies hs.contains(
            #[trigger] members(hs, ids)[i],
        ) && ids.contains(Some(members(hs, ids)[i].id)) by {
            if i < rest.len() {
                assert(members(hs, ids)[i] == rest[i]);
                let j = choose|j: int| 0 <= j < ids.drop_last().len() && ids.drop_last()[j] == Some(rest[i].id);
                assert(ids[j] == Some(rest[i].id));
            } else {
                let id = ids.last()->0;
                lemma_last_with_id(hs, id);
                assert(ids[ids.len() - 1] == Some(id));
            }
        }
    }
}

proof fn lemma_last_with_id(hs: Seq<RawHunkView>, id: Seq<char>)
    ensures
        last_with_id(hs, id) matches Some(h) ==> hs.contains(h) && h.id == id,
    decreases hs.len(),
{
    if hs.len() > 0 && hs.last().id != id {
        lemma_last_with_id(hs.drop_last(), id);
        if last_with_id(hs, id) is Some {
            let h = last_with_id(hs, id)->0;
            let j = choose|j: int| 0 <= j < hs.drop_last().len() && hs.drop_last()[j] == h;
            assert(hs[j] == h);
        }
    } else if hs.len() > 0 {
        assert(hs[hs.len() - 1] == hs.last());
    }
}

fn string_or_empty(s: &Option<String>) -> (r: String)
    ensures
        r@ == str_or_empty(s.deep_view()),
{
    match s {
        Some(x) => x.clone(),
        None => String::new(),
    }
}

fn build_group(raw_hunks: &[RawHunk], g: &SemanticGroup) -> (res: SemanticHunk)
    ensures
        is_semantic_hunk_of(res@, hunks_view(raw_hunks@), g@),
{
    let ghost hs = hunks_view(raw_hunks@);
    let empty: Vec<Option<String>> = Vec::new();
    let names: &Vec<Option<String>> = match &g.raw_hunk_ids {
        Some(v) => v,
        None => &empty,
    };
    let ghost xs = names.deep_view();
    assert(xs == group_ids(g@));
    let mut files: Vec<String> = Vec::new();
    let mut sections: Vec<String> = Vec::new();
    let mut ids: Vec<String> = Vec::new();
    let mut i: usize = 0;
    assert(xs.take(0) =~= Seq::<Option<Seq<char>>>::empty());
    while i < names.len()
        invariant
            i <= names.len(),
            hs == hunks_view(raw_hunks@),
            xs == names.deep_view(),
            xs.len() == names.len(),
            ids.deep_view() == members(hs, xs.take(i as int)).map_values(|m: RawHunkView| m.id),
            sections.deep_view() == members(hs, xs.take(i as int)).map_values(
                |m: RawHunkView| hunk_section(m),
            ),
            sorted_strict(files.deep_view()),
            forall|f: Seq<char>|
                files.deep_view().contains(f) <==> members(hs, xs.take(i as int)).map_values(
                    |m: RawHunkView| m.file,
                ).contains(f),
        decreases names.len() - i,
    {
        let ghost ms = members(hs, xs.take(i as int));
        assert(xs.take(i + 1).drop_last() == xs.take(i as int));
        assert(xs.take(i + 1).last() == xs[i as int]);
        assert(xs[i as int] == names[i as int].deep_view());
        if let Some(rid) = &names[i] {
            if let Some(j) = find_last(raw_hunks, rid) {
                let h = &raw_hunks[j];
                assert(members(hs, xs.take(i + 1)) == ms.push(h@));
                let ghost old_files = files.deep_view();
                insert_sorted(&mut files, &h.file);
                let mut sec = String::from_str("--- ");
                sec.append(h.file.as_str());
                sec.append("\n");
                sec.append(h.header.as_str());
                sec.append("\n");
                sec.append(h.body.as_str());
                let ghost old_sections = sections.deep_view();
                let ghost old_ids = ids.deep_view();
                sections.push(sec);
                ids.push(h.id.clone());
                assert(sections.deep_view() =~= old_sections.push(hunk_section(h@)));
                assert(ids.deep_view() =~= old_ids.push(h@.id));
                assert(ms.push(h@).map_values(|m: RawHunkView| hunk_section(m)) =~= ms.map_values(
                    |m: RawHunkView| hunk_section(m),
                ).push(hunk_section(h@)));
                assert(ms.push(h@).map_values(|m: RawHunkView| m.id) =~= ms.map_values(
                    |m: RawHunkView| m.id,
                ).push(h@.id));
                let ghost fs = ms.map_values(|m: RawHunkView| m.file);
                assert(ms.push(h@).map_values(|m: RawHunkView| m.file) =~= fs.push(h@.file));
                assert forall|f: Seq<char>| fs.push(h@.file).contains(f) <==> (fs.contains(f) || f
                    == h@.file) by {
                    if fs.push(h@.file).contains(f) {
                        let k = choose|k: int| 0 <= k < fs.len() + 1 && fs.push(h@.file)[k] == f;
                        if k < fs.len() {
                            assert(fs[k] == f);
                        }
                    }
                    if fs.contains(f) {
                        let k = choose|k: int| 0 <= k < fs.len() && fs[k] == f;
                        assert(fs.push(h@.file)[k] == f);
                    }
                    if f == h@.file {
                        assert(fs.push(h@.file)[fs.len() as int] == f);
                    }
                }
            }
        }
        i = i + 1;
    }
    assert(xs.take(names.len() as int) == xs);
    SemanticHunk {
        id: string_or_empty(&g.id),
        intent: string_or_empty(&g.intent),
        files,
        raw_hunk_ids: ids,
        merged_diff: join_strings(&sections, "\n\n"),
    }
}

/// Makes one semantic hunk of each group in the model's answer (see `is_semantic_hunk_of`).
pub fn build_semantic(raw_hunks: &[RawHunk], parsed: &[SemanticGroup]) -> (out: Vec<SemanticHunk>)
    ensures
        out.len() == parsed.len(),
        forall|k: int|
            0 <= k < parsed.len() ==> is_semantic_hunk_of(
                #[trigger] out@[k]@,
                hunks_view(raw_hunks@),
                parsed@[k]@,
            ),
{
    let mut out: Vec<SemanticHunk> = Vec::new();
    let mut k: usize = 0;
    while k < parsed.len()
        invariant
            k <= parsed.len(),
            out.len() == k,
            forall|i: int|
                0 <= i < k ==> is_semantic_hunk_of(
                    #[trigger] out@[i]@,
                    hunks_view(raw_hunks@),
                    parsed@[i]@,
                ),
        decreases parsed.len() - k,
    {
        out.push(build_group(raw_hunks, &parsed[k]));
        k = k + 1;
    }
    out
}

/// The arguments of one call of the agent program: print mode, the model when one is
/// configured, the system prompt, no tools, no saved session, JSON output, and the
/// answer schema when there is one.
pub open spec fn agent_argv(model: Option<Seq<char>>, system: Seq<char>, schema: Option<Seq<char>>) -> Seq<Seq<char>> {
    seq!["-p"@] + match model {
        Some(m) => seq!["--model"@, m],
        None => seq![],
    } + seq![
        "--system-prompt"@,
        system,
        "--tools"@,
        ""@,
        "--no-session-persistence"@,
        "--output-format"@,
        "json"@,
    ] + match schema {
        Some(s) => seq!["--json-schema"@, s],
        None => seq![],
    }
}

/// The arguments of one call of the agent program (see `agent_argv`).
pub fn agent_args(model: Option<&str>, system: &str, schema: Option<&str>) -> (v: Vec<String>)
    ensures
        v.deep_view() == agent_argv(match model {
            Some(m) => Some(m@),
            None => None,
        }, system@, match schema {
            Some(s) => Some(s@),
            None => None,
        }),
{
    let mut v: Vec<String> = Vec::new();
    v.push(String::from_str("-p"));
    if let Some(m) = model {
        v.push(String::from_str("--model"));
        v.push(String::from_str(m));
    }
    v.push(String::from_str("--system-prompt"));
    v.push(String::from_str(system));
    v.push(String::from_str("--tools"));
    v.push(String::from_str(""));
    v.push(String::from_str("--no-session-persistence"));
    v.push(String::from_str("--output-format"));
    v.push(String::from_str("json"));
    if let Some(s) = schema {
        v.push(String::from_str("--json-schema"));
        v.push(String::from_str(s));
    }
    assert(v.deep_view() =~= agent_argv(match model {
        Some(m) => Some(m@),
        None => None,
    }, system@, match schema {
        Some(s) => Some(s@),
        None => None,
    }));
    v
}

/// What the reply envelope of the agent program says: its `is_error` flag where it is a boolean,
/// and its `result` where it is a string.
#[derive(Debug, Clone)]
pub struct EnvelopeFields {
    pub is_error: Option<bool>,
    pub result: Option<String>,
}

/// The error of an error reply from `program`: `<program> CLI error: ` and its result
/// (or `(no result)`).
pub open spec fn error_reply(program: Seq<char>, result: Option<Seq<char>>) -> Seq<char> {
    program + " CLI error: "@ + match result {
        Some(r) => r,
        None => "(no result)"@,
    }
}

/// The answer text of a reply of `program`, or why there is none: an error reply (a
/// missing flag counts as no error) gives `error_reply`; a reply without result text
/// gives `<program> CLI returned no result text`.
pub open spec fn reply_outcome(program: Seq<char>, is_error: Option<bool>, result: Option<Seq<char>>) -> Result<Seq<char>, Seq<char>> {
    if is_error == Some(true) {
        Err(error_reply(program, result))
    } else {
        match result {
            Some(r) => Ok(r),
            None => Err(program + " CLI returned no result text"@),
        }
    }
}

fn error_reply_text(program: &str, result: &Option<String>) -> (m: String)
    ensures
        m@ == error_reply(program@, result.deep_view()),
{
    let mut msg = String::from_str(program);
    msg.append(" CLI error: ");
    match result {
        Some(r) => msg.append(r.as_str()),
        None => msg.append("(no result)"),
    }
    msg
}

/// The answer text of a reply of the agent program `program` (see `reply_outcome`).
pub fn reply_text(env: &EnvelopeFields, program: &str) -> (r: Result<String, String>)
    ensures
        match r {
            Ok(s) => reply_outcome(program@, env.is_error, env.result.deep_view()) == Ok::<Seq<char>, Seq<char>>(s@),
            Err(e) => reply_outcome(program@, env.is_error, env.result.deep_view()) == Err::<Seq<char>, Seq<char>>(e@),
        },
{
    let is_error = match env.is_error {
        Some(b) => b,
        None => false,
    };
    if is_error {
        return Err(error_reply_text(program, &env.result));
    }
    match &env.result {
        Some(r) => Ok(r.clone()),
        None => {
            let mut msg = String::from_str(program);
            msg.append(" CLI returned no result text");
            Err(msg)
        },
    }
}

/// Whether a reply of `program` to a call with an answer schema can be used: an error
/// reply gives `error_reply`; a reply whose `structured_output` has no `items` field
/// gives `<program> CLI structured_output missing 'items' field`.
pub open spec fn structured_outcome(program: Seq<char>, is_error: Option<bool>, result: Option<Seq<char>>, has_items: bool) -> Result<(), Seq<char>> {
    if is_error == Some(true) {
        Err(error_reply(program, result))
    } else if !has_items {
        Err(program + " CLI structured_output missing 'items' field"@)
    } else {
        Ok(())
    }
}

/// Checks a reply of `program` to a call with an answer schema (see `structured_outcome`);
/// `has_items` tells whether its `structured_output` has an `items` field.
pub fn check_structured_reply(env: &EnvelopeFields, has_items: bool, program: &str) -> (r: Result<(), String>)
    ensures
        match r {
            Ok(()) => structured_outcome(program@, env.is_error, env.result.deep_view(), has_items) == Ok::<(), Seq<char>>(()),
            Err(e) => structured_outcome(program@, env.is_error, env.result.deep_view(), has_items) == Err::<(), Seq<char>>(e@),
        },
{
    let is_error = match env.is_error {
        Some(b) => b,
        None => false,
    };
    if is_error {
        return Err(error_reply_text(program, &env.result));
    }
    if !has_items {
        let mut msg = String::from_str(program);
        msg.append(" CLI structured_output missing 'items' field");
        return Err(msg);
    }
    Ok(())
}

/// The error when `program` exits unsuccessfully: `<program> CLI exited `, the exit
/// status, `: ` and the trimmed standard error.
pub fn exit_error(program: &str, status: &str, stderr: &str) -> (m: String)
    ensures
        m@ == program@ + " CLI exited "@ + status@ + ": "@ + trim(stderr@),
{
    let v = chars_of(stderr);
    let (lo, hi) = trim_bounds(v.as_slice());
    let mut m = String::from_str(program);
    m.append(" CLI exited ");
    m.append(status);
    m.append(": ");
    m.append(string_of_range(v.as_slice(), lo, hi).as_str());
    m
}

/// The next step of a model stage: use the cached answer, fail, or ask the model.
#[derive(Debug)]
pub enum StageStep {
    UseCached,
    Fail(String),
    AskModel,
}

/// The next step of a model stage: a cached answer is used; without one, a cache-only
/// run fails with `VOUCH_CACHE_ONLY=1 but no cached response`; else the model is asked.
pub fn stage_step(cache_hit: bool, cache_only: bool) -> (s: StageStep)
    ensures
        cache_hit ==> s is UseCached,
        !cache_hit && cache_only ==> (s matches StageStep::Fail(m) && m@ == "VOUCH_CACHE_ONLY=1 but no cached response"@),
        !cache_hit && !cache_only ==> s is AskModel,
{
    if cache_hit {
        StageStep::UseCached
    } else if cache_only {
        StageStep::Fail(String::from_str("VOUCH_CACHE_ONLY=1 but no cached response"))
    } else {
        StageStep::AskModel
    }
}

} // verus!
