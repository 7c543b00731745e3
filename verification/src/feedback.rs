//! The texts that carry rejected items back: a prompt for the agent that wrote
//! the change, or the body of a pull-request comment.

use vstd::prelude::*;
use crate::models::{ReviewItem, ReviewItemView};
use crate::text::{join, join_strings};

verus! {

/// The first line of the prompt to the agent.
pub const REJECT_PROMPT_HEAD: &'static str = "[vouch] 다음 변경들이 사람의 리뷰에서 거절됐어. 사유를 반영해 다시 시도해줘:";

/// The last line of the prompt to the agent.
pub const REJECT_PROMPT_TAIL: &'static str = "거절된 항목 외에는 그대로 유지하고, 위 사유를 직접 해소하는 변경만 적용해줘.";

/// The reason shown for an item: the one the user gave, or `(no reason)`.
pub open spec fn reason_text(r: Option<Seq<char>>) -> Seq<char> {
    match r {
        Some(s) => s,
        None => "(no reason)"@,
    }
}

/// The two prompt lines of one rejected item: its files and intent, then its reason.
pub open spec fn item_prompt_lines(it: ReviewItemView) -> Seq<Seq<char>> {
    seq![
        "- ("@ + join(it.semantic.files, ", "@) + ") "@ + it.semantic.intent,
        "    사유: "@ + reason_text(it.reject_reason),
    ]
}

/// The prompt lines of all rejected items, in order.
pub open spec fn items_prompt_lines(items: Seq<ReviewItemView>) -> Seq<Seq<char>>
    decreases items.len(),
{
    if items.len() == 0 {
        seq![]
    } else {
        items_prompt_lines(items.drop_last()) + item_prompt_lines(items.last())
    }
}

/// The prompt for the agent: empty when nothing was rejected; else the head line, an
/// empty line, two lines per item, an empty line and the tail line, joined by newlines.
pub open spec fn reject_prompt(items: Seq<ReviewItemView>) -> Seq<char> {
    if items.len() == 0 {
        seq![]
    } else {
        join(
            seq![REJECT_PROMPT_HEAD@, seq![]] + items_prompt_lines(items) + seq![seq![], REJECT_PROMPT_TAIL@],
            "\n"@,
        )
    }
}

/// A file name in backquotes.
pub open spec fn code_span(f: Seq<char>) -> Seq<char> {
    "`"@ + f + "`"@
}

/// The comment section of one rejected item: `### ` and its files in backquotes, then its reason.
pub open spec fn review_section(it: ReviewItemView) -> Seq<char> {
    "### "@ + join(it.semantic.files.map_values(|f: Seq<char>| code_span(f)), ", "@) + "\n"@
        + reason_text(it.reject_reason)
}

/// The pull-request comment: one section per rejected item, separated by an empty line.
pub open spec fn pr_review_body(items: Seq<ReviewItemView>) -> Seq<char> {
    join(items.map_values(|it: ReviewItemView| review_section(it)), "\n\n"@)
}

/// The view of a slice of review items.
pub open spec fn items_view(items: Seq<ReviewItem>) -> Seq<ReviewItemView> {
    items.map_values(|it: ReviewItem| it@)
}

proof fn lemma_join_holds_first(parts: Seq<Seq<char>>, sep: Seq<char>)
    requires
        parts.len() > 0,
    ensures
        join(parts, sep).len() >= parts[0].len(),
    decreases parts.len(),
{
    if parts.len() > 1 {
        lemma_join_holds_first(parts.drop_last(), sep);
    }
}

/// Nothing rejected, nothing to send: the prompt and the comment are empty exactly when
/// no item was rejected.
pub proof fn law_feedback_empty_iff_no_rejects(items: Seq<ReviewItemView>)
    ensures
        reject_prompt(items).len() == 0 <==> items.len() == 0,
        pr_review_body(items).len() == 0 <==> items.len() == 0,
{
    reveal_strlit("[vouch] 다음 변경들이 사람의 리뷰에서 거절됐어. 사유를 반영해 다시 시도해줘:");
    reveal_strlit("### ");
    if items.len() > 0 {
        let parts = seq![REJECT_PROMPT_HEAD@, Seq::<char>::empty()] + items_prompt_lines(items) + seq![
            Seq::<char>::empty(),
            REJECT_PROMPT_TAIL@,
        ];
        assert(parts[0] == REJECT_PROMPT_HEAD@);
        lemma_join_holds_first(parts, "\n"@);
        let sections = items.map_values(|it: ReviewItemView| review_section(it));
        assert(sections[0] == review_section(items[0]));
        assert(review_section(items[0]).len() >= 4);
        lemma_join_holds_first(sections, "\n\n"@);
    } else {
        assert(items.map_values(|it: ReviewItemView| review_section(it)) =~= Seq::<Seq<char>>::empty());
    }
}

/// Every rejected item gets its two lines in the prompt, in queue order: line `2k` is
/// `- (<files joined by ", ">) <intent>` of item `k` and line `2k + 1` is
/// `    사유: <its reason>`, so no item and no reason is ever left out; and the whole
/// prompt is the head line, an empty line, those lines, an empty line and the tail line.
pub proof fn law_prompt_lists_every_item(items: Seq<ReviewItemView>)
    ensures
        items_prompt_lines(items).len() == 2 * items.len(),
        forall|k: int|
            0 <= k < items.len() ==> {
                &&& #[trigger] items_prompt_lines(items)[2 * k] == "- ("@ + join(items[k].semantic.files, ", "@)
                    + ") "@ + items[k].semantic.intent
                &&& items_prompt_lines(items)[2 * k + 1] == "    사유: "@ + match items[k].reject_reason {
                    Some(r) => r,
                    None => "(no reason)"@,
                }
            },
        items.len() > 0 ==> reject_prompt(items) == join(
            seq![REJECT_PROMPT_HEAD@, seq![]] + items_prompt_lines(items) + seq![seq![], REJECT_PROMPT_TAIL@],
            "\n"@,
        ),
    decreases items.len(),
{
    if items.len() > 0 {
        let rest = items.drop_last();
        law_prompt_lists_every_item(rest);
        let l = items_prompt_lines(items);
        let lr = items_prompt_lines(rest);
        assert(l == lr + item_prompt_lines(items.last()));
        assert forall|k: int| 0 <= k < items.len() implies {
            &&& #[trigger] l[2 * k] == "- ("@ + join(items[k].semantic.files, ", "@) + ") "@
                + items[k].semantic.intent
            &&& l[2 * k + 1] == "    사유: "@ + match items[k].reject_reason {
                Some(r) => r,
                None => "(no reason)"@,
            }
        } by {
            if k < items.len() - 1 {
                assert(rest[k] == items[k]);
                assert(l[2 * k] == lr[2 * k]);
                assert(l[2 * k + 1] == lr[2 * k + 1]);
            } else {
                assert(l[2 * k] == item_prompt_lines(items.last())[0]);
                assert(l[2 * k + 1] == item_prompt_lines(items.last())[1]);
            }
        }
    }
}

/// Every rejected item gets its section in the pull-request comment, in queue order:
/// `### ` with its files in backquotes joined by `, `, a newline, and its reason; the
/// sections are separated by an empty line.
pub proof fn law_comment_lists_every_item(items: Seq<ReviewItemView>)
    ensures
        pr_review_body(items) == join(
            Seq::new(
                items.len(),
                |k: int|
                    "### "@ + join(items[k].semantic.files.map_values(|f: Seq<char>| "`"@ + f + "`"@), ", "@)
                        + "\n"@ + match items[k].reject_reason {
                        Some(r) => r,
                        None => "(no reason)"@,
                    },
            ),
            "\n\n"@,
        ),
{
    let a = items.map_values(|it: ReviewItemView| review_section(it));
    let b = Seq::new(
        items.len(),
        |k: int|
            "### "@ + join(items[k].semantic.files.map_values(|f: Seq<char>| "`"@ + f + "`"@), ", "@)
                + "\n"@ + match items[k].reject_reason {
                Some(r) => r,
                None => "(no reason)"@,
            },
    );
    assert forall|k: int| 0 <= k < items.len() implies a[k] == b[k] by {
        assert(items[k].semantic.files.map_values(|f: Seq<char>| code_span(f)) =~= items[k].semantic.files.map_values(
            |f: Seq<char>| "`"@ + f + "`"@,
        ));
    }
    assert(a =~= b);
}

fn reason_of(it: &ReviewItem) -> (s: String)
    ensures
        s@ == reason_text(it@.reject_reason),
{
    match &it.reject_reason {
        Some(r) => r.clone(),
        None => String::from_str("(no reason)"),
    }
}

/// The prompt that asks the agent to redo the rejected items.
pub fn build_reject_prompt(rejected: &[ReviewItem]) -> (s: String)
    ensures
        s@ == reject_prompt(items_view(rejected@)),
{
    if rejected.len() == 0 {
        return String::new();
    }
    let ghost items = items_view(rejected@);
    let mut lines: Vec<String> = Vec::new();
    lines.push(String::from_str(REJECT_PROMPT_HEAD));
    lines.push(String::new());
    let ghost prefix = seq![REJECT_PROMPT_HEAD@, Seq::<char>::empty()];
    assert(lines.deep_view() =~= prefix + items_prompt_lines(items.take(0)));
    let mut i: usize = 0;
    while i < rejected.len()
        invariant
            i <= rejected.len(),
            items == items_view(rejected@),
            lines.deep_view() == prefix + items_prompt_lines(items.take(i as int)),
        decreases rejected.len() - i,
    {
        let it = &rejected[i];
        let mut first = String::from_str("- (");
        first.append(join_strings(&it.semantic.files, ", ").as_str());
        first.append(") ");
        first.append(it.semantic.intent.as_str());
        let mut second = String::from_str("    사유: ");
        second.append(reason_of(it).as_str());
        let ghost before = lines.deep_view();
        lines.push(first);
        lines.push(second);
        assert(items.take(i + 1).drop_last() == items.take(i as int));
        assert(items.take(i + 1).last() == it@);
        assert(lines.deep_view() =~= before + item_prompt_lines(it@));
        i = i + 1;
    }
    let ghost before = lines.deep_view();
    lines.push(String::new());
    lines.push(String::from_str(REJECT_PROMPT_TAIL));
    assert(items.take(rejected.len() as int) == items);
    assert(lines.deep_view() =~= before + seq![Seq::<char>::empty(), REJECT_PROMPT_TAIL@]);
    join_strings(&lines, "\n")
}

/// The pull-request comment that lists the rejected items' files and reasons.
pub fn build_pr_review_body(rejected: &[ReviewItem]) -> (s: String)
    ensures
        s@ == pr_review_body(items_view(rejected@)),
{
    let ghost items = items_view(rejected@);
    let mut sections: Vec<String> = Vec::new();
    let mut i: usize = 0;
    while i < rejected.len()
        invariant
            i <= rejected.len(),
            items == items_view(rejected@),
            sections.deep_view() == items.take(i as int).map_values(|it: ReviewItemView| review_section(it)),
        decreases rejected.len() - i,
    {
        let it = &rejected[i];
        let files = &it.semantic.files;
        let mut quoted: Vec<String> = Vec::new();
        let mut j: usize = 0;
        while j < files.len()
            invariant
                j <= files.len(),
                quoted.deep_view() == files.deep_view().take(j as int).map_values(|f: Seq<char>| code_span(f)),
            decreases files.len() - j,
        {
            let mut q = String::from_str("`");
            q.append(files[j].as_str());
            q.append("`");
            let ghost before = quoted.deep_view();
            assert(files.deep_view()[j as int] == files[j as int]@);
            assert(q@ == code_span(files.deep_view()[j as int]));
            quoted.push(q);
            assert(quoted.deep_view() =~= before.push(code_span(files.deep_view()[j as int])));
            assert(files.deep_view().take(j + 1) =~= files.deep_view().take(j as int).push(files.deep_view()[j as int]));
            assert(quoted.deep_view() =~= files.deep_view().take(j + 1).map_values(|f: Seq<char>| code_span(f)));
            j = j + 1;
        }
        assert(files.deep_view().take(files.len() as int) == files.deep_view());
        assert(quoted.deep_view() =~= files.deep_view().map_values(|f: Seq<char>| code_span(f)));
        let mut section = String::from_str("### ");
        section.append(join_strings(&quoted, ", ").as_str());
        section.append("\n");
        let reason = reason_of(it);
        section.append(reason.as_str());
        assert(it@.semantic.files == files.deep_view());
        assert(section@ == "### "@ + join(quoted.deep_view(), ", "@) + "\n"@ + reason@);
        assert(section@ == review_section(it@));
        let ghost before = sections.deep_view();
        sections.push(section);
        assert(sections.deep_view() =~= before.push(review_section(it@)));
        assert(items[i as int] == it@);
        assert(items.take(i + 1) =~= items.take(i as int).push(it@));
        assert(sections.deep_view() =~= items.take(i + 1).map_values(|it: ReviewItemView| review_section(it)));
        i = i + 1;
    }
    assert(items.take(rejected.len() as int) == items);
    join_strings(&sections, "\n\n")
}

/// The text that carries the rejected items back: the comment body when the diff is a
/// pull request, else the prompt for the agent.
pub fn feedback_text(rejected: &[ReviewItem], for_pr: bool) -> (s: String)
    ensures
        s@ == (if for_pr {
            pr_review_body(items_view(rejected@))
        } else {
            reject_prompt(items_view(rejected@))
        }),
{
    if for_pr {
        build_pr_review_body(rejected)
    } else {
        build_reject_prompt(rejected)
    }
}

} // verus!
