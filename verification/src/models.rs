//! The data that flows through a review: raw hunks, semantic groups of them,
//! the model's analysis of each group, and the decision taken on it.

use vstd::prelude::*;

verus! {

/// How risky a change is judged to be.
#[derive(Debug, Clone, Copy, PartialEq, Eq, Structural)]
pub enum Risk {
    High,
    Med,
    Low,
}

/// How sure the analysis is of its own judgement.
#[derive(Debug, Clone, Copy, PartialEq, Eq, Structural)]
pub enum Confidence {
    Confident,
    Uncertain,
    Guess,
}

/// The verdict on one item: accepted or rejected.
#[derive(Debug, Clone, Copy, PartialEq, Eq, Structural)]
pub enum Decision {
    Accept,
    Reject,
}

/// The place of a risk level in the review queue: high risk first.
pub open spec fn risk_rank(r: Risk) -> nat {
    match r {
        Risk::High => 0,
        Risk::Med => 1,
        Risk::Low => 2,
    }
}

impl Risk {
    /// Sort key of the review queue: `High` < `Med` < `Low`.
    pub fn sort_key(&self) -> (k: u8)
        ensures
            k == risk_rank(*self),
    {
        match self {
            Risk::High => 0,
            Risk::Med => 1,
            Risk::Low => 2,
        }
    }
    /// The badge that the review queue shows for this risk level.
    pub fn badge(&self) -> (b: &'static str)
        ensures
            b@ == risk_badge(*self),
    {
        match self {
            Risk::High => "🔴",
            Risk::Med => "🟡",
            Risk::Low => "🟢",
        }
    }
}

/// The badge of each risk level.
pub open spec fn risk_badge(r: Risk) -> Seq<char> {
    match r {
        Risk::High => "🔴"@,
        Risk::Med => "🟡"@,
        Risk::Low => "🟢"@,
    }
}

/// The badge of each confidence level.
pub open spec fn confidence_badge(c: Confidence) -> Seq<char> {
    match c {
        Confidence::Confident => "✅"@,
        Confidence::Uncertain => "⚠️"@,
        Confidence::Guess => "❓"@,
    }
}

impl Confidence {
    /// The badge that the review queue shows for this confidence level.
    pub fn badge(&self) -> (b: &'static str)
        ensures
            b@ == confidence_badge(*self),
    {
        match self {
            Confidence::Confident => "✅",
            Confidence::Uncertain => "⚠️",
            Confidence::Guess => "❓",
        }
    }
}

/// One hunk of a unified diff, as the parser reads it.
#[derive(Debug, Clone)]
pub struct RawHunk {
    pub id: String,
    pub file: String,
    pub old_start: u32,
    pub old_lines: u32,
    pub new_start: u32,
    pub new_lines: u32,
    pub header: String,
    pub body: String,
}

/// The mathematical value of a [`RawHunk`].
pub struct RawHunkView {
    pub id: Seq<char>,
    pub file: Seq<char>,
    pub old_start: u32,
    pub old_lines: u32,
    pub new_start: u32,
    pub new_lines: u32,
    pub header: Seq<char>,
    pub body: Seq<char>,
}

impl View for RawHunk {
    type V = RawHunkView;

    open spec fn view(&self) -> RawHunkView {
        RawHunkView {
            id: self.id@,
            file: self.file@,
            old_start: self.old_start,
            old_lines: self.old_lines,
            new_start: self.new_start,
            new_lines: self.new_lines,
            header: self.header@,
            body: self.body@,
        }
    }
}

/// A group of raw hunks that share one intent.
#[derive(Debug, Clone)]
pub struct SemanticHunk {
    pub id: String,
    pub intent: String,
    pub files: Vec<String>,
    pub raw_hunk_ids: Vec<String>,
    pub merged_diff: String,
}

/// The mathematical value of a [`SemanticHunk`].
pub struct SemanticHunkView {
    pub id: Seq<char>,
    pub intent: Seq<char>,
    pub files: Seq<Seq<char>>,
    pub raw_hunk_ids: Seq<Seq<char>>,
    pub merged_diff: Seq<char>,
}

impl View for SemanticHunk {
    type V = SemanticHunkView;

    open spec fn view(&self) -> SemanticHunkView {
        SemanticHunkView {
            id: self.id@,
            intent: self.intent@,
            files: self.files.deep_view(),
            raw_hunk_ids: self.raw_hunk_ids.deep_view(),
            merged_diff: self.merged_diff@,
        }
    }
}

/// The model's judgement of one semantic hunk.
#[derive(Debug, Clone)]
pub struct Analysis {
    pub id: String,
    pub risk: Risk,
    pub risk_reason: String,
    pub confidence: Confidence,
    pub summary_ko: String,
}

/// The mathematical value of an [`Analysis`].
pub struct AnalysisView {
    pub id: Seq<char>,
    pub risk: Risk,
    pub risk_reason: Seq<char>,
    pub confidence: Confidence,
    pub summary_ko: Seq<char>,
}

impl View for Analysis {
    type V = AnalysisView;

    open spec fn view(&self) -> AnalysisView {
        AnalysisView {
            id: self.id@,
            risk: self.risk,
            risk_reason: self.risk_reason@,
            confidence: self.confidence,
            summary_ko: self.summary_ko@,
        }
    }
}

/// One entry of the review queue.
#[derive(Debug, Clone)]
pub struct ReviewItem {
    pub semantic: SemanticHunk,
    pub analysis: Analysis,
    pub decision: Option<Decision>,
    pub reject_reason: Option<String>,
}

/// The mathematical value of a [`ReviewItem`].
pub struct ReviewItemView {
    pub semantic: SemanticHunkView,
    pub analysis: AnalysisView,
    pub decision: Option<Decision>,
    pub reject_reason: Option<Seq<char>>,
}

impl View for ReviewItem {
    type V = ReviewItemView;

    open spec fn view(&self) -> ReviewItemView {
        ReviewItemView {
            semantic: self.semantic@,
            analysis: self.analysis@,
            decision: self.decision,
            reject_reason: self.reject_reason.deep_view(),
        }
    }
}

impl SemanticHunk {
    /// A copy of this semantic hunk.
    pub fn duplicate(&self) -> (c: SemanticHunk)
        ensures
            c@ == self@,
    {
        let c = SemanticHunk {
            id: self.id.clone(),
            intent: self.intent.clone(),
            files: self.files.clone(),
            raw_hunk_ids: self.raw_hunk_ids.clone(),
            merged_diff: self.merged_diff.clone(),
        };
        assert(c.files.deep_view() =~= self.files.deep_view());
        assert(c.raw_hunk_ids.deep_view() =~= self.raw_hunk_ids.deep_view());
        c
    }
}

impl Analysis {
    /// A copy of this analysis.
    pub fn duplicate(&self) -> (c: Analysis)
        ensures
            c@ == self@,
    {
        Analysis {
            id: self.id.clone(),
            risk: self.risk,
            risk_reason: self.risk_reason.clone(),
            confidence: self.confidence,
            summary_ko: self.summary_ko.clone(),
        }
    }
}

impl ReviewItem {
    /// A copy of this review item.
    pub fn duplicate(&self) -> (c: ReviewItem)
        ensures
            c@ == self@,
    {
        let reason = match &self.reject_reason {
            Some(r) => Some(r.clone()),
            None => None,
        };
        ReviewItem {
            semantic: self.semantic.duplicate(),
            analysis: self.analysis.duplicate(),
            decision: self.decision,
            reject_reason: reason,
        }
    }
}

} // verus!
