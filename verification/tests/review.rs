use vouch::models::{Analysis, Confidence, Decision, ReviewItem, Risk, SemanticHunk};
use vouch::review::{
    accept_all_low, progress, Focus, Key, KeyAction, Mode, MouseInput, MouseKind, RejectKey,
    ReviewState,
};

fn sample_items() -> Vec<ReviewItem> {
    vec![
        ReviewItem {
            semantic: SemanticHunk {
                id: "s0".into(),
                intent: "SQL injection".into(),
                files: vec!["auth.py".into()],
                raw_hunk_ids: vec!["r0".into()],
                merged_diff: "+eval(user_input)".into(),
            },
            analysis: Analysis {
                id: "s0".into(),
                risk: Risk::High,
                risk_reason: "eval".into(),
                confidence: Confidence::Confident,
                summary_ko: "위험한 eval 사용".into(),
            },
            decision: None,
            reject_reason: None,
        },
        ReviewItem {
            semantic: SemanticHunk {
                id: "s1".into(),
                intent: "rename var".into(),
                files: vec!["utils.py".into()],
                raw_hunk_ids: vec!["r1".into()],
                merged_diff: "-old_name\n+new_name".into(),
            },
            analysis: Analysis {
                id: "s1".into(),
                risk: Risk::Low,
                risk_reason: "rename".into(),
                confidence: Confidence::Confident,
                summary_ko: "변수 이름 변경".into(),
            },
            decision: None,
            reject_reason: None,
        },
    ]
}

#[test]
fn accept_sets_decision() {
    let mut items = sample_items();
    items[0].decision = Some(Decision::Accept);
    assert_eq!(items[0].decision, Some(Decision::Accept));
}

#[test]
fn accept_all_low_only_affects_low_risk() {
    let mut items = sample_items();
    accept_all_low(&mut items);
    assert!(items[0].decision.is_none());
    assert_eq!(items[1].decision, Some(Decision::Accept));
}

#[test]
fn progress_calculation() {
    let mut items = sample_items();
    assert_eq!(progress(&items), (0, 2));
    items[0].decision = Some(Decision::Accept);
    assert_eq!(progress(&items), (1, 2));
    items[1].decision = Some(Decision::Reject);
    assert_eq!(progress(&items), (2, 2));
}

#[test]
fn accept_all_low_keeps_decided_items_and_is_idempotent() {
    let mut items = sample_items();
    items[1].decision = Some(Decision::Reject);
    accept_all_low(&mut items);
    assert_eq!(items[1].decision, Some(Decision::Reject));
    assert!(items[0].decision.is_none());
    let mut again = sample_items();
    accept_all_low(&mut again);
    accept_all_low(&mut again);
    assert_eq!(again[1].decision, Some(Decision::Accept));
    assert!(again[0].decision.is_none());
}

#[test]
fn new_state_selects_first_item() {
    let s = ReviewState::new(sample_items());
    assert_eq!(s.selected, Some(0));
    assert_eq!(s.queue_pct, 50);
    assert_eq!(s.mode, Mode::Normal);
    assert_eq!(s.focus, Focus::Queue);
    assert_eq!(s.last_table_row, Some(0));
    let e = ReviewState::new(vec![]);
    assert_eq!(e.selected, None);
}

#[test]
fn keys_accept_reject_and_send() {
    let mut s = ReviewState::new(sample_items());
    assert!(matches!(s.handle_normal_key(Key::Char('a')), KeyAction::ReportProgress));
    assert_eq!(s.items[0].decision, Some(Decision::Accept));
    assert!(matches!(s.handle_normal_key(Key::Char('j')), KeyAction::Continue));
    assert_eq!(s.selected, Some(1));
    assert!(matches!(s.handle_normal_key(Key::Char('r')), KeyAction::StartReject));
    assert_eq!(s.mode, Mode::RejectInput);
    assert!(!s.handle_reject_key(RejectKey::Edit));
    assert!(s.handle_reject_key(RejectKey::Submit("too risky".into())));
    assert_eq!(s.mode, Mode::Normal);
    assert_eq!(s.items[1].decision, Some(Decision::Reject));
    assert_eq!(s.items[1].reject_reason.as_deref(), Some("too risky"));
    match s.handle_normal_key(Key::Char('s')) {
        KeyAction::SendAndQuit(r) => {
            assert_eq!(r.len(), 1);
            assert_eq!(r[0].semantic.id, "s1");
        }
        _ => panic!("s must send"),
    }
    assert!(matches!(s.handle_normal_key(Key::Char('q')), KeyAction::Quit));
}

#[test]
fn empty_reason_does_not_reject() {
    let mut s = ReviewState::new(sample_items());
    s.handle_normal_key(Key::Char('r'));
    assert!(!s.handle_reject_key(RejectKey::Submit(String::new())));
    assert_eq!(s.mode, Mode::Normal);
    assert!(s.items[0].decision.is_none());
    s.handle_normal_key(Key::Char('r'));
    assert!(!s.handle_reject_key(RejectKey::Cancel));
    assert_eq!(s.mode, Mode::Normal);
}

#[test]
fn accept_clears_an_earlier_reject_reason() {
    let mut s = ReviewState::new(sample_items());
    s.handle_normal_key(Key::Char('r'));
    s.handle_reject_key(RejectKey::Submit("bad".into()));
    s.handle_normal_key(Key::Char('a'));
    assert_eq!(s.items[0].decision, Some(Decision::Accept));
    assert!(s.items[0].reject_reason.is_none());
}

#[test]
fn pane_width_stays_between_20_and_80() {
    let mut s = ReviewState::new(sample_items());
    for _ in 0..10 {
        s.handle_normal_key(Key::Char('['));
    }
    assert_eq!(s.queue_pct, 20);
    for _ in 0..10 {
        s.handle_normal_key(Key::Char(']'));
    }
    assert_eq!(s.queue_pct, 80);
    s.handle_mouse(MouseInput { kind: MouseKind::LeftDown, column: 80 }, 100);
    assert!(s.dragging);
    s.handle_mouse(MouseInput { kind: MouseKind::LeftDrag, column: 5 }, 100);
    assert_eq!(s.queue_pct, 20);
    assert!(s.hover_split);
    s.handle_mouse(MouseInput { kind: MouseKind::LeftDrag, column: 99 }, 100);
    assert_eq!(s.queue_pct, 80);
    s.handle_mouse(MouseInput { kind: MouseKind::LeftDrag, column: 45 }, 100);
    assert_eq!(s.queue_pct, 45);
    s.handle_mouse(MouseInput { kind: MouseKind::LeftUp, column: 10 }, 100);
    assert!(!s.dragging);
    assert!(!s.hover_split);
    s.handle_mouse(MouseInput { kind: MouseKind::Moved, column: 46 }, 100);
    assert!(s.hover_split);
}

#[test]
fn detail_scrolling_is_bounded() {
    let mut s = ReviewState::new(sample_items());
    s.set_max_diff_scroll(12);
    s.handle_normal_key(Key::Down);
    assert_eq!(s.selected, Some(1));
    s.handle_normal_key(Key::Enter);
    assert_eq!(s.focus, Focus::Detail);
    s.handle_normal_key(Key::PageDown);
    assert_eq!(s.diff_scroll, 10);
    s.handle_normal_key(Key::PageDown);
    assert_eq!(s.diff_scroll, 12);
    s.handle_normal_key(Key::Up);
    assert_eq!(s.diff_scroll, 11);
    s.handle_normal_key(Key::PageUp);
    assert_eq!(s.diff_scroll, 1);
    s.handle_normal_key(Key::PageUp);
    assert_eq!(s.diff_scroll, 0);
    s.handle_normal_key(Key::End);
    assert_eq!(s.diff_scroll, 12);
    s.handle_normal_key(Key::Home);
    assert_eq!(s.diff_scroll, 0);
    s.handle_normal_key(Key::Esc);
    assert_eq!(s.focus, Focus::Queue);
    s.set_max_diff_scroll(3);
    s.handle_normal_key(Key::Enter);
    s.handle_normal_key(Key::End);
    s.set_max_diff_scroll(1);
    assert_eq!(s.diff_scroll, 1);
}

#[test]
fn moving_to_another_row_resets_the_scroll() {
    let mut s = ReviewState::new(sample_items());
    s.set_max_diff_scroll(5);
    s.handle_normal_key(Key::Enter);
    s.handle_normal_key(Key::End);
    assert_eq!(s.diff_scroll, 5);
    s.handle_normal_key(Key::Char('j'));
    assert_eq!(s.selected, Some(1));
    assert_eq!(s.diff_scroll, 0);
    assert_eq!(s.last_table_row, Some(1));
    s.handle_normal_key(Key::Char('k'));
    s.handle_normal_key(Key::Char('k'));
    assert_eq!(s.selected, Some(0));
}
