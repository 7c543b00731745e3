use vouch::cmux::{
    clear_status, clipboard_commands, cmux_command, delivery_notice, delivery_plan,
    deliver_reject, discover_source_surface, notify, post_pr_comment, send_to_surface, set_status, Channel,
    DeliveryAction, DeliveryEvent,
};

#[test]
fn discover_source_surface_cli_flag() {
    let result = discover_source_surface(Some("surface:1".into()), None);
    assert_eq!(result, Some("surface:1".to_string()));
}

#[test]
fn source_surface_falls_back_to_environment() {
    assert_eq!(discover_source_surface(None, Some("s:2".into())), Some("s:2".to_string()));
    assert_eq!(discover_source_surface(Some("a".into()), Some("b".into())), Some("a".to_string()));
    assert_eq!(discover_source_surface(None, None), None);
}

#[test]
fn cmux_command_lines() {
    assert_eq!(set_status("vouch", "loading diff", "hourglass"), vec!["set-status", "vouch", "loading diff", "--icon", "hourglass"]);
    assert_eq!(clear_status("vouch"), vec!["clear-status", "vouch"]);
    assert_eq!(notify("t", ""), vec!["notify", "--title", "t"]);
    assert_eq!(notify("t", "b"), vec!["notify", "--title", "t", "--body", "b"]);
    assert_eq!(cmux_command(vec!["x".into()], Some("w1".into())), vec!["x", "--workspace", "w1"]);
    assert_eq!(cmux_command(vec!["x".into()], None), vec!["x"]);
    let (a, b) = send_to_surface("surface:3", "hello", Some("w".into()));
    assert_eq!(a, vec!["send", "--surface", "surface:3", "hello", "--workspace", "w"]);
    assert_eq!(b, vec!["send-key", "--surface", "surface:3", "Enter", "--workspace", "w"]);
    assert_eq!(post_pr_comment("12"), vec!["pr", "comment", "12", "-F", "-"]);
    let c = clipboard_commands();
    assert_eq!(c.len(), 4);
    assert_eq!(c[2], vec!["xclip", "-selection", "clipboard"]);
}

#[test]
fn delivery_order_and_notices() {
    assert_eq!(
        delivery_plan(Some("s".into()), Some("7".into())),
        vec![Channel::PrComment("7".into()), Channel::Surface("s".into()), Channel::Clipboard, Channel::Stdout]
    );
    assert_eq!(delivery_plan(None, None), vec![Channel::Clipboard, Channel::Stdout]);
    assert_eq!(delivery_notice(&Channel::Surface("s".into()), 3).as_deref(), Some("sent 3 rejects to source"));
    assert_eq!(delivery_notice(&Channel::PrComment("1".into()), 12).as_deref(), Some("posted 12 rejects as PR comment"));
    assert_eq!(delivery_notice(&Channel::Stdout, 1), None);
}

fn step(event: DeliveryEvent, surface: Option<&str>, pr: Option<&str>) -> DeliveryAction {
    deliver_reject("body", surface.map(String::from), pr.map(String::from), event)
}

#[test]
fn delivery_tries_channels_in_turn_and_stops_at_the_first_success() {
    match step(DeliveryEvent::Start, Some("surface:1"), Some("7")) {
        DeliveryAction::Try { index: 0, channel: Channel::PrComment(p) } => assert_eq!(p, "7"),
        _ => panic!("expected the pull request first"),
    }
    match step(DeliveryEvent::Tried { index: 0, delivered: None }, Some("surface:1"), Some("7")) {
        DeliveryAction::Try { index: 1, channel: Channel::Surface(s) } => assert_eq!(s, "surface:1"),
        _ => panic!("expected the surface next"),
    }
    match step(DeliveryEvent::Tried { index: 1, delivered: Some(String::new()) }, Some("surface:1"), Some("7")) {
        DeliveryAction::Delivered { channel, name, report } => {
            assert_eq!(channel, Channel::Surface("surface:1".into()));
            assert_eq!(name, "cmux");
            assert_eq!(report, vec!["vouch: sent reject to cmux surface:1".to_string()]);
        }
        _ => panic!("expected delivery"),
    }
    match step(DeliveryEvent::Tried { index: 0, delivered: Some(String::new()) }, None, Some("7")) {
        DeliveryAction::Delivered { name, report, .. } => {
            assert_eq!(name, "gh");
            assert_eq!(report, vec!["vouch: posted reject as PR #7 comment".to_string()]);
        }
        _ => panic!("expected delivery"),
    }
}

#[test]
fn deliver_reject_falls_back_when_nothing_routes() {
    match step(DeliveryEvent::Start, None, None) {
        DeliveryAction::Try { index: 0, channel: Channel::Clipboard } => {}
        _ => panic!("expected the clipboard"),
    }
    match step(DeliveryEvent::Tried { index: 0, delivered: Some("xclip".into()) }, None, None) {
        DeliveryAction::Delivered { name, report, .. } => {
            assert_eq!(name, "xclip");
            assert_eq!(
                report,
                vec!["vouch: reject prompt copied to clipboard via xclip — paste into your agent".to_string()]
            );
        }
        _ => panic!("expected delivery"),
    }
    match step(DeliveryEvent::Tried { index: 0, delivered: None }, None, None) {
        DeliveryAction::Delivered { channel, name, report } => {
            assert_eq!(channel, Channel::Stdout);
            assert_eq!(name, "stdout");
            assert_eq!(
                report,
                vec![
                    "vouch: no delivery channel available — printing prompt below\n".to_string(),
                    "--- vouch reject prompt ---".to_string(),
                    "body".to_string(),
                ]
            );
        }
        _ => panic!("expected printing"),
    }
}
