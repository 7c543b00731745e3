//! The command lines that vouch sends to `cmux` (status, notifications, sending text
//! to an agent's surface) and to `gh`, and the order in which a reject is delivered.
//! The program runs the commands; this module decides what they are.

use vstd::prelude::*;

verus! {

/// The surface of the source agent: the one given on the command line, else the one
/// that the environment names.
pub fn discover_source_surface(cli_flag: Option<String>, env_surface: Option<String>) -> (s: Option<String>)
    ensures
        s == (if cli_flag is Some { cli_flag } else { env_surface }),
{
    if cli_flag.is_some() {
        return cli_flag;
    }
    env_surface
}

fn strings(parts: &[&str]) -> (v: Vec<String>)
    ensures
        v.deep_view() == parts@.map_values(|p: &str| p@),
{
    let mut v: Vec<String> = Vec::new();
    let mut i: usize = 0;
    while i < parts.len()
        invariant
            i <= parts.len(),
            v.deep_view() == parts@.take(i as int).map_values(|p: &str| p@),
        decreases parts.len() - i,
    {
        let ghost before = v.deep_view();
        let p = String::from_str(parts[i]);
        v.push(p);
        assert(v.deep_view() =~= before.push(parts@[i as int]@));
        assert(parts@.take(i + 1) =~= parts@.take(i as int).push(parts@[i as int]));
        assert(v.deep_view() =~= parts@.take(i + 1).map_values(|p: &str| p@));
        i = i + 1;
    }
    assert(parts@.take(parts.len() as int) == parts@);
    v
}

/// The arguments of a `cmux` command, scoped to the workspace when there is one.
pub open spec fn in_workspace(args: Seq<Seq<char>>, workspace: Option<Seq<char>>) -> Seq<Seq<char>> {
    match workspace {
        Some(ws) => args + seq!["--workspace"@, ws],
        None => args,
    }
}

/// Scopes the arguments of a `cmux` command to the workspace, if there is one.
pub fn cmux_command(args: Vec<String>, workspace: Option<String>) -> (v: Vec<String>)
    ensures
        v.deep_view() == in_workspace(args.deep_view(), workspace.deep_view()),
{
    let mut v = args;
    let ghost before = v.deep_view();
    if let Some(ws) = workspace {
        v.push(String::from_str("--workspace"));
        v.push(ws);
    }
    assert(v.deep_view() =~= in_workspace(before, workspace.deep_view()));
    v
}

/// The `cmux` arguments that set a status entry.
pub fn set_status(key: &str, message: &str, icon: &str) -> (v: Vec<String>)
    ensures
        v.deep_view() == seq!["set-status"@, key@, message@, "--icon"@, icon@],
{
    let v = strings(&["set-status", key, message, "--icon", icon]);
    assert(v.deep_view() =~= seq!["set-status"@, key@, message@, "--icon"@, icon@]);
    v
}

/// The `cmux` arguments that clear a status entry.
pub fn clear_status(key: &str) -> (v: Vec<String>)
    ensures
        v.deep_view() == seq!["clear-status"@, key@],
{
    let v = strings(&["clear-status", key]);
    assert(v.deep_view() =~= seq!["clear-status"@, key@]);
    v
}

/// The `cmux` arguments of a notification; an empty body is left out.
pub fn notify(title: &str, body: &str) -> (v: Vec<String>)
    ensures
        v.deep_view() == seq!["notify"@, "--title"@, title@] + (if body@.len() == 0 {
            Seq::<Seq<char>>::empty()
        } else {
            seq!["--body"@, body@]
        }),
{
    let mut v = strings(&["notify", "--title", title]);
    let ghost before = v.deep_view();
    if !body.is_empty() {
        v.push(String::from_str("--body"));
        v.push(String::from_str(body));
        assert(v.deep_view() =~= before + seq!["--body"@, body@]);
    } else {
        assert(v.deep_view() =~= before + Seq::<Seq<char>>::empty());
    }
    assert(v.deep_view() =~= seq!["notify"@, "--title"@, title@] + (if body@.len() == 0 {
        Seq::<Seq<char>>::empty()
    } else {
        seq!["--body"@, body@]
    }));
    v
}

/// The two `cmux` commands that type `text` into a surface and press Enter there.
pub fn send_to_surface(surface: &str, text: &str, workspace: Option<String>) -> (r: (Vec<String>, Vec<String>))
    ensures
        r.0.deep_view() == in_workspace(seq!["send"@, "--surface"@, surface@, text@], workspace.deep_view()),
        r.1.deep_view() == in_workspace(seq!["send-key"@, "--surface"@, surface@, "Enter"@], workspace.deep_view()),
{
    let send = strings(&["send", "--surface", surface, text]);
    let key = strings(&["send-key", "--surface", surface, "Enter"]);
    assert(send.deep_view() =~= seq!["send"@, "--surface"@, surface@, text@]);
    assert(key.deep_view() =~= seq!["send-key"@, "--surface"@, surface@, "Enter"@]);
    let ws2 = match &workspace {
        Some(w) => Some(w.clone()),
        None => None,
    };
    (cmux_command(send, workspace), cmux_command(key, ws2))
}

/// The `gh` arguments that post standard input as a comment on a pull request.
pub fn post_pr_comment(pr: &str) -> (v: Vec<String>)
    ensures
        v.deep_view() == seq!["pr"@, "comment"@, pr@, "-F"@, "-"@],
{
    let v = strings(&["pr", "comment", pr, "-F", "-"]);
    assert(v.deep_view() =~= seq!["pr"@, "comment"@, pr@, "-F"@, "-"@]);
    v
}

/// A way to hand a reject text back.
#[derive(Debug, Clone, PartialEq, Eq)]
pub enum Channel {
    /// A comment on this pull request, through `gh`.
    PrComment(String),
    /// Typed into this `cmux` surface.
    Surface(String),
    /// Copied to the clipboard.
    Clipboard,
    /// Printed.
    Stdout,
}

/// The mathematical value of a [`Channel`].
pub enum ChannelView {
    PrComment(Seq<char>),
    Surface(Seq<char>),
    Clipboard,
    Stdout,
}

/// The view of a channel.
pub open spec fn channel_view(c: Channel) -> ChannelView {
    match c {
        Channel::PrComment(s) => ChannelView::PrComment(s@),
        Channel::Surface(s) => ChannelView::Surface(s@),
        Channel::Clipboard => ChannelView::Clipboard,
        Channel::Stdout => ChannelView::Stdout,
    }
}

/// The channels to try in turn: the pull request when there is one, then the surface
/// when there is one, then the clipboard, and printing last (it cannot fail).
pub open spec fn delivery_order(surface: Option<Seq<char>>, pr: Option<Seq<char>>) -> Seq<ChannelView> {
    (match pr {
        Some(p) => seq![ChannelView::PrComment(p)],
        None => seq![],
    }) + (match surface {
        Some(s) => seq![ChannelView::Surface(s)],
        None => seq![],
    }) + seq![ChannelView::Clipboard, ChannelView::Stdout]
}

/// The channels that delivering a reject tries, in turn (see `delivery_order`).
pub fn delivery_plan(surface: Option<String>, pr: Option<String>) -> (plan: Vec<Channel>)
    ensures
        plan@.map_values(|c: Channel| channel_view(c)) == delivery_order(surface.deep_view(), pr.deep_view()),
{
    let mut plan: Vec<Channel> = Vec::new();
    if let Some(p) = pr {
        plan.push(Channel::PrComment(p));
    }
    if let Some(s) = surface {
        plan.push(Channel::Surface(s));
    }
    plan.push(Channel::Clipboard);
    plan.push(Channel::Stdout);
    assert(plan@.map_values(|c: Channel| channel_view(c)) =~= delivery_order(surface.deep_view(), pr.deep_view()));
    plan
}

/// A copy of a channel.
fn copy_channel(c: &Channel) -> (r: Channel)
    ensures
        channel_view(r) == channel_view(*c),
{
    match c {
        Channel::PrComment(p) => Channel::PrComment(p.clone()),
        Channel::Surface(s) => Channel::Surface(s.clone()),
        Channel::Clipboard => Channel::Clipboard,
        Channel::Stdout => Channel::Stdout,
    }
}

/// The last step taken while delivering a reject text.
pub enum DeliveryEvent {
    /// Nothing has been tried yet.
    Start,
    /// Channel `index` of the plan was tried: `Some` when it delivered the text, holding
    /// the name of the clipboard program that took it (any text for other channels).
    Tried { index: usize, delivered: Option<String> },
}

/// The mathematical value of a [`DeliveryEvent`].
pub enum DeliveryEventView {
    Start,
    Tried { index: usize, delivered: Option<Seq<char>> },
}

/// The view of a delivery event.
pub open spec fn delivery_event_view(e: DeliveryEvent) -> DeliveryEventView {
    match e {
        DeliveryEvent::Start => DeliveryEventView::Start,
        DeliveryEvent::Tried { index, delivered } => DeliveryEventView::Tried { index, delivered: delivered.deep_view() },
    }
}

/// What to do next while delivering: try channel `index` of the plan, or stop, the text
/// delivered through `channel` (named `name`), after printing the lines of `report`.
pub enum DeliveryAction {
    Try { index: usize, channel: Channel },
    Delivered { channel: Channel, name: String, report: Vec<String> },
}

/// The mathematical value of a [`DeliveryAction`].
pub enum DeliveryActionView {
    Try { index: usize, channel: ChannelView },
    Delivered { channel: ChannelView, name: Seq<char>, report: Seq<Seq<char>> },
}

/// The view of a delivery action.
pub open spec fn delivery_action_view(a: DeliveryAction) -> DeliveryActionView {
    match a {
        DeliveryAction::Try { index, channel } => DeliveryActionView::Try { index, channel: channel_view(channel) },
        DeliveryAction::Delivered { channel, name, report } => DeliveryActionView::Delivered {
            channel: channel_view(channel),
            name: name@,
            report: report.deep_view(),
        },
    }
}

/// The name of the channel that delivered: `gh`, `cmux`, the clipboard program, `stdout`.
pub open spec fn channel_name(c: ChannelView, tool: Seq<char>) -> Seq<char> {
    match c {
        ChannelView::PrComment(_) => "gh"@,
        ChannelView::Surface(_) => "cmux"@,
        ChannelView::Clipboard => tool,
        ChannelView::Stdout => "stdout"@,
    }
}

/// The lines printed once a channel delivered; printing shows the text itself under a
/// heading.
pub open spec fn delivery_report(c: ChannelView, tool: Seq<char>, text: Seq<char>) -> Seq<Seq<char>> {
    match c {
        ChannelView::PrComment(p) => seq!["vouch: posted reject as PR #"@ + p + " comment"@],
        ChannelView::Surface(s) => seq!["vouch: sent reject to cmux "@ + s],
        ChannelView::Clipboard => seq!["vouch: reject prompt copied to clipboard via "@ + tool + " — paste into your agent"@],
        ChannelView::Stdout => seq![
            "vouch: no delivery channel available — printing prompt below\n"@,
            "--- vouch reject prompt ---"@,
            text,
        ],
    }
}

/// The text delivered through channel `c`.
pub open spec fn delivered_by(c: ChannelView, tool: Seq<char>, text: Seq<char>) -> DeliveryActionView {
    DeliveryActionView::Delivered { channel: c, name: channel_name(c, tool), report: delivery_report(c, tool, text) }
}

/// Going on at channel `k` of `order`: printing cannot fail and is done at once; any
/// other channel is tried.
pub open spec fn go_on(order: Seq<ChannelView>, k: int, text: Seq<char>) -> DeliveryActionView {
    if order[k] is Stdout {
        delivered_by(order[k], seq![], text)
    } else {
        DeliveryActionView::Try { index: k as usize, channel: order[k] }
    }
}

/// The step after `event` while delivering `text` through the channels of `order`: the
/// channels are tried in turn, the first that delivers ends the delivery, and printing
/// ends it when nothing else did.
pub open spec fn next_delivery(order: Seq<ChannelView>, text: Seq<char>, event: DeliveryEventView) -> DeliveryActionView {
    match event {
        DeliveryEventView::Start => go_on(order, 0, text),
        DeliveryEventView::Tried { index, delivered } => match delivered {
            Some(tool) => delivered_by(order[index as int], tool, text),
            None => go_on(order, index + 1, text),
        },
    }
}

fn delivered_action(c: Channel, tool: &str, text: &str) -> (a: DeliveryAction)
    ensures
        delivery_action_view(a) == delivered_by(channel_view(c), tool@, text@),
{
    let mut report: Vec<String> = Vec::new();
    let name = match &c {
        Channel::PrComment(p) => {
            let mut m = String::from_str("vouch: posted reject as PR #");
            m.append(p.as_str());
            m.append(" comment");
            report.push(m);
            String::from_str("gh")
        },
        Channel::Surface(s) => {
            let mut m = String::from_str("vouch: sent reject to cmux ");
            m.append(s.as_str());
            report.push(m);
            String::from_str("cmux")
        },
        Channel::Clipboard => {
            let mut m = String::from_str("vouch: reject prompt copied to clipboard via ");
            m.append(tool);
            m.append(" — paste into your agent");
            report.push(m);
            String::from_str(tool)
        },
        Channel::Stdout => {
            report.push(String::from_str("vouch: no delivery channel available — printing prompt below\n"));
            report.push(String::from_str("--- vouch reject prompt ---"));
            report.push(String::from_str(text));
            String::from_str("stdout")
        },
    };
    assert(report.deep_view() =~= delivery_report(channel_view(c), tool@, text@));
    DeliveryAction::Delivered { channel: c, name, report }
}

/// Delivers a reject text, one step at a time (see `next_delivery`): the plan is
/// `delivery_plan`; the caller tries each channel it is handed and comes back with what
/// came of it, until the text is delivered.
pub fn deliver_reject(text: &str, surface: Option<String>, pr: Option<String>, event: DeliveryEvent) -> (a: DeliveryAction)
    requires
        event matches DeliveryEvent::Tried { index, .. } ==> index + 1 < delivery_order(
            surface.deep_view(),
            pr.deep_view(),
        ).len(),
    ensures
        delivery_action_view(a) == next_delivery(
            delivery_order(surface.deep_view(), pr.deep_view()),
            text@,
            delivery_event_view(event),
        ),
{
    let ghost order = delivery_order(surface.deep_view(), pr.deep_view());
    let plan = delivery_plan(surface, pr);
    assert(plan@.len() == order.len());
    assert(forall|k: int| 0 <= k < plan@.len() ==> channel_view(#[trigger] plan@[k]) == order[k]);
    assert(order.len() >= 2 && order[order.len() - 1] is Stdout);
    let k: usize = match &event {
        DeliveryEvent::Start => 0,
        DeliveryEvent::Tried { index, delivered } => {
            match delivered {
                Some(tool) => {
                    let c = copy_channel(&plan[*index]);
                    return delivered_action(c, tool.as_str(), text);
                },
                None => *index + 1,
            }
        },
    };
    let c = copy_channel(&plan[k]);
    if let Channel::Stdout = c {
        delivered_action(c, "", text)
    } else {
        DeliveryAction::Try { index: k, channel: c }
    }
}

/// A delivery always ends: when every channel before printing failed, the text is
/// printed.
pub proof fn law_delivery_ends_in_printing(surface: Option<Seq<char>>, pr: Option<Seq<char>>, text: Seq<char>)
    ensures
        ({
            let order = delivery_order(surface, pr);
            next_delivery(order, text, DeliveryEventView::Tried { index: (order.len() - 2) as usize, delivered: None })
                == delivered_by(ChannelView::Stdout, seq![], text)
        }),
{
}

/// The clipboard programs to try, in turn, each with its arguments: `pbcopy`, `wl-copy`,
/// `xclip -selection clipboard`, `xsel --clipboard --input`.
pub fn clipboard_commands() -> (v: Vec<Vec<String>>)
    ensures
        v.deep_view() == seq![
            seq!["pbcopy"@],
            seq!["wl-copy"@],
            seq!["xclip"@, "-selection"@, "clipboard"@],
            seq!["xsel"@, "--clipboard"@, "--input"@],
        ],
{
    let a = strings(&["pbcopy"]);
    let b = strings(&["wl-copy"]);
    let c = strings(&["xclip", "-selection", "clipboard"]);
    let d = strings(&["xsel", "--clipboard", "--input"]);
    assert(a.deep_view() =~= seq!["pbcopy"@]);
    assert(b.deep_view() =~= seq!["wl-copy"@]);
    assert(c.deep_view() =~= seq!["xclip"@, "-selection"@, "clipboard"@]);
    assert(d.deep_view() =~= seq!["xsel"@, "--clipboard"@, "--input"@]);
    let mut v: Vec<Vec<String>> = Vec::new();
    v.push(a);
    v.push(b);
    v.push(c);
    v.push(d);
    assert(v.deep_view() =~= seq![
        seq!["pbcopy"@],
        seq!["wl-copy"@],
        seq!["xclip"@, "-selection"@, "clipboard"@],
        seq!["xsel"@, "--clipboard"@, "--input"@],
    ]);
    v
}

/// The notification after a delivery: the count of rejects sent to the surface or
/// posted on the pull request; none for the clipboard or printing.
pub open spec fn notice_for(c: ChannelView, count: nat) -> Option<Seq<char>> {
    match c {
        ChannelView::Surface(_) => Some("sent "@ + crate::text::decimal(count) + " rejects to source"@),
        ChannelView::PrComment(_) => Some("posted "@ + crate::text::decimal(count) + " rejects as PR comment"@),
        _ => None,
    }
}

/// The notification after delivering `count` rejects through `channel` (see `notice_for`).
pub fn delivery_notice(channel: &Channel, count: usize) -> (n: Option<String>)
    ensures
        n.deep_view() == notice_for(channel_view(*channel), count as nat),
{
    match channel {
        Channel::Surface(_) => {
            let mut m = String::from_str("sent ");
            crate::text::push_decimal(&mut m, count as u64);
            m.append(" rejects to source");
            Some(m)
        },
        Channel::PrComment(_) => {
            let mut m = String::from_str("posted ");
            crate::text::push_decimal(&mut m, count as u64);
            m.append(" rejects as PR comment");
            Some(m)
        },
        _ => None,
    }
}

} // verus!
