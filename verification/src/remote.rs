//! The bridge for the remote app: how it connects and is let in, what it is shown and where its
//! input goes.
use vstd::prelude::*;

use crate::json::{integer, integer_number, json_text, member_of, render, string, Json, JsonView};
use crate::numbers::{decimal, decimal_of, hex_fixed, hex_padded, law_hex_padded_width};
use crate::text::{joined, same_text, trim_start_matches, without_prefixes};

verus! {

// ---------------------------------------------------------------------------
// Tokens
// ---------------------------------------------------------------------------

/// How many hexadecimal digits a token has.
pub const TOKEN_DIGITS: u8 = 16;

/// The token of a random number.
pub open spec fn token_of(bits: u64) -> Seq<char> {
    hex_padded(bits as nat, TOKEN_DIGITS as nat)
}

/// The token of a random number: its hexadecimal digits, always as many.
pub fn token_text(bits: u64) -> (r: String)
    ensures
        r@ == token_of(bits),
        r@.len() == TOKEN_DIGITS,
{
    proof {
        law_hex_padded_width(bits as nat, TOKEN_DIGITS as nat);
    }
    hex_fixed(bits, TOKEN_DIGITS)
}

/// `fastrand::u64` over the full range. Any number may come back, so nothing is stated of it.
#[verifier::external_body]
fn random_bits() -> (r: u64) {
    fastrand::u64(..)
}

/// A new token, of a random number.
pub fn new_token() -> (r: String)
    ensures
        exists|bits: u64| r@ == #[trigger] token_of(bits),
        r@.len() == TOKEN_DIGITS,
{
    let bits: u64 = random_bits();
    let token = token_text(bits);
    assert(token@ == token_of(bits));
    token
}

/// Whether a connection is let in: the token stands in its header or in its query.
pub fn is_authorized(header: Option<&str>, query: Option<&str>, expected: &str) -> (r: bool)
    ensures
        r == (header is Some && header->0@ == expected@ || query is Some && query->0@ == expected@),
{
    let by_header = match header {
        Some(token) => same_text(token, expected),
        None => false,
    };
    let by_query = match query {
        Some(token) => same_text(token, expected),
        None => false,
    };
    by_header || by_query
}

// ---------------------------------------------------------------------------
// Addresses
// ---------------------------------------------------------------------------

/// The address that the remote app connects to in the local network.
pub open spec fn direct_url(host: Seq<char>, port: u16, token: Seq<char>) -> Seq<char> {
    "kakuremote://"@ + host + ":"@ + decimal_of(port as nat) + "?token="@ + token
}

/// The address that the remote app connects to in the local network.
pub fn connection_url(host: &str, port: u16, token: &str) -> (r: String)
    ensures
        r@ == direct_url(host@, port, token@),
{
    let mut url = joined("kakuremote://", host);
    url.append(":");
    url.append(decimal(port as u128).as_str());
    url.append("?token=");
    url.append(token);
    url
}

/// The host of a relay, without the scheme.
pub open spec fn relay_host_of(server: Seq<char>) -> Seq<char> {
    without_prefixes(without_prefixes(server, "wss://"@), "ws://"@)
}

/// The address that the remote app connects to through a relay.
pub open spec fn relay_url_of(server: Seq<char>, token: Seq<char>) -> Seq<char> {
    "kakuremote://relay?server="@ + relay_host_of(server) + "&token="@ + token
}

/// The address that the remote app connects to through a relay.
pub fn relay_url(server: &str, token: &str) -> (r: String)
    ensures
        r@ == relay_url_of(server@, token@),
{
    let host = trim_start_matches(trim_start_matches(server, "wss://").as_str(), "ws://");
    let mut url = joined("kakuremote://relay?server=", host.as_str());
    url.append("&token=");
    url.append(token);
    url
}

/// The address under which this machine offers itself to a relay.
pub fn tunnel_host_url(tunnel_url: &str, token: &str) -> (r: String)
    ensures
        r@ == tunnel_url@ + "/h/"@ + token@,
{
    let mut url = joined(tunnel_url, "/h/");
    url.append(token);
    url
}

/// The host that is offered in the local network: its address there, or this machine itself.
pub fn offered_host(lan_address: Option<String>) -> (r: String)
    ensures
        r@ == match lan_address {
            Some(address) => address@,
            None => "127.0.0.1"@,
        },
{
    match lan_address {
        Some(address) => address,
        None => "127.0.0.1".to_owned(),
    }
}

// ---------------------------------------------------------------------------
// QR codes
// ---------------------------------------------------------------------------

/// What `qrcode` draws of a text with block characters, two modules each, with or without a margin;
/// `None` where it cannot encode the text.
pub uninterp spec fn block_drawing(text: Seq<char>, quiet_zone: bool) -> Option<Seq<char>>;

/// The SVG that `qrcode` draws of a text, at least so large, with or without a margin; `None` where
/// it cannot encode the text.
pub uninterp spec fn svg_drawing(
    text: Seq<char>,
    min_width: u32,
    min_height: u32,
    quiet_zone: bool,
) -> Option<Seq<char>>;

/// `QrCode::new` on the bytes of the text, drawn by `Renderer::build` as `Dense1x2`: the result is a
/// function of the text and the margin, and absent where `QrCode::new` reports an error.
#[verifier::external_body]
fn draw_blocks(text: &str, quiet_zone: bool) -> (r: Option<String>)
    ensures
        r.deep_view() == block_drawing(text@, quiet_zone),
{
    let code = qrcode::QrCode::new(text.as_bytes()).ok()?;
    Some(
        code.render::<qrcode::render::unicode::Dense1x2>()
            .dark_color(qrcode::render::unicode::Dense1x2::Dark)
            .light_color(qrcode::render::unicode::Dense1x2::Light)
            .quiet_zone(quiet_zone)
            .build(),
    )
}

/// `QrCode::new` on the bytes of the text, drawn by `Renderer::build` as `svg::Color`: the result is
/// a function of the text, the least size and the margin, and absent where `QrCode::new` reports an
/// error. The sizes are kept small enough for the renderer's arithmetic.
#[verifier::external_body]
fn draw_svg(text: &str, min_width: u32, min_height: u32, quiet_zone: bool) -> (r: Option<String>)
    requires
        min_width <= 0xffff,
        min_height <= 0xffff,
    ensures
        r.deep_view() == svg_drawing(text@, min_width, min_height, quiet_zone),
{
    let code = qrcode::QrCode::new(text.as_bytes()).ok()?;
    Some(
        code.render::<qrcode::render::svg::Color>()
            .min_dimensions(min_width, min_height)
            .quiet_zone(quiet_zone)
            .build(),
    )
}

/// A drawing with its address under it, or a note where there is no drawing.
pub open spec fn drawing_page(drawing: Option<Seq<char>>, url: Seq<char>) -> Seq<char> {
    match drawing {
        Some(blocks) => blocks + "\n\n"@ + url,
        None => "Failed to generate QR code"@,
    }
}

/// A drawing with its address under it, or a note where there is no drawing.
pub fn terminal_page(drawing: Option<String>, url: &str) -> (r: String)
    ensures
        r@ == drawing_page(drawing.deep_view(), url@),
{
    match drawing {
        Some(blocks) => {
            let mut page = joined(blocks.as_str(), "\n\n");
            page.append(url);
            page
        },
        None => "Failed to generate QR code".to_owned(),
    }
}

/// A QR code for the terminal that leads the remote app here, with the address under it.
pub fn render_qr_terminal(host: &str, port: u16, token: &str) -> (r: String)
    ensures
        r@ == drawing_page(
            block_drawing(direct_url(host@, port, token@), true),
            direct_url(host@, port, token@),
        ),
{
    let url = connection_url(host, port, token);
    terminal_page(draw_blocks(url.as_str(), true), url.as_str())
}

/// A QR code for the terminal that leads the remote app here through a relay, with the address under
/// it.
pub fn render_relay_qr_terminal(relay_server: &str, token: &str) -> (r: String)
    ensures
        r@ == drawing_page(
            block_drawing(relay_url_of(relay_server@, token@), true),
            relay_url_of(relay_server@, token@),
        ),
{
    let url = relay_url(relay_server, token);
    terminal_page(draw_blocks(url.as_str(), true), url.as_str())
}

/// The page with a QR code, up to the drawing.
pub const QR_PAGE_HEAD: &'static str = r#"<!DOCTYPE html>
<html>
<head>
  <meta charset="utf-8">
  <meta name="viewport" content="width=device-width, initial-scale=1">
  <title>Kaku Remote – Connect</title>
  <style>
    body { font-family: -apple-system, sans-serif; background: #1a1a1a; color: #eee;
            display: flex; flex-direction: column; align-items: center;
            justify-content: center; min-height: 100vh; margin: 0; padding: 24px; box-sizing: border-box; }
    h1 { font-size: 1.4rem; margin-bottom: 8px; }
    p  { color: #aaa; font-size: 0.85rem; margin-bottom: 24px; text-align: center; }
    .qr { background: #fff; border-radius: 12px; padding: 16px; }
    code { font-size: 0.75rem; color: #888; margin-top: 16px; word-break: break-all; max-width: 320px; text-align: center; }
  </style>
</head>
<body>
  <h1>Kaku Remote</h1>
  <p>Open the Kaku Remote iOS app and tap <strong>Scan QR</strong></p>
  <div class="qr">"#;

/// The page with a QR code, between the drawing and the address.
pub const QR_PAGE_MIDDLE: &'static str = r#"</div>
  <code>"#;

/// The page with a QR code, from the address on.
pub const QR_PAGE_TAIL: &'static str = r#"</code>
</body>
</html>"#;

/// How wide and high the drawing on the page is, at least.
pub const QR_PAGE_PIXELS: u32 = 280;

/// The page with a drawing, or a note where there is no drawing, and its address.
pub open spec fn html_page(drawing: Option<Seq<char>>, url: Seq<char>) -> Seq<char> {
    QR_PAGE_HEAD@ + (match drawing {
        Some(svg) => svg,
        None => "<p>QR generation failed</p>"@,
    }) + QR_PAGE_MIDDLE@ + url + QR_PAGE_TAIL@
}

/// The page with a drawing, or a note where there is no drawing, and its address.
pub fn qr_html(drawing: Option<String>, url: &str) -> (r: String)
    ensures
        r@ == html_page(drawing.deep_view(), url@),
{
    let mut page = QR_PAGE_HEAD.to_owned();
    match drawing {
        Some(svg) => {
            page.append(svg.as_str());
        },
        None => {
            page.append("<p>QR generation failed</p>");
        },
    }
    page.append(QR_PAGE_MIDDLE);
    page.append(url);
    page.append(QR_PAGE_TAIL);
    page
}

/// The page with a QR code that leads the remote app here.
pub fn qr_page(lan_address: Option<String>, port: u16, token: &str) -> (r: String)
    ensures
        ({
            let host = match lan_address {
                Some(address) => address@,
                None => "127.0.0.1"@,
            };
            let url = direct_url(host, port, token@);
            r@ == html_page(svg_drawing(url, QR_PAGE_PIXELS, QR_PAGE_PIXELS, true), url)
        }),
{
    let host = offered_host(lan_address);
    let url = connection_url(host.as_str(), port, token);
    let drawing = draw_svg(url.as_str(), QR_PAGE_PIXELS, QR_PAGE_PIXELS, true);
    qr_html(drawing, url.as_str())
}

// ---------------------------------------------------------------------------
// Screens
// ---------------------------------------------------------------------------

/// A line of a screen.
#[derive(Debug, PartialEq, Eq)]
pub struct ScreenLine {
    pub row: isize,
    pub text: String,
}

/// A [`ScreenLine`] over sequences.
pub struct ScreenLineView {
    pub row: int,
    pub text: Seq<char>,
}

impl DeepView for ScreenLine {
    type V = ScreenLineView;

    open spec fn deep_view(&self) -> ScreenLineView {
        ScreenLineView { row: self.row as int, text: self.text@ }
    }
}

impl Clone for ScreenLine {
    fn clone(&self) -> (r: ScreenLine)
        ensures
            r.deep_view() == self.deep_view(),
    {
        ScreenLine { row: self.row, text: self.text.clone() }
    }
}

/// What a pane shows.
#[derive(Debug, PartialEq, Eq)]
pub struct ScreenUpdate {
    pub pane_id: usize,
    pub cursor_x: usize,
    pub cursor_y: isize,
    pub cols: usize,
    pub viewport_rows: usize,
    pub lines: Vec<ScreenLine>,
}

/// Where a pane's cursor stands and how large the pane is.
#[derive(Debug, Clone, Copy, PartialEq, Eq, Structural)]
pub struct PaneDimensions {
    pub cursor_x: usize,
    pub cursor_y: isize,
    pub cols: usize,
    pub viewport_rows: usize,
    /// The row at the top of the screen.
    pub physical_top: isize,
}

/// The rows of a pane's screen, from the first to just after the last.
pub fn screen_range(pane: PaneDimensions) -> (r: (isize, isize))
    requires
        pane.physical_top + pane.viewport_rows <= isize::MAX,
    ensures
        r.0 == pane.physical_top,
        r.1 == pane.physical_top + pane.viewport_rows,
{
    let end: i128 = pane.physical_top as i128 + pane.viewport_rows as i128;
    (pane.physical_top, end as isize)
}

/// The lines of a screen, numbered from its top row.
pub open spec fn numbered_lines(texts: Seq<Seq<char>>, top: int) -> Seq<ScreenLineView> {
    Seq::new(texts.len(), |i: int| ScreenLineView { row: top + i, text: texts[i] })
}

/// What a pane shows, by the texts of its lines.
pub fn screen_update(pane_id: usize, pane: PaneDimensions, texts: &Vec<String>) -> (r: ScreenUpdate)
    requires
        pane.physical_top + texts@.len() <= isize::MAX,
    ensures
        r.pane_id == pane_id,
        r.cursor_x == pane.cursor_x,
        r.cursor_y == pane.cursor_y,
        r.cols == pane.cols,
        r.viewport_rows == pane.viewport_rows,
        r.lines.deep_view() == numbered_lines(texts.deep_view(), pane.physical_top as int),
{
    let ghost all = numbered_lines(texts.deep_view(), pane.physical_top as int);
    let mut lines: Vec<ScreenLine> = Vec::new();
    let mut i: usize = 0;
    assert(lines.deep_view() =~= all.take(0));
    while i < texts.len()
        invariant
            i <= texts@.len(),
            pane.physical_top + texts@.len() <= isize::MAX,
            all == numbered_lines(texts.deep_view(), pane.physical_top as int),
            lines.deep_view() == all.take(i as int),
        decreases texts@.len() - i,
    {
        let ghost before = lines.deep_view();
        let row: i128 = pane.physical_top as i128 + i as i128;
        let line = ScreenLine { row: row as isize, text: texts[i].clone() };
        lines.push(line);
        proof {
            assert(lines.deep_view() =~= before.push(line.deep_view()));
            assert(all[i as int] == line.deep_view());
            assert(all.take(i + 1) =~= all.take(i as int).push(all[i as int]));
        }
        i = i + 1;
    }
    assert(all.take(i as int) =~= all);
    ScreenUpdate {
        pane_id,
        cursor_x: pane.cursor_x,
        cursor_y: pane.cursor_y,
        cols: pane.cols,
        viewport_rows: pane.viewport_rows,
        lines,
    }
}

/// Whether a pane's output has to be captured: somebody watches the pane.
pub fn is_watched(watchers: Option<usize>) -> (r: bool)
    ensures
        r == (watchers is Some && watchers->0 > 0),
{
    match watchers {
        Some(count) => count > 0,
        None => false,
    }
}

/// What comes next from the feed of screen updates.
#[derive(Debug, Clone, Copy, PartialEq, Eq, Structural)]
pub enum FeedEvent {
    Update,
    /// Some updates were missed.
    Lagged,
    Closed,
}

/// What is done about it.
#[derive(Debug, Clone, Copy, PartialEq, Eq, Structural)]
pub enum FeedAction {
    Send,
    Wait,
    Stop,
}

/// What is done about what comes from the feed; missed updates are passed over.
pub fn feed_action(event: FeedEvent) -> (r: FeedAction)
    ensures
        r == match event {
            FeedEvent::Update => FeedAction::Send,
            FeedEvent::Lagged => FeedAction::Wait,
            FeedEvent::Closed => FeedAction::Stop,
        },
{
    match event {
        FeedEvent::Update => FeedAction::Send,
        FeedEvent::Lagged => FeedAction::Wait,
        FeedEvent::Closed => FeedAction::Stop,
    }
}

// ---------------------------------------------------------------------------
// Input
// ---------------------------------------------------------------------------

/// What the remote app sends.
#[derive(Debug, PartialEq, Eq)]
pub enum ClientMsg {
    /// Text for a pane.
    Input { pane_id: Option<usize>, text: String },
}

/// What arrives on a connection.
#[derive(Debug, PartialEq, Eq)]
pub enum ClientEvent {
    Message(ClientMsg),
    /// Text that is no message.
    Unreadable,
    Close,
    Other,
}

/// What is done about it.
#[derive(Debug, PartialEq, Eq)]
pub enum InputAction {
    Write { pane_id: usize, text: String },
    Ignore,
    Stop,
}

/// An [`InputAction`] over sequences.
pub enum InputActionView {
    Write { pane_id: usize, text: Seq<char> },
    Ignore,
    Stop,
}

impl DeepView for InputAction {
    type V = InputActionView;

    open spec fn deep_view(&self) -> InputActionView {
        match self {
            InputAction::Write { pane_id, text } => InputActionView::Write {
                pane_id: *pane_id,
                text: text@,
            },
            InputAction::Ignore => InputActionView::Ignore,
            InputAction::Stop => InputActionView::Stop,
        }
    }
}

fn holds_pane(panes: &Vec<usize>, pane_id: usize) -> (r: bool)
    ensures
        r == panes@.contains(pane_id),
{
    let mut i: usize = 0;
    while i < panes.len()
        invariant
            i <= panes@.len(),
            forall|j: int| 0 <= j < i ==> panes@[j] != pane_id,
        decreases panes@.len() - i,
    {
        if panes[i] == pane_id {
            return true;
        }
        i = i + 1;
    }
    false
}

/// The pane that input through a relay goes to: the one asked for, where it is there, or else the
/// first.
pub open spec fn target_of(asked: Option<usize>, panes: Seq<usize>) -> Option<usize> {
    if asked is Some && panes.contains(asked->0) {
        asked
    } else if panes.len() > 0 {
        Some(panes[0])
    } else {
        None
    }
}

/// The pane that input through a relay goes to.
pub fn input_target(asked: Option<usize>, panes: &Vec<usize>) -> (r: Option<usize>)
    ensures
        r == target_of(asked, panes@),
{
    match asked {
        Some(pane_id) => {
            if holds_pane(panes, pane_id) {
                return Some(pane_id);
            }
        },
        None => {},
    }
    if panes.len() > 0 {
        Some(panes[0])
    } else {
        None
    }
}

/// What is done about what arrives on the connection of one pane: text is written to that pane, where
/// it is still there, whichever pane the message names.
pub fn pane_input(event: ClientEvent, pane_id: usize, panes: &Vec<usize>) -> (r: InputAction)
    ensures
        r.deep_view() == match event {
            ClientEvent::Message(ClientMsg::Input { text, .. }) => if panes@.contains(pane_id) {
                InputActionView::Write { pane_id, text: text@ }
            } else {
                InputActionView::Ignore
            },
            ClientEvent::Close => InputActionView::Stop,
            _ => InputActionView::Ignore,
        },
{
    match event {
        ClientEvent::Message(ClientMsg::Input { pane_id: _, text }) => {
            if holds_pane(panes, pane_id) {
                InputAction::Write { pane_id, text }
            } else {
                InputAction::Ignore
            }
        },
        ClientEvent::Close => InputAction::Stop,
        ClientEvent::Unreadable => InputAction::Ignore,
        ClientEvent::Other => InputAction::Ignore,
    }
}

/// What is done about what arrives through a relay.
pub fn tunnel_input(event: ClientEvent, panes: &Vec<usize>) -> (r: InputAction)
    ensures
        r.deep_view() == match event {
            ClientEvent::Message(ClientMsg::Input { pane_id, text }) => match target_of(
                pane_id,
                panes@,
            ) {
                Some(target) => InputActionView::Write { pane_id: target, text: text@ },
                None => InputActionView::Ignore,
            },
            ClientEvent::Close => InputActionView::Stop,
            _ => InputActionView::Ignore,
        },
{
    match event {
        ClientEvent::Message(ClientMsg::Input { pane_id, text }) => {
            match input_target(pane_id, panes) {
                Some(target) => InputAction::Write { pane_id: target, text },
                None => InputAction::Ignore,
            }
        },
        ClientEvent::Close => InputAction::Stop,
        ClientEvent::Unreadable => InputAction::Ignore,
        ClientEvent::Other => InputAction::Ignore,
    }
}

/// Input is only ever written to a pane that is there, and through a relay it is lost only where
/// there is no pane at all.
pub proof fn law_input_reaches_a_pane(asked: Option<usize>, panes: Seq<usize>)
    ensures
        target_of(asked, panes) matches Some(target) ==> panes.contains(target),
        target_of(asked, panes) is None <==> panes.len() == 0,
{
    if panes.len() > 0 {
        assert(panes.contains(panes[0]));
    }
}

// ---------------------------------------------------------------------------
// Starting
// ---------------------------------------------------------------------------

/// The settings of the bridge.
#[derive(Debug, PartialEq, Eq)]
pub struct RemoteConfig {
    pub enabled: bool,
    pub port: u16,
    pub bind: String,
    pub tunnel: bool,
    pub tunnel_url: String,
}

/// What is started.
#[derive(Debug, PartialEq, Eq)]
pub struct RemotePlan {
    /// Where connections are taken.
    pub address: String,
    /// The relay that is connected to.
    pub tunnel: Option<String>,
}

/// What is started by the settings; nothing where the bridge is off.
pub fn remote_plan(config: &RemoteConfig) -> (r: Option<RemotePlan>)
    ensures
        match r {
            Some(plan) => {
                &&& config.enabled
                &&& plan.address@ == config.bind@ + ":"@ + decimal_of(config.port as nat)
                &&& plan.tunnel.deep_view() == if config.tunnel {
                    Some(config.tunnel_url@)
                } else {
                    None
                }
            },
            None => !config.enabled,
        },
{
    if !config.enabled {
        return None;
    }
    let mut address = joined(config.bind.as_str(), ":");
    address.append(decimal(config.port as u128).as_str());
    let tunnel = if config.tunnel {
        Some(config.tunnel_url.clone())
    } else {
        None
    };
    Some(RemotePlan { address, tunnel })
}

/// How long a lost relay connection waits before it is tried again, in seconds.
pub const TUNNEL_RETRY_SECONDS: u64 = 5;

/// The font that is offered to the remote app: the first of those configured, or a fixed one.
pub fn offered_font(first: Option<String>) -> (r: String)
    ensures
        r@ == match first {
            Some(family) => family@,
            None => "JetBrains Mono"@,
        },
{
    match first {
        Some(family) => family,
        None => "JetBrains Mono".to_owned(),
    }
}

// ---------------------------------------------------------------------------
// The state file
// ---------------------------------------------------------------------------

/// What a running bridge leaves for commands to find it by.
#[derive(Debug, PartialEq, Eq)]
pub struct RemoteState {
    pub port: u16,
    pub token: String,
    pub tunnel_relay: Option<String>,
}

/// The JSON of the state: the relay is there only where there is one.
pub open spec fn state_content(port: u16, token: Seq<char>, relay: Option<Seq<char>>) -> JsonView {
    let fields = seq![
        ("port"@, JsonView::Number(integer_number(port as u64))),
        ("token"@, JsonView::Text(token)),
    ];
    match relay {
        Some(server) => JsonView::Object(fields.push(("tunnel_relay"@, JsonView::Text(server)))),
        None => JsonView::Object(fields),
    }
}

/// The JSON of the state.
pub fn state_json(state: &RemoteState) -> (r: Json)
    ensures
        r.content() == state_content(state.port, state.token@, state.tunnel_relay.deep_view()),
{
    let mut fields: Vec<(String, Json)> = Vec::new();
    fields.push(("port".to_owned(), integer(state.port as u64)));
    fields.push(("token".to_owned(), string(state.token.as_str())));
    match &state.tunnel_relay {
        Some(server) => {
            fields.push(("tunnel_relay".to_owned(), string(server.as_str())));
        },
        None => {},
    }
    let json = Json::Object(fields);
    proof {
        let wanted = state_content(state.port, state.token@, state.tunnel_relay.deep_view());
        assert(json.content()->Object_0 =~= wanted->Object_0);
    }
    json
}

/// The text of the state file.
pub fn state_text(state: &RemoteState) -> (r: String)
    ensures
        r@ == json_text(
            state_content(state.port, state.token@, state.tunnel_relay.deep_view()),
        ),
{
    render(state_json(state))
}

/// The state holds the port, the token and the relay, each under its own name, and no relay where
/// there is none.
pub proof fn law_state_holds_fields(port: u16, token: Seq<char>, relay: Option<Seq<char>>)
    ensures
        member_of(state_content(port, token, relay), "port"@) == Some(
            JsonView::Number(integer_number(port as u64)),
        ),
        member_of(state_content(port, token, relay), "token"@) == Some(JsonView::Text(token)),
        member_of(state_content(port, token, relay), "tunnel_relay"@) == match relay {
            Some(server) => Some(JsonView::Text(server)),
            None => None,
        },
{
    reveal_strlit("port");
    reveal_strlit("token");
    reveal_strlit("tunnel_relay");
    reveal_with_fuel(crate::json::first_field, 4);
    let fields = state_content(port, token, relay)->Object_0;
    assert("port"@[0] == 'p' && "token"@[0] == 't' && "tunnel_relay"@[0] == 't');
    assert("token"@.len() != "tunnel_relay"@.len());
    assert(fields[0].0 == "port"@ && fields[1].0 == "token"@);
    assert(fields.skip(1)[0] == fields[1]);
    if relay is Some {
        assert(fields.skip(1).skip(1)[0] == fields[2]);
    } else {
        assert(fields.skip(1).skip(1).len() == 0);
    }
}

} // verus!
