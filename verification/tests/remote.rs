use kaku::remote::{
    connection_url, feed_action, input_target, is_authorized, is_watched, new_token, offered_font,
    offered_host, pane_input, qr_html, qr_page, relay_url, remote_plan, render_qr_terminal,
    render_relay_qr_terminal, screen_range, screen_update, state_text, terminal_page, token_text,
    tunnel_host_url, tunnel_input, ClientEvent, ClientMsg, FeedAction, FeedEvent, InputAction,
    PaneDimensions, RemoteConfig, RemotePlan, RemoteState, ScreenLine,
};
use kaku::shortcut_help::{
    shortcuts_help_command, shortcuts_help_shell_script, SHORTCUT_HELP_TEXT,
};

#[test]
fn tokens_have_sixteen_digits() {
    assert_eq!(token_text(0), "0000000000000000");
    assert_eq!(token_text(0xabc), "0000000000000abc");
    assert_eq!(token_text(u64::MAX), "ffffffffffffffff");
    let token = new_token();
    assert_eq!(token.len(), 16);
    assert!(token.chars().all(|c| c.is_ascii_hexdigit()));
    let others: Vec<String> = (0..8).map(|_| new_token()).collect();
    assert!(others.iter().any(|other| *other != token));
}

#[test]
fn the_token_lets_in() {
    assert!(is_authorized(Some("t"), None, "t"));
    assert!(is_authorized(Some("x"), Some("t"), "t"));
    assert!(!is_authorized(Some("x"), Some("y"), "t"));
    assert!(!is_authorized(None, None, "t"));
    assert!(!is_authorized(None, None, ""));
}

#[test]
fn addresses_are_built() {
    assert_eq!(connection_url("10.0.0.2", 9333, "ab"), "kakuremote://10.0.0.2:9333?token=ab");
    assert_eq!(
        relay_url("wss://relay.example", "ab"),
        "kakuremote://relay?server=relay.example&token=ab"
    );
    assert_eq!(relay_url("ws://relay", "ab"), "kakuremote://relay?server=relay&token=ab");
    assert_eq!(relay_url("relay", "ab"), "kakuremote://relay?server=relay&token=ab");
    assert_eq!(tunnel_host_url("wss://relay", "ab"), "wss://relay/h/ab");
    assert_eq!(offered_host(None), "127.0.0.1");
    assert_eq!(offered_host(Some("10.0.0.2".to_string())), "10.0.0.2");
    assert_eq!(offered_font(None), "JetBrains Mono");
    assert_eq!(offered_font(Some("Fira".to_string())), "Fira");
}

#[test]
fn codes_are_drawn_with_their_address() {
    let page = render_qr_terminal("h", 1, "t");
    assert!(page.ends_with("\n\nkakuremote://h:1?token=t"));
    let drawing = page.strip_suffix("\n\nkakuremote://h:1?token=t").expect("drawing");
    let rows: Vec<&str> = drawing.split('\n').collect();
    assert!(rows.len() > 10);
    assert!(rows.iter().all(|row| row.chars().count() == rows[0].chars().count()));
    assert!(rows[0].trim().is_empty());
    assert!(drawing.contains('█') && drawing.contains('▀'));
    assert_ne!(render_qr_terminal("h", 2, "t"), page);
    let relay = render_relay_qr_terminal("wss://r", "t");
    assert!(relay.ends_with("\n\nkakuremote://relay?server=r&token=t"));
}

#[test]
fn an_address_that_is_too_long_is_not_drawn() {
    let token = "x".repeat(4000);
    assert_eq!(render_qr_terminal("h", 1, &token), "Failed to generate QR code");
    assert_eq!(render_relay_qr_terminal("h", &token), "Failed to generate QR code");
    assert!(qr_page(None, 1, &token).contains("<div class=\"qr\"><p>QR generation failed</p></div>"));
    assert_eq!(terminal_page(None, "u"), "Failed to generate QR code");
    assert_eq!(terminal_page(Some("q".to_string()), "u"), "q\n\nu");
}

#[test]
fn the_page_holds_drawing_and_address() {
    let page = qr_page(None, 9333, "ab");
    assert!(page.starts_with("<!DOCTYPE html>\n<html>"));
    assert!(page.contains("<title>Kaku Remote – Connect</title>"));
    assert!(page.contains("body { font-family:"));
    assert!(page.contains("<div class=\"qr\"><?xml version=\"1.0\" standalone=\"yes\"?><svg "));
    assert!(page.ends_with("<code>kakuremote://127.0.0.1:9333?token=ab</code>\n</body>\n</html>"));
    let size = page.split("width=\"").nth(1).and_then(|s| s.split('"').next()).expect("width");
    assert!(size.parse::<u32>().expect("number") >= 280);
    assert!(qr_html(Some("DRAWING".to_string()), "u").contains("<div class=\"qr\">DRAWING</div>\n  <code>u</code>"));
}

#[test]
fn rows_are_numbered_from_the_top() {
    let pane =
        PaneDimensions { cursor_x: 3, cursor_y: 12, cols: 80, viewport_rows: 2, physical_top: 10 };
    assert_eq!(screen_range(pane), (10, 12));
    let update = screen_update(7, pane, &vec!["a".to_string(), "b".to_string()]);
    assert_eq!(
        (update.pane_id, update.cursor_x, update.cursor_y, update.cols, update.viewport_rows),
        (7, 3, 12, 80, 2)
    );
    assert_eq!(
        update.lines,
        vec![
            ScreenLine { row: 10, text: "a".to_string() },
            ScreenLine { row: 11, text: "b".to_string() },
        ]
    );
    assert!(is_watched(Some(1)));
    assert!(!is_watched(Some(0)));
    assert!(!is_watched(None));
}

#[test]
fn input_goes_to_a_pane_that_is_there() {
    let input = |pane_id| {
        ClientEvent::Message(ClientMsg::Input { pane_id, text: "ls\n".to_string() })
    };
    let write = |pane_id| InputAction::Write { pane_id, text: "ls\n".to_string() };
    let panes = vec![4, 7];
    assert_eq!(pane_input(input(Some(4)), 7, &panes), write(7));
    assert_eq!(pane_input(input(None), 9, &panes), InputAction::Ignore);
    assert_eq!(tunnel_input(input(Some(7)), &panes), write(7));
    assert_eq!(tunnel_input(input(Some(9)), &panes), write(4));
    assert_eq!(tunnel_input(input(None), &panes), write(4));
    assert_eq!(tunnel_input(input(None), &vec![]), InputAction::Ignore);
    for event in [ClientEvent::Unreadable, ClientEvent::Other] {
        assert_eq!(tunnel_input(event, &panes), InputAction::Ignore);
    }
    assert_eq!(tunnel_input(ClientEvent::Close, &panes), InputAction::Stop);
    assert_eq!(pane_input(ClientEvent::Close, 7, &panes), InputAction::Stop);
    assert_eq!(pane_input(ClientEvent::Unreadable, 7, &panes), InputAction::Ignore);
    assert_eq!(input_target(Some(7), &panes), Some(7));
    assert_eq!(feed_action(FeedEvent::Update), FeedAction::Send);
    assert_eq!(feed_action(FeedEvent::Lagged), FeedAction::Wait);
    assert_eq!(feed_action(FeedEvent::Closed), FeedAction::Stop);
}

#[test]
fn settings_decide_what_is_started() {
    let config = |enabled, tunnel| RemoteConfig {
        enabled,
        port: 9333,
        bind: "0.0.0.0".to_string(),
        tunnel,
        tunnel_url: "wss://relay".to_string(),
    };
    assert_eq!(remote_plan(&config(false, true)), None);
    assert_eq!(
        remote_plan(&config(true, false)),
        Some(RemotePlan { address: "0.0.0.0:9333".to_string(), tunnel: None })
    );
    assert_eq!(
        remote_plan(&config(true, true)).and_then(|plan| plan.tunnel).as_deref(),
        Some("wss://relay")
    );
}

#[test]
fn the_state_is_written_for_commands_to_read() {
    let state = |relay: Option<&str>| RemoteState {
        port: 9333,
        token: "a\"b".to_string(),
        tunnel_relay: relay.map(str::to_string),
    };
    assert_eq!(state_text(&state(None)), r#"{"port":9333,"token":"a\"b"}"#);
    assert_eq!(
        state_text(&state(Some("wss://r"))),
        r#"{"port":9333,"token":"a\"b","tunnel_relay":"wss://r"}"#
    );
}

#[test]
fn the_help_is_shown_by_a_shell() {
    let script = shortcuts_help_shell_script();
    assert!(script.starts_with(
        "printf '\\033]0;Kaku Shortcuts\\007'\nif command -v less >/dev/null 2>&1; then\n  cat <<'KAKU_SHORTCUTS' | less -R\nKaku Keyboard Shortcuts\n"
    ));
    assert!(script.ends_with(
        "\nKAKU_SHORTCUTS\n  printf '\\nPress Enter to close...'\n  IFS= read -r _\nfi\n"
    ));
    assert_eq!(script.matches(SHORTCUT_HELP_TEXT).count(), 2);
    assert_eq!(script.matches("KAKU_SHORTCUTS").count(), 4);
    assert_eq!(
        shortcuts_help_command(),
        vec!["/bin/sh".to_string(), "-lc".to_string(), script]
    );
}
