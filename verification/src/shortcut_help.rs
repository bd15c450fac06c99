//! The help on keyboard shortcuts, shown in a tab of its own.
use vstd::prelude::*;

verus! {

/// The help on keyboard shortcuts.
pub const SHORTCUT_HELP_TEXT: &'static str = r#"Kaku Keyboard Shortcuts

Sidebar
  Cmd+Shift+/           Toggle Shortcuts Help
  Cmd+Shift+B           Toggle Sidebar
  Cmd+Opt+N / Cmd+Opt+T New Project / New Session
  Cmd+Opt+P / Cmd+Opt+R Pin/Unpin / Rename Session
  Cmd+Opt+Backspace     Delete Current Session

Tabs & Window
  Cmd+N / Cmd+T         New Window / New Tab
  Cmd+W / Cmd+Shift+W   Close Pane/Tab / Close Tab
  Cmd+Shift+[ / ]       Previous / Next Tab
  Cmd+1..9              Switch to Tab 1..9
  Cmd+Ctrl+F            Toggle Fullscreen
  Cmd+H / Cmd+M         Hide App / Minimize

Pane & Tools
  Cmd+D / Cmd+Shift+D   Split Vertical / Horizontal
  Cmd+Opt+Arrow         Focus Neighbor Pane
  Cmd+Ctrl+Arrow        Resize Pane
  Cmd+Shift+Enter / S   Zoom / Toggle Split Direction
  Cmd+Shift+A / E       AI Config / Apply Last Suggestion
  Cmd+Shift+G / Y / R   Lazygit / Yazi / Remote Files

Editing
  Cmd+K / Cmd+R         Clear Screen + Scrollback
  Cmd+Enter / Shift+Enter Insert Newline
  Cmd+Backspace / Opt+Backspace Delete Line / Prev Word

Close this help tab: press q in less, then close tab (Cmd+W)
"#;

/// What sets the title and opens the pager.
pub const HELP_SCRIPT_HEAD: &'static str = r#"printf '\033]0;Kaku Shortcuts\007'
if command -v less >/dev/null 2>&1; then
  cat <<'KAKU_SHORTCUTS' | less -R
"#;

/// What stands between the text for the pager and the text without one.
pub const HELP_SCRIPT_MIDDLE: &'static str = r#"
KAKU_SHORTCUTS
else
  cat <<'KAKU_SHORTCUTS'
"#;

/// What waits for a key where there is no pager.
pub const HELP_SCRIPT_TAIL: &'static str = r#"
KAKU_SHORTCUTS
  printf '\nPress Enter to close...'
  IFS= read -r _
fi
"#;

/// The shell script that shows the help, through a pager where there is one.
pub open spec fn help_script() -> Seq<char> {
    HELP_SCRIPT_HEAD@ + SHORTCUT_HELP_TEXT@ + HELP_SCRIPT_MIDDLE@ + SHORTCUT_HELP_TEXT@
        + HELP_SCRIPT_TAIL@
}

/// The shell script that shows the help, through a pager where there is one.
pub fn shortcuts_help_shell_script() -> (r: String)
    ensures
        r@ == help_script(),
{
    let mut text = HELP_SCRIPT_HEAD.to_owned();
    text.append(SHORTCUT_HELP_TEXT);
    text.append(HELP_SCRIPT_MIDDLE);
    text.append(SHORTCUT_HELP_TEXT);
    text.append(HELP_SCRIPT_TAIL);
    text
}

/// The command line of the tab that shows the help.
pub fn shortcuts_help_command() -> (r: Vec<String>)
    ensures
        r.deep_view() == seq!["/bin/sh"@, "-lc"@, help_script()],
{
    let mut command: Vec<String> = Vec::new();
    command.push("/bin/sh".to_owned());
    command.push("-lc".to_owned());
    command.push(shortcuts_help_shell_script());
    assert(command.deep_view() =~= seq!["/bin/sh"@, "-lc"@, help_script()]);
    command
}

} // verus!
