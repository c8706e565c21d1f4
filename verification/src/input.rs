//! What the keys do in each view.

use vstd::prelude::*;
use crate::app::Action;
use crate::app::App;
use crate::app::Tab;
use crate::app::begun;
use crate::app::cursor_lowered;
use crate::app::cursor_raised;
use crate::app::diff_closed;
use crate::app::diff_lowered;
use crate::app::diff_raised;
use crate::app::env_cancelled;
use crate::app::env_extended;
use crate::app::env_shortened;
use crate::app::env_submitted;
use crate::app::install_requested;
use crate::app::path_cancelled;
use crate::app::path_extended;
use crate::app::path_shortened;
use crate::app::path_submitted;
use crate::app::processing_closed;
use crate::app::scope_switched;
use crate::app::selection_flipped;
use crate::app::selection_set;
use crate::app::tab_advanced;
use crate::app::tab_chosen;
use crate::app::tab_retreated;
use crate::app::without_md;

verus! {

/// A key, as far as the application tells keys apart.
#[derive(Clone, Copy, Debug, PartialEq, Eq, Structural)]
pub enum Key {
    Char(char),
    Tab,
    BackTab,
    Up,
    Down,
    Enter,
    Esc,
    Backspace,
    Other,
}

/// What a key of the list view asks of whoever drives the application,
/// beyond the change of the state.
#[derive(Debug)]
pub enum Effect {
    /// Nothing more.
    Nothing,
    /// Load the differences of the component at this position and show them.
    ShowDiff(usize),
    /// Write this output style into the settings as the default.
    SetOutputStyle(String),
    /// Write this status-line script into the settings.
    SetStatusline(String),
}

/// The tab that a digit key goes to, counted from zero.
pub open spec fn digit_tab(c: char) -> Option<usize> {
    if c == '1' {
        Some(0usize)
    } else if c == '2' {
        Some(1usize)
    } else if c == '3' {
        Some(2usize)
    } else if c == '4' {
        Some(3usize)
    } else if c == '5' {
        Some(4usize)
    } else if c == '6' {
        Some(5usize)
    } else if c == '7' {
        Some(6usize)
    } else if c == '8' {
        Some(7usize)
    } else if c == '9' {
        Some(8usize)
    } else {
        None
    }
}

/// What a key does in the list view: `q` quits; Tab and Shift+Tab and the
/// digits switch the tab; the arrows and `j`, `k` move the cursor; space
/// flips the selection, `a` and `n` set it for the whole tab; `d` and Enter
/// ask for the differences; `i` and `r` install and remove; `s` sets the
/// default on the tabs of output styles and status lines; `o` switches the
/// scope on the tab of the MCP servers. Any other key does nothing.
pub open spec fn list_key(before: App, key: Key, shift: bool, after: App, effect: Effect) -> bool {
    match key {
        Key::Char(c) => if c == 'd' {
            diff_asked(before, after, effect)
        } else if c == 's' && before.tab == Tab::OutputStyles {
            style_asked(before, after, effect)
        } else if c == 's' && before.tab == Tab::Statusline {
            statusline_asked(before, after, effect)
        } else {
            effect is Nothing && if c == 'q' {
                after == (App { should_quit: true, ..before })
            } else if digit_tab(c) is Some {
                tab_chosen(before, after, digit_tab(c)->0)
            } else if c == 'j' {
                cursor_lowered(before, after)
            } else if c == 'k' {
                cursor_raised(before, after)
            } else if c == ' ' {
                selection_flipped(before, after)
            } else if c == 'a' {
                selection_set(before, after, true)
            } else if c == 'n' {
                selection_set(before, after, false)
            } else if c == 'i' {
                install_requested(before, after)
            } else if c == 'r' {
                begun(before, after, before.selection(Action::Remove), Action::Remove)
            } else if c == 'o' && before.tab == Tab::McpServers {
                scope_switched(before, after)
            } else {
                after == before
            }
        },
        Key::Enter => diff_asked(before, after, effect),
        Key::Tab => effect is Nothing && if shift {
            tab_retreated(before, after)
        } else {
            tab_advanced(before, after)
        },
        Key::BackTab => effect is Nothing && tab_retreated(before, after),
        Key::Down => effect is Nothing && cursor_lowered(before, after),
        Key::Up => effect is Nothing && cursor_raised(before, after),
        _ => effect is Nothing && after == before,
    }
}

/// The differences of the component under the cursor are asked for; the
/// state stays as it is.
pub open spec fn diff_asked(before: App, after: App, effect: Effect) -> bool {
    &&& after == before
    &&& match before.cursor_component() {
        Some(i) => effect matches Effect::ShowDiff(j) && j == i,
        None => effect is Nothing,
    }
}

/// The output style under the cursor becomes the default, and writing it
/// into the settings is asked for.
pub open spec fn style_asked(before: App, after: App, effect: Effect) -> bool {
    match before.cursor_component() {
        Some(i) => {
            &&& effect matches Effect::SetOutputStyle(n)
            &&& n@ == without_md(before.components@[i].name@)
            &&& after == (App { current_output_style: after.current_output_style, ..before })
            &&& after.current_output_style matches Some(m)
            &&& m@ == n@
        },
        None => effect is Nothing && after == before,
    }
}

/// The status-line script under the cursor becomes the default, and writing
/// it into the settings is asked for.
pub open spec fn statusline_asked(before: App, after: App, effect: Effect) -> bool {
    match before.cursor_component() {
        Some(i) => {
            &&& effect matches Effect::SetStatusline(n)
            &&& n@ == before.components@[i].name@
            &&& after == (App { current_statusline: after.current_statusline, ..before })
            &&& after.current_statusline matches Some(m)
            &&& m@ == n@
        },
        None => effect is Nothing && after == before,
    }
}

/// Asks for the differences of the component under the cursor.
fn ask_diff(app: &App) -> (r: Effect)
    ensures
        diff_asked(*app, *app, r),
{
    match app.selected_component_index() {
        Some(i) => Effect::ShowDiff(i),
        None => Effect::Nothing,
    }
}

/// Handles a key of the list view.
pub fn handle_list_input(app: &mut App, key: Key, shift: bool) -> (r: Effect)
    ensures
        list_key(*old(app), key, shift, *final(app), r),
{
    match key {
        Key::Char(c) => {
            if c == 'd' {
                return ask_diff(app);
            }
            if c == 's' {
                match app.tab {
                    Tab::OutputStyles => {
                        return match app.set_default_style() {
                            Some(n) => Effect::SetOutputStyle(n),
                            None => Effect::Nothing,
                        };
                    },
                    Tab::Statusline => {
                        return match app.set_statusline() {
                            Some(n) => Effect::SetStatusline(n),
                            None => Effect::Nothing,
                        };
                    },
                    _ => {
                        return Effect::Nothing;
                    },
                }
            }
            if c == 'q' {
                app.should_quit = true;
            } else if c == '1' {
                app.set_tab(0);
            } else if c == '2' {
                app.set_tab(1);
            } else if c == '3' {
                app.set_tab(2);
            } else if c == '4' {
                app.set_tab(3);
            } else if c == '5' {
                app.set_tab(4);
            } else if c == '6' {
                app.set_tab(5);
            } else if c == '7' {
                app.set_tab(6);
            } else if c == '8' {
                app.set_tab(7);
            } else if c == '9' {
                app.set_tab(8);
            } else if c == 'j' {
                app.next_item();
            } else if c == 'k' {
                app.prev_item();
            } else if c == ' ' {
                app.toggle_selected();
            } else if c == 'a' {
                app.select_all();
            } else if c == 'n' {
                app.deselect_all();
            } else if c == 'i' {
                app.install_selected();
            } else if c == 'r' {
                app.remove_selected();
            } else if c == 'o' {
                match app.tab {
                    Tab::McpServers => {
                        app.toggle_mcp_scope();
                    },
                    _ => {},
                }
            }
            Effect::Nothing
        },
        Key::Enter => ask_diff(app),
        Key::Tab => {
            if shift {
                app.prev_tab();
            } else {
                app.next_tab();
            }
            Effect::Nothing
        },
        Key::BackTab => {
            app.prev_tab();
            Effect::Nothing
        },
        Key::Down => {
            app.next_item();
            Effect::Nothing
        },
        Key::Up => {
            app.prev_item();
            Effect::Nothing
        },
        _ => Effect::Nothing,
    }
}

/// What a key does in the view of the differences: `q` and Esc close it,
/// the arrows and `j`, `k` scroll.
pub open spec fn diff_key(before: App, key: Key, after: App) -> bool {
    match key {
        Key::Char(c) => if c == 'q' {
            diff_closed(before, after)
        } else if c == 'j' {
            diff_lowered(before, after)
        } else if c == 'k' {
            diff_raised(before, after)
        } else {
            after == before
        },
        Key::Esc => diff_closed(before, after),
        Key::Down => diff_lowered(before, after),
        Key::Up => diff_raised(before, after),
        _ => after == before,
    }
}

/// Handles a key of the view of the differences.
pub fn handle_diff_input(app: &mut App, key: Key)
    ensures
        diff_key(*old(app), key, *final(app)),
{
    match key {
        Key::Char(c) => {
            if c == 'q' {
                app.close_diff();
            } else if c == 'j' {
                app.scroll_diff_down();
            } else if c == 'k' {
                app.scroll_diff_up();
            }
        },
        Key::Esc => {
            app.close_diff();
        },
        Key::Down => {
            app.scroll_diff_down();
        },
        Key::Up => {
            app.scroll_diff_up();
        },
        _ => {},
    }
}

/// The key asks to leave the installing view.
pub open spec fn closes(key: Key) -> bool {
    key == Key::Char('q') || key == Key::Esc || key == Key::Enter
}

/// Handles a key of the installing view: `q`, Esc and Enter leave it, once
/// the queue is empty.
pub fn handle_installing_input(app: &mut App, key: Key)
    ensures
        closes(key) ==> processing_closed(*old(app), *final(app)),
        !closes(key) ==> *final(app) == *old(app),
{
    match key {
        Key::Char(c) => {
            if c == 'q' {
                app.close_processing();
            }
        },
        Key::Esc => {
            app.close_processing();
        },
        Key::Enter => {
            app.close_processing();
        },
        _ => {},
    }
}

/// What a key does while a value is entered.
pub open spec fn env_key(before: App, key: Key, after: App) -> bool {
    match key {
        Key::Esc => env_cancelled(before, after),
        Key::Enter => env_submitted(before, after),
        Key::Backspace => env_shortened(before, after),
        Key::Char(c) => env_extended(before, after, c),
        _ => after == before,
    }
}

/// Handles a key while a value is entered.
pub fn handle_env_input(app: &mut App, key: Key)
    ensures
        env_key(*old(app), key, *final(app)),
{
    match key {
        Key::Esc => {
            app.env_input_cancel();
        },
        Key::Enter => {
            app.env_input_submit();
        },
        Key::Backspace => {
            app.env_input_backspace();
        },
        Key::Char(c) => {
            app.env_input_char(c);
        },
        _ => {},
    }
}

/// What a key does while a project path is entered.
pub open spec fn project_path_key(before: App, key: Key, after: App) -> bool {
    match key {
        Key::Esc => path_cancelled(before, after),
        Key::Enter => path_submitted(before, after),
        Key::Backspace => path_shortened(before, after),
        Key::Char(c) => path_extended(before, after, c),
        _ => after == before,
    }
}

/// Handles a key while a project path is entered.
pub fn handle_project_path_input(app: &mut App, key: Key)
    ensures
        project_path_key(*old(app), key, *final(app)),
{
    match key {
        Key::Esc => {
            app.project_path_cancel();
        },
        Key::Enter => {
            app.project_path_submit();
        },
        Key::Backspace => {
            app.project_path_backspace();
        },
        Key::Char(c) => {
            app.project_path_char(c);
        },
        _ => {},
    }
}

/// The number of frames of the spinner.
pub const SPINNER_FRAME_COUNT: usize = 10;

/// The frame of the spinner at a position.
pub open spec fn spinner_frame(i: int) -> Seq<char> {
    if i == 0 {
        "⠋"@
    } else if i == 1 {
        "⠙"@
    } else if i == 2 {
        "⠹"@
    } else if i == 3 {
        "⠸"@
    } else if i == 4 {
        "⠼"@
    } else if i == 5 {
        "⠴"@
    } else if i == 6 {
        "⠦"@
    } else if i == 7 {
        "⠧"@
    } else if i == 8 {
        "⠇"@
    } else {
        "⠏"@
    }
}

/// The frame of the spinner for a tick: the frames repeat.
pub fn get_spinner(frame: usize) -> (r: &'static str)
    ensures
        r@ == spinner_frame(frame as int % SPINNER_FRAME_COUNT as int),
{
    match frame % SPINNER_FRAME_COUNT {
        0 => "⠋",
        1 => "⠙",
        2 => "⠹",
        3 => "⠸",
        4 => "⠼",
        5 => "⠴",
        6 => "⠦",
        7 => "⠧",
        8 => "⠇",
        _ => "⠏",
    }
}

} // verus!
