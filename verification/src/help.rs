//! The help screen.

use vstd::prelude::*;
use vstd::view::View as _;
use crate::layout::{simple_layout, Layout};
use crate::level::Level;
use crate::transition::StateTransition;

verus! {

/// a screen showing a markdown text
pub struct View {
    pub layout: Layout,
    pub markdown: &'static str,
}

impl View {
    pub fn new(markdown: &'static str, layout: Layout) -> (v: View)
        ensures
            v.markdown == markdown,
            v.layout == layout,
    {
        View { markdown, layout }
    }
}

/// the keys the help screen reacts to
#[derive(Debug, Clone, Copy, PartialEq, Eq, Structural)]
pub enum HelpKey {
    Up,
    Down,
    PageUp,
    PageDown,
    Esc,
    Char(char),
    Other,
}

/// what the help screen does on a key
#[derive(Debug, Clone, Copy, PartialEq, Eq, Structural)]
pub enum HelpAction {
    /// scroll the text by this number of lines
    ScrollLines(i32),
    /// scroll the text by this number of pages
    ScrollPages(i32),
    /// leave the help
    Transition(StateTransition),
    /// nothing
    Ignore,
}

/// the standard help text
pub open spec fn help_markdown() -> Seq<char> {
    HELP_MARKDOWN@
}

/// the standard help text
pub const HELP_MARKDOWN: &'static str = "
# Lapin

You're the lapin and you must reach the *grass*.

Move with the *arrow keys*. A carrot gives you another move.

Foxes and wolves want to eat you, hunters shoot on sight, knights
hunt the foxes and the wolves, and the sheep only look for grass.

Hit *esc* to close this help, *q* to quit.
";

/// a help screen with the standard text, over the whole screen but
/// the status line
pub fn default_view() -> (v: View)
    ensures
        v.markdown@ == help_markdown(),
        v.layout == (Layout { header_height: 0, pen_panel_height: 0, status_height: 1 }),
{
    View::new(HELP_MARKDOWN, simple_layout())
}

impl View {
    pub fn label(&self) -> (s: &'static str)
        ensures
            s@ == "help"@,
    {
        "help"
    }

    /// the help screen has no level to play
    pub fn get_level(&self, level_idx: usize) -> (r: Option<Level>)
        ensures
            r is None,
    {
        None
    }

    /// the help screen's reaction to a key: arrows scroll by a line,
    /// page keys by a page, *esc* goes back and *q* quits
    pub fn handle_key(&self, key: HelpKey) -> (a: HelpAction)
        ensures
            a == match key {
                HelpKey::Up => HelpAction::ScrollLines(-1i32),
                HelpKey::Down => HelpAction::ScrollLines(1),
                HelpKey::PageUp => HelpAction::ScrollPages(-1i32),
                HelpKey::PageDown => HelpAction::ScrollPages(1),
                HelpKey::Char('q') => HelpAction::Transition(StateTransition::Quit),
                HelpKey::Esc => HelpAction::Transition(StateTransition::Back),
                _ => HelpAction::Ignore,
            },
    {
        match key {
            HelpKey::Up => HelpAction::ScrollLines(-1i32),
            HelpKey::Down => HelpAction::ScrollLines(1),
            HelpKey::PageUp => HelpAction::ScrollPages(-1i32),
            HelpKey::PageDown => HelpAction::ScrollPages(1),
            HelpKey::Esc => HelpAction::Transition(StateTransition::Back),
            HelpKey::Char(c) => {
                if c == 'q' {
                    HelpAction::Transition(StateTransition::Quit)
                } else {
                    HelpAction::Ignore
                }
            },
            HelpKey::Other => HelpAction::Ignore,
        }
    }
}

} // verus!
