//! The tray's data: icon states with their tooltips and colours, the events
//! its menu raises, the menu's structure, and the texts the menu shows.
//! Drawing the icon and driving the native menu happen outside the library.

use vstd::prelude::*;

use crate::chars::str_eq;
use crate::digits::spec_decimal;
use crate::digits::usize_to_string;

verus! {

/// What a menu entry asks the application to do.
#[derive(Debug, Clone)]
pub enum TrayEvent {
    Toggle,
    OpenSettings,
    ChangeStyle(String),
    ResetStatistics,
    ShowHelp(String),
    Quit,
}

/// The states the tray icon can show.
#[derive(Debug, Clone, Copy, PartialEq, Eq, Structural)]
pub enum TrayIconState {
    Active,
    Inactive,
    Loading,
    Error,
    Success,
}

impl TrayIconState {
    /// The tooltip of each state.
    pub open spec fn spec_tooltip(&self) -> Seq<char> {
        match self {
            TrayIconState::Active => "LLM Translator - Ready"@,
            TrayIconState::Inactive => "LLM Translator - Disabled"@,
            TrayIconState::Loading => "LLM Translator - Processing..."@,
            TrayIconState::Error => "LLM Translator - Error"@,
            TrayIconState::Success => "LLM Translator - Translation Complete"@,
        }
    }

    /// The tooltip shown while the icon is in this state.
    pub fn tooltip(&self) -> (r: &'static str)
        ensures
            r@ == self.spec_tooltip(),
    {
        match self {
            TrayIconState::Active => "LLM Translator - Ready",
            TrayIconState::Inactive => "LLM Translator - Disabled",
            TrayIconState::Loading => "LLM Translator - Processing...",
            TrayIconState::Error => "LLM Translator - Error",
            TrayIconState::Success => "LLM Translator - Translation Complete",
        }
    }

    /// The RGBA fill colour of the icon in this state: teal when ready,
    /// grey when disabled, orange while working, red on error, green on
    /// success.
    pub fn color(&self) -> (r: (u8, u8, u8, u8))
        ensures
            r == match self {
                TrayIconState::Active => (0u8, 150u8, 136u8, 255u8),
                TrayIconState::Inactive => (128u8, 128u8, 128u8, 255u8),
                TrayIconState::Loading => (255u8, 152u8, 0u8, 255u8),
                TrayIconState::Error => (244u8, 67u8, 54u8, 255u8),
                TrayIconState::Success => (76u8, 175u8, 80u8, 255u8),
            },
    {
        match self {
            TrayIconState::Active => (0, 150, 136, 255),
            TrayIconState::Inactive => (128, 128, 128, 255),
            TrayIconState::Loading => (255, 152, 0, 255),
            TrayIconState::Error => (244, 67, 54, 255),
            TrayIconState::Success => (76, 175, 80, 255),
        }
    }

    /// The status line the menu shows for this state.
    pub fn status_text(&self) -> (r: &'static str)
        ensures
            r@ == match self {
                TrayIconState::Active => "Status: Active"@,
                TrayIconState::Inactive => "Status: Inactive"@,
                TrayIconState::Loading => "Status: Processing..."@,
                TrayIconState::Error => "Status: Error"@,
                TrayIconState::Success => "Status: Success"@,
            },
    {
        match self {
            TrayIconState::Active => "Status: Active",
            TrayIconState::Inactive => "Status: Inactive",
            TrayIconState::Loading => "Status: Processing...",
            TrayIconState::Error => "Status: Error",
            TrayIconState::Success => "Status: Success",
        }
    }
}

/// The tray event a clicked menu entry raises, by the entry's identifier;
/// identifiers the menu does not know raise nothing.
pub fn tray_event_for_menu_id(id: &str) -> (r: Option<TrayEvent>)
    ensures
        match r {
            Some(e) => {
                ||| id@ == "toggle"@ && e is Toggle
                ||| id@ == "settings"@ && e is OpenSettings
                ||| id@ == "style_general"@ && (e matches TrayEvent::ChangeStyle(s) && s@
                    == "general"@)
                ||| id@ == "style_twitter"@ && (e matches TrayEvent::ChangeStyle(s) && s@
                    == "twitter"@)
                ||| id@ == "style_formal"@ && (e matches TrayEvent::ChangeStyle(s) && s@
                    == "formal"@)
                ||| id@ == "style_academic"@ && (e matches TrayEvent::ChangeStyle(s) && s@
                    == "academic"@)
                ||| id@ == "style_creative"@ && (e matches TrayEvent::ChangeStyle(s) && s@
                    == "creative"@)
                ||| id@ == "stats_reset"@ && e is ResetStatistics
                ||| id@ == "help_docs"@ && (e matches TrayEvent::ShowHelp(s) && s@ == "docs"@)
                ||| id@ == "help_shortcuts"@ && (e matches TrayEvent::ShowHelp(s) && s@
                    == "shortcuts"@)
                ||| id@ == "help_about"@ && (e matches TrayEvent::ShowHelp(s) && s@ == "about"@)
                ||| id@ == "quit"@ && e is Quit
            },
            None => {
                &&& id@ != "toggle"@
                &&& id@ != "settings"@
                &&& id@ != "style_general"@
                &&& id@ != "style_twitter"@
                &&& id@ != "style_formal"@
                &&& id@ != "style_academic"@
                &&& id@ != "style_creative"@
                &&& id@ != "stats_reset"@
                &&& id@ != "help_docs"@
                &&& id@ != "help_shortcuts"@
                &&& id@ != "help_about"@
                &&& id@ != "quit"@
            },
        },
{
    if str_eq(id, "toggle") {
        Some(TrayEvent::Toggle)
    } else if str_eq(id, "settings") {
        Some(TrayEvent::OpenSettings)
    } else if str_eq(id, "style_general") {
        Some(TrayEvent::ChangeStyle("general".to_owned()))
    } else if str_eq(id, "style_twitter") {
        Some(TrayEvent::ChangeStyle("twitter".to_owned()))
    } else if str_eq(id, "style_formal") {
        Some(TrayEvent::ChangeStyle("formal".to_owned()))
    } else if str_eq(id, "style_academic") {
        Some(TrayEvent::ChangeStyle("academic".to_owned()))
    } else if str_eq(id, "style_creative") {
        Some(TrayEvent::ChangeStyle("creative".to_owned()))
    } else if str_eq(id, "stats_reset") {
        Some(TrayEvent::ResetStatistics)
    } else if str_eq(id, "help_docs") {
        Some(TrayEvent::ShowHelp("docs".to_owned()))
    } else if str_eq(id, "help_shortcuts") {
        Some(TrayEvent::ShowHelp("shortcuts".to_owned()))
    } else if str_eq(id, "help_about") {
        Some(TrayEvent::ShowHelp("about".to_owned()))
    } else if str_eq(id, "quit") {
        Some(TrayEvent::Quit)
    } else {
        None
    }
}

/// The text of the today-counter menu entry.
pub fn stats_today_text(today_count: usize) -> (r: String)
    ensures
        r@ == "Today: "@ + spec_decimal(today_count as nat) + " translations"@,
{
    let mut s = "Today: ".to_owned();
    s.append(usize_to_string(today_count).as_str());
    s.append(" translations");
    s
}

/// The text of the remaining-budget menu entry.
pub fn stats_remaining_text(remaining_minute: usize, remaining_day: usize) -> (r: String)
    ensures
        r@ == "Remaining: "@ + spec_decimal(remaining_minute as nat) + "/min, "@ + spec_decimal(
            remaining_day as nat,
        ) + "/day"@,
{
    let mut s = "Remaining: ".to_owned();
    s.append(usize_to_string(remaining_minute).as_str());
    s.append("/min, ");
    s.append(usize_to_string(remaining_day).as_str());
    s.append("/day");
    s
}

/// A style entry's label with the active mark toggled: the active style
/// gains a leading check mark, an inactive one loses it.
pub fn style_label(text: &str, is_active: bool) -> (r: String)
    ensures
        is_active && !(text@.len() >= 2 && text@.subrange(0, 2) == "\u{2713} "@) ==> r@ == "\u{2713} "@
            + text@,
        is_active && text@.len() >= 2 && text@.subrange(0, 2) == "\u{2713} "@ ==> r@ == text@,
        !is_active && text@.len() >= 2 && text@.subrange(0, 2) == "\u{2713} "@ ==> r@
            == text@.skip(2),
        !is_active && !(text@.len() >= 2 && text@.subrange(0, 2) == "\u{2713} "@) ==> r@ == text@,
{
    let n: usize = text.unicode_len();
    let marked: bool = n >= 2 && {
        let c0: char = text.get_char(0);
        let c1: char = text.get_char(1);
        proof {
            reveal_strlit("\u{2713} ");
            assert("\u{2713} "@.len() == 2);
            assert("\u{2713} "@[0] == '\u{2713}' && "\u{2713} "@[1] == ' ');
            assert(text@.subrange(0, 2)[0] == c0 && text@.subrange(0, 2)[1] == c1);
            if c0 == '\u{2713}' && c1 == ' ' {
                assert(text@.subrange(0, 2) =~= "\u{2713} "@);
            } else {
                assert(text@.subrange(0, 2) != "\u{2713} "@);
            }
        }
        c0 == '\u{2713}' && c1 == ' '
    };
    if is_active && !marked {
        let mut s = "\u{2713} ".to_owned();
        proof {
            reveal_strlit("\u{2713} ");
        }
        s.append(text);
        s
    } else if !is_active && marked {
        let chars: Vec<char> = crate::chars::str_to_chars(text);
        let r = crate::chars::chars_substring(&chars, 2, chars.len());
        proof {
            assert(text@.subrange(2, text@.len() as int) =~= text@.skip(2));
        }
        r
    } else {
        text.to_owned()
    }
}

} // verus!
