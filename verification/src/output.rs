//! Text the CLI shows for statuses, priorities and dates.
use vstd::prelude::*;
use crate::custom_field::{utc_date, utc_date_text};
use crate::text::{chars_of, decimal, parse_i64, parse_i64_str, string_of};
use crate::theme::hex_rgb;

verus! {

/// The text `s` in the 24-bit foreground colour (r, g, b), as `owo-colors`
/// prints it: the escape sequence that sets the colour, the text, and the one
/// that resets the foreground.
pub open spec fn truecolor_text(s: Seq<char>, r: u8, g: u8, b: u8) -> Seq<char> {
    "\x1b[38;2;"@ + decimal(r as nat) + ";"@ + decimal(g as nat) + ";"@ + decimal(b as nat) + "m"@ + s
        + "\x1b[39m"@
}

/// Calls `OwoColorize::truecolor` and prints the result. The contract states
/// the text that `owo-colors` writes for it (its `FgDynColorDisplay` and
/// `Rgb` display code): `ESC[38;2;r;g;bm`, the text, then `ESC[39m`.
#[verifier::external_body]
fn truecolor(s: &str, r: u8, g: u8, b: u8) -> (out: String)
    ensures
        out@ == truecolor_text(s@, r, g, b),
{
    format!("{}", owo_colors::OwoColorize::truecolor(&s, r, g, b))
}

/// Parses a hex colour string (e.g. `#ff00aa` or `ff00aa`) into RGB.
pub fn parse_hex_color(hex: &str) -> (r: Option<(u8, u8, u8)>)
    ensures
        r == hex_rgb(hex@),
{
    crate::theme::parse_hex(hex)
}

/// Applies a hex colour to a status label for terminal display.
///
/// Falls back to plain text when the colour cannot be parsed.
pub fn format_status(status: &str, color: &str) -> (r: String)
    ensures
        r@ == (match hex_rgb(color@) {
            Some((red, green, blue)) => truecolor_text(status@, red, green, blue),
            None => status@,
        }),
{
    match parse_hex_color(color) {
        Some((r, g, b)) => truecolor(status, r, g, b),
        None => string_of(&chars_of(status)),
    }
}

/// The label a priority shows.
pub open spec fn priority_label(priority: Option<Seq<char>>) -> Seq<char> {
    match priority {
        Some(p) => if p == "urgent"@ {
            "🔴 Urgent"@
        } else if p == "high"@ {
            "🟠 High"@
        } else if p == "normal"@ {
            "🟡 Normal"@
        } else if p == "low"@ {
            "🔵 Low"@
        } else {
            "⚪ None"@
        },
        None => "⚪ None"@,
    }
}

/// Maps a priority label to a coloured emoji string.
pub fn format_priority(priority: Option<&str>) -> (r: String)
    ensures
        r@ == priority_label(match priority { Some(p) => Some(p@), None => None }),
{
    let label: &str = match priority {
        Some(p) => if crate::text::str_eq(p, "urgent") {
            "🔴 Urgent"
        } else if crate::text::str_eq(p, "high") {
            "🟠 High"
        } else if crate::text::str_eq(p, "normal") {
            "🟡 Normal"
        } else if crate::text::str_eq(p, "low") {
            "🔵 Low"
        } else {
            "⚪ None"
        },
        None => "⚪ None",
    };
    string_of(&chars_of(label))
}

/// The date a millisecond timestamp shows: a dash when there is none, the
/// text itself when it is no integer or out of range.
pub open spec fn date_label(timestamp: Option<Seq<char>>) -> Seq<char> {
    match timestamp {
        None => "—"@,
        Some(ts) => match parse_i64(ts) {
            Some(ms) => match utc_date(ms) {
                Some(d) => d,
                None => ts,
            },
            None => ts,
        },
    }
}

/// Parses a ClickUp millisecond timestamp into a human-readable date.
pub fn format_date(timestamp: Option<&str>) -> (r: String)
    ensures
        r@ == date_label(match timestamp { Some(t) => Some(t@), None => None }),
{
    let ts = match timestamp {
        Some(t) => t,
        None => return string_of(&chars_of("—")),
    };
    match parse_i64_str(ts) {
        Some(ms) => match utc_date_text(ms) {
            Some(d) => d,
            None => string_of(&chars_of(ts)),
        },
        None => string_of(&chars_of(ts)),
    }
}

} // verus!
