//! The line that the terminal gets for a record: the time, the tag of the
//! level, the domain where it is shown, and the message.

use vstd::prelude::*;
use vstd::string::StringExecFns;

use crate::level::Level;
use crate::sink::time_format;
use crate::text::{two_digit_string, two_digits};

verus! {

/// A colour that a level tag can have.
#[derive(Clone, Copy, Debug, PartialEq, Eq, Structural)]
pub enum TagColor {
    Red,
    Green,
    Magenta,
}

/// The number of a colour in a terminal's escape sequence.
pub open spec fn color_code(color: TagColor) -> Seq<char> {
    match color {
        TagColor::Red => seq!['3', '1'],
        TagColor::Green => seq!['3', '2'],
        TagColor::Magenta => seq!['3', '5'],
    }
}

/// `text` between the escape sequence that switches `color` on and the
/// one that resets the terminal.
pub open spec fn painted(text: Seq<char>, color: TagColor) -> Seq<char> {
    seq!['\u{1b}', '['] + color_code(color) + seq!['m'] + text + seq!['\u{1b}', '[', '0', 'm']
}

/// The tag of a level without colour: its name in square brackets.
pub open spec fn plain_marker(level: Level) -> Seq<char> {
    seq!['['] + level.name() + seq![']']
}

/// The colour of a level's tag: none without colour and for `Info`, one
/// for errors and warnings, one for `Debug`, one for `Trace`.
pub open spec fn marker_color(level: Level, use_color: bool) -> Option<TagColor> {
    if !use_color {
        None
    } else {
        match level {
            Level::Info => None,
            Level::Error => Some(TagColor::Red),
            Level::Warn => Some(TagColor::Red),
            Level::Debug => Some(TagColor::Green),
            Level::Trace => Some(TagColor::Magenta),
        }
    }
}

/// Whether `marker` can be the tag of `level`: the plain tag, or, where the
/// level has a colour, the tag in that colour.
pub open spec fn is_marker(marker: Seq<char>, level: Level, use_color: bool) -> bool {
    match marker_color(level, use_color) {
        None => marker == plain_marker(level),
        Some(color) => marker == plain_marker(level) || marker == painted(
            plain_marker(level),
            color,
        ),
    }
}

/// Whether `c` is a decimal digit.
pub open spec fn is_digit(c: char) -> bool {
    '0' <= c <= '9'
}

/// Whether `s` reads as a time of day: hours, minutes and seconds, two
/// digits each, with a colon between them.
pub open spec fn is_time_of_day(s: Seq<char>) -> bool {
    &&& s.len() == 8
    &&& is_digit(s[0]) && is_digit(s[1])
    &&& s[2] == ':'
    &&& is_digit(s[3]) && is_digit(s[4])
    &&& s[5] == ':'
    &&& is_digit(s[6]) && is_digit(s[7])
}

/// The time of a line: the time of day, a point, and the hundredths of the
/// second.
pub open spec fn time_text(time_of_day: Seq<char>, nanosecond: u32) -> Seq<char> {
    time_of_day + seq!['.'] + two_digits((nanosecond / 10_000_000) as nat)
}

/// A line for the terminal: time, level tag, the domain where it is shown,
/// and the message, with one space between them.
pub open spec fn interactive_line(
    time: Seq<char>,
    marker: Seq<char>,
    show_log_domain: bool,
    target: Seq<char>,
    message: Seq<char>,
) -> Seq<char> {
    if show_log_domain {
        time + seq![' '] + marker + seq![' '] + target + seq![' '] + message
    } else {
        time + seq![' '] + marker + seq![' '] + message
    }
}

/// `colored`'s `Colorize::color` on a string slice, printed to a string.
/// Whether it colours depends on the environment and the terminal: the
/// result is either the text as it is or the text between the colour's
/// escape sequence and the reset sequence. The text must hold no escape
/// character: `colored` alters text that holds a reset sequence.
#[verifier::external_body]
fn paint(text: &str, color: TagColor) -> (out: String)
    requires
        !text@.contains('\u{1b}'),
    ensures
        out@ == text@ || out@ == painted(text@, color),
{
    let color = match color {
        TagColor::Red => colored::Color::Red,
        TagColor::Green => colored::Color::Green,
        TagColor::Magenta => colored::Color::Magenta,
    };
    colored::Colorize::color(text, color).to_string()
}

/// `chrono::Local::now`, as the text that `format` prints for `pattern`
/// and what `nanosecond` gives: the nanoseconds since the whole second,
/// which during a leap second run on past a thousand million. `pattern`
/// is the pattern of the time of day: for it `format` prints the hour, the
/// minute and the second, each as two digits, with colons between them.
#[verifier::external_body]
pub(crate) fn local_time(pattern: &str) -> (now: (String, u32))
    requires
        pattern@ == time_format(),
    ensures
        is_time_of_day(now.0@),
        now.1 < 2_000_000_000,
{
    let now = chrono::Local::now();
    (now.format(pattern).to_string(), chrono::Timelike::nanosecond(&now))
}

/// The colour of a level's tag.
pub fn tag_color(level: Level, use_color: bool) -> (color: Option<TagColor>)
    ensures
        color == marker_color(level, use_color),
{
    if !use_color {
        None
    } else {
        match level {
            Level::Info => None,
            Level::Error => Some(TagColor::Red),
            Level::Warn => Some(TagColor::Red),
            Level::Debug => Some(TagColor::Green),
            Level::Trace => Some(TagColor::Magenta),
        }
    }
}

/// The tag of a level, in its colour where it has one and the terminal
/// takes colours.
pub fn level_marker(level: Level, use_color: bool) -> (marker: String)
    ensures
        is_marker(marker@, level, use_color),
{
    let mut plain = String::from_str("[");
    plain.append(level.as_str());
    plain.append("]");
    proof {
        reveal_strlit("[");
        reveal_strlit("]");
        assert(plain@ =~= plain_marker(level));
    }
    match tag_color(level, use_color) {
        None => plain,
        Some(color) => {
            assert forall|i: int| 0 <= i < plain@.len() implies plain@[i] != '\u{1b}' by {}
            paint(plain.as_str(), color)
        },
    }
}

/// The time of a line, from the time of day and the nanoseconds of the
/// second.
pub fn time_string(time_of_day: &str, nanosecond: u32) -> (time: String)
    ensures
        time@ == time_text(time_of_day@, nanosecond),
{
    let mut time = String::from_str(time_of_day);
    time.append(".");
    let hundredths = two_digit_string(nanosecond / 10_000_000);
    time.append(hundredths.as_str());
    proof {
        reveal_strlit(".");
    }
    time
}

/// A line for the terminal.
pub fn format_line(
    time: &str,
    marker: &str,
    show_log_domain: bool,
    target: &str,
    message: &str,
) -> (line: String)
    ensures
        line@ == interactive_line(time@, marker@, show_log_domain, target@, message@),
{
    proof {
        reveal_strlit(" ");
    }
    let mut line = String::from_str(time);
    line.append(" ");
    line.append(marker);
    line.append(" ");
    if show_log_domain {
        line.append(target);
        line.append(" ");
    }
    line.append(message);
    line
}

} // verus!
