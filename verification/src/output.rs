use crate::text::{find_char, first_index, same_text, starts_with};
use vstd::prelude::*;

verus! {

/// Whether output is coloured.
#[derive(Copy, Clone, Debug, PartialEq, Eq, Structural)]
pub enum Color {
    Auto,
    Always,
    Never,
}

/// The colour setting that a word stands for.
pub open spec fn color_of(s: Seq<char>) -> Option<Color> {
    if s == "auto"@ {
        Some(Color::Auto)
    } else if s == "always"@ {
        Some(Color::Always)
    } else if s == "never"@ {
        Some(Color::Never)
    } else {
        None
    }
}

impl Color {
    /// The argument that hands this setting on to the build tool.
    pub fn to_arg(self) -> (arg: &'static str)
        ensures
            arg@ == match self {
                Color::Auto => "--color=auto"@,
                Color::Always => "--color=always"@,
                Color::Never => "--color=never"@,
            },
    {
        match self {
            Color::Auto => "--color=auto",
            Color::Always => "--color=always",
            Color::Never => "--color=never",
        }
    }

    /// What to force on the colouring of output: nothing, colour, or none.
    pub fn init_colored(self) -> (forced: Option<bool>)
        ensures
            forced == match self {
                Color::Auto => None::<bool>,
                Color::Always => Some(true),
                Color::Never => Some(false),
            },
    {
        match self {
            Color::Auto => None,
            Color::Always => Some(true),
            Color::Never => Some(false),
        }
    }

    /// Reads a setting from one of the words `auto`, `always`, `never`.
    pub fn from_str(s: &str) -> (parsed: Result<Color, String>)
        ensures
            match color_of(s@) {
                Some(color) => parsed == Ok::<Color, String>(color),
                None => parsed matches Err(message) && message@ == s@
                    + " is not a valid option, expected `auto`, `always` or `never`"@,
            },
    {
        if same_text(s, "auto") {
            Ok(Color::Auto)
        } else if same_text(s, "always") {
            Ok(Color::Always)
        } else if same_text(s, "never") {
            Ok(Color::Never)
        } else {
            let mut message = s.to_owned();
            message.append(" is not a valid option, expected `auto`, `always` or `never`");
            Err(message)
        }
    }
}

/// How grave a message is.
#[derive(Copy, Clone, Debug, PartialEq, Eq, Structural)]
pub enum Level {
    Error,
    Warn,
    Info,
    Debug,
    Trace,
}

/// How messages are laid out.
#[derive(Copy, Clone, Debug, PartialEq, Eq, Structural)]
pub enum OutputFormat {
    /// Messages for the user, each with a header, and nothing else.
    User,
    /// Every message, one line each.
    Full,
    /// Every message, over several lines.
    Pretty,
}

/// Which messages are let through.
#[derive(Clone, Debug, PartialEq, Eq)]
pub enum Filter {
    /// Those at least as grave as this level.
    AtLeast(Level),
    /// Those that these directives let through.
    Directives(String),
}

/// What the logger is set up with.
#[derive(Clone, Debug, PartialEq, Eq)]
pub struct LoggerPlan {
    pub filter: Filter,
    pub format: OutputFormat,
    /// What to force on the colouring of output.
    pub colored: Option<bool>,
}

/// What the user asked of the output.
#[derive(Copy, Clone, Debug, PartialEq, Eq, Structural)]
pub struct OutputOpts {
    /// Suppress output.
    pub quiet: bool,
    /// Produce extra output: how often the user asked for it.
    pub verbose: usize,
    /// Produce colour output.
    pub color: Color,
}

impl OutputOpts {
    /// The level from which messages are shown: errors only where the user
    /// asked for quiet, else from `Info`, or from `Debug` where the user
    /// asked for more.
    pub open spec fn spec_level(&self) -> Level {
        if self.quiet {
            Level::Error
        } else if self.verbose == 0 {
            Level::Info
        } else {
            Level::Debug
        }
    }

    /// The layout of messages: for the user, unless the user asked twice
    /// or more often for extra output.
    pub open spec fn spec_format(&self) -> OutputFormat {
        if self.verbose <= 1 {
            OutputFormat::User
        } else if self.verbose == 2 {
            OutputFormat::Full
        } else {
            OutputFormat::Pretty
        }
    }

    /// Plans the logger. `directives` is what the environment variable
    /// `HASP_LOG` holds, empty where it is not set; where it holds
    /// something, that decides which messages are shown.
    pub fn init_logger(&self, directives: &str) -> (plan: LoggerPlan)
        ensures
            plan.format == self.spec_format(),
            plan.colored == match self.color {
                Color::Auto => None::<bool>,
                Color::Always => Some(true),
                Color::Never => Some(false),
            },
            directives@.len() == 0 ==> plan.filter == Filter::AtLeast(self.spec_level()),
            directives@.len() > 0 ==> (plan.filter matches Filter::Directives(d) && d@
                == directives@),
    {
        let filter = if directives.is_empty() {
            Filter::AtLeast(
                if self.quiet {
                    Level::Error
                } else if self.verbose == 0 {
                    Level::Info
                } else {
                    Level::Debug
                },
            )
        } else {
            Filter::Directives(directives.to_owned())
        };
        let format = if self.verbose <= 1 {
            OutputFormat::User
        } else if self.verbose == 2 {
            OutputFormat::Full
        } else {
            OutputFormat::Pretty
        };
        LoggerPlan { filter, format, colored: self.color.init_colored() }
    }
}

/// The kinds of message for the user.
#[derive(Copy, Clone, Debug, PartialEq, Eq, Structural)]
pub enum OutputKind {
    Working,
    Recording,
    Informational,
    Standard,
}

impl OutputKind {
    /// The kind of a message, by what its target begins with.
    pub fn from_target(target: &str) -> (kind: OutputKind)
        ensures
            kind == if "hasp::output::working::"@.is_prefix_of(target@) {
                OutputKind::Working
            } else if "hasp::output::recording::"@.is_prefix_of(target@) {
                OutputKind::Recording
            } else if "hasp::output::informational::"@.is_prefix_of(target@) {
                OutputKind::Informational
            } else {
                OutputKind::Standard
            },
    {
        if starts_with(target, "hasp::output::working::") {
            OutputKind::Working
        } else if starts_with(target, "hasp::output::recording::") {
            OutputKind::Recording
        } else if starts_with(target, "hasp::output::informational::") {
            OutputKind::Informational
        } else {
            OutputKind::Standard
        }
    }
}

/// The two layouts of a message for the user.
#[derive(Copy, Clone, Debug, PartialEq, Eq, Structural)]
pub enum Layer {
    /// A header, then the text.
    Output,
    /// The level, then the text.
    AltOutput,
}

/// The layout of a message for the user, by what its target begins with;
/// none for any other message.
pub fn layer_of(target: &str) -> (layer: Option<Layer>)
    ensures
        layer == if "hasp::output::"@.is_prefix_of(target@) {
            Some(Layer::Output)
        } else if "hasp::alt_output::"@.is_prefix_of(target@) {
            Some(Layer::AltOutput)
        } else {
            None
        },
{
    if starts_with(target, "hasp::output::") {
        Some(Layer::Output)
    } else if starts_with(target, "hasp::alt_output::") {
        Some(Layer::AltOutput)
    } else {
        None
    }
}

/// The colours of a header, each in bold.
#[derive(Copy, Clone, Debug, PartialEq, Eq, Structural)]
pub enum HeaderStyle {
    Red,
    Yellow,
    Blue,
    Purple,
    Green,
}

/// The colour of a message's header: red for an error, yellow for a
/// warning, and else by the kind of the message.
pub fn header_style(level: Level, kind: OutputKind) -> (style: HeaderStyle)
    ensures
        style == match level {
            Level::Error => HeaderStyle::Red,
            Level::Warn => HeaderStyle::Yellow,
            _ => match kind {
                OutputKind::Recording => HeaderStyle::Yellow,
                OutputKind::Working => HeaderStyle::Blue,
                OutputKind::Informational => HeaderStyle::Purple,
                OutputKind::Standard => HeaderStyle::Green,
            },
        },
{
    match level {
        Level::Error => HeaderStyle::Red,
        Level::Warn => HeaderStyle::Yellow,
        _ => match kind {
            OutputKind::Recording => HeaderStyle::Yellow,
            OutputKind::Working => HeaderStyle::Blue,
            OutputKind::Informational => HeaderStyle::Purple,
            OutputKind::Standard => HeaderStyle::Green,
        },
    }
}

/// What stands before a message of the second layout: the level and a
/// colon; nothing for a trace.
pub fn level_prefix(level: Level) -> (prefix: Option<&'static str>)
    ensures
        match level {
            Level::Error => prefix matches Some(p) && p@ == "error:"@,
            Level::Warn => prefix matches Some(p) && p@ == "warning:"@,
            Level::Info => prefix matches Some(p) && p@ == "info:"@,
            Level::Debug => prefix matches Some(p) && p@ == "debug:"@,
            Level::Trace => prefix is None,
        },
{
    match level {
        Level::Error => Some("error:"),
        Level::Warn => Some("warning:"),
        Level::Info => Some("info:"),
        Level::Debug => Some("debug:"),
        Level::Trace => None,
    }
}

/// A text cut at the first `c`: what stands before it and what stands
/// behind it; `None` where `c` does not occur.
pub open spec fn cut_at(s: Seq<char>, c: char) -> Option<(Seq<char>, Seq<char>)> {
    let at = first_index(s, c);
    if at < s.len() {
        Some((s.take(at), s.skip(at + 1)))
    } else {
        None
    }
}

/// Cuts a text at the first `c`.
pub fn split_once(s: &str, c: char) -> (cut: Option<(String, String)>)
    ensures
        match cut_at(s@, c) {
            Some((before, behind)) => cut matches Some(pair) && pair.0@ == before && pair.1@
                == behind,
            None => cut is None,
        },
{
    match find_char(s, c) {
        Some(at) => {
            let n = s.unicode_len();
            let before = s.substring_char(0, at).to_owned();
            let behind = s.substring_char(at + 1, n).to_owned();
            assert(before@ =~= s@.take(at as int));
            assert(behind@ =~= s@.skip(at + 1));
            Some((before, behind))
        },
        None => None,
    }
}

/// A message for the user in its parts.
#[derive(Clone, Debug, PartialEq, Eq)]
pub struct MessageParts {
    /// The first word, shown as the header; empty where the message has no
    /// blank.
    pub header: String,
    /// The first line of what follows the header.
    pub first_line: String,
    /// The lines after the first, which are shown indented, if there are any.
    pub later: Option<String>,
}

/// The text of a message: what follows the first blank, or all of it.
pub open spec fn message_text(message: Seq<char>) -> Seq<char> {
    match cut_at(message, ' ') {
        Some((header, text)) => text,
        None => message,
    }
}

/// Takes a message for the user apart: the header is the first word; the
/// rest is cut at its first line break.
pub fn split_message(message: &str) -> (parts: MessageParts)
    ensures
        parts.header@ == match cut_at(message@, ' ') {
            Some((header, text)) => header,
            None => Seq::<char>::empty(),
        },
        match cut_at(message_text(message@), '\n') {
            Some((first, later)) => parts.first_line@ == first && (parts.later matches Some(l)
                && l@ == later),
            None => parts.first_line@ == message_text(message@) && parts.later is None,
        },
{
    let (header, text) = match split_once(message, ' ') {
        Some(pair) => pair,
        None => (String::new(), message.to_owned()),
    };
    match split_once(text.as_str(), '\n') {
        Some((first_line, later)) => MessageParts { header, first_line, later: Some(later) },
        None => MessageParts { header, first_line: text, later: None },
    }
}

} // verus!
