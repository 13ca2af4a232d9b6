//! What is written to the terminal and read from it.
use vstd::prelude::*;
use vstd::string::*;

use crate::secret_masker::SecretMasker;
use crate::{secret_masker, text};

verus! {

/// The colors of terminal output.
#[derive(Debug, Clone, Copy, PartialEq, Eq, Structural)]
pub enum ConsoleColor {
    Red,
    Green,
    Yellow,
    Cyan,
    White,
    Default,
}

/// The code that ends a color.
pub const RESET: &'static str = "\x1b[0m";

impl ConsoleColor {
    /// The code that begins a color.
    pub open spec fn code(self) -> Seq<char> {
        match self {
            ConsoleColor::Red => "\x1b[31m"@,
            ConsoleColor::Green => "\x1b[32m"@,
            ConsoleColor::Yellow => "\x1b[33m"@,
            ConsoleColor::Cyan => "\x1b[36m"@,
            ConsoleColor::White => "\x1b[37m"@,
            ConsoleColor::Default => ""@,
        }
    }

    /// The code that begins a color.
    pub fn ansi_code(&self) -> (r: &'static str)
        ensures
            r@ == self.code(),
    {
        match self {
            ConsoleColor::Red => "\x1b[31m",
            ConsoleColor::Green => "\x1b[32m",
            ConsoleColor::Yellow => "\x1b[33m",
            ConsoleColor::Cyan => "\x1b[36m",
            ConsoleColor::White => "\x1b[37m",
            ConsoleColor::Default => "",
        }
    }

    /// The code that ends a color.
    pub fn reset() -> (r: &'static str)
        ensures
            r@ == RESET@,
    {
        RESET
    }
}

/// A text in a color, if there is one.
pub open spec fn painted(message: Seq<char>, color: Option<ConsoleColor>) -> Seq<char> {
    match color {
        Some(c) => c.code() + message + RESET@,
        None => message,
    }
}

/// A line without the line ending.
pub open spec fn unended(line: Seq<char>) -> Seq<char> {
    text::trimmed_end_char(text::trimmed_end_char(line, '\n'), '\r')
}

/// A terminal; a silent one shows nothing.
#[derive(Debug, Clone, Copy, PartialEq, Eq, Structural)]
pub struct Terminal {
    pub silent: bool,
}

impl Terminal {
    /// A terminal that shows what is written.
    pub fn new() -> (r: Self)
        ensures
            !r.silent,
    {
        Terminal { silent: false }
    }

    /// What is shown of a text; `None` on a silent terminal.
    pub fn write(&self, message: &str, color: Option<ConsoleColor>) -> (r: Option<String>)
        ensures
            text::view_option(r) == if self.silent {
                None
            } else {
                Some(painted(message@, color))
            },
    {
        if self.silent {
            return None;
        }
        Some(
            match color {
                Some(c) => {
                    let mut s = c.ansi_code().to_owned();
                    s.append(message);
                    s.append(ConsoleColor::reset());
                    s
                },
                None => message.to_owned(),
            },
        )
    }

    /// What is shown of a line.
    pub fn write_line(&self, line: &str, color: Option<ConsoleColor>) -> (r: Option<String>)
        ensures
            text::view_option(r) == if self.silent {
                None
            } else {
                Some(painted(line@, color) + "\n"@)
            },
    {
        match self.write(line, color) {
            Some(mut s) => {
                s.append("\n");
                Some(s)
            },
            None => None,
        }
    }

    /// What is shown of an empty line.
    pub fn write_empty_line(&self) -> (r: Option<String>)
        ensures
            text::view_option(r) == if self.silent {
                None
            } else {
                Some(painted(""@, None) + "\n"@)
            },
    {
        self.write_line("", None)
    }

    /// What is shown of an error.
    pub fn write_error(&self, line: &str) -> (r: Option<String>)
        ensures
            text::view_option(r) == if self.silent {
                None
            } else {
                Some(painted(line@, Some(ConsoleColor::Red)) + "\n"@)
            },
    {
        self.write_line(line, Some(ConsoleColor::Red))
    }

    /// What is shown of the head of a section.
    pub fn write_section(&self, message: &str) -> (r: Option<String>)
        ensures
            text::view_option(r) == if self.silent {
                None
            } else {
                Some("\n# "@ + message@ + "\n\n"@)
            },
    {
        if self.silent {
            return None;
        }
        let mut s = "\n# ".to_owned();
        s.append(message);
        s.append("\n\n");
        Some(s)
    }

    /// What is shown of a success.
    pub fn write_success_message(&self, message: &str) -> (r: Option<String>)
        ensures
            text::view_option(r) == if self.silent {
                None
            } else {
                Some(painted("√ "@, Some(ConsoleColor::Green)) + message@ + "\n"@)
            },
    {
        match self.write("√ ", Some(ConsoleColor::Green)) {
            Some(mut s) => {
                s.append(message);
                s.append("\n");
                Some(s)
            },
            None => None,
        }
    }

    /// The value that a line holds.
    pub fn read_line(line: &str) -> (r: String)
        ensures
            r@ == unended(line@),
    {
        let s = text::trim_end_char(line, '\n');
        text::trim_end_char(s.as_str(), '\r')
    }

    /// The secret that a line holds. It is masked from here on, unless it is blank.
    pub fn read_secret(line: &str, masker: &mut SecretMasker) -> (r: String)
        ensures
            r@ == unended(line@),
            final(masker).secrets() == secret_masker::registered(old(masker).secrets(), r@),
    {
        let value = Terminal::read_line(line);
        masker.add_value(value.as_str());
        value
    }
}

impl Default for Terminal {
    fn default() -> (r: Self)
        ensures
            !r.silent,
    {
        Terminal::new()
    }
}

// ---------------------------------------------------------------------------
// Laws
// ---------------------------------------------------------------------------

/// A line is what stands before its line ending, of either kind, and all of that.
pub proof fn law_line_ending_is_dropped(line: Seq<char>, crs: nat, feeds: nat)
    requires
        line.len() > 0 ==> line.last() != '\r' && line.last() != '\n',
    ensures
        unended(line + text::repeated('\r', crs) + text::repeated('\n', feeds)) == line,
{
    let inner = line + text::repeated('\r', crs);
    if inner.len() > 0 {
        if crs > 0 {
            assert(inner.last() == '\r');
        } else {
            assert(inner.last() == line.last());
        }
    }
    text::law_trimmed_end_char_drops(inner, '\n', feeds);
    text::law_trimmed_end_char_drops(line, '\r', crs);
}

/// A color begins before the message and ends behind it; without one the message is shown as
/// it is.
pub proof fn law_painted_shows_message(message: Seq<char>, color: ConsoleColor)
    ensures
        painted(message, None) == message,
        text::has_prefix(painted(message, Some(color)), color.code() + message),
        text::has_suffix(painted(message, Some(color)), message + "\x1b[0m"@),
        painted(message, Some(color)).len() == color.code().len() + message.len()
            + "\x1b[0m"@.len(),
{
    let all = painted(message, Some(color));
    let head = color.code() + message;
    let tail = message + "\x1b[0m"@;
    assert(all.subrange(0, head.len() as int) == head);
    assert(all.subrange(all.len() - tail.len(), all.len() as int) == tail);
}

/// A secret that was read is never shown again: masked text does not hold it, unless it has
/// the mask's character in it.
pub proof fn law_read_secret_is_masked(
    secrets: Seq<Seq<char>>,
    secret: Seq<char>,
    crs: nat,
    feeds: nat,
    shown: Seq<char>,
)
    requires
        secret_masker::well_formed(secrets),
        secret.len() > 0,
        !text::white_space(secret[0]),
        !text::white_space(secret.last()),
        !secret.contains('*'),
    ensures
        ({
            let line = secret + text::repeated('\r', crs) + text::repeated('\n', feeds);
            !text::occurs(
                secret_masker::masked(secret_masker::registered(secrets, unended(line)), shown),
                secret,
            )
        }),
{
    law_line_ending_is_dropped(secret, crs, feeds);
    let none = Seq::<char>::empty();
    text::law_trimmed_drops(none, secret, none);
    assert(none + secret + none == secret);
    secret_masker::law_registered_is_masked(secrets, secret, shown, secret);
}

} // verus!
