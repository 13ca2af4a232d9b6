//! Questions to the user, and what an answer means.
use vstd::prelude::*;
use vstd::string::*;

use crate::text;

verus! {

/// What follows from a question.
#[derive(Debug)]
pub enum Prompt<T> {
    /// Show this text and read an answer.
    Ask(String),
    /// The answer is known without asking.
    Answer(T),
}

/// Why there is no answer: the question must not be asked.
#[derive(Debug)]
pub enum PromptError {
    /// The question.
    MissingInput(String),
    /// The question, whose answer is a secret.
    MissingSecret(String),
}

impl PromptError {
    /// The error in words.
    pub fn message(&self) -> (r: String)
        ensures
            r@ == match *self {
                PromptError::MissingInput(p) => "Required input '"@ + p@
                    + "' was not provided and running in unattended mode."@,
                PromptError::MissingSecret(p) => "Secret input '"@ + p@
                    + "' was not provided and running in unattended mode."@,
            },
    {
        match self {
            PromptError::MissingInput(p) => {
                let mut s = "Required input '".to_owned();
                s.append(p.as_str());
                s.append("' was not provided and running in unattended mode.");
                s
            },
            PromptError::MissingSecret(p) => {
                let mut s = "Secret input '".to_owned();
                s.append(p.as_str());
                s.append("' was not provided and running in unattended mode.");
                s
            },
        }
    }
}

/// Asks questions, unless nobody is there to answer them.
#[derive(Debug, Clone, Copy, PartialEq, Eq, Structural)]
pub struct PromptManager {
    unattended: bool,
}

/// The answer that a line gives to a question that needs one.
pub open spec fn required(line: Seq<char>) -> Option<Seq<char>> {
    if text::trimmed(line).len() == 0 {
        None
    } else {
        Some(text::trimmed(line))
    }
}

/// The answer that a line gives to a question with a default.
pub open spec fn or_default(line: Seq<char>, default: Seq<char>) -> Seq<char> {
    match required(line) {
        Some(answer) => answer,
        None => default,
    }
}

/// The answer that a line gives to a yes/no question: the default, unless it is plain.
pub open spec fn yes_or_no(line: Seq<char>, default_yes: bool) -> bool {
    let word = text::lowered(text::trimmed(line));
    if word == "y"@ || word == "yes"@ {
        true
    } else if word == "n"@ || word == "no"@ {
        false
    } else {
        default_yes
    }
}

impl PromptManager {
    /// Whether nobody is there to answer.
    pub closed spec fn alone(self) -> bool {
        self.unattended
    }

    /// A manager that asks, or does not.
    pub fn new(unattended: bool) -> (r: Self)
        ensures
            r.alone() == unattended,
    {
        PromptManager { unattended }
    }

    /// Whether nobody is there to answer.
    pub fn is_unattended(&self) -> (r: bool)
        ensures
            r == self.alone(),
    {
        self.unattended
    }

    /// A question that needs an answer. It is an error where it must not be asked.
    pub fn prompt_required(&self, prompt_text: &str) -> (r: Result<Prompt<String>, PromptError>)
        ensures
            match r {
                Ok(Prompt::Ask(shown)) => !self.alone() && shown@ == prompt_text@ + ": "@,
                Ok(Prompt::Answer(_)) => false,
                Err(PromptError::MissingInput(p)) => self.alone() && p@ == prompt_text@,
                Err(PromptError::MissingSecret(_)) => false,
            },
    {
        if self.unattended {
            return Err(PromptError::MissingInput(prompt_text.to_owned()));
        }
        let mut shown = prompt_text.to_owned();
        shown.append(": ");
        Ok(Prompt::Ask(shown))
    }

    /// The answer that a line gives to such a question; `None` if it has to be asked again.
    pub fn required_answer(line: &str) -> (r: Option<String>)
        ensures
            text::view_option(r) == required(line@),
    {
        let answer = text::trim(line);
        if text::is_empty(answer.as_str()) {
            None
        } else {
            Some(answer)
        }
    }

    /// A question with a default, which is the answer where it must not be asked.
    pub fn prompt_with_default(&self, prompt_text: &str, default: &str) -> (r: Prompt<String>)
        ensures
            match r {
                Prompt::Ask(shown) => !self.alone() && shown@ == prompt_text@ + " ["@ + default@
                    + "]: "@,
                Prompt::Answer(answer) => self.alone() && answer@ == default@,
            },
    {
        if self.unattended {
            return Prompt::Answer(default.to_owned());
        }
        let mut shown = prompt_text.to_owned();
        shown.append(" [");
        shown.append(default);
        shown.append("]: ");
        Prompt::Ask(shown)
    }

    /// The answer that a line gives to such a question.
    pub fn answer_or_default(line: &str, default: &str) -> (r: String)
        ensures
            r@ == or_default(line@, default@),
    {
        match PromptManager::required_answer(line) {
            Some(answer) => answer,
            None => default.to_owned(),
        }
    }

    /// A yes/no question with a default, which is the answer where it must not be asked.
    pub fn prompt_yes_no(&self, prompt_text: &str, default_yes: bool) -> (r: Prompt<bool>)
        ensures
            match r {
                Prompt::Ask(shown) => !self.alone() && shown@ == prompt_text@ + " "@ + (
                if default_yes {
                    "[Y/n]"@
                } else {
                    "[y/N]"@
                }) + ": "@,
                Prompt::Answer(answer) => self.alone() && answer == default_yes,
            },
    {
        if self.unattended {
            return Prompt::Answer(default_yes);
        }
        let mut shown = prompt_text.to_owned();
        shown.append(" ");
        shown.append(
            if default_yes {
                "[Y/n]"
            } else {
                "[y/N]"
            },
        );
        shown.append(": ");
        Prompt::Ask(shown)
    }

    /// The answer that a line gives to such a question.
    pub fn yes_no_answer(line: &str, default_yes: bool) -> (r: bool)
        ensures
            r == yes_or_no(line@, default_yes),
    {
        let word = text::to_lowercase(text::trim(line).as_str());
        if text::same(word.as_str(), "y") || text::same(word.as_str(), "yes") {
            true
        } else if text::same(word.as_str(), "n") || text::same(word.as_str(), "no") {
            false
        } else {
            default_yes
        }
    }

    /// A question whose answer is a secret. It is an error where it must not be asked.
    pub fn prompt_secret(&self, prompt_text: &str) -> (r: Result<Prompt<String>, PromptError>)
        ensures
            match r {
                Ok(Prompt::Ask(shown)) => !self.alone() && shown@ == prompt_text@ + ": "@,
                Ok(Prompt::Answer(_)) => false,
                Err(PromptError::MissingSecret(p)) => self.alone() && p@ == prompt_text@,
                Err(PromptError::MissingInput(_)) => false,
            },
    {
        if self.unattended {
            return Err(PromptError::MissingSecret(prompt_text.to_owned()));
        }
        let mut shown = prompt_text.to_owned();
        shown.append(": ");
        Ok(Prompt::Ask(shown))
    }

    /// The secret that a line gives.
    pub fn secret_answer(line: &str) -> (r: String)
        ensures
            r@ == text::trimmed(line@),
    {
        text::trim(line)
    }
}

/// A line answers with the text in it, without the white space around it; a blank line does
/// not answer, and then the default does where there is one.
pub proof fn law_line_answers(
    before: Seq<char>,
    answer: Seq<char>,
    after: Seq<char>,
    default: Seq<char>,
)
    requires
        text::blank(before),
        text::blank(after),
        answer.len() > 0 ==> !text::white_space(answer[0]) && !text::white_space(answer.last()),
    ensures
        answer.len() > 0 ==> required(before + answer + after) == Some(answer),
        answer.len() == 0 ==> required(before + answer + after) is None,
        or_default(before + answer + after, default) == if answer.len() > 0 {
            answer
        } else {
            default
        },
{
    text::law_trimmed_drops(before, answer, after);
}

/// A yes/no question is answered by `y`, `yes`, `n` or `no` in any case; any other line leaves
/// it to the default.
pub proof fn law_yes_or_no(line: Seq<char>, default_yes: bool)
    ensures
        ({
            let word = text::lowered(text::trimmed(line));
            &&& yes_or_no(line, false) <==> word == "y"@ || word == "yes"@
            &&& !yes_or_no(line, true) <==> word == "n"@ || word == "no"@
            &&& yes_or_no(line, true) != yes_or_no(line, false) ==> yes_or_no(line, default_yes)
                == default_yes
        }),
{
    reveal_strlit("y");
    reveal_strlit("yes");
    reveal_strlit("n");
    reveal_strlit("no");
    assert("y"@[0] == 'y' && "y"@.len() == 1);
    assert("yes"@[0] == 'y' && "yes"@.len() == 3);
    assert("n"@[0] == 'n' && "n"@.len() == 1);
    assert("no"@[0] == 'n' && "no"@.len() == 2);
}

} // verus!
