//! Trace lines.
use vstd::prelude::*;
use vstd::string::*;

use crate::secret_masker::SecretMasker;
use crate::{secret_masker, text};

verus! {

/// The severity of a trace line, from least to most.
#[derive(Debug, Clone, Copy, PartialEq, Eq, Structural)]
pub enum TraceEventType {
    Verbose,
    Information,
    Warning,
    Error,
    Critical,
}

impl TraceEventType {
    /// The severity as a number.
    pub open spec fn rank(self) -> int {
        match self {
            TraceEventType::Verbose => 0,
            TraceEventType::Information => 1,
            TraceEventType::Warning => 2,
            TraceEventType::Error => 3,
            TraceEventType::Critical => 4,
        }
    }

    fn number(self) -> (r: u8)
        ensures
            r == self.rank(),
    {
        match self {
            TraceEventType::Verbose => 0,
            TraceEventType::Information => 1,
            TraceEventType::Warning => 2,
            TraceEventType::Error => 3,
            TraceEventType::Critical => 4,
        }
    }

    /// The severity as it is written.
    pub open spec fn tag(self) -> Seq<char> {
        match self {
            TraceEventType::Verbose => "VERB"@,
            TraceEventType::Information => "INFO"@,
            TraceEventType::Warning => "WARN"@,
            TraceEventType::Error => "ERR "@,
            TraceEventType::Critical => "CRIT"@,
        }
    }

    /// The severity as it is written.
    pub fn name(&self) -> (r: &'static str)
        ensures
            r@ == self.tag(),
    {
        match self {
            TraceEventType::Verbose => "VERB",
            TraceEventType::Information => "INFO",
            TraceEventType::Warning => "WARN",
            TraceEventType::Error => "ERR ",
            TraceEventType::Critical => "CRIT",
        }
    }
}

/// What is traced.
#[derive(Debug, Clone, Copy, PartialEq, Eq, Structural)]
pub struct TraceSetting {
    /// The least severity that is traced.
    pub level: TraceEventType,
    /// Whether trace lines are printed too.
    pub print_to_stdout: bool,
}

impl Default for TraceSetting {
    fn default() -> (r: Self)
        ensures
            r.level == TraceEventType::Verbose,
            !r.print_to_stdout,
    {
        TraceSetting { level: TraceEventType::Verbose, print_to_stdout: false }
    }
}

/// A trace line.
#[derive(Debug)]
pub struct TraceLine {
    pub event_type: TraceEventType,
    pub text: String,
    /// Whether the line is printed too.
    pub print: bool,
}

/// A named source of trace lines.
#[derive(Debug)]
pub struct Tracing {
    name: String,
    setting: TraceSetting,
}

/// A trace line as it is written. Secrets in the message are masked.
pub open spec fn trace_text(
    timestamp: Seq<char>,
    name: Seq<char>,
    event_type: TraceEventType,
    secrets: Seq<Seq<char>>,
    message: Seq<char>,
) -> Seq<char> {
    "["@ + timestamp + "]["@ + name + "] "@ + event_type.tag() + ": "@ + secret_masker::masked(
        secrets,
        message,
    )
}

impl Tracing {
    /// The source's name.
    pub closed spec fn source(self) -> Seq<char> {
        self.name@
    }

    /// What is traced.
    pub closed spec fn settings(self) -> TraceSetting {
        self.setting
    }

    /// A source.
    pub fn new(name: &str, setting: TraceSetting) -> (r: Self)
        ensures
            r.source() == name@,
            r.settings() == setting,
    {
        Tracing { name: name.to_owned(), setting }
    }

    /// The source's name.
    pub fn name(&self) -> (r: &str)
        ensures
            r@ == self.source(),
    {
        self.name.as_str()
    }

    /// The line for a message, unless it is below the level that is traced. `timestamp` is
    /// the current time as it is to be written.
    pub fn trace(
        &self,
        masker: &SecretMasker,
        event_type: TraceEventType,
        message: &str,
        timestamp: &str,
    ) -> (r: Option<TraceLine>)
        ensures
            match r {
                Some(line) => {
                    &&& event_type.rank() >= self.settings().level.rank()
                    &&& line.event_type == event_type
                    &&& line.text@ == trace_text(
                        timestamp@,
                        self.source(),
                        event_type,
                        masker.secrets(),
                        message@,
                    )
                    &&& line.print == self.settings().print_to_stdout
                },
                None => event_type.rank() < self.settings().level.rank(),
            },
    {
        if event_type.number() < self.setting.level.number() {
            return None;
        }
        let mut line = "[".to_owned();
        line.append(timestamp);
        line.append("][");
        line.append(self.name.as_str());
        line.append("] ");
        line.append(event_type.name());
        line.append(": ");
        line.append(masker.mask_secrets(message).as_str());
        Some(TraceLine { event_type, text: line, print: self.setting.print_to_stdout })
    }

    /// What is traced when a function is entered.
    pub fn entering(name: &str) -> (r: String)
        ensures
            r@ == "Entering "@ + name@,
    {
        let mut s = "Entering ".to_owned();
        s.append(name);
        s
    }

    /// What is traced when a function is left.
    pub fn leaving(name: &str) -> (r: String)
        ensures
            r@ == "Leaving "@ + name@,
    {
        let mut s = "Leaving ".to_owned();
        s.append(name);
        s
    }

    /// What is traced of an error, given its text and then those of its causes: each of them
    /// in a message of its own, the causes after a rule.
    pub fn error_err(messages: &Vec<String>) -> (r: Vec<String>)
        ensures
            text::views(r@) == with_rules(text::views(messages@)),
    {
        let ghost all = text::views(messages@);
        let mut out: Vec<String> = Vec::new();
        let mut i: usize = 0;
        assert(text::views(out@) =~= Seq::empty());
        while i < messages.len()
            invariant
                i <= messages@.len(),
                all == text::views(messages@),
                text::views(out@) == with_rules(all.take(i as int)),
            decreases messages@.len() - i,
        {
            let ghost before = text::views(out@);
            assert(all.take(i + 1).drop_last() == all.take(i as int));
            assert(all.take(i + 1).last() == messages@[i as int]@);
            assert(all.take(i + 1).len() == i + 1);
            if i > 0 {
                let rule = CAUSE_RULE.to_owned();
                out.push(rule);
                assert(text::views(out@) =~= before.push(CAUSE_RULE@));
            }
            let ghost ruled = text::views(out@);
            let message = messages[i].clone();
            out.push(message);
            assert(text::views(out@) =~= ruled.push(messages@[i as int]@));
            assert(text::views(out@) =~= with_rules(all.take(i + 1)));
            i = i + 1;
        }
        assert(all.take(all.len() as int) == all);
        out
    }
}

/// What parts an error from its cause.
pub const CAUSE_RULE: &'static str = "#####################################################";

/// The messages, with a rule between each two.
pub open spec fn with_rules(messages: Seq<Seq<char>>) -> Seq<Seq<char>>
    decreases messages.len(),
{
    if messages.len() == 0 {
        Seq::empty()
    } else if messages.len() == 1 {
        messages
    } else {
        with_rules(messages.drop_last()).push(CAUSE_RULE@).push(messages.last())
    }
}

/// Makes trace sources that share one setting.
#[derive(Debug)]
pub struct TraceManager {
    default_setting: TraceSetting,
}

impl TraceManager {
    /// The setting of every source.
    pub closed spec fn settings(self) -> TraceSetting {
        self.default_setting
    }

    /// A manager with the default setting.
    pub fn new() -> (r: Self)
        ensures
            r.settings().level == TraceEventType::Verbose,
            !r.settings().print_to_stdout,
    {
        TraceManager { default_setting: TraceSetting::default() }
    }

    /// A manager with a setting.
    pub fn with_setting(setting: TraceSetting) -> (r: Self)
        ensures
            r.settings() == setting,
    {
        TraceManager { default_setting: setting }
    }

    /// The source with a name.
    pub fn get(&self, name: &str) -> (r: Tracing)
        ensures
            r.source() == name@,
            r.settings() == self.settings(),
    {
        Tracing::new(name, self.default_setting)
    }
}

/// The message in a trace line holds no registered secret, unless the secret itself holds the
/// mask's character.
pub proof fn law_traced_message_is_masked(
    timestamp: Seq<char>,
    name: Seq<char>,
    event_type: TraceEventType,
    secrets: Seq<Seq<char>>,
    message: Seq<char>,
    k: int,
)
    requires
        secret_masker::well_formed(secrets),
        0 <= k < secrets.len(),
        !secrets[k].contains('*'),
    ensures
        ({
            let line = trace_text(timestamp, name, event_type, secrets, message);
            let shown = secret_masker::masked(secrets, message);
            &&& text::has_suffix(line, shown)
            &&& !text::occurs(shown, secrets[k])
        }),
{
    let line = trace_text(timestamp, name, event_type, secrets, message);
    let shown = secret_masker::masked(secrets, message);
    assert(line.subrange(line.len() - shown.len(), line.len() as int) == shown);
    secret_masker::law_masked_holds_no_secret(secrets, message, k);
}

/// Severities are ordered from verbose to critical, and each has a tag of its own of the same
/// width.
pub proof fn law_severities_are_ordered(a: TraceEventType, b: TraceEventType)
    ensures
        TraceEventType::Verbose.rank() < TraceEventType::Information.rank(),
        TraceEventType::Information.rank() < TraceEventType::Warning.rank(),
        TraceEventType::Warning.rank() < TraceEventType::Error.rank(),
        TraceEventType::Error.rank() < TraceEventType::Critical.rank(),
        a.tag() == b.tag() ==> a == b,
        a.tag().len() == 4,
{
    reveal_strlit("VERB");
    reveal_strlit("INFO");
    reveal_strlit("WARN");
    reveal_strlit("ERR ");
    reveal_strlit("CRIT");
    assert("VERB"@[0] == 'V' && "INFO"@[0] == 'I' && "WARN"@[0] == 'W' && "ERR "@[0] == 'E'
        && "CRIT"@[0] == 'C');
}

/// A trace line tells when, where and how severe, in front of the message.
pub proof fn law_trace_line_tells(
    timestamp: Seq<char>,
    name: Seq<char>,
    event_type: TraceEventType,
    secrets: Seq<Seq<char>>,
    message: Seq<char>,
)
    ensures
        text::has_prefix(
            trace_text(timestamp, name, event_type, secrets, message),
            "["@ + timestamp + "]["@ + name + "] "@ + event_type.tag() + ": "@,
        ),
{
    let head = "["@ + timestamp + "]["@ + name + "] "@ + event_type.tag() + ": "@;
    let line = trace_text(timestamp, name, event_type, secrets, message);
    assert(line.subrange(0, head.len() as int) == head);
}

/// Every message of an error is traced, in its order, with a rule between each two and
/// nothing else.
pub proof fn law_causes_are_parted(messages: Seq<Seq<char>>)
    requires
        messages.len() > 0,
    ensures
        with_rules(messages).len() == 2 * messages.len() - 1,
        forall|i: int| 0 <= i < messages.len() ==> with_rules(messages)[2 * i] == #[trigger] messages[i],
        forall|i: int|
            0 <= i < with_rules(messages).len() && i % 2 == 1 ==> #[trigger] with_rules(messages)[i]
                == CAUSE_RULE@,
    decreases messages.len(),
{
    if messages.len() > 1 {
        let front = messages.drop_last();
        law_causes_are_parted(front);
        let before = with_rules(front);
        let all = with_rules(messages);
        assert(all == before.push(CAUSE_RULE@).push(messages.last()));
        assert forall|i: int| 0 <= i < messages.len() implies all[2 * i] == #[trigger] messages[i] by {
            if i < front.len() {
                assert(before[2 * i] == front[i]);
            }
        }
        assert forall|i: int| 0 <= i < all.len() && i % 2 == 1 implies #[trigger] all[i]
            == CAUSE_RULE@ by {
            if i < before.len() {
                assert(before[i] == CAUSE_RULE@);
            }
        }
    }
}

} // verus!
