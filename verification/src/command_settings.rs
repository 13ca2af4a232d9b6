//! The command line, with the environment behind it.
use vstd::prelude::*;
use vstd::string::*;

use crate::constants::command_line::{args, commands, flags};
use crate::string_map::StringMap;
use crate::{string_map, text};

verus! {

/// The prefix of the variables that stand in for arguments and flags.
pub const ENV_PREFIX: &'static str = "ACTIONS_RUNNER_INPUT_";

/// What the environment says: the variables, and which of them mean `true`.
#[derive(Debug)]
pub struct InputEnvironment {
    pub values: StringMap,
    pub true_names: Vec<String>,
}

/// What a command line says.
pub struct CommandLineView {
    /// The command.
    pub command: Option<Seq<char>>,
    /// The arguments that take a value.
    pub args: Seq<(Seq<char>, Seq<char>)>,
    /// The flags.
    pub flags: Seq<Seq<char>>,
}

/// `s` without the pairs of dashes at its start.
pub open spec fn undashed(s: Seq<char>) -> Seq<char>
    decreases s.len(),
{
    if s.len() >= 2 && s[0] == '-' && s[1] == '-' {
        undashed(s.skip(2))
    } else {
        s
    }
}

/// The argument begins with two dashes.
pub open spec fn dashed(arg: Seq<char>) -> bool {
    arg.len() >= 2 && arg[0] == '-' && arg[1] == '-'
}

/// The name that an argument or a flag goes by.
pub open spec fn key_of(arg: Seq<char>) -> Seq<char> {
    text::lowered(undashed(arg))
}

/// The name is that of an argument that takes a value.
pub open spec fn named_arg(key: Seq<char>) -> bool {
    ||| key == "auth"@
    ||| key == "labels"@
    ||| key == "monitorsocketaddress"@
    ||| key == "name"@
    ||| key == "runnergroup"@
    ||| key == "startuptype"@
    ||| key == "url"@
    ||| key == "username"@
    ||| key == "windowslogonaccount"@
    ||| key == "work"@
    ||| key == "token"@
    ||| key == "pat"@
    ||| key == "windowslogonpassword"@
    ||| key == "jitconfig"@
}

/// Reads the words from the `i`th on. A dashed word that names an argument takes the next
/// word as its value; another dashed word is a flag; the first plain word is the command;
/// the rest is skipped.
pub open spec fn read_words(words: Seq<Seq<char>>, i: int, so_far: CommandLineView) -> CommandLineView
    decreases words.len() - i,
{
    if i < 0 || i >= words.len() {
        so_far
    } else {
        let word = words[i];
        if dashed(word) {
            if named_arg(key_of(word)) && i + 1 < words.len() {
                read_words(
                    words,
                    i + 2,
                    CommandLineView {
                        args: string_map::with_entry(so_far.args, key_of(word), words[i + 1]),
                        ..so_far
                    },
                )
            } else {
                read_words(
                    words,
                    i + 1,
                    CommandLineView { flags: so_far.flags.push(key_of(word)), ..so_far },
                )
            }
        } else if so_far.command is None && !(word.len() > 0 && word[0] == '-') {
            read_words(
                words,
                i + 1,
                CommandLineView { command: Some(text::lowered(word)), ..so_far },
            )
        } else {
            read_words(words, i + 1, so_far)
        }
    }
}

/// What a command line says.
pub open spec fn read_command_line(words: Seq<Seq<char>>) -> CommandLineView {
    read_words(
        words,
        0,
        CommandLineView { command: None, args: Seq::empty(), flags: Seq::empty() },
    )
}

/// The variable that stands in for an argument or a flag.
pub open spec fn variable_of(name: Seq<char>) -> Seq<char> {
    ENV_PREFIX@ + text::uppered(name)
}

/// The value of an argument: from the command line, or else from its variable unless that
/// is empty.
pub open spec fn arg_value(
    args: Seq<(Seq<char>, Seq<char>)>,
    values: Seq<(Seq<char>, Seq<char>)>,
    name: Seq<char>,
) -> Option<Seq<char>> {
    match string_map::value_of(args, text::lowered(name)) {
        Some(v) => Some(v),
        None => match string_map::value_of(values, variable_of(name)) {
            Some(v) => if v.len() > 0 {
                Some(v)
            } else {
                None
            },
            None => None,
        },
    }
}

/// Whether a flag is set: on the command line, or by its variable.
pub open spec fn flag_value(
    flags: Seq<Seq<char>>,
    true_names: Seq<Seq<char>>,
    name: Seq<char>,
) -> bool {
    flags.contains(text::lowered(name)) || true_names.contains(variable_of(name))
}

/// The argument's value is secret.
pub open spec fn secret_arg(key: Seq<char>) -> bool {
    exists|i: int|
        0 <= i < args::secret_names().len() && text::equal_ignoring_ascii_case(
            #[trigger] args::secret_names()[i],
            key,
        )
}

/// An argument as it may be shown.
pub open spec fn shown(entry: (Seq<char>, Seq<char>)) -> (Seq<char>, Seq<char>) {
    (
        entry.0,
        if secret_arg(entry.0) {
            "***"@
        } else {
            entry.1
        },
    )
}

/// The parsed command line.
#[derive(Debug)]
pub struct CommandSettings {
    command: Option<String>,
    args: StringMap,
    flags: Vec<String>,
    raw_args: Vec<String>,
    environment: InputEnvironment,
}

fn strip_dashes(s: &str) -> (r: String)
    ensures
        r@ == undashed(s@),
{
    let v = text::to_chars(s);
    let mut i: usize = 0;
    assert(v@.skip(0) == v@);
    while v.len() - i >= 2 && v[i] == '-' && v[i + 1] == '-'
        invariant
            i <= v@.len(),
            undashed(v@.skip(i as int)) == undashed(v@),
        decreases v@.len() - i,
    {
        assert(v@.skip(i as int).skip(2) == v@.skip(i + 2));
        i = i + 2;
    }
    assert(v@.subrange(i as int, v@.len() as int) == v@.skip(i as int));
    text::from_chars(&v, i, v.len())
}

/// Whether `key` is the name of an argument that takes a value.
pub fn is_named_arg(key: &str) -> (r: bool)
    ensures
        r == named_arg(key@),
{
    text::same(key, "auth") || text::same(key, "labels") || text::same(key, "monitorsocketaddress")
        || text::same(key, "name") || text::same(key, "runnergroup") || text::same(
        key,
        "startuptype",
    ) || text::same(key, "url") || text::same(key, "username") || text::same(
        key,
        "windowslogonaccount",
    ) || text::same(key, "work") || text::same(key, "token") || text::same(key, "pat")
        || text::same(key, "windowslogonpassword") || text::same(key, "jitconfig")
}

fn is_secret_arg(key: &str) -> (r: bool)
    ensures
        r == secret_arg(key@),
{
    let names = args::secrets();
    let ghost texts = names@.map_values(|s: &'static str| s@);
    let mut i: usize = 0;
    while i < names.len()
        invariant
            i <= names@.len(),
            texts == names@.map_values(|s: &'static str| s@),
            texts == args::secret_names(),
            forall|j: int|
                0 <= j < i ==> !text::equal_ignoring_ascii_case(
                    #[trigger] args::secret_names()[j],
                    key@,
                ),
        decreases names@.len() - i,
    {
        assert(texts[i as int] == names@[i as int]@);
        if text::eq_ignore_ascii_case(names[i], key) {
            assert(text::equal_ignoring_ascii_case(args::secret_names()[i as int], key@));
            return true;
        }
        i = i + 1;
    }
    false
}

impl CommandSettings {
    /// The command, the arguments and the flags.
    pub closed spec fn view(&self) -> CommandLineView {
        CommandLineView {
            command: text::view_option(self.command),
            args: self.args.items(),
            flags: text::views(self.flags@),
        }
    }

    /// The variables.
    pub closed spec fn values(&self) -> Seq<(Seq<char>, Seq<char>)> {
        self.environment.values.items()
    }

    /// The variables that mean `true`.
    pub closed spec fn true_names(&self) -> Seq<Seq<char>> {
        text::views(self.environment.true_names@)
    }

    /// The words as they were given.
    pub closed spec fn words(&self) -> Seq<Seq<char>> {
        text::views(self.raw_args@)
    }

    /// Reads a command line, with nothing in the environment.
    pub fn parse_from(args: &[String]) -> (r: Self)
        ensures
            r@ == read_command_line(text::views(args@)),
            r.words() == text::views(args@),
            r.values() == Seq::<(Seq<char>, Seq<char>)>::empty(),
            r.true_names() == Seq::<Seq<char>>::empty(),
    {
        let environment = InputEnvironment { values: StringMap::new(), true_names: Vec::new() };
        assert(text::views(environment.true_names@) == Seq::<Seq<char>>::empty());
        CommandSettings::parse_with(args, environment)
    }

    /// Reads a command line.
    pub fn parse_with(args: &[String], environment: InputEnvironment) -> (r: Self)
        ensures
            r@ == read_command_line(text::views(args@)),
            r.words() == text::views(args@),
            r.values() == environment.values.items(),
            r.true_names() == text::views(environment.true_names@),
    {
        let ghost words = text::views(args@);
        let mut command: Option<String> = None;
        let mut named = StringMap::new();
        let mut set: Vec<String> = Vec::new();
        let mut raw: Vec<String> = Vec::new();
        assert(text::views(set@) == Seq::<Seq<char>>::empty());
        let n: usize = args.len();
        let mut i: usize = 0;
        while i < n
            invariant
                n == args@.len(),
                i <= n,
                words == text::views(args@),
                read_words(
                    words,
                    i as int,
                    CommandLineView {
                        command: text::view_option(command),
                        args: named.items(),
                        flags: text::views(set@),
                    },
                ) == read_command_line(words),
            decreases n - i,
        {
            let arg = args[i].as_str();
            assert(words[i as int] == arg@);
            proof {
                reveal_strlit("--");
                assert("--"@ == seq!['-', '-']);
                reveal_strlit("-");
                assert("-"@ == seq!['-']);
                assert(text::has_prefix(arg@, "--"@) ==> arg@.subrange(0, 2)[0] == arg@[0]
                    && arg@.subrange(0, 2)[1] == arg@[1]);
                assert(dashed(arg@) ==> arg@.subrange(0, 2) == "--"@);
                assert(text::has_prefix(arg@, "-"@) ==> arg@.subrange(0, 1)[0] == arg@[0]);
                assert(arg@.len() > 0 && arg@[0] == '-' ==> arg@.subrange(0, 1) == "-"@);
            }
            if text::starts_with(arg, "--") {
                let key = text::to_lowercase(strip_dashes(arg).as_str());
                if is_named_arg(key.as_str()) && i + 1 < n {
                    assert(words[i + 1] == args@[i + 1]@);
                    named.insert(key, args[i + 1].clone());
                    i = i + 2;
                } else {
                    assert(text::views(set@.push(key)) == text::views(set@).push(key@));
                    set.push(key);
                    i = i + 1;
                }
            } else if command.is_none() && !text::starts_with(arg, "-") {
                command = Some(text::to_lowercase(arg));
                i = i + 1;
            } else {
                i = i + 1;
            }
        }
        let mut j: usize = 0;
        while j < n
            invariant
                n == args@.len(),
                j <= n,
                raw@ == args@.take(j as int),
            decreases n - j,
        {
            raw.push(args[j].clone());
            j = j + 1;
            assert(raw@ == args@.take(j as int));
        }
        assert(args@.take(n as int) == args@);
        CommandSettings { command, args: named, flags: set, raw_args: raw, environment }
    }

    /// The command, if one is given.
    pub fn command(&self) -> (r: Option<&str>)
        ensures
            match r {
                Some(c) => self@.command == Some(c@),
                None => self@.command is None,
            },
    {
        match &self.command {
            Some(c) => Some(c.as_str()),
            None => None,
        }
    }

    fn is_command(&self, name: &str) -> (r: bool)
        ensures
            r == (self@.command == Some(name@)),
    {
        match &self.command {
            Some(c) => text::same(c.as_str(), name),
            None => false,
        }
    }

    /// Whether the runner is to be configured.
    pub fn is_configure(&self) -> (r: bool)
        ensures
            r == (self@.command == Some(commands::CONFIGURE@)),
    {
        self.is_command(commands::CONFIGURE)
    }

    /// Whether the runner is to be removed.
    pub fn is_remove(&self) -> (r: bool)
        ensures
            r == (self@.command == Some(commands::REMOVE@)),
    {
        self.is_command(commands::REMOVE)
    }

    /// Whether the runner is to be run, which is the default.
    pub fn is_run(&self) -> (r: bool)
        ensures
            r == (self@.command is None || self@.command == Some(commands::RUN@)),
    {
        self.command.is_none() || self.is_command(commands::RUN)
    }

    /// Whether the runner is to be warmed up.
    pub fn is_warmup(&self) -> (r: bool)
        ensures
            r == (self@.command == Some(commands::WARMUP@)),
    {
        self.is_command(commands::WARMUP)
    }

    /// The value of an argument, from the command line or else from its variable.
    pub fn get_arg(&self, name: &str) -> (r: Option<String>)
        ensures
            text::view_option(r) == arg_value(self@.args, self.values(), name@),
    {
        let key = text::to_lowercase(name);
        if let Some(value) = self.args.get(key.as_str()) {
            return Some(value.clone());
        }
        let mut variable = ENV_PREFIX.to_owned();
        variable.append(text::to_uppercase(name).as_str());
        match self.environment.values.get(variable.as_str()) {
            Some(value) => if text::is_empty(value.as_str()) {
                None
            } else {
                Some(value.clone())
            },
            None => None,
        }
    }

    /// Whether a flag is set, on the command line or by its variable.
    pub fn get_flag(&self, name: &str) -> (r: bool)
        ensures
            r == flag_value(self@.flags, self.true_names(), name@),
    {
        let key = text::to_lowercase(name);
        if text::holds(&self.flags, key.as_str()) {
            return true;
        }
        let mut variable = ENV_PREFIX.to_owned();
        variable.append(text::to_uppercase(name).as_str());
        text::holds(&self.environment.true_names, variable.as_str())
    }

    /// The URL of the repository, organization or enterprise.
    pub fn get_url(&self) -> (r: Option<String>)
        ensures
            text::view_option(r) == arg_value(self@.args, self.values(), args::URL@),
    {
        self.get_arg(args::URL)
    }

    /// The authentication type.
    pub fn get_auth(&self) -> (r: Option<String>)
        ensures
            text::view_option(r) == arg_value(self@.args, self.values(), args::AUTH@),
    {
        self.get_arg(args::AUTH)
    }

    /// The registration token.
    pub fn get_token(&self) -> (r: Option<String>)
        ensures
            text::view_option(r) == arg_value(self@.args, self.values(), args::TOKEN@),
    {
        self.get_arg(args::TOKEN)
    }

    /// The personal access token.
    pub fn get_pat(&self) -> (r: Option<String>)
        ensures
            text::view_option(r) == arg_value(self@.args, self.values(), args::PAT@),
    {
        self.get_arg(args::PAT)
    }

    /// The runner's name.
    pub fn get_name(&self) -> (r: Option<String>)
        ensures
            text::view_option(r) == arg_value(self@.args, self.values(), args::NAME@),
    {
        self.get_arg(args::NAME)
    }

    /// The work directory.
    pub fn get_work(&self) -> (r: Option<String>)
        ensures
            text::view_option(r) == arg_value(self@.args, self.values(), args::WORK@),
    {
        self.get_arg(args::WORK)
    }

    /// The labels.
    pub fn get_labels(&self) -> (r: Option<String>)
        ensures
            text::view_option(r) == arg_value(self@.args, self.values(), args::LABELS@),
    {
        self.get_arg(args::LABELS)
    }

    /// The runner group.
    pub fn get_runner_group(&self) -> (r: Option<String>)
        ensures
            text::view_option(r) == arg_value(self@.args, self.values(), args::RUNNER_GROUP@),
    {
        self.get_arg(args::RUNNER_GROUP)
    }

    /// The address of the monitor socket.
    pub fn get_monitor_socket_address(&self) -> (r: Option<String>)
        ensures
            text::view_option(r) == arg_value(self@.args, self.values(), args::MONITOR_SOCKET_ADDRESS@),
    {
        self.get_arg(args::MONITOR_SOCKET_ADDRESS)
    }

    /// The startup type.
    pub fn get_startup_type(&self) -> (r: Option<String>)
        ensures
            text::view_option(r) == arg_value(self@.args, self.values(), args::STARTUP_TYPE@),
    {
        self.get_arg(args::STARTUP_TYPE)
    }

    /// The user name.
    pub fn get_user_name(&self) -> (r: Option<String>)
        ensures
            text::view_option(r) == arg_value(self@.args, self.values(), args::USER_NAME@),
    {
        self.get_arg(args::USER_NAME)
    }

    /// The just-in-time configuration.
    pub fn get_jit_config(&self) -> (r: Option<String>)
        ensures
            text::view_option(r) == arg_value(self@.args, self.values(), args::JIT_CONFIG@),
    {
        self.get_arg(args::JIT_CONFIG)
    }

    /// The Windows logon account.
    pub fn get_windows_logon_account(&self) -> (r: Option<String>)
        ensures
            text::view_option(r) == arg_value(self@.args, self.values(), args::WINDOWS_LOGON_ACCOUNT@),
    {
        self.get_arg(args::WINDOWS_LOGON_ACCOUNT)
    }

    /// The Windows logon password.
    pub fn get_windows_logon_password(&self) -> (r: Option<String>)
        ensures
            text::view_option(r) == arg_value(self@.args, self.values(), args::WINDOWS_LOGON_PASSWORD@),
    {
        self.get_arg(args::WINDOWS_LOGON_PASSWORD)
    }

    /// Whether `--check` is set.
    pub fn is_check(&self) -> (r: bool)
        ensures
            r == flag_value(self@.flags, self.true_names(), flags::CHECK@),
    {
        self.get_flag(flags::CHECK)
    }

    /// Whether `--commit` is set.
    pub fn is_commit(&self) -> (r: bool)
        ensures
            r == flag_value(self@.flags, self.true_names(), flags::COMMIT@),
    {
        self.get_flag(flags::COMMIT)
    }

    /// Whether `--ephemeral` is set.
    pub fn is_ephemeral(&self) -> (r: bool)
        ensures
            r == flag_value(self@.flags, self.true_names(), flags::EPHEMERAL@),
    {
        self.get_flag(flags::EPHEMERAL)
    }

    /// Whether `--generateServiceConfig` is set.
    pub fn is_generate_service_config(&self) -> (r: bool)
        ensures
            r == flag_value(self@.flags, self.true_names(), flags::GENERATE_SERVICE_CONFIG@),
    {
        self.get_flag(flags::GENERATE_SERVICE_CONFIG)
    }

    /// Whether `--help` is set.
    pub fn is_help(&self) -> (r: bool)
        ensures
            r == flag_value(self@.flags, self.true_names(), flags::HELP@),
    {
        self.get_flag(flags::HELP)
    }

    /// Whether `--local` is set.
    pub fn is_local(&self) -> (r: bool)
        ensures
            r == flag_value(self@.flags, self.true_names(), flags::LOCAL@),
    {
        self.get_flag(flags::LOCAL)
    }

    /// Whether `--no-default-labels` is set.
    pub fn is_no_default_labels(&self) -> (r: bool)
        ensures
            r == flag_value(self@.flags, self.true_names(), flags::NO_DEFAULT_LABELS@),
    {
        self.get_flag(flags::NO_DEFAULT_LABELS)
    }

    /// Whether `--replace` is set.
    pub fn is_replace(&self) -> (r: bool)
        ensures
            r == flag_value(self@.flags, self.true_names(), flags::REPLACE@),
    {
        self.get_flag(flags::REPLACE)
    }

    /// Whether `--disableupdate` is set.
    pub fn is_disable_update(&self) -> (r: bool)
        ensures
            r == flag_value(self@.flags, self.true_names(), flags::DISABLE_UPDATE@),
    {
        self.get_flag(flags::DISABLE_UPDATE)
    }

    /// Whether `--once` is set.
    pub fn is_once(&self) -> (r: bool)
        ensures
            r == flag_value(self@.flags, self.true_names(), flags::ONCE@),
    {
        self.get_flag(flags::ONCE)
    }

    /// Whether `--runasservice` is set.
    pub fn is_run_as_service(&self) -> (r: bool)
        ensures
            r == flag_value(self@.flags, self.true_names(), flags::RUN_AS_SERVICE@),
    {
        self.get_flag(flags::RUN_AS_SERVICE)
    }

    /// Whether `--unattended` is set.
    pub fn is_unattended(&self) -> (r: bool)
        ensures
            r == flag_value(self@.flags, self.true_names(), flags::UNATTENDED@),
    {
        self.get_flag(flags::UNATTENDED)
    }

    /// Whether `--version` is set.
    pub fn is_version(&self) -> (r: bool)
        ensures
            r == flag_value(self@.flags, self.true_names(), flags::VERSION@),
    {
        self.get_flag(flags::VERSION)
    }

    /// The names of the arguments whose values are secret.
    pub fn secret_arg_names() -> (r: Vec<&'static str>)
        ensures
            r@.map_values(|s: &'static str| s@) == args::secret_names(),
    {
        args::secrets()
    }

    /// The arguments as they may be shown: secret values are masked.
    pub fn sanitized_args(&self) -> (r: StringMap)
        ensures
            r.items() == self@.args.map_values(|e: (Seq<char>, Seq<char>)| shown(e)),
    {
        let ghost items = self.args.items();
        let ghost all = items.map_values(|e: (Seq<char>, Seq<char>)| shown(e));
        let n: usize = self.args.len();
        let mut out = StringMap::new();
        let mut i: usize = 0;
        while i < n
            invariant
                n == items.len(),
                i <= n,
                items == self.args.items(),
                string_map::unique_keys(items),
                all == items.map_values(|e: (Seq<char>, Seq<char>)| shown(e)),
                out.items() == all.take(i as int),
            decreases n - i,
        {
            let key = self.args.key_at(i).clone();
            proof {
                assert(!string_map::has_key(all.take(i as int), key@)) by {
                    if string_map::has_key(all.take(i as int), key@) {
                        let k = choose|k: int|
                            0 <= k < all.take(i as int).len() && (#[trigger] all.take(
                                i as int,
                            )[k]).0 == key@;
                        assert(items[k].0 != items[i as int].0);
                    }
                }
            }
            if is_secret_arg(key.as_str()) {
                out.insert(key, "***".to_owned());
            } else {
                out.insert(key, self.args.value_at(i).clone());
            }
            assert(all.take(i + 1) == all.take(i as int).push(all[i as int]));
            i = i + 1;
        }
        assert(all.take(n as int) == all);
        out
    }
}

// ---------------------------------------------------------------------------
// Laws
// ---------------------------------------------------------------------------

proof fn lemma_read_words(words: Seq<Seq<char>>, i: int, so_far: CommandLineView)
    requires
        string_map::unique_keys(so_far.args),
        forall|k: int| 0 <= k < so_far.args.len() ==> named_arg((#[trigger] so_far.args[k]).0),
    ensures
        ({
            let r = read_words(words, i, so_far);
            &&& string_map::unique_keys(r.args)
            &&& forall|k: int| 0 <= k < r.args.len() ==> named_arg((#[trigger] r.args[k]).0)
            &&& so_far.command is Some ==> r.command == so_far.command
        }),
    decreases words.len() - i,
{
    if 0 <= i < words.len() {
        let word = words[i];
        if dashed(word) {
            if named_arg(key_of(word)) && i + 1 < words.len() {
                let next = string_map::with_entry(so_far.args, key_of(word), words[i + 1]);
                string_map::lemma_with_entry(so_far.args, key_of(word), words[i + 1]);
                assert forall|k: int| 0 <= k < next.len() implies named_arg(
                    (#[trigger] next[k]).0,
                ) by {
                    if k < so_far.args.len() {
                        assert(named_arg(so_far.args[k].0));
                    }
                }
                lemma_read_words(words, i + 2, CommandLineView { args: next, ..so_far });
            } else {
                lemma_read_words(
                    words,
                    i + 1,
                    CommandLineView { flags: so_far.flags.push(key_of(word)), ..so_far },
                );
            }
        } else if so_far.command is None && !(word.len() > 0 && word[0] == '-') {
            lemma_read_words(
                words,
                i + 1,
                CommandLineView { command: Some(text::lowered(word)), ..so_far },
            );
        } else {
            lemma_read_words(words, i + 1, so_far);
        }
    }
}

/// Only the known arguments take a value, each at most one.
pub proof fn law_only_known_args(words: Seq<Seq<char>>)
    ensures
        string_map::unique_keys(read_command_line(words).args),
        forall|k: int|
            0 <= k < read_command_line(words).args.len() ==> named_arg(
                (#[trigger] read_command_line(words).args[k]).0,
            ),
{
    lemma_read_words(
        words,
        0,
        CommandLineView { command: None, args: Seq::empty(), flags: Seq::empty() },
    );
}

/// What may be shown of the arguments holds no value of a secret one, and every other
/// value as it is.
pub proof fn law_shown_hides_secrets(entries: Seq<(Seq<char>, Seq<char>)>, i: int)
    requires
        0 <= i < entries.len(),
    ensures
        ({
            let all = entries.map_values(|e: (Seq<char>, Seq<char>)| shown(e));
            &&& all.len() == entries.len()
            &&& all[i].0 == entries[i].0
            &&& secret_arg(entries[i].0) ==> all[i].1 == "***"@
            &&& !secret_arg(entries[i].0) ==> all[i].1 == entries[i].1
        }),
{
}

/// A value on the command line goes before the environment.
pub proof fn law_command_line_wins(
    args: Seq<(Seq<char>, Seq<char>)>,
    values: Seq<(Seq<char>, Seq<char>)>,
    name: Seq<char>,
)
    requires
        string_map::has_key(args, text::lowered(name)),
    ensures
        arg_value(args, values, name) == string_map::value_of(args, text::lowered(name)),
{
}

/// A thing that can be said on a command line.
pub enum Spoken {
    /// An argument and its value.
    Named(Seq<char>, Seq<char>),
    /// A flag.
    Switch(Seq<char>),
    /// A plain word.
    Plain(Seq<char>),
}

/// The words that say it.
pub open spec fn words_of(said: Spoken) -> Seq<Seq<char>> {
    match said {
        Spoken::Named(name, value) => seq!["--"@ + name, value],
        Spoken::Switch(name) => seq!["--"@ + name],
        Spoken::Plain(word) => seq![word],
    }
}

/// The words of a whole command line.
pub open spec fn all_words(said: Seq<Spoken>) -> Seq<Seq<char>>
    decreases said.len(),
{
    if said.len() == 0 {
        Seq::empty()
    } else {
        words_of(said[0]) + all_words(said.skip(1))
    }
}

/// It can be said so: an argument has a known name, a flag another name, and a plain word
/// does not begin with a dash.
pub open spec fn sayable(said: Spoken) -> bool {
    match said {
        Spoken::Named(name, _) => !dashed(name) && named_arg(text::lowered(name)),
        Spoken::Switch(name) => !dashed(name) && !named_arg(text::lowered(name)),
        Spoken::Plain(word) => !(word.len() > 0 && word[0] == '-'),
    }
}

/// The value that is given last to the argument `key`.
pub open spec fn last_value(said: Seq<Spoken>, key: Seq<char>) -> Option<Seq<char>>
    decreases said.len(),
{
    if said.len() == 0 {
        None
    } else {
        match said.last() {
            Spoken::Named(name, value) => if text::lowered(name) == key {
                Some(value)
            } else {
                last_value(said.drop_last(), key)
            },
            _ => last_value(said.drop_last(), key),
        }
    }
}

/// The flag `key` is among what is said.
pub open spec fn says_flag(said: Seq<Spoken>, key: Seq<char>) -> bool {
    exists|i: int|
        0 <= i < said.len() && (#[trigger] said[i] matches Spoken::Switch(name) && text::lowered(
            name,
        ) == key)
}

proof fn lemma_last_value_front(said: Seq<Spoken>, key: Seq<char>)
    requires
        said.len() > 0,
    ensures
        last_value(said, key) == match last_value(said.skip(1), key) {
            Some(v) => Some(v),
            None => match said[0] {
                Spoken::Named(name, value) => if text::lowered(name) == key {
                    Some(value)
                } else {
                    None
                },
                _ => None,
            },
        },
    decreases said.len(),
{
    if said.len() == 1 {
        assert(said.skip(1).len() == 0);
        assert(said.drop_last().len() == 0);
    } else {
        lemma_last_value_front(said.drop_last(), key);
        assert(said.drop_last().skip(1) == said.skip(1).drop_last());
        assert(said.skip(1).last() == said.last());
        assert(said.drop_last()[0] == said[0]);
    }
}

proof fn lemma_key_of_dashed(name: Seq<char>)
    requires
        !dashed(name),
    ensures
        dashed("--"@ + name),
        key_of("--"@ + name) == text::lowered(name),
{
    reveal_strlit("--");
    assert("--"@ == seq!['-', '-']);
    assert(("--"@ + name).skip(2) == name);
    assert(undashed(name) == name);
    assert(undashed("--"@ + name) == undashed(name));
}

/// What stands before the place where reading begins does not matter.
proof fn lemma_read_words_behind(
    front: Seq<Seq<char>>,
    words: Seq<Seq<char>>,
    i: int,
    so_far: CommandLineView,
)
    requires
        0 <= i <= words.len(),
    ensures
        read_words(front + words, front.len() + i, so_far) == read_words(words, i, so_far),
    decreases words.len() - i,
{
    if i < words.len() {
        let all = front + words;
        let n = front.len() as int;
        let word = words[i];
        assert(all[n + i] == word);
        if dashed(word) {
            if named_arg(key_of(word)) && i + 1 < words.len() {
                assert(all[n + i + 1] == words[i + 1]);
                lemma_read_words_behind(
                    front,
                    words,
                    i + 2,
                    CommandLineView {
                        args: string_map::with_entry(so_far.args, key_of(word), words[i + 1]),
                        ..so_far
                    },
                );
            } else {
                lemma_read_words_behind(
                    front,
                    words,
                    i + 1,
                    CommandLineView { flags: so_far.flags.push(key_of(word)), ..so_far },
                );
            }
        } else if so_far.command is None && !(word.len() > 0 && word[0] == '-') {
            lemma_read_words_behind(
                front,
                words,
                i + 1,
                CommandLineView { command: Some(text::lowered(word)), ..so_far },
            );
        } else {
            lemma_read_words_behind(front, words, i + 1, so_far);
        }
    }
}

proof fn lemma_said_is_read(said: Seq<Spoken>, so_far: CommandLineView)
    requires
        string_map::unique_keys(so_far.args),
        forall|i: int| 0 <= i < said.len() ==> sayable(#[trigger] said[i]),
    ensures
        ({
            let r = read_words(all_words(said), 0, so_far);
            &&& string_map::unique_keys(r.args)
            &&& forall|key: Seq<char>| #[trigger]
                string_map::value_of(r.args, key) == match last_value(said, key) {
                    Some(v) => Some(v),
                    None => string_map::value_of(so_far.args, key),
                }
            &&& forall|key: Seq<char>| #[trigger]
                r.flags.contains(key) <==> so_far.flags.contains(key) || says_flag(said, key)
            &&& so_far.command is Some ==> r.command == so_far.command
            &&& so_far.command is None ==> r.command == first_plain(said)
        }),
    decreases said.len(),
{
    if said.len() > 0 {
        let rest = said.skip(1);
        let more = all_words(rest);
        let first = words_of(said[0]);
        let all = all_words(said);
        assert(sayable(said[0]));
        assert forall|i: int| 0 <= i < rest.len() implies sayable(#[trigger] rest[i]) by {
            assert(rest[i] == said[i + 1]);
        }
        assert(all[0] == first[0]);
        let next = match said[0] {
            Spoken::Named(name, value) => CommandLineView {
                args: string_map::with_entry(so_far.args, text::lowered(name), value),
                ..so_far
            },
            Spoken::Switch(name) => CommandLineView {
                flags: so_far.flags.push(text::lowered(name)),
                ..so_far
            },
            Spoken::Plain(word) => if so_far.command is None {
                CommandLineView { command: Some(text::lowered(word)), ..so_far }
            } else {
                so_far
            },
        };
        match said[0] {
            Spoken::Named(name, value) => {
                lemma_key_of_dashed(name);
                assert(all[1] == value);
                string_map::lemma_with_entry(so_far.args, text::lowered(name), value);
            },
            Spoken::Switch(name) => {
                lemma_key_of_dashed(name);
                let flags = so_far.flags;
                let key = text::lowered(name);
                assert(flags.push(key)[flags.len() as int] == key);
                assert forall|k: Seq<char>| #[trigger]
                    flags.push(key).contains(k) <==> flags.contains(k) || k == key by {
                    if flags.contains(k) {
                        let i = choose|i: int| 0 <= i < flags.len() && flags[i] == k;
                        assert(flags.push(key)[i] == k);
                    }
                }
            },
            Spoken::Plain(word) => {},
        }
        assert(read_words(all, 0, so_far) == read_words(all, first.len() as int, next));
        assert(all == first + more);
        lemma_read_words_behind(first, more, 0, next);
        lemma_said_is_read(rest, next);
        let r = read_words(all, 0, so_far);
        assert forall|key: Seq<char>| #[trigger] string_map::value_of(r.args, key)
            == match last_value(said, key) {
            Some(v) => Some(v),
            None => string_map::value_of(so_far.args, key),
        } by {
            lemma_last_value_front(said, key);
        }
        assert forall|key: Seq<char>| #[trigger]
            r.flags.contains(key) <==> so_far.flags.contains(key) || says_flag(said, key) by {
            if says_flag(said, key) {
                let i = choose|i: int|
                    0 <= i < said.len() && (#[trigger] said[i] matches Spoken::Switch(name)
                        && text::lowered(name) == key);
                if i > 0 {
                    assert(rest[i - 1] == said[i]);
                    assert(says_flag(rest, key));
                }
            }
            if says_flag(rest, key) {
                let i = choose|i: int|
                    0 <= i < rest.len() && (#[trigger] rest[i] matches Spoken::Switch(name)
                        && text::lowered(name) == key);
                assert(said[i + 1] == rest[i]);
            }
        }
    }
}

/// The first plain word, in lower case.
pub open spec fn first_plain(said: Seq<Spoken>) -> Option<Seq<char>>
    decreases said.len(),
{
    if said.len() == 0 {
        None
    } else {
        match said[0] {
            Spoken::Plain(word) => Some(text::lowered(word)),
            _ => first_plain(said.skip(1)),
        }
    }
}

/// A command line reads as what was said on it, in whatever order: each argument has the
/// value given last, just the flags that are there are set, and the first plain word is the
/// command.
pub proof fn law_reads_what_was_said(said: Seq<Spoken>, key: Seq<char>)
    requires
        forall|i: int| 0 <= i < said.len() ==> sayable(#[trigger] said[i]),
    ensures
        ({
            let r = read_command_line(all_words(said));
            &&& string_map::value_of(r.args, key) == last_value(said, key)
            &&& r.flags.contains(key) <==> says_flag(said, key)
            &&& r.command == first_plain(said)
        }),
{
    let none = CommandLineView { command: None, args: Seq::empty(), flags: Seq::empty() };
    lemma_said_is_read(said, none);
    assert(!string_map::has_key(none.args, key));
}

/// An argument that is given once, anywhere on the command line, has that value.
pub proof fn law_given_value_is_read(
    before: Seq<Spoken>,
    name: Seq<char>,
    value: Seq<char>,
    after: Seq<Spoken>,
    values: Seq<(Seq<char>, Seq<char>)>,
)
    requires
        sayable(Spoken::Named(name, value)),
        forall|i: int| 0 <= i < before.len() ==> sayable(#[trigger] before[i]),
        forall|i: int| 0 <= i < after.len() ==> sayable(#[trigger] after[i]),
        last_value(after, text::lowered(name)) is None,
    ensures
        arg_value(
            read_command_line(all_words(before + seq![Spoken::Named(name, value)] + after)).args,
            values,
            name,
        ) == Some(value),
{
    let said = before + seq![Spoken::Named(name, value)] + after;
    assert forall|i: int| 0 <= i < said.len() implies sayable(#[trigger] said[i]) by {
        if i < before.len() {
            assert(said[i] == before[i]);
        } else if i > before.len() {
            assert(said[i] == after[i - before.len() - 1]);
        }
    }
    law_reads_what_was_said(said, text::lowered(name));
    lemma_last_value_behind(before.push(Spoken::Named(name, value)), after, text::lowered(name));
    assert(before.push(Spoken::Named(name, value)) + after == said);
    assert(before.push(Spoken::Named(name, value)).last() == Spoken::Named(name, value));
}

proof fn lemma_last_value_behind(before: Seq<Spoken>, after: Seq<Spoken>, key: Seq<char>)
    requires
        last_value(after, key) is None,
    ensures
        last_value(before + after, key) == last_value(before, key),
    decreases after.len(),
{
    let said = before + after;
    if after.len() > 0 {
        assert(said.last() == after.last());
        assert(said.drop_last() == before + after.drop_last());
        lemma_last_value_behind(before, after.drop_last(), key);
    } else {
        assert(said == before);
    }
}

/// The last word cannot take a value: an argument's name there counts as a flag.
pub proof fn law_last_name_is_a_flag(name: Seq<char>)
    requires
        !dashed(name),
    ensures
        ({
            let r = read_command_line(seq!["--"@ + name]);
            &&& r.args.len() == 0
            &&& r.flags == seq![text::lowered(name)]
            &&& r.command is None
        }),
{
    lemma_key_of_dashed(name);
    let words = seq!["--"@ + name];
    let none = CommandLineView { command: None, args: Seq::empty(), flags: Seq::empty() };
    let next = CommandLineView { flags: none.flags.push(text::lowered(name)), ..none };
    assert(read_words(words, 1, next) == next);
    assert(none.flags.push(text::lowered(name)) == seq![text::lowered(name)]);
}

/// Where the command line does not give an argument, its variable does, unless that is
/// empty; and where neither does, there is none.
pub proof fn law_environment_fills_in(
    args: Seq<(Seq<char>, Seq<char>)>,
    values: Seq<(Seq<char>, Seq<char>)>,
    name: Seq<char>,
    v: Seq<char>,
)
    requires
        !string_map::has_key(args, text::lowered(name)),
    ensures
        ({
            let variable = "ACTIONS_RUNNER_INPUT_"@ + text::uppered(name);
            &&& arg_value(args, values, name) == Some(v) <==> v.len() > 0 && string_map::value_of(
                values,
                variable,
            ) == Some(v)
        }),
{
}

/// A flag is set by the command line alone, by its variable alone, or by both; and by
/// nothing else.
pub proof fn law_flag_is_set_by_either(
    flags: Seq<Seq<char>>,
    true_names: Seq<Seq<char>>,
    name: Seq<char>,
)
    ensures
        flags.contains(text::lowered(name)) ==> flag_value(flags, true_names, name),
        true_names.contains("ACTIONS_RUNNER_INPUT_"@ + text::uppered(name)) ==> flag_value(
            flags,
            true_names,
            name,
        ),
        !flags.contains(text::lowered(name)) && !true_names.contains(
            "ACTIONS_RUNNER_INPUT_"@ + text::uppered(name),
        ) ==> !flag_value(flags, true_names, name),
{
}

/// Every argument that can be asked for takes a value.
pub proof fn law_arguments_take_values()
    ensures
        named_arg(args::AUTH@),
        named_arg(args::LABELS@),
        named_arg(args::MONITOR_SOCKET_ADDRESS@),
        named_arg(args::NAME@),
        named_arg(args::RUNNER_GROUP@),
        named_arg(args::STARTUP_TYPE@),
        named_arg(args::URL@),
        named_arg(args::USER_NAME@),
        named_arg(args::WINDOWS_LOGON_ACCOUNT@),
        named_arg(args::WORK@),
        named_arg(args::TOKEN@),
        named_arg(args::PAT@),
        named_arg(args::WINDOWS_LOGON_PASSWORD@),
        named_arg(args::JIT_CONFIG@),
{
}

/// Tokens, passwords and just-in-time configurations are secret, in whatever case their
/// names are written.
pub proof fn law_credentials_are_secret(key: Seq<char>)
    ensures
        secret_arg(key) <==> {
            ||| text::equal_ignoring_ascii_case("pat"@, key)
            ||| text::equal_ignoring_ascii_case("token"@, key)
            ||| text::equal_ignoring_ascii_case("windowslogonpassword"@, key)
            ||| text::equal_ignoring_ascii_case("jitconfig"@, key)
        },
{
    let names = args::secret_names();
    assert(names[0] == "pat"@);
    assert(names[1] == "token"@);
    assert(names[2] == "windowslogonpassword"@);
    assert(names[3] == "jitconfig"@);
}

/// Dashes in front of a name go in pairs; the rest of the name stays.
pub proof fn law_dashes_go_in_pairs(name: Seq<char>)
    ensures
        undashed("--"@ + name) == undashed(name),
        !dashed(name) ==> undashed(name) == name,
        dashed("--"@ + name),
{
    reveal_strlit("--");
    assert("--"@ == seq!['-', '-']);
    assert(("--"@ + name).skip(2) == name);
}

} // verus!
