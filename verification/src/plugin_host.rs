//! The process that runs one plugin: its arguments, and the lines that it writes.
use vstd::prelude::*;
use vstd::string::*;

use crate::{action_command, number, text};

verus! {

// ---------------------------------------------------------------------------
// Lines
// ---------------------------------------------------------------------------

/// The code of `;`, carriage return, line feed or `]`; any other character itself.
pub open spec fn line_code(c: char) -> Seq<char> {
    if c == ';' {
        "%3B"@
    } else if c == '\r' {
        "%0D"@
    } else if c == '\n' {
        "%0A"@
    } else if c == ']' {
        "%5D"@
    } else {
        seq![c]
    }
}

/// `s` with each character replaced by its code. Percent signs stay as they are.
pub open spec fn line_escaped(s: Seq<char>) -> Seq<char>
    decreases s.len(),
{
    if s.len() == 0 {
        s
    } else {
        line_escaped(s.drop_last()) + line_code(s.last())
    }
}

/// Writes `;`, carriage return, line feed and `]` as codes.
pub fn escape(input: &str) -> (r: String)
    ensures
        r@ == line_escaped(input@),
{
    let v = text::to_chars(input);
    let mut out = String::new();
    let mut i: usize = 0;
    while i < v.len()
        invariant
            i <= v@.len(),
            out@ == line_escaped(v@.take(i as int)),
        decreases v@.len() - i,
    {
        assert(v@.take(i + 1).drop_last() == v@.take(i as int));
        let c = v[i];
        if c == ';' {
            out.append("%3B");
        } else if c == '\r' {
            out.append("%0D");
        } else if c == '\n' {
            out.append("%0A");
        } else if c == ']' {
            out.append("%5D");
        } else {
            out.push(c);
            assert(line_escaped(v@.take(i as int)).push(c) == line_escaped(v@.take(i as int))
                + seq![c]);
        }
        i = i + 1;
    }
    assert(v@.take(v@.len() as int) == v@);
    out
}

/// A line that the worker reads as a command.
pub open spec fn command_line(name: Seq<char>, message: Seq<char>) -> Seq<char> {
    "##["@ + name + "]"@ + line_escaped(message)
}

fn write_command(name: &str, message: &str) -> (r: String)
    ensures
        r@ == command_line(name@, message@),
{
    let mut s = "##[".to_owned();
    s.append(name);
    s.append("]");
    s.append(escape(message).as_str());
    s
}

/// The lines of a message, with either kind of line end.
pub open spec fn message_lines(message: Seq<char>) -> Seq<Seq<char>> {
    text::pieces(text::replaced(message, "\r\n"@, "\n"@), '\n')
}

/// Writes what a plugin reports, as lines that the worker reads.
#[derive(Debug)]
pub struct PluginTraceWriter {
    debug_enabled: bool,
}

impl PluginTraceWriter {
    /// Whether debug lines are written.
    pub closed spec fn debug(self) -> bool {
        self.debug_enabled
    }

    /// A writer.
    pub fn new(debug_enabled: bool) -> (r: Self)
        ensures
            r.debug() == debug_enabled,
    {
        PluginTraceWriter { debug_enabled }
    }

    /// The line of a message: a debug command where debugging is on, else the message itself.
    pub fn info(&self, message: &str) -> (r: String)
        ensures
            r@ == if self.debug() {
                command_line("debug"@, message@)
            } else {
                line_escaped(message@)
            },
    {
        if self.debug_enabled {
            write_command("debug", message)
        } else {
            escape(message)
        }
    }

    /// The lines of a detailed message: a debug command for each of its lines where debugging
    /// is on, else none.
    pub fn verbose(&self, message: &str) -> (r: Vec<String>)
        ensures
            text::views(r@) == if self.debug() {
                message_lines(message@).map_values(|l: Seq<char>| command_line("debug"@, l))
            } else {
                Seq::empty()
            },
    {
        let mut out: Vec<String> = Vec::new();
        if !self.debug_enabled {
            assert(text::views(out@) =~= Seq::empty());
            return out;
        }
        proof {
            reveal_strlit("\r\n");
        }
        let unix = text::replace(message, "\r\n", "\n");
        let lines = text::split(unix.as_str(), '\n');
        let ghost all = text::views(lines@);
        let mut i: usize = 0;
        while i < lines.len()
            invariant
                i <= lines@.len(),
                all == text::views(lines@),
                text::views(out@) == all.take(i as int).map_values(
                    |l: Seq<char>| command_line("debug"@, l),
                ),
            decreases lines@.len() - i,
        {
            let ghost before = out@;
            out.push(write_command("debug", lines[i].as_str()));
            assert(all[i as int] == lines@[i as int]@);
            assert(text::views(out@) =~= text::views(before).push(
                command_line("debug"@, all[i as int]),
            ));
            assert(all.take(i + 1) =~= all.take(i as int).push(all[i as int]));
            assert(text::views(out@) =~= all.take(i + 1).map_values(
                |l: Seq<char>| command_line("debug"@, l),
            ));
            i = i + 1;
        }
        assert(all.take(all.len() as int) =~= all);
        out
    }

    /// The line of a warning.
    pub fn warning(&self, message: &str) -> (r: String)
        ensures
            r@ == command_line("warning"@, message@),
    {
        write_command("warning", message)
    }

    /// The line of an error.
    pub fn error(&self, message: &str) -> (r: String)
        ensures
            r@ == command_line("error"@, message@),
    {
        write_command("error", message)
    }
}

// ---------------------------------------------------------------------------
// Plugins
// ---------------------------------------------------------------------------

/// The plugins that there are.
#[derive(Debug, Clone, Copy, PartialEq, Eq, Structural)]
pub enum PluginKind {
    PublishArtifact,
    DownloadArtifact,
}

/// The name of a plugin's type: what stands before the first comma, without white space at
/// its ends.
pub open spec fn type_part(name: Seq<char>) -> Seq<char> {
    text::trimmed(text::pieces(name, ',')[0])
}

/// The plugin of a name.
pub open spec fn plugin_of(name: Seq<char>) -> Option<PluginKind> {
    let part = type_part(name);
    if part == "GitHub.Runner.Plugins.Artifact.PublishArtifact"@ || part == "PublishArtifact"@ {
        Some(PluginKind::PublishArtifact)
    } else if part == "GitHub.Runner.Plugins.Artifact.DownloadArtifact"@ || part
        == "DownloadArtifact"@ {
        Some(PluginKind::DownloadArtifact)
    } else {
        None
    }
}

/// Finds a plugin by the name of its type, which the name of its assembly may follow.
pub fn resolve_plugin(name: &str) -> (r: Option<PluginKind>)
    ensures
        r == plugin_of(name@),
{
    proof {
        reveal_strlit("GitHub.Runner.Plugins.Artifact.PublishArtifact");
        reveal_strlit("GitHub.Runner.Plugins.Artifact.DownloadArtifact");
        reveal_strlit("PublishArtifact");
        reveal_strlit("DownloadArtifact");
    }
    let parts = text::split(name, ',');
    assert(text::views(parts@).len() > 0);
    assert(text::views(parts@)[0] == parts@[0]@);
    let part = text::trim(parts[0].as_str());
    if text::same(part.as_str(), "GitHub.Runner.Plugins.Artifact.PublishArtifact") || text::same(
        part.as_str(),
        "PublishArtifact",
    ) {
        Some(PluginKind::PublishArtifact)
    } else if text::same(part.as_str(), "GitHub.Runner.Plugins.Artifact.DownloadArtifact")
        || text::same(part.as_str(), "DownloadArtifact") {
        Some(PluginKind::DownloadArtifact)
    } else {
        None
    }
}

// ---------------------------------------------------------------------------
// Arguments
// ---------------------------------------------------------------------------

/// Why the process does not run a plugin.
#[derive(Debug)]
pub enum HostError {
    /// There are not two arguments but this many.
    WrongCount(u64),
    UnsupportedType(String),
    EmptyName,
    EmptyContext,
    UnknownPlugin(String),
}

/// Why the process does not run a plugin.
pub enum HostErrorView {
    WrongCount(int),
    UnsupportedType(Seq<char>),
    EmptyName,
    EmptyContext,
    UnknownPlugin(Seq<char>),
}

impl HostError {
    pub open spec fn view(&self) -> HostErrorView {
        match *self {
            HostError::WrongCount(n) => HostErrorView::WrongCount(n as int),
            HostError::UnsupportedType(t) => HostErrorView::UnsupportedType(t@),
            HostError::EmptyName => HostErrorView::EmptyName,
            HostError::EmptyContext => HostErrorView::EmptyContext,
            HostError::UnknownPlugin(n) => HostErrorView::UnknownPlugin(n@),
        }
    }

    /// What is told of the error.
    pub fn message(&self) -> (r: String)
        ensures
            r@ == match self@ {
                HostErrorView::WrongCount(n) =>
                    "Usage: Runner.PluginHost <plugin_type> <assembly_qualified_name>\nExpected 2 arguments, got "@
                    + number::decimal(n),
                HostErrorView::UnsupportedType(t) => "Unsupported plugin type: "@ + t,
                HostErrorView::EmptyName => "Assembly qualified name must not be empty"@,
                HostErrorView::EmptyContext => "Execution context from stdin must not be empty"@,
                HostErrorView::UnknownPlugin(n) => "Unknown plugin type: "@ + n,
            },
    {
        match self {
            HostError::WrongCount(n) => {
                let mut s =
                    "Usage: Runner.PluginHost <plugin_type> <assembly_qualified_name>\nExpected 2 arguments, got ".to_owned();
                s.append(number::u64_text(*n).as_str());
                s
            },
            HostError::UnsupportedType(t) => {
                let mut s = "Unsupported plugin type: ".to_owned();
                s.append(t.as_str());
                s
            },
            HostError::EmptyName => "Assembly qualified name must not be empty".to_owned(),
            HostError::EmptyContext => "Execution context from stdin must not be empty".to_owned(),
            HostError::UnknownPlugin(n) => {
                let mut s = "Unknown plugin type: ".to_owned();
                s.append(n.as_str());
                s
            },
        }
    }
}

/// What is wrong with the words of the command line, the program's name first.
pub open spec fn argument_verdict(args: Seq<Seq<char>>) -> Option<HostErrorView> {
    if args.len() != 3 {
        Some(HostErrorView::WrongCount(args.len() - 1))
    } else if !text::equal_ignoring_ascii_case(args[1], "action"@) {
        Some(HostErrorView::UnsupportedType(args[1]))
    } else if args[2].len() == 0 {
        Some(HostErrorView::EmptyName)
    } else {
        None
    }
}

/// The name of the plugin among the words of the command line, the program's name first.
pub fn check_arguments(args: &Vec<String>) -> (r: Result<String, HostError>)
    requires
        args@.len() > 0,
    ensures
        match r {
            Ok(name) => {
                &&& argument_verdict(text::views(args@)) is None
                &&& name@ == args@[2]@
            },
            Err(e) => argument_verdict(text::views(args@)) == Some(e@),
        },
{
    if args.len() != 3 {
        return Err(HostError::WrongCount((args.len() - 1) as u64));
    }
    assert(text::views(args@)[1] == args@[1]@ && text::views(args@)[2] == args@[2]@);
    proof {
        reveal_strlit("action");
    }
    if !text::eq_ignore_ascii_case(args[1].as_str(), "action") {
        return Err(HostError::UnsupportedType(args[1].clone()));
    }
    if text::is_empty(args[2].as_str()) {
        return Err(HostError::EmptyName);
    }
    Ok(args[2].clone())
}

/// The execution context in the line that was read. White space at its end is dropped.
pub fn context_text(line: &str) -> (r: Result<String, HostError>)
    ensures
        match r {
            Ok(context) => context@ == text::trimmed_end(line@) && context@.len() > 0,
            Err(e) => e@ == HostErrorView::EmptyContext && text::trimmed_end(line@).len() == 0,
        },
{
    let context = text::trim_end(line);
    if text::is_empty(context.as_str()) {
        Err(HostError::EmptyContext)
    } else {
        Ok(context)
    }
}

/// The plugin to run.
pub fn choose_plugin(name: &str) -> (r: Result<PluginKind, HostError>)
    ensures
        match r {
            Ok(kind) => plugin_of(name@) == Some(kind),
            Err(e) => plugin_of(name@) is None && e@ == HostErrorView::UnknownPlugin(name@),
        },
{
    match resolve_plugin(name) {
        Some(kind) => Ok(kind),
        None => Err(HostError::UnknownPlugin(name.to_owned())),
    }
}

// ---------------------------------------------------------------------------
// Laws
// ---------------------------------------------------------------------------

proof fn lemma_line_is_escaped(s: Seq<char>)
    requires
        !s.contains('%'),
    ensures
        line_escaped(s) == action_command::escaped(s),
    decreases s.len(),
{
    action_command::lemma_escaped_by_character(s);
    if s.len() > 0 {
        assert(s.contains(s[s.len() - 1]));
        assert forall|i: int| 0 <= i < s.drop_last().len() implies s.drop_last()[i] != '%' by {
            assert(s.contains(s[i]));
        }
        lemma_line_is_escaped(s.drop_last());
    }
}

/// The worker reads a command line back: it finds the command's name, no properties and the
/// message. A percent sign in the message may be taken for the start of a code.
pub proof fn law_line_reads_back(
    name: Seq<char>,
    message: Seq<char>,
    registered: Seq<Seq<char>>,
)
    requires
        registered.contains(name),
        !name.contains(' '),
        !name.contains(']'),
        !message.contains('%'),
    ensures
        action_command::parsed_v1(command_line(name, message), registered) == Some(
            (name, Seq::<(Seq<char>, Seq<char>)>::empty(), message),
        ),
{
    let none = Seq::<(Seq<char>, Seq<char>)>::empty();
    lemma_line_is_escaped(message);
    action_command::law_v1_reads_back((name, none, message), registered);
    assert(none.map_values(
        |p: (Seq<char>, Seq<char>)| action_command::written_property(p),
    ).len() == 0);
}

/// A line that is written never holds a line end, and after its command no `]` and no `;`.
pub proof fn law_line_is_one_line(s: Seq<char>)
    ensures
        !line_escaped(s).contains('\n'),
        !line_escaped(s).contains('\r'),
        !line_escaped(s).contains(']'),
        !line_escaped(s).contains(';'),
    decreases s.len(),
{
    if s.len() > 0 {
        law_line_is_one_line(s.drop_last());
        reveal_strlit("%3B");
        reveal_strlit("%0D");
        reveal_strlit("%0A");
        reveal_strlit("%5D");
        let front = line_escaped(s.drop_last());
        let code = line_code(s.last());
        assert forall|i: int| 0 <= i < line_escaped(s).len() implies line_escaped(s)[i] != '\n'
            && line_escaped(s)[i] != '\r' && line_escaped(s)[i] != ']' && line_escaped(s)[i]
            != ';' by {
            if i < front.len() {
                assert(front.contains(front[i]));
            } else {
                assert(line_escaped(s)[i] == code[i - front.len()]);
            }
        }
    }
}

proof fn lemma_line_ends_turned(lines: Seq<Seq<char>>)
    requires
        lines.len() > 0,
        forall|i: int|
            0 <= i < lines.len() ==> !(#[trigger] lines[i]).contains('\r')
                && !lines[i].contains('\n'),
    ensures
        text::replaced(text::joined(lines, "\r\n"@), "\r\n"@, "\n"@) == text::joined(
            lines,
            "\n"@,
        ),
    decreases lines.len(),
{
    reveal_strlit("\r\n");
    reveal_strlit("\n");
    let pat = "\r\n"@;
    let rep = "\n"@;
    assert(pat == seq!['\r', '\n']);
    if lines.len() == 1 {
        let line = lines[0];
        text::law_replaced_at_first(line, pat, rep);
        text::law_cut_is_first(line, pat);
        if let Some((before, after)) = text::cut(line, pat) {
            assert(line[before.len() as int] == '\r');
        }
    } else {
        let rest = lines.skip(1);
        assert forall|i: int| 0 <= i < rest.len() implies !(#[trigger] rest[i]).contains('\r')
            && !rest[i].contains('\n') by {
            assert(rest[i] == lines[i + 1]);
        }
        lemma_line_ends_turned(rest);
        text::law_joined_front(lines, pat);
        text::law_joined_front(lines, rep);
        let line = lines[0];
        let tail = text::joined(rest, pat);
        let whole = line + pat + tail;
        assert forall|i: int| 0 <= i < line.len() implies !text::occurs_at(whole, pat, i) by {
            if text::occurs_at(whole, pat, i) {
                assert(whole.subrange(i, i + 2)[0] == whole[i]);
                assert(line[i] == '\r');
            }
        }
        text::law_cut_at(line, pat, tail);
        text::law_replaced_at_first(whole, pat, rep);
    }
}

/// The lines of a message are found again, with either kind of line end between them.
pub proof fn law_lines_are_found(lines: Seq<Seq<char>>)
    requires
        lines.len() > 0,
        forall|i: int|
            0 <= i < lines.len() ==> !(#[trigger] lines[i]).contains('\r')
                && !lines[i].contains('\n'),
    ensures
        message_lines(text::joined(lines, "\n"@)) == lines,
        message_lines(text::joined(lines, "\r\n"@)) == lines,
{
    reveal_strlit("\r\n");
    reveal_strlit("\n");
    assert("\n"@ == seq!['\n']);
    assert("\r\n"@ == seq!['\r', '\n']);
    lemma_line_ends_turned(lines);
    text::law_pieces_of_joined(lines, '\n');
    text::law_joined_holds_no_other(lines, '\n', '\r');
    let plain = text::joined(lines, "\n"@);
    text::law_replaced_at_first(plain, "\r\n"@, "\n"@);
    text::law_cut_is_first(plain, "\r\n"@);
    if let Some((before, after)) = text::cut(plain, "\r\n"@) {
        assert(plain[before.len() as int] == '\r');
    }
}

/// A plugin is found by the name of its type, short or in full; white space around it and the
/// name of an assembly behind it do not matter.
pub proof fn law_plugin_names(
    before: Seq<char>,
    name: Seq<char>,
    after: Seq<char>,
    assembly: Seq<char>,
)
    requires
        text::blank(before),
        text::blank(after),
        !name.contains(','),
        name.len() > 0 ==> !text::white_space(name[0]) && !text::white_space(name.last()),
    ensures
        plugin_of(before + name + after) == plugin_of(name),
        plugin_of(before + name + after + ","@ + assembly) == plugin_of(name),
        plugin_of(name) == Some(PluginKind::PublishArtifact) <==> name
            == "GitHub.Runner.Plugins.Artifact.PublishArtifact"@ || name == "PublishArtifact"@,
        plugin_of(name) == Some(PluginKind::DownloadArtifact) <==> name
            == "GitHub.Runner.Plugins.Artifact.DownloadArtifact"@ || name == "DownloadArtifact"@,
{
    reveal_strlit(",");
    assert(","@ == seq![',']);
    let front = before + name + after;
    assert(!front.contains(',')) by {
        if front.contains(',') {
            let i = choose|i: int| 0 <= i < front.len() && front[i] == ',';
            if i < before.len() {
                assert(text::white_space(before[i]));
            } else if i < before.len() + name.len() {
                assert(name[i - before.len()] == ',');
            } else {
                assert(text::white_space(after[i - before.len() - name.len()]));
            }
        }
    }
    text::law_trimmed_drops(before, name, after);
    let none = Seq::<char>::empty();
    text::law_trimmed_drops(none, name, none);
    assert(none + name + none == name);
    lemma_first_piece(name);
    lemma_first_piece(front);
    lemma_first_piece_before(front, assembly);
    reveal_strlit("GitHub.Runner.Plugins.Artifact.PublishArtifact");
    reveal_strlit("PublishArtifact");
    reveal_strlit("GitHub.Runner.Plugins.Artifact.DownloadArtifact");
    reveal_strlit("DownloadArtifact");
    assert("GitHub.Runner.Plugins.Artifact.PublishArtifact"@.len() == 46);
    assert("PublishArtifact"@.len() == 15);
    assert("GitHub.Runner.Plugins.Artifact.DownloadArtifact"@.len() == 47);
    assert("DownloadArtifact"@.len() == 16);
}

proof fn lemma_first_piece(s: Seq<char>)
    requires
        !s.contains(','),
    ensures
        text::pieces(s, ',')[0] == s,
{
    text::law_pieces_of_joined(seq![s], ',');
    assert(text::joined(seq![s], seq![',']) == s);
}

proof fn lemma_first_piece_before(s: Seq<char>, rest: Seq<char>)
    requires
        !s.contains(','),
    ensures
        text::pieces(s + seq![','] + rest, ',')[0] == s,
{
    let whole = s + seq![','] + rest;
    text::lemma_first_index(whole, ',');
    let i = text::first_index(whole, ',');
    assert(whole[s.len() as int] == ',');
    assert(i == s.len()) by {
        if i < s.len() {
            assert(s[i] == ',');
        }
    }
    assert(whole.take(i) == s);
}

/// A command line is accepted if and only if it has two words behind the program's name, the
/// first says `action`, in any case, and the second is not empty. The first thing that is
/// wrong is what is reported.
pub proof fn law_accepted_arguments(args: Seq<Seq<char>>)
    ensures
        argument_verdict(args) is None <==> args.len() == 3 && text::equal_ignoring_ascii_case(
            args[1],
            "action"@,
        ) && args[2].len() > 0,
        args.len() != 3 ==> argument_verdict(args) == Some(
            HostErrorView::WrongCount(args.len() - 1),
        ),
        args.len() == 3 && !text::equal_ignoring_ascii_case(args[1], "action"@)
            ==> argument_verdict(args) == Some(HostErrorView::UnsupportedType(args[1])),
{
}

} // verus!
