//! Workflow commands, in both of their written forms:
//! `##[command key=value;key2=value2]data` and `::command key=value,key2=value2::data`.
use vstd::prelude::*;

use crate::string_map::StringMap;
use crate::{string_map, text};

verus! {

/// The prefix of a command of the first form.
pub const V1_PREFIX: &'static str = "##[";

/// The delimiter of a command of the second form, before and after the command info.
pub const V2_COMMAND_KEY: &'static str = "::";

/// A workflow command.
#[derive(Debug)]
pub struct ActionCommand {
    /// The command's name, such as `error` or `add-mask`.
    pub command: String,
    /// The properties attached to the command.
    pub properties: StringMap,
    /// The text that the command carries.
    pub data: String,
}

/// What a command says: its name, its properties and its data.
pub type CommandView = (Seq<char>, Seq<(Seq<char>, Seq<char>)>, Seq<char>);

impl ActionCommand {
    pub open spec fn view(&self) -> CommandView {
        (self.command@, self.properties.items(), self.data@)
    }
}

// ---------------------------------------------------------------------------
// Escaping
// ---------------------------------------------------------------------------

/// `s` with `%`, `]`, line feed, carriage return and `;` written as `%XX`.
/// `%` is rewritten first, so that the percent signs of the codes stay.
pub open spec fn escaped(s: Seq<char>) -> Seq<char> {
    let s = text::replaced(s, "%"@, "%25"@);
    let s = text::replaced(s, "]"@, "%5D"@);
    let s = text::replaced(s, "\n"@, "%0A"@);
    let s = text::replaced(s, "\r"@, "%0D"@);
    text::replaced(s, ";"@, "%3B"@)
}

/// `s` with the codes of `;`, carriage return, line feed, `]` and `%` turned back,
/// `%` last.
pub open spec fn unescaped(s: Seq<char>) -> Seq<char> {
    let s = text::replaced(s, "%3B"@, ";"@);
    let s = text::replaced(s, "%0D"@, "\r"@);
    let s = text::replaced(s, "%0A"@, "\n"@);
    let s = text::replaced(s, "%5D"@, "]"@);
    text::replaced(s, "%25"@, "%"@)
}

/// `s` with the codes of carriage return, line feed, `:`, `,` and `%` turned back,
/// `%` last.
pub open spec fn unescaped_property(s: Seq<char>) -> Seq<char> {
    let s = text::replaced(s, "%0D"@, "\r"@);
    let s = text::replaced(s, "%0A"@, "\n"@);
    let s = text::replaced(s, "%3A"@, ":"@);
    let s = text::replaced(s, "%2C"@, ","@);
    text::replaced(s, "%25"@, "%"@)
}

/// `s` with the codes of carriage return, line feed and `%` turned back, `%` last.
pub open spec fn unescaped_data(s: Seq<char>) -> Seq<char> {
    let s = text::replaced(s, "%0D"@, "\r"@);
    let s = text::replaced(s, "%0A"@, "\n"@);
    text::replaced(s, "%25"@, "%"@)
}

/// Turns back the codes that a command of the first form uses.
pub fn unescape(escaped: &str) -> (r: String)
    ensures
        r@ == unescaped(escaped@),
{
    proof {
        reveal_strlit("%3B");
        reveal_strlit("%0D");
        reveal_strlit("%0A");
        reveal_strlit("%5D");
        reveal_strlit("%25");
    }
    let s = text::replace(escaped, "%3B", ";");
    let s = text::replace(s.as_str(), "%0D", "\r");
    let s = text::replace(s.as_str(), "%0A", "\n");
    let s = text::replace(s.as_str(), "%5D", "]");
    text::replace(s.as_str(), "%25", "%")
}

/// Turns back the codes that a property of a command of the second form uses.
pub fn unescape_property(escaped: &str) -> (r: String)
    ensures
        r@ == unescaped_property(escaped@),
{
    proof {
        reveal_strlit("%0D");
        reveal_strlit("%0A");
        reveal_strlit("%3A");
        reveal_strlit("%2C");
        reveal_strlit("%25");
    }
    let s = text::replace(escaped, "%0D", "\r");
    let s = text::replace(s.as_str(), "%0A", "\n");
    let s = text::replace(s.as_str(), "%3A", ":");
    let s = text::replace(s.as_str(), "%2C", ",");
    text::replace(s.as_str(), "%25", "%")
}

/// Turns back the codes that the data of a command of the second form uses.
pub fn unescape_data(escaped: &str) -> (r: String)
    ensures
        r@ == unescaped_data(escaped@),
{
    proof {
        reveal_strlit("%0D");
        reveal_strlit("%0A");
        reveal_strlit("%25");
    }
    let s = text::replace(escaped, "%0D", "\r");
    let s = text::replace(s.as_str(), "%0A", "\n");
    text::replace(s.as_str(), "%25", "%")
}

// ---------------------------------------------------------------------------
// Parsing
// ---------------------------------------------------------------------------

/// The key and the raw value that a property entry holds. An entry without `=`,
/// with an empty key or with an empty value holds none.
pub open spec fn property_of(entry: Seq<char>) -> Option<(Seq<char>, Seq<char>)> {
    match text::cut(text::trimmed(entry), "="@) {
        Some((k, v)) => if k.len() > 0 && v.len() > 0 {
            Some((k, v))
        } else {
            None
        },
        None => None,
    }
}

/// The properties that the entries hold, later ones over earlier ones.
/// `v2` tells which form the values are written in.
pub open spec fn properties_of(entries: Seq<Seq<char>>, v2: bool) -> Seq<(Seq<char>, Seq<char>)>
    decreases entries.len(),
{
    if entries.len() == 0 {
        Seq::empty()
    } else {
        let before = properties_of(entries.drop_last(), v2);
        match property_of(entries.last()) {
            Some((k, v)) => string_map::with_entry(
                before,
                k,
                if v2 {
                    unescaped_property(v)
                } else {
                    unescaped(v)
                },
            ),
            None => before,
        }
    }
}

/// The command name and the property text that a command info holds:
/// they are parted by the first space.
pub open spec fn info_parts(info: Seq<char>) -> (Seq<char>, Seq<char>) {
    match text::cut(info, " "@) {
        Some((name, properties)) => (name, properties),
        None => (info, Seq::empty()),
    }
}

/// The command that `message` writes in the second form, if `registered` holds its name.
pub open spec fn parsed_v2(message: Seq<char>, registered: Seq<Seq<char>>) -> Option<CommandView> {
    let line = text::trimmed_start(message);
    if !text::has_prefix(line, V2_COMMAND_KEY@) {
        None
    } else {
        match text::cut(line.skip(V2_COMMAND_KEY@.len() as int), V2_COMMAND_KEY@) {
            None => None,
            Some((info, data)) => {
                let (name, properties) = info_parts(info);
                if registered.contains(name) {
                    Some(
                        (
                            name,
                            properties_of(text::pieces(text::trimmed(properties), ','), true),
                            unescaped_data(data),
                        ),
                    )
                } else {
                    None
                }
            },
        }
    }
}

/// The command that `message` writes in the first form, if `registered` holds its name.
pub open spec fn parsed_v1(message: Seq<char>, registered: Seq<Seq<char>>) -> Option<CommandView> {
    match text::cut(message, V1_PREFIX@) {
        None => None,
        Some((_, rest)) => match text::cut(rest, "]"@) {
            None => None,
            Some((info, data)) => {
                let (name, properties) = info_parts(info);
                if registered.contains(name) {
                    Some(
                        (
                            name,
                            properties_of(text::pieces(properties, ';'), false),
                            unescaped(data),
                        ),
                    )
                } else {
                    None
                }
            },
        },
    }
}

fn parse_info(info: &str) -> (r: (String, String))
    ensures
        info_parts(info@) == (r.0@, r.1@),
{
    match text::split_once(info, " ") {
        Some((name, properties)) => (name, properties),
        None => (info.to_owned(), String::new()),
    }
}

fn parse_properties(entries: &Vec<String>, v2: bool) -> (r: StringMap)
    ensures
        r.items() == properties_of(text::views(entries@), v2),
{
    let mut out = StringMap::new();
    let mut i: usize = 0;
    while i < entries.len()
        invariant
            i <= entries@.len(),
            out.items() == properties_of(text::views(entries@).take(i as int), v2),
        decreases entries@.len() - i,
    {
        proof {
            let now = text::views(entries@).take(i + 1);
            assert(now.drop_last() == text::views(entries@).take(i as int));
            assert(now.last() == entries@[i as int]@);
        }
        let entry = text::trim(entries[i].as_str());
        match text::split_once(entry.as_str(), "=") {
            Some((key, value)) => {
                if text::to_chars(key.as_str()).len() > 0 && text::to_chars(value.as_str()).len()
                    > 0 {
                    let plain = if v2 {
                        unescape_property(value.as_str())
                    } else {
                        unescape(value.as_str())
                    };
                    out.insert(key, plain);
                }
            },
            None => {},
        }
        i = i + 1;
    }
    assert(text::views(entries@).take(entries@.len() as int) == text::views(entries@));
    out
}

impl ActionCommand {
    /// A command with neither properties nor data.
    pub fn new(command: &str) -> (r: ActionCommand)
        ensures
            r@ == (command@, Seq::<(Seq<char>, Seq<char>)>::empty(), Seq::<char>::empty()),
    {
        ActionCommand {
            command: command.to_owned(),
            properties: StringMap::new(),
            data: String::new(),
        }
    }

    /// Reads a line of the form `::command key=value,key2=value2::data`. White space
    /// before the command is skipped. `None` if the line does not have that form or
    /// `registered_commands` does not hold the command's name.
    pub fn try_parse_v2(message: &str, registered_commands: &Vec<String>) -> (r: Option<
        ActionCommand,
    >)
        ensures
            match r {
                Some(c) => parsed_v2(message@, text::views(registered_commands@)) == Some(c@),
                None => parsed_v2(message@, text::views(registered_commands@)) is None,
            },
    {
        let line = text::trim_start(message);
        let rest = match text::strip_prefix(line.as_str(), V2_COMMAND_KEY) {
            Some(rest) => rest,
            None => return None,
        };
        let (info, data) = match text::split_once(rest.as_str(), V2_COMMAND_KEY) {
            Some(parts) => parts,
            None => return None,
        };
        let (name, properties) = parse_info(info.as_str());
        if !text::holds(registered_commands, name.as_str()) {
            return None;
        }
        let entries = text::split(text::trim(properties.as_str()).as_str(), ',');
        Some(
            ActionCommand {
                command: name,
                properties: parse_properties(&entries, true),
                data: unescape_data(data.as_str()),
            },
        )
    }

    /// Reads a line that holds `##[command key=value;key2=value2]data`. What stands
    /// before the prefix is skipped. `None` if the line does not have that form or
    /// `registered_commands` does not hold the command's name.
    pub fn try_parse_v1(message: &str, registered_commands: &Vec<String>) -> (r: Option<
        ActionCommand,
    >)
        ensures
            match r {
                Some(c) => parsed_v1(message@, text::views(registered_commands@)) == Some(c@),
                None => parsed_v1(message@, text::views(registered_commands@)) is None,
            },
    {
        let rest = match text::split_once(message, V1_PREFIX) {
            Some(parts) => parts.1,
            None => return None,
        };
        let (info, data) = match text::split_once(rest.as_str(), "]") {
            Some(parts) => parts,
            None => return None,
        };
        let (name, properties) = parse_info(info.as_str());
        if !text::holds(registered_commands, name.as_str()) {
            return None;
        }
        let entries = text::split(properties.as_str(), ';');
        Some(
            ActionCommand {
                command: name,
                properties: parse_properties(&entries, false),
                data: unescape(data.as_str()),
            },
        )
    }

    /// Writes `%`, `]`, line feed, carriage return and `;` as codes.
    pub fn escape_value(value: &str) -> (r: String)
        ensures
            r@ == escaped(value@),
    {
        proof {
            reveal_strlit("%");
            reveal_strlit("]");
            reveal_strlit("\n");
            reveal_strlit("\r");
            reveal_strlit(";");
        }
        let s = text::replace(value, "%", "%25");
        let s = text::replace(s.as_str(), "]", "%5D");
        let s = text::replace(s.as_str(), "\n", "%0A");
        let s = text::replace(s.as_str(), "\r", "%0D");
        text::replace(s.as_str(), ";", "%3B")
    }
}

// ---------------------------------------------------------------------------
// Laws
// ---------------------------------------------------------------------------

/// The characters that are escaped, in the order in which they are.
spec fn escape_char(n: int) -> char {
    if n == 0 {
        '%'
    } else if n == 1 {
        ']'
    } else if n == 2 {
        '\n'
    } else if n == 3 {
        '\r'
    } else {
        ';'
    }
}

spec fn escape_code(n: int) -> Seq<char> {
    if n == 0 {
        seq!['%', '2', '5']
    } else if n == 1 {
        seq!['%', '5', 'D']
    } else if n == 2 {
        seq!['%', '0', 'A']
    } else if n == 3 {
        seq!['%', '0', 'D']
    } else {
        seq!['%', '3', 'B']
    }
}

spec fn escape_rank(c: char) -> int {
    if c == '%' {
        0
    } else if c == ']' {
        1
    } else if c == '\n' {
        2
    } else if c == '\r' {
        3
    } else if c == ';' {
        4
    } else {
        5
    }
}

/// `c` after the first `n` rewritings.
spec fn encoded_char(c: char, n: int) -> Seq<char> {
    if escape_rank(c) < n {
        escape_code(escape_rank(c))
    } else {
        seq![c]
    }
}

/// `s` after the first `n` rewritings.
spec fn encoded(s: Seq<char>, n: int) -> Seq<char>
    decreases s.len(),
{
    if s.len() == 0 {
        s
    } else {
        encoded_char(s[0], n) + encoded(s.skip(1), n)
    }
}

/// Where the pattern does not begin with the first character, that character stays.
proof fn lemma_replaced_step(s: Seq<char>, pat: Seq<char>, rep: Seq<char>)
    requires
        s.len() > 0,
        pat.len() > 0,
        s[0] != pat[0],
    ensures
        text::replaced(s, pat, rep) == seq![s[0]] + text::replaced(s.skip(1), pat, rep),
{
    if text::has_prefix(s, pat) {
        assert(s.subrange(0, pat.len() as int)[0] == s[0]);
    }
    if s.len() < pat.len() {
        assert(s == seq![s[0]] + s.skip(1));
    }
}

/// Where the pattern stands first, it is rewritten.
proof fn lemma_replaced_hit(rest: Seq<char>, pat: Seq<char>, rep: Seq<char>)
    requires
        pat.len() > 0,
    ensures
        text::replaced(pat + rest, pat, rep) == rep + text::replaced(rest, pat, rep),
{
    let s = pat + rest;
    assert(s.subrange(0, pat.len() as int) == pat);
    assert(s.skip(pat.len() as int) == rest);
}

proof fn lemma_encode_step(s: Seq<char>, n: int)
    requires
        0 <= n < 5,
    ensures
        text::replaced(encoded(s, n), seq![escape_char(n)], escape_code(n)) == encoded(s, n + 1),
    decreases s.len(),
{
    let pat = seq![escape_char(n)];
    let rep = escape_code(n);
    if s.len() > 0 {
        let rest = encoded(s.skip(1), n);
        lemma_encode_step(s.skip(1), n);
        let first = encoded_char(s[0], n);
        let whole = first + rest;
        if first.len() == 1 {
            if s[0] == escape_char(n) {
                assert(first == pat);
                lemma_replaced_hit(rest, pat, rep);
            } else {
                lemma_replaced_step(whole, pat, rep);
                assert(whole.skip(1) == rest);
            }
        } else {
            lemma_replaced_step(whole, pat, rep);
            let w1 = whole.skip(1);
            lemma_replaced_step(w1, pat, rep);
            let w2 = w1.skip(1);
            lemma_replaced_step(w2, pat, rep);
            assert(w2.skip(1) == rest);
            assert(encoded_char(s[0], n + 1) == first);
            let tail = text::replaced(rest, pat, rep);
            assert(seq![whole[0]] + (seq![w1[0]] + (seq![w2[0]] + tail)) == first + tail);
        }
    }
}

proof fn lemma_decode_step(s: Seq<char>, n: int)
    requires
        0 <= n < 5,
    ensures
        text::replaced(encoded(s, n + 1), escape_code(n), seq![escape_char(n)]) == encoded(s, n),
    decreases s.len(),
{
    let pat = escape_code(n);
    let rep = seq![escape_char(n)];
    if s.len() > 0 {
        let rest = encoded(s.skip(1), n + 1);
        lemma_decode_step(s.skip(1), n);
        let first = encoded_char(s[0], n + 1);
        let whole = first + rest;
        let tail = text::replaced(rest, pat, rep);
        if first.len() == 1 {
            lemma_replaced_step(whole, pat, rep);
            assert(whole.skip(1) == rest);
        } else if s[0] == escape_char(n) {
            lemma_replaced_hit(rest, pat, rep);
        } else {
            assert(!text::has_prefix(whole, pat)) by {
                if text::has_prefix(whole, pat) {
                    assert(whole.subrange(0, 3)[1] == first[1]);
                    assert(whole.subrange(0, 3)[2] == first[2]);
                }
            }
            let w1 = whole.skip(1);
            lemma_replaced_step(w1, pat, rep);
            let w2 = w1.skip(1);
            lemma_replaced_step(w2, pat, rep);
            assert(w2.skip(1) == rest);
            assert(seq![whole[0]] + (seq![w1[0]] + (seq![w2[0]] + tail)) == first + tail);
        }
    }
}

proof fn lemma_escape_literals()
    ensures
        "%"@ == seq![escape_char(0)],
        "]"@ == seq![escape_char(1)],
        "\n"@ == seq![escape_char(2)],
        "\r"@ == seq![escape_char(3)],
        ";"@ == seq![escape_char(4)],
        "%25"@ == escape_code(0),
        "%5D"@ == escape_code(1),
        "%0A"@ == escape_code(2),
        "%0D"@ == escape_code(3),
        "%3B"@ == escape_code(4),
{
    reveal_strlit("%");
    reveal_strlit("]");
    reveal_strlit("\n");
    reveal_strlit("\r");
    reveal_strlit(";");
    reveal_strlit("%25");
    reveal_strlit("%5D");
    reveal_strlit("%0A");
    reveal_strlit("%0D");
    reveal_strlit("%3B");
}

proof fn lemma_encoded_none(s: Seq<char>)
    ensures
        encoded(s, 0) == s,
    decreases s.len(),
{
    if s.len() > 0 {
        lemma_encoded_none(s.skip(1));
        assert(seq![s[0]] + s.skip(1) == s);
    }
}

proof fn lemma_escaped_encoded(s: Seq<char>)
    ensures
        escaped(s) == encoded(s, 5),
{
    lemma_escape_literals();
    lemma_encoded_none(s);
    lemma_encode_step(s, 0);
    lemma_encode_step(s, 1);
    lemma_encode_step(s, 2);
    lemma_encode_step(s, 3);
    lemma_encode_step(s, 4);
}

/// The code of a character that is escaped; any other character itself.
pub open spec fn code_of(c: char) -> Seq<char> {
    if c == '%' {
        "%25"@
    } else if c == ']' {
        "%5D"@
    } else if c == '\n' {
        "%0A"@
    } else if c == '\r' {
        "%0D"@
    } else if c == ';' {
        "%3B"@
    } else {
        seq![c]
    }
}

proof fn lemma_encoded_push(s: Seq<char>)
    requires
        s.len() > 0,
    ensures
        encoded(s, 5) == encoded(s.drop_last(), 5) + encoded_char(s.last(), 5),
    decreases s.len(),
{
    if s.len() > 1 {
        lemma_encoded_push(s.skip(1));
        assert(s.skip(1).drop_last() == s.drop_last().skip(1));
        assert(encoded(s, 5) == encoded(s.drop_last(), 5) + encoded_char(s.last(), 5));
    } else {
        assert(s.skip(1).len() == 0);
        assert(encoded(s.skip(1), 5) == Seq::<char>::empty());
        assert(encoded(s.drop_last(), 5) == Seq::<char>::empty());
        assert(encoded(s, 5) == encoded_char(s[0], 5));
    }
}

/// Escaping rewrites each character by itself.
pub proof fn lemma_escaped_by_character(s: Seq<char>)
    ensures
        s.len() == 0 ==> escaped(s) == s,
        s.len() > 0 ==> escaped(s) == escaped(s.drop_last()) + code_of(s.last()),
{
    lemma_escaped_encoded(s);
    lemma_escape_literals();
    if s.len() > 0 {
        lemma_escaped_encoded(s.drop_last());
        lemma_encoded_push(s);
    }
}

/// Unescaping gives back what was escaped, whatever the text.
pub proof fn law_unescape_inverts_escape(s: Seq<char>)
    ensures
        unescaped(escaped(s)) == s,
{
    lemma_escaped_encoded(s);
    lemma_escape_literals();
    lemma_encoded_none(s);
    lemma_decode_step(s, 4);
    lemma_decode_step(s, 3);
    lemma_decode_step(s, 2);
    lemma_decode_step(s, 1);
    lemma_decode_step(s, 0);
}

/// An escaped text holds none of the characters that end or part a command.
pub proof fn law_escaped_is_inert(s: Seq<char>)
    ensures
        !escaped(s).contains(']'),
        !escaped(s).contains(';'),
        !escaped(s).contains('\n'),
        !escaped(s).contains('\r'),
    decreases s.len(),
{
    lemma_escaped_encoded(s);
    if s.len() > 0 {
        law_escaped_is_inert(s.skip(1));
        lemma_escaped_encoded(s.skip(1));
        let first = encoded_char(s[0], 5);
        let rest = encoded(s.skip(1), 5);
        assert forall|i: int| 0 <= i < escaped(s).len() implies escaped(s)[i] != ']' && escaped(
            s,
        )[i] != ';' && escaped(s)[i] != '\n' && escaped(s)[i] != '\r' by {
            if i >= first.len() {
                assert(escaped(s)[i] == rest[i - first.len()]);
                assert(rest.contains(rest[i - first.len()]));
            }
        }
    }
}

proof fn lemma_cut_at(a: Seq<char>, c: char, b: Seq<char>)
    requires
        !a.contains(c),
    ensures
        text::cut(a + seq![c] + b, seq![c]) == Some((a, b)),
{
    let s = a + seq![c] + b;
    let pat = seq![c];
    text::lemma_find_from(s, pat, 0);
    assert(s.subrange(a.len() as int, a.len() as int + 1) == pat);
    assert(text::occurs_at(s, pat, a.len() as int));
    let i = text::find_from(s, pat, 0)->0;
    assert(s.subrange(i, i + 1)[0] == s[i]);
    assert(i == a.len()) by {
        if i < a.len() {
            assert(a[i] == c);
        }
    }
    assert(s.take(i) == a);
    assert(s.skip(i + 1) == b);
}

proof fn lemma_uncut(a: Seq<char>, c: char)
    requires
        !a.contains(c),
    ensures
        text::cut(a, seq![c]) is None,
{
    text::lemma_find_from(a, seq![c], 0);
    if text::find_from(a, seq![c], 0) is Some {
        let i = text::find_from(a, seq![c], 0)->0;
        assert(a.subrange(i, i + 1)[0] == a[i]);
    }
}

proof fn lemma_pieces_at(a: Seq<char>, c: char, b: Seq<char>)
    requires
        !a.contains(c),
    ensures
        text::pieces(a + seq![c] + b, c) == seq![a] + text::pieces(b, c),
{
    let s = a + seq![c] + b;
    text::lemma_first_index(s, c);
    let i = text::first_index(s, c);
    assert(s[a.len() as int] == c);
    assert(i == a.len()) by {
        if i < a.len() {
            assert(a[i] == c);
        }
    }
    assert(s.take(i) == a);
    assert(s.skip(i + 1) == b);
}

proof fn lemma_joined_front(parts: Seq<Seq<char>>, sep: Seq<char>)
    requires
        parts.len() >= 2,
    ensures
        text::joined(parts, sep) == parts[0] + sep + text::joined(parts.skip(1), sep),
    decreases parts.len(),
{
    if parts.len() == 2 {
        assert(parts.drop_last() == seq![parts[0]]);
        assert(parts.skip(1) == seq![parts[1]]);
        assert(text::joined(seq![parts[0]], sep) == parts[0]);
        assert(text::joined(seq![parts[1]], sep) == parts[1]);
    } else {
        lemma_joined_front(parts.drop_last(), sep);
        assert(parts.drop_last().skip(1) == parts.skip(1).drop_last());
        assert(parts.skip(1).last() == parts.last());
        let mid = text::joined(parts.skip(1).drop_last(), sep);
        assert((parts[0] + sep + mid) + sep + parts.last() == parts[0] + sep + (mid + sep
            + parts.last()));
    }
}

proof fn lemma_pieces_joined(parts: Seq<Seq<char>>, c: char)
    requires
        parts.len() >= 1,
        forall|i: int| 0 <= i < parts.len() ==> !(#[trigger] parts[i]).contains(c),
    ensures
        text::pieces(text::joined(parts, seq![c]), c) == parts,
    decreases parts.len(),
{
    if parts.len() == 1 {
        let a = parts[0];
        text::lemma_first_index(a, c);
        assert(text::first_index(a, c) == a.len()) by {
            if text::first_index(a, c) < a.len() {
                assert(a[text::first_index(a, c)] == c);
            }
        }
        assert(parts == seq![a]);
    } else {
        lemma_joined_front(parts, seq![c]);
        assert forall|i: int| 0 <= i < parts.skip(1).len() implies !(#[trigger] parts.skip(
            1,
        )[i]).contains(c) by {
            assert(parts.skip(1)[i] == parts[i + 1]);
        }
        lemma_pieces_joined(parts.skip(1), c);
        lemma_pieces_at(parts[0], c, text::joined(parts.skip(1), seq![c]));
        assert(seq![parts[0]] + parts.skip(1) == parts);
    }
}

proof fn lemma_encoded_last(s: Seq<char>)
    requires
        s.len() > 0,
    ensures
        encoded(s, 5).len() > 0,
        encoded(s, 5).last() == encoded_char(s.last(), 5).last(),
    decreases s.len(),
{
    if s.len() > 1 {
        lemma_encoded_last(s.skip(1));
        assert(s.skip(1).last() == s.last());
    } else {
        assert(s.skip(1).len() == 0);
        assert(encoded(s.skip(1), 5) == Seq::<char>::empty());
        assert(encoded(s, 5) == encoded_char(s[0], 5));
    }
}

/// A property as it is written in a command of the first form.
pub open spec fn written_property(property: (Seq<char>, Seq<char>)) -> Seq<char> {
    property.0 + "="@ + escaped(property.1)
}

/// A command as it is written in the first form.
pub open spec fn written_v1(command: CommandView) -> Seq<char> {
    let properties = command.1.map_values(|p: (Seq<char>, Seq<char>)| written_property(p));
    let info = if properties.len() == 0 {
        command.0
    } else {
        command.0 + " "@ + text::joined(properties, ";"@)
    };
    V1_PREFIX@ + info + "]"@ + escaped(command.2)
}

/// A property that can be written: its key is not empty, has no character that parts
/// properties and no white space at its start; its value is not empty and does not end
/// in white space that is not escaped.
pub open spec fn writable_property(property: (Seq<char>, Seq<char>)) -> bool {
    let (k, v) = property;
    &&& k.len() > 0
    &&& !k.contains('=')
    &&& !k.contains(';')
    &&& !k.contains(']')
    &&& !text::white_space(k[0])
    &&& v.len() > 0
    &&& (text::white_space(v.last()) ==> v.last() == '\n' || v.last() == '\r')
}

proof fn lemma_written_property(property: (Seq<char>, Seq<char>))
    requires
        writable_property(property),
    ensures
        property_of(written_property(property)) == Some((property.0, escaped(property.1))),
        escaped(property.1).len() > 0,
        !written_property(property).contains(';'),
        !written_property(property).contains(']'),
{
    let (k, v) = property;
    let e = written_property(property);
    reveal_strlit("=");
    assert("="@ == seq!['=']);
    lemma_escaped_encoded(v);
    lemma_encoded_last(v);
    law_escaped_is_inert(v);
    assert(e[0] == k[0]);
    assert(e.last() == escaped(v).last());
    assert(text::trimmed(e) == e);
    lemma_cut_at(k, '=', escaped(v));
    assert forall|i: int| 0 <= i < e.len() implies e[i] != ';' && e[i] != ']' by {
        if i < k.len() {
            assert(k.contains(k[i]));
        } else if i > k.len() {
            assert(e[i] == escaped(v)[i - k.len() - 1]);
            assert(escaped(v).contains(e[i]));
        }
    }
}

proof fn lemma_written_properties(properties: Seq<(Seq<char>, Seq<char>)>)
    requires
        string_map::unique_keys(properties),
        forall|i: int| 0 <= i < properties.len() ==> writable_property(#[trigger] properties[i]),
    ensures
        properties_of(
            properties.map_values(|p: (Seq<char>, Seq<char>)| written_property(p)),
            false,
        ) == properties,
    decreases properties.len(),
{
    let entries = properties.map_values(|p: (Seq<char>, Seq<char>)| written_property(p));
    if properties.len() > 0 {
        let front = properties.drop_last();
        assert forall|i: int, j: int| 0 <= i < j < front.len() implies (#[trigger] front[i]).0 != (
        #[trigger] front[j]).0 by {
            assert(properties[i].0 != properties[j].0);
        }
        assert forall|i: int| 0 <= i < front.len() implies writable_property(#[trigger] front[i]) by {
            assert(front[i] == properties[i]);
        }
        lemma_written_properties(front);
        assert(entries.drop_last() == front.map_values(
            |p: (Seq<char>, Seq<char>)| written_property(p),
        ));
        let last = properties.last();
        assert(entries.last() == written_property(last));
        lemma_written_property(last);
        law_unescape_inverts_escape(last.1);
        assert(!string_map::has_key(front, last.0)) by {
            if string_map::has_key(front, last.0) {
                let i = choose|i: int| 0 <= i < front.len() && (#[trigger] front[i]).0 == last.0;
                assert(properties[i].0 != properties[properties.len() - 1].0);
            }
        }
        assert(front.push(last) == properties);
    } else {
        assert(properties == Seq::<(Seq<char>, Seq<char>)>::empty());
    }
}

proof fn lemma_joined_free(parts: Seq<Seq<char>>, sep: char, c: char)
    requires
        sep != c,
        forall|i: int| 0 <= i < parts.len() ==> !(#[trigger] parts[i]).contains(c),
    ensures
        !text::joined(parts, seq![sep]).contains(c),
    decreases parts.len(),
{
    if parts.len() > 1 {
        assert forall|i: int| 0 <= i < parts.drop_last().len() implies !(
        #[trigger] parts.drop_last()[i]).contains(c) by {
            assert(parts.drop_last()[i] == parts[i]);
        }
        lemma_joined_free(parts.drop_last(), sep, c);
        let front = text::joined(parts.drop_last(), seq![sep]);
        let whole = front + seq![sep] + parts.last();
        assert forall|i: int| 0 <= i < whole.len() implies whole[i] != c by {
            if i < front.len() {
                assert(front.contains(whole[i]));
            } else if i > front.len() {
                assert(whole[i] == parts.last()[i - front.len() - 1]);
                assert(parts[parts.len() - 1].contains(whole[i]));
            }
        }
    } else if parts.len() == 1 {
        assert(!parts[0].contains(c));
    }
}

/// Reading a command gives back what was written: its name, its properties and its
/// data, whatever the data.
pub proof fn law_v1_reads_back(command: CommandView, registered: Seq<Seq<char>>)
    requires
        registered.contains(command.0),
        !command.0.contains(' '),
        !command.0.contains(']'),
        string_map::unique_keys(command.1),
        forall|i: int| 0 <= i < command.1.len() ==> writable_property(#[trigger] command.1[i]),
    ensures
        parsed_v1(written_v1(command), registered) == Some(command),
{
    let name = command.0;
    let entries = command.1.map_values(|p: (Seq<char>, Seq<char>)| written_property(p));
    let list = text::joined(entries, ";"@);
    let info = if entries.len() == 0 {
        name
    } else {
        name + " "@ + list
    };
    let data = escaped(command.2);
    let message = written_v1(command);
    reveal_strlit("##[");
    reveal_strlit("]");
    reveal_strlit(" ");
    reveal_strlit(";");
    assert(" "@ == seq![' ']);
    assert("]"@ == seq![']']);
    assert(";"@ == seq![';']);
    // The prefix stands at the start.
    assert(message.subrange(0, 3) == V1_PREFIX@);
    assert(text::occurs_at(message, V1_PREFIX@, 0));
    assert(text::find_from(message, V1_PREFIX@, 0) == Some(0int));
    let rest = info + "]"@ + data;
    assert(message.skip(3) == rest);
    // The info ends at the first `]`.
    assert forall|i: int| 0 <= i < entries.len() implies !(#[trigger] entries[i]).contains(']')
        && !entries[i].contains(';') by {
        assert(entries[i] == written_property(command.1[i]));
        lemma_written_property(command.1[i]);
    }
    lemma_joined_free(entries, ';', ']');
    assert(!info.contains(']')) by {
        if info.contains(']') {
            let i = choose|i: int| 0 <= i < info.len() && info[i] == ']';
            if i < name.len() {
                assert(name.contains(info[i]));
            } else if i > name.len() {
                assert(list[i - name.len() - 1] == ']');
            }
        }
    }
    lemma_cut_at(info, ']', data);
    law_unescape_inverts_escape(command.2);
    lemma_written_properties(command.1);
    if entries.len() == 0 {
        lemma_uncut(name, ' ');
        let none = Seq::<char>::empty();
        assert(text::pieces(none, ';') == seq![none]);
        assert(seq![none].drop_last() == Seq::<Seq<char>>::empty());
        assert(text::trimmed(none) == none);
        reveal_strlit("=");
        assert("="@ == seq!['=']);
        lemma_uncut(none, '=');
        assert(properties_of(seq![none], false) == properties_of(
            Seq::<Seq<char>>::empty(),
            false,
        ));
        assert(command.1 == Seq::<(Seq<char>, Seq<char>)>::empty());
    } else {
        lemma_cut_at(name, ' ', list);
        lemma_pieces_joined(entries, ';');
    }
}

// ---------------------------------------------------------------------------
// Laws of the second form
// ---------------------------------------------------------------------------

/// How a character is written in a command of the second form. A property escapes the
/// delimiters too.
pub open spec fn code_v2(c: char, in_property: bool) -> Seq<char> {
    if c == '%' {
        "%25"@
    } else if c == '\r' {
        "%0D"@
    } else if c == '\n' {
        "%0A"@
    } else if in_property && c == ':' {
        "%3A"@
    } else if in_property && c == ',' {
        "%2C"@
    } else {
        seq![c]
    }
}

/// A text as it is written in a command of the second form, character by character.
pub open spec fn escaped_v2(s: Seq<char>, in_property: bool) -> Seq<char>
    decreases s.len(),
{
    if s.len() == 0 {
        s
    } else {
        code_v2(s[0], in_property) + escaped_v2(s.skip(1), in_property)
    }
}

/// The characters that have a code.
spec fn coded(c: char) -> bool {
    c == '%' || c == '\r' || c == '\n' || c == ':' || c == ','
}

/// `s` with those characters written as codes that `set` holds.
spec fn encoded_with(s: Seq<char>, set: spec_fn(char) -> bool) -> Seq<char>
    decreases s.len(),
{
    if s.len() == 0 {
        s
    } else {
        (if set(s[0]) {
            code_v2(s[0], true)
        } else {
            seq![s[0]]
        }) + encoded_with(s.skip(1), set)
    }
}

proof fn lemma_code_literals()
    ensures
        "%25"@ == seq!['%', '2', '5'],
        "%0D"@ == seq!['%', '0', 'D'],
        "%0A"@ == seq!['%', '0', 'A'],
        "%3A"@ == seq!['%', '3', 'A'],
        "%2C"@ == seq!['%', '2', 'C'],
        "%"@ == seq!['%'],
        "\r"@ == seq!['\r'],
        "\n"@ == seq!['\n'],
        ":"@ == seq![':'],
        ","@ == seq![','],
{
    reveal_strlit("%25");
    reveal_strlit("%0D");
    reveal_strlit("%0A");
    reveal_strlit("%3A");
    reveal_strlit("%2C");
    reveal_strlit("%");
    reveal_strlit("\r");
    reveal_strlit("\n");
    reveal_strlit(":");
    reveal_strlit(",");
}

/// Turning back one code leaves the others.
proof fn lemma_decode_one(
    s: Seq<char>,
    c: char,
    before: spec_fn(char) -> bool,
    after: spec_fn(char) -> bool,
)
    requires
        coded(c),
        before('%'),
        before(c),
        !after(c),
        forall|d: char| #[trigger] before(d) ==> coded(d),
        forall|d: char| d != c ==> #[trigger] before(d) == after(d),
    ensures
        text::replaced(encoded_with(s, before), code_v2(c, true), seq![c]) == encoded_with(
            s,
            after,
        ),
    decreases s.len(),
{
    lemma_code_literals();
    let pat = code_v2(c, true);
    let rep = seq![c];
    if s.len() > 0 {
        let rest = encoded_with(s.skip(1), before);
        lemma_decode_one(s.skip(1), c, before, after);
        let tail = text::replaced(rest, pat, rep);
        assert(pat.len() == 3 && pat[0] == '%');
        if s[0] == c {
            lemma_replaced_hit(rest, pat, rep);
        } else if before(s[0]) {
            let first = code_v2(s[0], true);
            let whole = first + rest;
            assert(first.len() == 3 && first[0] == '%');
            assert(first[1] != '%' && first[2] != '%');
            assert(first[1] != pat[1] || first[2] != pat[2]);
            assert(!text::has_prefix(whole, pat)) by {
                if text::has_prefix(whole, pat) {
                    assert(whole.subrange(0, 3)[1] == first[1]);
                    assert(whole.subrange(0, 3)[2] == first[2]);
                }
            }
            let w1 = whole.skip(1);
            assert(w1[0] == first[1]);
            lemma_replaced_step(w1, pat, rep);
            let w2 = w1.skip(1);
            assert(w2[0] == first[2]);
            lemma_replaced_step(w2, pat, rep);
            assert(w2.skip(1) == rest);
            assert(seq![whole[0]] + (seq![w1[0]] + (seq![w2[0]] + tail)) == first + tail);
        } else {
            let whole = seq![s[0]] + rest;
            assert(s[0] != '%');
            lemma_replaced_step(whole, pat, rep);
            assert(whole.skip(1) == rest);
        }
    }
}

proof fn lemma_encoded_with_none(s: Seq<char>, set: spec_fn(char) -> bool)
    requires
        forall|c: char| !(#[trigger] set(c)),
    ensures
        encoded_with(s, set) == s,
    decreases s.len(),
{
    if s.len() > 0 {
        lemma_encoded_with_none(s.skip(1), set);
        assert(seq![s[0]] + s.skip(1) == s);
    }
}

proof fn lemma_escaped_v2_encoded(s: Seq<char>, in_property: bool, set: spec_fn(char) -> bool)
    requires
        forall|c: char| #[trigger]
            set(c) <==> coded(c) && (in_property || c != ':' && c != ','),
    ensures
        escaped_v2(s, in_property) == encoded_with(s, set),
    decreases s.len(),
{
    if s.len() > 0 {
        lemma_escaped_v2_encoded(s.skip(1), in_property, set);
    }
}

/// The value of a property reads as what was written, whatever the value.
pub proof fn law_unescape_property_inverts(s: Seq<char>)
    ensures
        unescaped_property(escaped_v2(s, true)) == s,
{
    lemma_code_literals();
    let all = |c: char| coded(c);
    let no_cr = |c: char| coded(c) && c != '\r';
    let no_lf = |c: char| coded(c) && c != '\r' && c != '\n';
    let no_colon = |c: char| c == '%' || c == ',';
    let percent = |c: char| c == '%';
    let none = |c: char| false;
    lemma_escaped_v2_encoded(s, true, all);
    lemma_decode_one(s, '\r', all, no_cr);
    lemma_decode_one(s, '\n', no_cr, no_lf);
    lemma_decode_one(s, ':', no_lf, no_colon);
    lemma_decode_one(s, ',', no_colon, percent);
    lemma_decode_one(s, '%', percent, none);
    lemma_encoded_with_none(s, none);
}

/// The data of a command reads as what was written, whatever the data.
pub proof fn law_unescape_data_inverts(s: Seq<char>)
    ensures
        unescaped_data(escaped_v2(s, false)) == s,
{
    lemma_code_literals();
    let all = |c: char| c == '%' || c == '\r' || c == '\n';
    let no_cr = |c: char| c == '%' || c == '\n';
    let percent = |c: char| c == '%';
    let none = |c: char| false;
    lemma_escaped_v2_encoded(s, false, all);
    lemma_decode_one(s, '\r', all, no_cr);
    lemma_decode_one(s, '\n', no_cr, percent);
    lemma_decode_one(s, '%', percent, none);
    lemma_encoded_with_none(s, none);
}

/// What `escaped_v2` writes of a property holds no delimiter and no line end, and ends in
/// white space only where the value ends in other white space than a line end.
proof fn lemma_escaped_v2_inert(s: Seq<char>)
    ensures
        !escaped_v2(s, true).contains(':'),
        !escaped_v2(s, true).contains(','),
        s.len() > 0 ==> escaped_v2(s, true).len() > 0 && (escaped_v2(s, true).last() == s.last()
            || !text::white_space(escaped_v2(s, true).last())),
        s.len() > 0 && (s.last() == '\n' || s.last() == '\r') ==> !text::white_space(
            escaped_v2(s, true).last(),
        ),
    decreases s.len(),
{
    lemma_code_literals();
    if s.len() > 0 {
        lemma_escaped_v2_inert(s.skip(1));
        let first = code_v2(s[0], true);
        let rest = escaped_v2(s.skip(1), true);
        let whole = escaped_v2(s, true);
        assert(whole == first + rest);
        assert forall|i: int| 0 <= i < whole.len() implies whole[i] != ':' && whole[i] != ',' by {
            if i >= first.len() {
                assert(whole[i] == rest[i - first.len()]);
                assert(rest.contains(rest[i - first.len()]));
            } else {
                assert(whole[i] == first[i]);
            }
        }
        if s.len() > 1 {
            assert(s.skip(1).last() == s.last());
            assert(whole.last() == rest.last());
        } else {
            assert(s.skip(1).len() == 0);
            assert(rest.len() == 0);
            assert(whole.last() == first.last());
        }
    }
}

/// No two colons stand side by side in `s`.
spec fn pairless(s: Seq<char>) -> bool {
    forall|i: int| 0 <= i < s.len() - 1 ==> !(s[i] == ':' && #[trigger] s[i + 1] == ':')
}

proof fn lemma_pairless(s: Seq<char>)
    ensures
        pairless(s) <==> !text::occurs(s, "::"@),
{
    reveal_strlit("::");
    assert("::"@ == seq![':', ':']);
    if text::occurs(s, "::"@) {
        let i = choose|i: int| text::occurs_at(s, "::"@, i);
        assert(s.subrange(i, i + 2)[0] == s[i]);
        assert(s.subrange(i, i + 2)[1] == s[i + 1]);
    }
    if !pairless(s) {
        let i = choose|i: int|
            0 <= i < s.len() - 1 && (s[i] == ':' && #[trigger] s[i + 1] == ':');
        assert(s.subrange(i, i + 2) == seq![':', ':']);
        assert(text::occurs_at(s, "::"@, i));
    }
}

proof fn lemma_pairless_around(a: Seq<char>, c: char, b: Seq<char>)
    requires
        pairless(a),
        pairless(b),
        c != ':',
    ensures
        pairless(a + seq![c] + b),
{
    let s = a + seq![c] + b;
    assert forall|i: int| 0 <= i < s.len() - 1 implies !(s[i] == ':' && #[trigger] s[i + 1]
        == ':') by {
        if i + 1 < a.len() {
            assert(s[i] == a[i] && s[i + 1] == a[i + 1]);
        } else if i > a.len() {
            let k = i - a.len() - 1;
            assert(s[i] == b[k] && s[i + 1] == b[k + 1]);
        }
    }
}

proof fn lemma_pairless_joined(parts: Seq<Seq<char>>, c: char)
    requires
        c != ':',
        forall|i: int| 0 <= i < parts.len() ==> pairless(#[trigger] parts[i]),
    ensures
        pairless(text::joined(parts, seq![c])),
    decreases parts.len(),
{
    if parts.len() > 1 {
        assert forall|i: int| 0 <= i < parts.drop_last().len() implies pairless(
            #[trigger] parts.drop_last()[i],
        ) by {
            assert(parts.drop_last()[i] == parts[i]);
        }
        lemma_pairless_joined(parts.drop_last(), c);
        assert(pairless(parts[parts.len() - 1]));
        lemma_pairless_around(
            text::joined(parts.drop_last(), seq![c]),
            c,
            parts[parts.len() - 1],
        );
    } else if parts.len() == 1 {
        assert(pairless(parts[0]));
    }
}

/// The info of a command ends at the first pair of colons.
proof fn lemma_cut_at_pair(info: Seq<char>, data: Seq<char>)
    requires
        pairless(info),
        info.len() > 0 ==> info.last() != ':',
    ensures
        text::cut(info + "::"@ + data, "::"@) == Some((info, data)),
{
    reveal_strlit("::");
    let pat = "::"@;
    assert(pat == seq![':', ':']);
    let s = info + pat + data;
    let n = info.len() as int;
    text::lemma_find_from(s, pat, 0);
    assert(s.subrange(n, n + 2) == pat);
    assert(text::occurs_at(s, pat, n));
    let i = text::find_from(s, pat, 0)->0;
    assert(s.subrange(i, i + 2)[0] == s[i]);
    assert(s.subrange(i, i + 2)[1] == s[i + 1]);
    assert(i == n) by {
        if i < n {
            assert(info[i] == ':');
            if i + 1 < n {
                assert(info[i + 1] == ':');
            }
        }
    }
    assert(s.take(i) == info);
    assert(s.skip(i + 2) == data);
}

/// A property as it is written in a command of the second form.
pub open spec fn written_property_v2(property: (Seq<char>, Seq<char>)) -> Seq<char> {
    property.0 + "="@ + escaped_v2(property.1, true)
}

/// A command as it is written in the second form.
pub open spec fn written_v2(command: CommandView) -> Seq<char> {
    let properties = command.1.map_values(|p: (Seq<char>, Seq<char>)| written_property_v2(p));
    let info = if properties.len() == 0 {
        command.0
    } else {
        command.0 + " "@ + text::joined(properties, ","@)
    };
    "::"@ + info + "::"@ + escaped_v2(command.2, false)
}

/// A property that can be written in the second form: its key is not empty, has nothing
/// that parts properties or ends the info and no white space at its start; its value is not
/// empty and does not end in white space that is not escaped.
pub open spec fn writable_property_v2(property: (Seq<char>, Seq<char>)) -> bool {
    let (k, v) = property;
    &&& k.len() > 0
    &&& !k.contains('=')
    &&& !k.contains(',')
    &&& !text::occurs(k, "::"@)
    &&& !text::white_space(k[0])
    &&& v.len() > 0
    &&& (text::white_space(v.last()) ==> v.last() == '\n' || v.last() == '\r')
}

proof fn lemma_written_property_v2(property: (Seq<char>, Seq<char>))
    requires
        writable_property_v2(property),
    ensures
        property_of(written_property_v2(property)) == Some(
            (property.0, escaped_v2(property.1, true)),
        ),
        escaped_v2(property.1, true).len() > 0,
        !written_property_v2(property).contains(','),
        pairless(written_property_v2(property)),
        written_property_v2(property).len() > 0,
        !text::white_space(written_property_v2(property)[0]),
        !text::white_space(written_property_v2(property).last()),
        written_property_v2(property).last() != ':',
{
    let (k, v) = property;
    let e = written_property_v2(property);
    let w = escaped_v2(v, true);
    reveal_strlit("=");
    assert("="@ == seq!['=']);
    lemma_escaped_v2_inert(v);
    lemma_pairless(k);
    assert(e[0] == k[0]);
    assert(e.last() == w.last());
    assert(w.contains(w.last())) by {
        assert(w[w.len() - 1] == w.last());
    }
    assert(text::trimmed(e) == e);
    lemma_cut_at(k, '=', w);
    assert(pairless(w)) by {
        assert forall|i: int| 0 <= i < w.len() - 1 implies !(w[i] == ':' && #[trigger] w[i + 1]
            == ':') by {
            assert(w.contains(w[i]));
        }
    }
    lemma_pairless_around(k, '=', w);
    assert forall|i: int| 0 <= i < e.len() implies e[i] != ',' by {
        if i < k.len() {
            assert(k.contains(k[i]));
        } else if i > k.len() {
            assert(e[i] == w[i - k.len() - 1]);
            assert(w.contains(e[i]));
        }
    }
}

proof fn lemma_written_properties_v2(properties: Seq<(Seq<char>, Seq<char>)>)
    requires
        string_map::unique_keys(properties),
        forall|i: int|
            0 <= i < properties.len() ==> writable_property_v2(#[trigger] properties[i]),
    ensures
        properties_of(
            properties.map_values(|p: (Seq<char>, Seq<char>)| written_property_v2(p)),
            true,
        ) == properties,
    decreases properties.len(),
{
    let entries = properties.map_values(|p: (Seq<char>, Seq<char>)| written_property_v2(p));
    if properties.len() > 0 {
        let front = properties.drop_last();
        assert forall|i: int, j: int| 0 <= i < j < front.len() implies (#[trigger] front[i]).0 != (
        #[trigger] front[j]).0 by {
            assert(properties[i].0 != properties[j].0);
        }
        assert forall|i: int| 0 <= i < front.len() implies writable_property_v2(
            #[trigger] front[i],
        ) by {
            assert(front[i] == properties[i]);
        }
        lemma_written_properties_v2(front);
        assert(entries.drop_last() == front.map_values(
            |p: (Seq<char>, Seq<char>)| written_property_v2(p),
        ));
        let last = properties.last();
        assert(entries.last() == written_property_v2(last));
        lemma_written_property_v2(last);
        law_unescape_property_inverts(last.1);
        assert(!string_map::has_key(front, last.0)) by {
            if string_map::has_key(front, last.0) {
                let i = choose|i: int| 0 <= i < front.len() && (#[trigger] front[i]).0 == last.0;
                assert(properties[i].0 != properties[properties.len() - 1].0);
            }
        }
        assert(front.push(last) == properties);
    } else {
        assert(properties == Seq::<(Seq<char>, Seq<char>)>::empty());
    }
}

proof fn lemma_joined_ends(parts: Seq<Seq<char>>, sep: Seq<char>)
    requires
        parts.len() > 0,
        forall|i: int| 0 <= i < parts.len() ==> (#[trigger] parts[i]).len() > 0,
    ensures
        text::joined(parts, sep).len() > 0,
        text::joined(parts, sep)[0] == parts[0][0],
        text::joined(parts, sep).last() == parts.last().last(),
    decreases parts.len(),
{
    assert(parts[parts.len() - 1].len() > 0);
    if parts.len() > 1 {
        let front = parts.drop_last();
        assert forall|i: int| 0 <= i < front.len() implies (#[trigger] front[i]).len() > 0 by {
            assert(front[i] == parts[i]);
        }
        lemma_joined_ends(front, sep);
        assert(front[0] == parts[0]);
    }
}

/// What a written command is cut into: behind the first delimiter its info, and behind the
/// second one its data; and what its info is cut into.
proof fn lemma_written_v2_parts(before: Seq<char>, command: CommandView)
    requires
        text::blank(before),
        !command.0.contains(' '),
        !text::occurs(command.0, "::"@),
        command.1.len() == 0 && command.0.len() > 0 ==> command.0.last() != ':',
        string_map::unique_keys(command.1),
        forall|i: int| 0 <= i < command.1.len() ==> writable_property_v2(#[trigger] command.1[i]),
    ensures
        ({
            let line = text::trimmed_start(before + written_v2(command));
            &&& text::has_prefix(line, "::"@)
            &&& text::cut(line.skip(2), "::"@) matches Some((info, data))
                && info_parts(info).0 == command.0 && properties_of(
                text::pieces(text::trimmed(info_parts(info).1), ','),
                true,
            ) == command.1 && data == escaped_v2(command.2, false)
        }),
{
    let name = command.0;
    let entries = command.1.map_values(|p: (Seq<char>, Seq<char>)| written_property_v2(p));
    let list = text::joined(entries, ","@);
    let info = if entries.len() == 0 {
        name
    } else {
        name + " "@ + list
    };
    let data = escaped_v2(command.2, false);
    let message = written_v2(command);
    reveal_strlit("::");
    reveal_strlit(" ");
    reveal_strlit(",");
    assert(" "@ == seq![' ']);
    assert(","@ == seq![',']);
    assert("::"@ == seq![':', ':']);
    text::law_trimmed_start_drops(before, message);
    assert(message.subrange(0, 2) == "::"@);
    assert(message.skip(2) == info + "::"@ + data);
    assert forall|i: int| 0 <= i < entries.len() implies !(#[trigger] entries[i]).contains(',')
        && pairless(entries[i]) && entries[i].len() > 0 && !text::white_space(entries[i][0])
        && !text::white_space(entries[i].last()) && entries[i].last() != ':' by {
        assert(entries[i] == written_property_v2(command.1[i]));
        lemma_written_property_v2(command.1[i]);
    }
    lemma_pairless(name);
    lemma_written_properties_v2(command.1);
    if entries.len() == 0 {
        lemma_cut_at_pair(info, data);
        lemma_uncut(name, ' ');
        let none = Seq::<char>::empty();
        assert(text::pieces(none, ',') == seq![none]);
        assert(seq![none].drop_last() == Seq::<Seq<char>>::empty());
        assert(text::trimmed(none) == none);
        reveal_strlit("=");
        assert("="@ == seq!['=']);
        lemma_uncut(none, '=');
        assert(properties_of(seq![none], true) == properties_of(
            Seq::<Seq<char>>::empty(),
            true,
        ));
        assert(command.1 == Seq::<(Seq<char>, Seq<char>)>::empty());
    } else {
        lemma_pairless_joined(entries, ',');
        lemma_joined_ends(entries, seq![',']);
        assert(entries.last() == entries[entries.len() - 1]);
        assert(entries[0].len() > 0);
        lemma_pairless_around(name, ' ', list);
        assert(info.last() == list.last());
        lemma_cut_at_pair(info, data);
        lemma_cut_at(name, ' ', list);
        assert(text::trimmed(list) == list);
        lemma_pieces_joined(entries, ',');
    }
}

/// Reading a command of the second form gives back what was written: its name, its
/// properties and its data, whatever the data, delimiters included. White space before it
/// does not matter.
pub proof fn law_v2_reads_back(
    before: Seq<char>,
    command: CommandView,
    registered: Seq<Seq<char>>,
)
    requires
        text::blank(before),
        registered.contains(command.0),
        !command.0.contains(' '),
        !text::occurs(command.0, "::"@),
        command.1.len() == 0 && command.0.len() > 0 ==> command.0.last() != ':',
        string_map::unique_keys(command.1),
        forall|i: int| 0 <= i < command.1.len() ==> writable_property_v2(#[trigger] command.1[i]),
    ensures
        parsed_v2(before + written_v2(command), registered) == Some(command),
{
    reveal_strlit("::");
    lemma_written_v2_parts(before, command);
    law_unescape_data_inverts(command.2);
}

/// A command of the second form whose name is not registered is no command.
pub proof fn law_v2_refuses_unregistered(
    before: Seq<char>,
    command: CommandView,
    registered: Seq<Seq<char>>,
)
    requires
        text::blank(before),
        !registered.contains(command.0),
        !command.0.contains(' '),
        !text::occurs(command.0, "::"@),
        command.1.len() == 0 && command.0.len() > 0 ==> command.0.last() != ':',
        string_map::unique_keys(command.1),
        forall|i: int| 0 <= i < command.1.len() ==> writable_property_v2(#[trigger] command.1[i]),
    ensures
        parsed_v2(before + written_v2(command), registered) is None,
{
    reveal_strlit("::");
    lemma_written_v2_parts(before, command);
}

/// A line that does not begin with the delimiter, or holds it only once, is no command of
/// the second form; and what is one has a registered name without a space.
pub proof fn law_v2_needs_delimiters(message: Seq<char>, registered: Seq<Seq<char>>)
    ensures
        ({
            let line = text::trimmed_start(message);
            &&& !text::has_prefix(line, "::"@) ==> parsed_v2(message, registered) is None
            &&& text::has_prefix(line, "::"@) && !text::occurs(line.skip(2), "::"@) ==> parsed_v2(
                message,
                registered,
            ) is None
            &&& parsed_v2(message, registered) matches Some(c) ==> registered.contains(c.0)
                && !c.0.contains(' ')
        }),
{
    reveal_strlit("::");
    reveal_strlit(" ");
    assert(" "@ == seq![' ']);
    let line = text::trimmed_start(message);
    text::law_cut_is_first(line.skip(2), "::"@);
    if let Some((info, data)) = text::cut(line.skip(2), "::"@) {
        let rest = line.skip(2);
        assert(rest.subrange(info.len() as int, info.len() as int + 2) == "::"@);
        assert(text::occurs_at(rest, "::"@, info.len() as int));
        lemma_name_has_no_space(info);
    }
}

proof fn lemma_name_has_no_space(info: Seq<char>)
    ensures
        !info_parts(info).0.contains(' '),
{
    reveal_strlit(" ");
    assert(" "@ == seq![' ']);
    text::law_cut_is_first(info, " "@);
    let name = info_parts(info).0;
    if name.contains(' ') {
        let i = choose|i: int| 0 <= i < name.len() && name[i] == ' ';
        assert(info[i] == ' ');
        assert(info.subrange(i, i + 1) == " "@);
        assert(text::occurs_at(info, " "@, i));
    }
}

// ---------------------------------------------------------------------------
// Laws of both forms
// ---------------------------------------------------------------------------

/// What stands before a command of the first form is skipped, whatever it is.
pub proof fn law_v1_reads_back_behind(
    before: Seq<char>,
    command: CommandView,
    registered: Seq<Seq<char>>,
)
    requires
        !text::occurs(before, "##["@),
        registered.contains(command.0),
        !command.0.contains(' '),
        !command.0.contains(']'),
        string_map::unique_keys(command.1),
        forall|i: int| 0 <= i < command.1.len() ==> writable_property(#[trigger] command.1[i]),
    ensures
        parsed_v1(before + written_v1(command), registered) == Some(command),
{
    law_v1_reads_back(command, registered);
    reveal_strlit("##[");
    let pat = V1_PREFIX@;
    assert(pat == seq!['#', '#', '[']);
    let written = written_v1(command);
    let whole = before + written;
    let n = before.len() as int;
    assert(written.subrange(0, 3) == pat);
    assert(text::occurs_at(written, pat, 0));
    assert(text::find_from(written, pat, 0) == Some(0int));
    assert(whole.subrange(n, n + 3) == pat);
    assert(text::occurs_at(whole, pat, n));
    text::lemma_find_from(whole, pat, 0);
    let i = text::find_from(whole, pat, 0)->0;
    assert(whole.subrange(i, i + 3)[2] == whole[i + 2]);
    assert(i == n) by {
        if i < n {
            if i + 3 <= n {
                assert(before.subrange(i, i + 3) == whole.subrange(i, i + 3));
                assert(text::occurs_at(before, pat, i));
            } else {
                assert(whole[i + 2] == written[i + 2 - n]);
                assert(written[0] == '#' && written[1] == '#');
            }
        }
    }
    assert(whole.skip(n + 3) == written.skip(3));
}

/// A line without the prefix, or without a closing bracket behind it, is no command of the
/// first form; and what is one has a registered name without a space.
pub proof fn law_v1_needs_brackets(message: Seq<char>, registered: Seq<Seq<char>>)
    ensures
        !text::occurs(message, "##["@) ==> parsed_v1(message, registered) is None,
        !message.contains(']') ==> parsed_v1(message, registered) is None,
        parsed_v1(message, registered) matches Some(c) ==> registered.contains(c.0)
            && !c.0.contains(' '),
{
    reveal_strlit("##[");
    reveal_strlit("]");
    assert("]"@ == seq![']']);
    text::law_cut_is_first(message, "##["@);
    if let Some((before, rest)) = text::cut(message, "##["@) {
        assert(message.subrange(before.len() as int, before.len() as int + 3) == "##["@);
        assert(text::occurs_at(message, "##["@, before.len() as int));
        text::law_cut_is_first(rest, "]"@);
        if let Some((info, data)) = text::cut(rest, "]"@) {
            assert(rest[info.len() as int] == ']');
            assert(message[before.len() + 3 + info.len() as int] == ']');
            lemma_name_has_no_space(info);
        }
    }
}

/// Of two properties with the same key the later one counts; the others stay as they are.
pub proof fn law_later_property_wins(
    entries: Seq<Seq<char>>,
    entry: Seq<char>,
    v2: bool,
    other: Seq<char>,
)
    ensures
        ({
            let before = properties_of(entries, v2);
            let after = properties_of(entries.push(entry), v2);
            match property_of(entry) {
                Some((k, v)) => {
                    &&& v2 ==> string_map::value_of(after, k) == Some(unescaped_property(v))
                    &&& !v2 ==> string_map::value_of(after, k) == Some(unescaped(v))
                    &&& other != k ==> string_map::value_of(after, other)
                        == string_map::value_of(before, other)
                },
                None => after == before,
            }
        }),
{
    lemma_properties_unique(entries, v2);
    assert(entries.push(entry).drop_last() == entries);
    if let Some((k, v)) = property_of(entry) {
        string_map::lemma_with_entry(
            properties_of(entries, v2),
            k,
            if v2 {
                unescaped_property(v)
            } else {
                unescaped(v)
            },
        );
    }
}

proof fn lemma_properties_unique(entries: Seq<Seq<char>>, v2: bool)
    ensures
        string_map::unique_keys(properties_of(entries, v2)),
    decreases entries.len(),
{
    if entries.len() > 0 {
        lemma_properties_unique(entries.drop_last(), v2);
        if let Some((k, v)) = property_of(entries.last()) {
            string_map::lemma_with_entry(
                properties_of(entries.drop_last(), v2),
                k,
                if v2 {
                    unescaped_property(v)
                } else {
                    unescaped(v)
                },
            );
        }
    }
}

/// An entry is a property if and only if both a key and a value are there, parted by the
/// first equals sign; white space around the entry does not matter.
pub proof fn law_property_needs_both(
    before: Seq<char>,
    key: Seq<char>,
    value: Seq<char>,
    after: Seq<char>,
)
    requires
        text::blank(before),
        text::blank(after),
        !key.contains('='),
        key.len() > 0 ==> !text::white_space(key[0]),
        value.len() > 0 ==> !text::white_space(value.last()),
    ensures
        property_of(before + (key + "="@ + value) + after) == if key.len() > 0 && value.len() > 0 {
            Some((key, value))
        } else {
            None
        },
        property_of(before + key + after) is None,
{
    reveal_strlit("=");
    assert("="@ == seq!['=']);
    let entry = key + "="@ + value;
    text::law_trimmed_drops(before, entry, after);
    lemma_cut_at(key, '=', value);
    let bare = before + key + after;
    let t = text::trimmed(bare);
    assert(!bare.contains('=')) by {
        if bare.contains('=') {
            let i = choose|i: int| 0 <= i < bare.len() && bare[i] == '=';
            if i < before.len() {
                assert(text::white_space(before[i]));
            } else if i < before.len() + key.len() {
                assert(key[i - before.len()] == '=');
            } else {
                assert(text::white_space(after[i - before.len() - key.len()]));
            }
        }
    }
    lemma_trimmed_within(bare, '=');
    lemma_uncut(t, '=');
}

proof fn lemma_trimmed_start_within(s: Seq<char>, c: char)
    requires
        !s.contains(c),
    ensures
        !text::trimmed_start(s).contains(c),
    decreases s.len(),
{
    if s.len() > 0 {
        assert forall|i: int| 0 <= i < s.skip(1).len() implies s.skip(1)[i] != c by {
            assert(s[i + 1] != c);
        }
        lemma_trimmed_start_within(s.skip(1), c);
    }
}

proof fn lemma_trimmed_end_within(s: Seq<char>, c: char)
    requires
        !s.contains(c),
    ensures
        !text::trimmed_end(s).contains(c),
    decreases s.len(),
{
    if s.len() > 0 {
        assert forall|i: int| 0 <= i < s.drop_last().len() implies s.drop_last()[i] != c by {
            assert(s[i] != c);
        }
        lemma_trimmed_end_within(s.drop_last(), c);
    }
}

proof fn lemma_trimmed_within(s: Seq<char>, c: char)
    requires
        !s.contains(c),
    ensures
        !text::trimmed(s).contains(c),
{
    lemma_trimmed_start_within(s, c);
    lemma_trimmed_end_within(text::trimmed_start(s), c);
}

} // verus!
