//! What is accepted as a URL, a runner name, a work folder and labels.
use vstd::prelude::*;
use vstd::string::*;

use crate::url_parts::{UrlParts, UrlView};
use crate::{number, secret_masker, text, url_parts};

verus! {

/// The largest number of characters of a runner's name.
pub const MAX_NAME_LENGTH: usize = 64;

/// The largest number of bytes of a label.
pub const MAX_LABEL_LENGTH: usize = 64;

/// Why an input is not accepted.
#[derive(Debug)]
pub enum ValidationError {
    EmptyUrl,
    /// The URL, and what is wrong with it.
    InvalidUrl(String, String),
    /// The scheme.
    UnsupportedScheme(String),
    NoHost,
    EmptyName,
    /// The number of characters.
    NameTooLong(u64),
    /// The name.
    InvalidName(String),
    EmptyWorkFolder,
    /// The character.
    InvalidWorkFolder(char),
    EmptyLabel,
    /// The label.
    LabelTooLong(String),
}

/// Why an input is not accepted.
pub enum ErrorView {
    EmptyUrl,
    InvalidUrl(Seq<char>, Seq<char>),
    UnsupportedScheme(Seq<char>),
    NoHost,
    EmptyName,
    NameTooLong(int),
    InvalidName(Seq<char>),
    EmptyWorkFolder,
    InvalidWorkFolder(char),
    EmptyLabel,
    LabelTooLong(Seq<char>),
}

impl ValidationError {
    pub open spec fn view(&self) -> ErrorView {
        match *self {
            ValidationError::EmptyUrl => ErrorView::EmptyUrl,
            ValidationError::InvalidUrl(url, reason) => ErrorView::InvalidUrl(url@, reason@),
            ValidationError::UnsupportedScheme(scheme) => ErrorView::UnsupportedScheme(scheme@),
            ValidationError::NoHost => ErrorView::NoHost,
            ValidationError::EmptyName => ErrorView::EmptyName,
            ValidationError::NameTooLong(n) => ErrorView::NameTooLong(n as int),
            ValidationError::InvalidName(name) => ErrorView::InvalidName(name@),
            ValidationError::EmptyWorkFolder => ErrorView::EmptyWorkFolder,
            ValidationError::InvalidWorkFolder(c) => ErrorView::InvalidWorkFolder(c),
            ValidationError::EmptyLabel => ErrorView::EmptyLabel,
            ValidationError::LabelTooLong(label) => ErrorView::LabelTooLong(label@),
        }
    }

    /// The error in words.
    pub fn message(&self) -> (r: String)
        ensures
            r@ == error_text(self@),
    {
        match self {
            ValidationError::EmptyUrl => "URL cannot be empty".to_owned(),
            ValidationError::InvalidUrl(url, reason) => {
                let mut s = "Invalid URL '".to_owned();
                s.append(url.as_str());
                s.append("': ");
                s.append(reason.as_str());
                s
            },
            ValidationError::UnsupportedScheme(scheme) => {
                let mut s = "URL must use HTTP or HTTPS scheme, got '".to_owned();
                s.append(scheme.as_str());
                s.append("'");
                s
            },
            ValidationError::NoHost => "URL must have a host".to_owned(),
            ValidationError::EmptyName => "Runner name cannot be empty".to_owned(),
            ValidationError::NameTooLong(n) => {
                let mut s = "Runner name must be at most 64 characters (got ".to_owned();
                s.append(number::u64_text(*n).as_str());
                s.append(")");
                s
            },
            ValidationError::InvalidName(name) => {
                let mut s = "Runner name '".to_owned();
                s.append(name.as_str());
                s.append(
                    "' contains invalid characters. Only alphanumeric characters, hyphens, underscores, and periods are allowed.",
                );
                s
            },
            ValidationError::EmptyWorkFolder => "Work folder cannot be empty".to_owned(),
            ValidationError::InvalidWorkFolder(c) => {
                let mut s = "Work folder contains invalid character: '".to_owned();
                s.push(*c);
                s.append("'");
                s
            },
            ValidationError::EmptyLabel => "Label list contains empty labels".to_owned(),
            ValidationError::LabelTooLong(label) => {
                let mut s = "Label '".to_owned();
                s.append(label.as_str());
                s.append("' exceeds the maximum length of 64 characters");
                s
            },
        }
    }
}

/// An error in words.
pub open spec fn error_text(e: ErrorView) -> Seq<char> {
    match e {
        ErrorView::EmptyUrl => "URL cannot be empty"@,
        ErrorView::InvalidUrl(url, reason) => "Invalid URL '"@ + url + "': "@ + reason,
        ErrorView::UnsupportedScheme(scheme) => "URL must use HTTP or HTTPS scheme, got '"@ + scheme
            + "'"@,
        ErrorView::NoHost => "URL must have a host"@,
        ErrorView::EmptyName => "Runner name cannot be empty"@,
        ErrorView::NameTooLong(n) => "Runner name must be at most 64 characters (got "@
            + number::decimal(n) + ")"@,
        ErrorView::InvalidName(name) => "Runner name '"@ + name
            + "' contains invalid characters. Only alphanumeric characters, hyphens, underscores, and periods are allowed."@,
        ErrorView::EmptyWorkFolder => "Work folder cannot be empty"@,
        ErrorView::InvalidWorkFolder(c) => "Work folder contains invalid character: '"@.push(c)
            + "'"@,
        ErrorView::EmptyLabel => "Label list contains empty labels"@,
        ErrorView::LabelTooLong(label) => "Label '"@ + label
            + "' exceeds the maximum length of 64 characters"@,
    }
}

/// The verdict that a result stands for: `None` if the input is accepted.
pub open spec fn verdict(r: Result<(), ValidationError>) -> Option<ErrorView> {
    match r {
        Ok(_) => None,
        Err(e) => Some(e@),
    }
}

// ---------------------------------------------------------------------------
// URLs
// ---------------------------------------------------------------------------

/// The verdict on a URL, given what parsing it gave.
pub open spec fn url_verdict(url: Seq<char>, parsed: Result<UrlView, Seq<char>>) -> Option<
    ErrorView,
> {
    if url.len() == 0 {
        Some(ErrorView::EmptyUrl)
    } else {
        match parsed {
            Err(reason) => Some(ErrorView::InvalidUrl(url, reason)),
            Ok((scheme, host, _)) => if scheme != "http"@ && scheme != "https"@ {
                Some(ErrorView::UnsupportedScheme(scheme))
            } else if host is None {
                Some(ErrorView::NoHost)
            } else {
                None
            },
        }
    }
}

/// Accepts a URL, given what parsing it gave: an HTTP or HTTPS URL with a host.
pub fn check_url(url: &str, parsed: Result<UrlParts, String>) -> (r: Result<(), ValidationError>)
    ensures
        verdict(r) == url_verdict(url@, url_parts::view_parsed(parsed)),
{
    if text::is_empty(url) {
        return Err(ValidationError::EmptyUrl);
    }
    match parsed {
        Err(reason) => Err(ValidationError::InvalidUrl(url.to_owned(), reason)),
        Ok(parts) => {
            if !text::same(parts.scheme.as_str(), "http") && !text::same(
                parts.scheme.as_str(),
                "https",
            ) {
                Err(ValidationError::UnsupportedScheme(parts.scheme))
            } else if parts.host.is_none() {
                Err(ValidationError::NoHost)
            } else {
                Ok(())
            }
        },
    }
}

/// Accepts an HTTP or HTTPS URL with a host.
pub fn validate_url(url: &str) -> (r: Result<(), ValidationError>)
    ensures
        verdict(r) == url_verdict(url@, url_parts::parsed_url(url@)),
{
    let parsed = url_parts::parse(url);
    check_url(url, parsed)
}

// ---------------------------------------------------------------------------
// Names
// ---------------------------------------------------------------------------

/// The character may stand in a runner's name.
pub open spec fn name_char(c: char) -> bool {
    text::alphanumeric(c) || c == '-' || c == '_' || c == '.'
}

/// The verdict on a runner's name.
pub open spec fn name_verdict(name: Seq<char>) -> Option<ErrorView> {
    if name.len() == 0 {
        Some(ErrorView::EmptyName)
    } else if name.len() > MAX_NAME_LENGTH {
        Some(ErrorView::NameTooLong(name.len() as int))
    } else if exists|i: int| 0 <= i < name.len() && !name_char(#[trigger] name[i]) {
        Some(ErrorView::InvalidName(name))
    } else {
        None
    }
}

/// Accepts a name of at most 64 characters: letters, digits, hyphens, underscores and
/// periods.
pub fn validate_runner_name(name: &str) -> (r: Result<(), ValidationError>)
    ensures
        verdict(r) == name_verdict(name@),
{
    let v = text::to_chars(name);
    if v.len() == 0 {
        return Err(ValidationError::EmptyName);
    }
    if v.len() > MAX_NAME_LENGTH {
        return Err(ValidationError::NameTooLong(v.len() as u64));
    }
    let mut i: usize = 0;
    while i < v.len()
        invariant
            v@ == name@,
            0 < v@.len() <= MAX_NAME_LENGTH,
            i <= v@.len(),
            forall|j: int| 0 <= j < i ==> name_char(#[trigger] v@[j]),
        decreases v@.len() - i,
    {
        let c = v[i];
        if !(text::is_alphanumeric(c) || c == '-' || c == '_' || c == '.') {
            assert(!name_char(name@[i as int]));
            return Err(ValidationError::InvalidName(name.to_owned()));
        }
        i = i + 1;
    }
    Ok(())
}

// ---------------------------------------------------------------------------
// Work folders
// ---------------------------------------------------------------------------

/// The characters that a work folder must not hold, in the order in which they are looked
/// for.
pub open spec fn forbidden_work_chars() -> Seq<char> {
    seq!['<', '>', ':', '"', '|', '?', '*']
}

/// The first of the characters, from the `i`th on, that the folder holds.
pub open spec fn first_forbidden(work: Seq<char>, i: int) -> Option<char>
    decreases forbidden_work_chars().len() - i,
{
    if i < 0 || i >= forbidden_work_chars().len() {
        None
    } else if work.contains(forbidden_work_chars()[i]) {
        Some(forbidden_work_chars()[i])
    } else {
        first_forbidden(work, i + 1)
    }
}

/// The verdict on a work folder.
pub open spec fn work_verdict(work: Seq<char>) -> Option<ErrorView> {
    if work.len() == 0 {
        Some(ErrorView::EmptyWorkFolder)
    } else {
        match first_forbidden(work, 0) {
            Some(c) => Some(ErrorView::InvalidWorkFolder(c)),
            None => None,
        }
    }
}

fn holds_char(v: &Vec<char>, c: char) -> (r: bool)
    ensures
        r == v@.contains(c),
{
    let mut i: usize = 0;
    while i < v.len()
        invariant
            i <= v@.len(),
            forall|j: int| 0 <= j < i ==> v@[j] != c,
        decreases v@.len() - i,
    {
        if v[i] == c {
            return true;
        }
        i = i + 1;
    }
    false
}

/// Accepts a folder that is not empty and holds none of the characters that paths must not
/// hold on some platform.
pub fn validate_work_folder(work: &str) -> (r: Result<(), ValidationError>)
    ensures
        verdict(r) == work_verdict(work@),
{
    let v = text::to_chars(work);
    if v.len() == 0 {
        return Err(ValidationError::EmptyWorkFolder);
    }
    let forbidden: Vec<char> = vec!['<', '>', ':', '"', '|', '?', '*'];
    assert(forbidden@ == forbidden_work_chars());
    let mut i: usize = 0;
    while i < forbidden.len()
        invariant
            v@ == work@,
            work@.len() > 0,
            forbidden@ == forbidden_work_chars(),
            i <= forbidden@.len(),
            first_forbidden(work@, 0) == first_forbidden(work@, i as int),
        decreases forbidden@.len() - i,
    {
        if holds_char(&v, forbidden[i]) {
            return Err(ValidationError::InvalidWorkFolder(forbidden[i]));
        }
        i = i + 1;
    }
    Ok(())
}

// ---------------------------------------------------------------------------
// Labels
// ---------------------------------------------------------------------------

/// The verdict on a label.
pub open spec fn label_verdict(label: Seq<char>) -> Option<ErrorView> {
    if label.len() == 0 {
        Some(ErrorView::EmptyLabel)
    } else if secret_masker::byte_len(label) > MAX_LABEL_LENGTH {
        Some(ErrorView::LabelTooLong(label))
    } else {
        None
    }
}

/// The verdict on the labels from the `i`th on: that on the first one that is not accepted.
pub open spec fn labels_verdict_from(labels: Seq<Seq<char>>, i: int) -> Option<ErrorView>
    decreases labels.len() - i,
{
    if i < 0 || i >= labels.len() {
        None
    } else {
        match label_verdict(text::trimmed(labels[i])) {
            Some(e) => Some(e),
            None => labels_verdict_from(labels, i + 1),
        }
    }
}

/// The verdict on a list of labels; there need not be any.
pub open spec fn labels_verdict(labels: Seq<char>) -> Option<ErrorView> {
    if labels.len() == 0 {
        None
    } else {
        labels_verdict_from(text::pieces(labels, ','), 0)
    }
}

/// Accepts a list of labels with commas between them, each neither empty nor longer than 64
/// bytes.
pub fn validate_labels(labels: &str) -> (r: Result<(), ValidationError>)
    ensures
        verdict(r) == labels_verdict(labels@),
{
    if text::is_empty(labels) {
        return Ok(());
    }
    let list = text::split(labels, ',');
    let ghost all = text::pieces(labels@, ',');
    let mut i: usize = 0;
    while i < list.len()
        invariant
            labels@.len() > 0,
            all == text::pieces(labels@, ','),
            text::views(list@) == all,
            i <= list@.len(),
            labels_verdict(labels@) == labels_verdict_from(all, i as int),
        decreases list@.len() - i,
    {
        assert(all[i as int] == list@[i as int]@);
        let label = text::trim(list[i].as_str());
        if text::is_empty(label.as_str()) {
            return Err(ValidationError::EmptyLabel);
        }
        if label.as_str().as_bytes().len() > MAX_LABEL_LENGTH {
            return Err(ValidationError::LabelTooLong(label));
        }
        i = i + 1;
    }
    Ok(())
}

// ---------------------------------------------------------------------------
// Laws
// ---------------------------------------------------------------------------

/// A URL is accepted if and only if it is a valid HTTP or HTTPS URL with a host; the first
/// thing that is wrong with another one is what is reported.
pub proof fn law_accepted_urls(url: Seq<char>, parsed: Result<UrlView, Seq<char>>)
    ensures
        url_verdict(url, parsed) is None <==> url.len() > 0 && (parsed matches Ok((scheme, host, _))
            && (scheme == "http"@ || scheme == "https"@) && host is Some),
        url_verdict(url, parsed) == Some(ErrorView::EmptyUrl) <==> url.len() == 0,
        url_verdict(url, parsed) is Some && url.len() > 0 ==> match parsed {
            Err(reason) => url_verdict(url, parsed) == Some(ErrorView::InvalidUrl(url, reason)),
            Ok((scheme, _, _)) => if scheme == "http"@ || scheme == "https"@ {
                url_verdict(url, parsed) == Some(ErrorView::NoHost)
            } else {
                url_verdict(url, parsed) == Some(ErrorView::UnsupportedScheme(scheme))
            },
        },
{
}

/// A runner's name is accepted if and only if it has between one and 64 characters and each
/// of them is a letter, a digit, a hyphen, an underscore or a period.
pub proof fn law_accepted_names(name: Seq<char>)
    ensures
        name_verdict(name) is None <==> 1 <= name.len() <= 64 && forall|i: int|
            0 <= i < name.len() ==> {
                ||| text::alphanumeric(#[trigger] name[i])
                ||| name[i] == '-'
                ||| name[i] == '_'
                ||| name[i] == '.'
            },
        name_verdict(name) == Some(ErrorView::EmptyName) <==> name.len() == 0,
        name.len() > 64 ==> name_verdict(name) == Some(ErrorView::NameTooLong(name.len() as int)),
        name_verdict(name) is Some && 1 <= name.len() <= 64 ==> name_verdict(name) == Some(
            ErrorView::InvalidName(name),
        ),
{
}

/// Of the ASCII characters just the letters and digits are alphanumeric.
pub proof fn law_ascii_name_chars(c: char)
    requires
        c <= '\u{7f}',
    ensures
        name_char(c) <==> 'a' <= c <= 'z' || 'A' <= c <= 'Z' || '0' <= c <= '9' || c == '-' || c
            == '_' || c == '.',
{
}

proof fn lemma_first_forbidden(work: Seq<char>, i: int)
    requires
        0 <= i <= forbidden_work_chars().len(),
    ensures
        match first_forbidden(work, i) {
            Some(c) => work.contains(c) && exists|k: int|
                i <= k < forbidden_work_chars().len() && #[trigger] forbidden_work_chars()[k] == c
                    && forall|j: int|
                    i <= j < k ==> !work.contains(#[trigger] forbidden_work_chars()[j]),
            None => forall|k: int|
                i <= k < forbidden_work_chars().len() ==> !work.contains(
                    #[trigger] forbidden_work_chars()[k],
                ),
        },
    decreases forbidden_work_chars().len() - i,
{
    if i < forbidden_work_chars().len() {
        if !work.contains(forbidden_work_chars()[i]) {
            lemma_first_forbidden(work, i + 1);
        } else {
            assert(forbidden_work_chars()[i] == first_forbidden(work, i)->0);
        }
    }
}

/// A work folder is accepted if and only if it is not empty and holds none of the characters
/// `<`, `>`, `:`, `"`, `|`, `?` and `*`; a character that is reported does stand in it.
pub proof fn law_accepted_work_folders(work: Seq<char>)
    ensures
        work_verdict(work) is None <==> {
            &&& work.len() > 0
            &&& !work.contains('<')
            &&& !work.contains('>')
            &&& !work.contains(':')
            &&& !work.contains('"')
            &&& !work.contains('|')
            &&& !work.contains('?')
            &&& !work.contains('*')
        },
        work_verdict(work) == Some(ErrorView::EmptyWorkFolder) <==> work.len() == 0,
        work_verdict(work) matches Some(ErrorView::InvalidWorkFolder(c)) ==> work.contains(c),
{
    lemma_first_forbidden(work, 0);
    let all = forbidden_work_chars();
    assert(all[0] == '<' && all[1] == '>' && all[2] == ':' && all[3] == '"' && all[4] == '|'
        && all[5] == '?' && all[6] == '*');
}

proof fn lemma_labels_verdict(labels: Seq<Seq<char>>, i: int)
    requires
        0 <= i <= labels.len(),
    ensures
        match labels_verdict_from(labels, i) {
            None => forall|k: int|
                i <= k < labels.len() ==> label_verdict(text::trimmed(#[trigger] labels[k]))
                    is None,
            Some(e) => exists|k: int|
                i <= k < labels.len() && label_verdict(text::trimmed(#[trigger] labels[k])) == Some(
                    e,
                ) && forall|j: int|
                    i <= j < k ==> label_verdict(text::trimmed(#[trigger] labels[j])) is None,
        },
    decreases labels.len() - i,
{
    if i < labels.len() {
        if label_verdict(text::trimmed(labels[i])) is None {
            lemma_labels_verdict(labels, i + 1);
        }
    }
}

/// A list of labels is accepted if and only if it is empty or each label, without the white
/// space around it, has between one and 64 bytes. The first label that has not is the one
/// that is reported.
pub proof fn law_accepted_labels(labels: Seq<Seq<char>>)
    requires
        labels.len() > 0,
        text::joined(labels, seq![',']).len() > 0,
        forall|i: int| 0 <= i < labels.len() ==> !(#[trigger] labels[i]).contains(','),
    ensures
        match labels_verdict(text::joined(labels, seq![','])) {
            None => forall|k: int|
                0 <= k < labels.len() ==> 1 <= secret_masker::byte_len(
                    text::trimmed(#[trigger] labels[k]),
                ) <= 64,
            Some(e) => exists|k: int|
                0 <= k < labels.len() && {
                    let label = text::trimmed(#[trigger] labels[k]);
                    &&& label.len() == 0 && e == ErrorView::EmptyLabel
                        || secret_masker::byte_len(label) > 64 && e == ErrorView::LabelTooLong(
                        label,
                    )
                    &&& forall|j: int|
                        0 <= j < k ==> label_verdict(text::trimmed(#[trigger] labels[j])) is None
                },
        },
        labels_verdict(Seq::empty()) is None,
{
    text::law_pieces_of_joined(labels, ',');
    lemma_labels_verdict(labels, 0);
    match labels_verdict(text::joined(labels, seq![','])) {
        None => {
            assert forall|k: int| 0 <= k < labels.len() implies 1 <= secret_masker::byte_len(
                text::trimmed(#[trigger] labels[k]),
            ) <= 64 by {
                let label = text::trimmed(labels[k]);
                assert(label_verdict(label) is None);
                vstd::utf8::encode_utf8_decode_utf8(label);
                if vstd::utf8::encode_utf8(label).len() == 0 {
                    assert(vstd::utf8::encode_utf8(label) == Seq::<u8>::empty());
                    vstd::utf8::encode_utf8_decode_utf8(Seq::<char>::empty());
                    assert(vstd::utf8::encode_utf8(Seq::<char>::empty()) == Seq::<u8>::empty());
                }
            }
        },
        Some(e) => {},
    }
}

} // verus!
