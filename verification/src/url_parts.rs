//! The parts of a URL that the runner reads.
use vstd::prelude::*;

use crate::text;

verus! {

/// A URL by its parts.
#[derive(Debug)]
pub struct UrlParts {
    /// The scheme, in lower case, without the colon.
    pub scheme: String,
    /// The host, where the URL has one.
    pub host: Option<String>,
    /// The path, percent-encoded.
    pub path: String,
}

/// The scheme, the host and the path of a URL.
pub type UrlView = (Seq<char>, Option<Seq<char>>, Seq<char>);

impl UrlParts {
    pub open spec fn view(&self) -> UrlView {
        (self.scheme@, text::view_option(self.host), self.path@)
    }
}

/// What `url::Url::parse` makes of `s`: the parts of the URL, or the text of the error.
pub uninterp spec fn parsed_url(s: Seq<char>) -> Result<UrlView, Seq<char>>;

/// What a result of parsing holds.
pub open spec fn view_parsed(r: Result<UrlParts, String>) -> Result<UrlView, Seq<char>> {
    match r {
        Ok(parts) => Ok(parts@),
        Err(message) => Err(message@),
    }
}

/// `url::Url::parse`, with the parsed URL's `scheme`, `host_str` and `path`, or the text of
/// its `ParseError`. They depend on `s` alone; the contract says no more than that.
#[verifier::external_body]
pub(crate) fn parse(s: &str) -> (r: Result<UrlParts, String>)
    ensures
        view_parsed(r) == parsed_url(s@),
{
    match url::Url::parse(s) {
        Ok(url) => Ok(UrlParts {
            scheme: url.scheme().to_string(),
            host: url.host_str().map(|h| h.to_string()),
            path: url.path().to_string(),
        }),
        Err(e) => Err(e.to_string()),
    }
}

/// What `url::Url::parse` makes of `s`, with its path set to `path`, as text; or the text of
/// the error.
pub uninterp spec fn url_with_path(s: Seq<char>, path: Seq<char>) -> Result<
    Seq<char>,
    Seq<char>,
>;

/// `url::Url::set_path` on the URL that `url::Url::parse` makes of `s`, as text, or the text
/// of the `ParseError`. It depends on `s` and `path` alone; the contract says no more than
/// that.
#[verifier::external_body]
pub(crate) fn with_path(s: &str, path: &str) -> (r: Result<String, String>)
    ensures
        text::view_result(r) == url_with_path(s@, path@),
{
    match url::Url::parse(s) {
        Ok(mut url) => {
            url.set_path(path);
            Ok(url.to_string())
        },
        Err(e) => Err(e.to_string()),
    }
}

/// The non-empty segments of a path that begins with a slash; of another path, none.
pub open spec fn path_segments(path: Seq<char>) -> Seq<Seq<char>> {
    if path.len() > 0 && path[0] == '/' {
        non_empty(text::pieces(path.skip(1), '/'))
    } else {
        Seq::empty()
    }
}

/// Those texts that are not empty, in order.
pub open spec fn non_empty(parts: Seq<Seq<char>>) -> Seq<Seq<char>>
    decreases parts.len(),
{
    if parts.len() == 0 {
        Seq::empty()
    } else if parts.last().len() == 0 {
        non_empty(parts.drop_last())
    } else {
        non_empty(parts.drop_last()).push(parts.last())
    }
}

/// Keeps those texts that are not empty.
pub fn keep_non_empty(parts: &Vec<String>) -> (r: Vec<String>)
    ensures
        text::views(r@) == non_empty(text::views(parts@)),
{
    let mut out: Vec<String> = Vec::new();
    let mut i: usize = 0;
    assert(text::views(parts@).take(0) == Seq::<Seq<char>>::empty());
    assert(text::views(out@) == Seq::<Seq<char>>::empty());
    while i < parts.len()
        invariant
            i <= parts@.len(),
            text::views(out@) == non_empty(text::views(parts@).take(i as int)),
        decreases parts@.len() - i,
    {
        proof {
            let now = text::views(parts@).take(i + 1);
            assert(now.drop_last() == text::views(parts@).take(i as int));
            assert(now.last() == parts@[i as int]@);
        }
        if !text::is_empty(parts[i].as_str()) {
            let part = parts[i].clone();
            assert(text::views(out@.push(part)) == text::views(out@).push(part@));
            out.push(part);
        }
        i = i + 1;
    }
    assert(text::views(parts@).take(parts@.len() as int) == text::views(parts@));
    out
}

/// The non-empty segments of a path.
pub fn segments(path: &str) -> (r: Vec<String>)
    ensures
        text::views(r@) == path_segments(path@),
{
    proof {
        reveal_strlit("/");
        assert("/"@ == seq!['/']);
    }
    match text::strip_prefix(path, "/") {
        Some(rest) => {
            assert(path@.subrange(0, 1)[0] == path@[0]);
            let parts = text::split(rest.as_str(), '/');
            keep_non_empty(&parts)
        },
        None => {
            assert(path@.len() > 0 && path@[0] == '/' ==> path@.subrange(0, 1) == seq!['/']);
            let none: Vec<String> = Vec::new();
            assert(text::views(none@) == Seq::<Seq<char>>::empty());
            none
        },
    }
}

// ---------------------------------------------------------------------------
// Laws
// ---------------------------------------------------------------------------

/// Texts that are not empty are all kept, in order.
proof fn lemma_non_empty_all(parts: Seq<Seq<char>>)
    requires
        forall|i: int| 0 <= i < parts.len() ==> (#[trigger] parts[i]).len() > 0,
    ensures
        non_empty(parts) == parts,
    decreases parts.len(),
{
    if parts.len() > 0 {
        assert forall|i: int| 0 <= i < parts.drop_last().len() implies (
        #[trigger] parts.drop_last()[i]).len() > 0 by {
            assert(parts.drop_last()[i] == parts[i]);
        }
        lemma_non_empty_all(parts.drop_last());
        assert(parts[parts.len() - 1].len() > 0);
        assert(parts.drop_last().push(parts.last()) == parts);
    } else {
        assert(parts == Seq::<Seq<char>>::empty());
    }
}

/// A path that is written from segments, each behind a slash, has just those segments,
/// with or without a slash at its end.
pub proof fn law_segments_of_written_path(segments: Seq<Seq<char>>)
    requires
        segments.len() > 0,
        forall|i: int|
            0 <= i < segments.len() ==> (#[trigger] segments[i]).len() > 0
                && !segments[i].contains('/'),
    ensures
        path_segments(seq!['/'] + text::joined(segments, seq!['/'])) == segments,
        path_segments(seq!['/'] + text::joined(segments, seq!['/']) + seq!['/']) == segments,
{
    let inner = text::joined(segments, seq!['/']);
    assert((seq!['/'] + inner).skip(1) == inner);
    text::law_pieces_of_joined(segments, '/');
    lemma_non_empty_all(segments);
    let none = Seq::<char>::empty();
    let more = segments.push(none);
    assert(more.drop_last() == segments);
    assert(text::joined(more, seq!['/']) == inner + seq!['/'] + none);
    assert((seq!['/'] + inner + seq!['/']).skip(1) == inner + seq!['/'] + none);
    assert forall|i: int| 0 <= i < more.len() implies !(#[trigger] more[i]).contains('/') by {
        if i < segments.len() {
            assert(more[i] == segments[i]);
        }
    }
    text::law_pieces_of_joined(more, '/');
    assert(non_empty(more) == non_empty(segments));
}

/// The path of a server itself has no segment.
pub proof fn law_root_has_no_segment()
    ensures
        path_segments(Seq::empty()) == Seq::<Seq<char>>::empty(),
        path_segments(seq!['/']) == Seq::<Seq<char>>::empty(),
{
    let none = Seq::<char>::empty();
    assert(seq!['/'].skip(1) == none);
    assert(text::pieces(none, '/') == seq![none]);
    assert(seq![none].drop_last() == Seq::<Seq<char>>::empty());
    assert(non_empty(seq![none]) == non_empty(Seq::<Seq<char>>::empty()));
}

} // verus!
