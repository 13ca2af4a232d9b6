//! Character-sequence building blocks.
//!
//! Text is modelled as `Seq<char>`. Every function here works on whole
//! characters, so no result can split one.
use vstd::prelude::*;
use vstd::string::*;

verus! {

/// `String::push`: appends one character to the end of the string.
pub assume_specification[ String::push ](s: &mut String, c: char)
    ensures
        final(s)@ == old(s)@.push(c),
;

/// The characters of `s`, in order.
pub fn to_chars(s: &str) -> (v: Vec<char>)
    ensures
        v@ == s@,
{
    let mut v: Vec<char> = Vec::new();
    for c in it: s.chars()
        invariant
            it.seq() == s@,
            v@ == s@.take(it.index()),
    {
        v.push(c);
        assert(v@ == s@.take(it.index() + 1));
    }
    assert(s@.take(s@.len() as int) == s@);
    v
}

/// The text made of the characters `v[from..to]`.
pub fn from_chars(v: &Vec<char>, from: usize, to: usize) -> (s: String)
    requires
        from <= to <= v@.len(),
    ensures
        s@ == v@.subrange(from as int, to as int),
{
    let mut s = String::new();
    let mut i: usize = from;
    while i < to
        invariant
            from <= i <= to <= v@.len(),
            s@ == v@.subrange(from as int, i as int),
        decreases to - i,
    {
        s.push(v[i]);
        i = i + 1;
        assert(s@ == v@.subrange(from as int, i as int));
    }
    s
}

/// Whether two texts hold the same characters.
pub fn same(a: &str, b: &str) -> (r: bool)
    ensures
        r == (a@ == b@),
{
    let x = a.as_bytes();
    let y = b.as_bytes();
    proof {
        vstd::utf8::encode_utf8_decode_utf8(a@);
        vstd::utf8::encode_utf8_decode_utf8(b@);
    }
    if x.len() != y.len() {
        return false;
    }
    let mut i: usize = 0;
    while i < x.len()
        invariant
            x@.len() == y@.len(),
            i <= x@.len(),
            forall|j: int| 0 <= j < i ==> x@[j] == y@[j],
            x@ == a.spec_bytes(),
            y@ == b.spec_bytes(),
        decreases x@.len() - i,
    {
        if x[i] != y[i] {
            return false;
        }
        i = i + 1;
    }
    assert(x@ == y@);
    true
}

// ---------------------------------------------------------------------------
// Searching
// ---------------------------------------------------------------------------

/// `pat` stands in `s` at position `i`.
pub open spec fn occurs_at(s: Seq<char>, pat: Seq<char>, i: int) -> bool {
    0 <= i && i + pat.len() <= s.len() && s.subrange(i, i + pat.len()) == pat
}

/// `pat` stands somewhere in `s`.
pub open spec fn occurs(s: Seq<char>, pat: Seq<char>) -> bool {
    exists|i: int| occurs_at(s, pat, i)
}

pub open spec fn has_prefix(s: Seq<char>, pat: Seq<char>) -> bool {
    occurs_at(s, pat, 0)
}

pub open spec fn has_suffix(s: Seq<char>, pat: Seq<char>) -> bool {
    occurs_at(s, pat, s.len() - pat.len())
}

/// The first position, not before `from`, at which `pat` stands in `s`.
pub open spec fn find_from(s: Seq<char>, pat: Seq<char>, from: int) -> Option<int>
    decreases s.len() - from + 1,
{
    if from + pat.len() > s.len() {
        None
    } else if occurs_at(s, pat, from) {
        Some(from)
    } else {
        find_from(s, pat, from + 1)
    }
}

/// What stands before and after the first `pat` in `s`.
pub open spec fn cut(s: Seq<char>, pat: Seq<char>) -> Option<(Seq<char>, Seq<char>)> {
    match find_from(s, pat, 0) {
        Some(i) => Some((s.take(i), s.skip(i + pat.len()))),
        None => None,
    }
}

/// `find_from` finds the first place and misses none.
pub proof fn lemma_find_from(s: Seq<char>, pat: Seq<char>, from: int)
    requires
        0 <= from,
    ensures
        match find_from(s, pat, from) {
            Some(i) => from <= i && occurs_at(s, pat, i) && forall|j: int|
                from <= j < i ==> !occurs_at(s, pat, j),
            None => forall|j: int| from <= j ==> !occurs_at(s, pat, j),
        },
    decreases s.len() - from + 1,
{
    if from + pat.len() <= s.len() && !occurs_at(s, pat, from) {
        lemma_find_from(s, pat, from + 1);
    }
}

fn matches_at(v: &Vec<char>, pat: &Vec<char>, i: usize) -> (r: bool)
    requires
        i + pat@.len() <= v@.len(),
    ensures
        r == occurs_at(v@, pat@, i as int),
{
    let n: usize = v.len();
    let mut k: usize = 0;
    while k < pat.len()
        invariant
            n == v@.len(),
            k <= pat@.len(),
            i + pat@.len() <= n,
            forall|j: int| 0 <= j < k ==> v@[i + j] == pat@[j],
        decreases pat@.len() - k,
    {
        if v[i + k] != pat[k] {
            assert(v@.subrange(i as int, i + pat@.len())[k as int] != pat@[k as int]);
            return false;
        }
        k = k + 1;
    }
    assert(v@.subrange(i as int, i + pat@.len()) == pat@);
    true
}

fn find_in(v: &Vec<char>, pat: &Vec<char>) -> (r: Option<usize>)
    ensures
        match r {
            Some(i) => find_from(v@, pat@, 0) == Some(i as int) && i + pat@.len() <= v@.len(),
            None => find_from(v@, pat@, 0) is None,
        },
{
    if pat.len() > v.len() {
        return None;
    }
    let mut i: usize = 0;
    let last: usize = v.len() - pat.len();
    while i <= last
        invariant
            last == v@.len() - pat@.len(),
            i <= last + 1,
            find_from(v@, pat@, 0) == find_from(v@, pat@, i as int),
        decreases last + 1 - i,
    {
        if matches_at(v, pat, i) {
            return Some(i);
        }
        if i == last {
            assert(find_from(v@, pat@, i + 1) is None);
            return None;
        }
        i = i + 1;
    }
    None
}

/// Whether `s` begins with `pat`.
pub fn starts_with(s: &str, pat: &str) -> (r: bool)
    ensures
        r == has_prefix(s@, pat@),
{
    let v = to_chars(s);
    let p = to_chars(pat);
    p.len() <= v.len() && matches_at(&v, &p, 0)
}

/// Whether `s` ends with `pat`.
pub fn ends_with(s: &str, pat: &str) -> (r: bool)
    ensures
        r == has_suffix(s@, pat@),
{
    let v = to_chars(s);
    let p = to_chars(pat);
    p.len() <= v.len() && matches_at(&v, &p, v.len() - p.len())
}

/// Whether `pat` stands somewhere in `s`.
pub fn contains(s: &str, pat: &str) -> (r: bool)
    ensures
        r == occurs(s@, pat@),
{
    let v = to_chars(s);
    let p = to_chars(pat);
    proof {
        lemma_find_from(s@, pat@, 0);
    }
    find_in(&v, &p).is_some()
}

/// What follows `pat` in `s`, if `s` begins with it.
pub fn strip_prefix(s: &str, pat: &str) -> (r: Option<String>)
    ensures
        match r {
            Some(rest) => has_prefix(s@, pat@) && rest@ == s@.skip(pat@.len() as int),
            None => !has_prefix(s@, pat@),
        },
{
    let v = to_chars(s);
    let p = to_chars(pat);
    if p.len() <= v.len() && matches_at(&v, &p, 0) {
        Some(from_chars(&v, p.len(), v.len()))
    } else {
        None
    }
}

/// What stands before and after the first `pat` in `s`.
pub fn split_once(s: &str, pat: &str) -> (r: Option<(String, String)>)
    ensures
        match r {
            Some((before, after)) => cut(s@, pat@) == Some((before@, after@)),
            None => cut(s@, pat@) is None,
        },
{
    let v = to_chars(s);
    let p = to_chars(pat);
    match find_in(&v, &p) {
        Some(i) => {
            let n: usize = v.len();
            let before = from_chars(&v, 0, i);
            let after = from_chars(&v, i + p.len(), n);
            proof {
                lemma_find_from(s@, pat@, 0);
            }
            assert(before@ == s@.take(i as int));
            assert(after@ == s@.skip(i + pat@.len()));
            Some((before, after))
        },
        None => None,
    }
}

// ---------------------------------------------------------------------------
// Trimming
// ---------------------------------------------------------------------------

/// The Unicode `White_Space` property.
pub open spec fn white_space(c: char) -> bool {
    ||| '\u{9}' <= c <= '\u{d}'
    ||| c == ' '
    ||| c == '\u{85}'
    ||| c == '\u{a0}'
    ||| c == '\u{1680}'
    ||| '\u{2000}' <= c <= '\u{200a}'
    ||| c == '\u{2028}'
    ||| c == '\u{2029}'
    ||| c == '\u{202f}'
    ||| c == '\u{205f}'
    ||| c == '\u{3000}'
}

/// Whether a character has the Unicode `White_Space` property.
pub fn is_white_space(c: char) -> (r: bool)
    ensures
        r == white_space(c),
{
    ('\u{9}' <= c && c <= '\u{d}') || c == ' ' || c == '\u{85}' || c == '\u{a0}' || c == '\u{1680}'
        || ('\u{2000}' <= c && c <= '\u{200a}') || c == '\u{2028}' || c == '\u{2029}'
        || c == '\u{202f}' || c == '\u{205f}' || c == '\u{3000}'
}

/// `s` without the white space at its start.
pub open spec fn trimmed_start(s: Seq<char>) -> Seq<char>
    decreases s.len(),
{
    if s.len() > 0 && white_space(s[0]) {
        trimmed_start(s.skip(1))
    } else {
        s
    }
}

/// `s` without the white space at its end.
pub open spec fn trimmed_end(s: Seq<char>) -> Seq<char>
    decreases s.len(),
{
    if s.len() > 0 && white_space(s.last()) {
        trimmed_end(s.drop_last())
    } else {
        s
    }
}

/// `s` without the white space at both ends.
pub open spec fn trimmed(s: Seq<char>) -> Seq<char> {
    trimmed_end(trimmed_start(s))
}

/// Removes the white space at the start.
pub fn trim_start(s: &str) -> (r: String)
    ensures
        r@ == trimmed_start(s@),
{
    let v = to_chars(s);
    let mut i: usize = 0;
    assert(v@.skip(0) == v@);
    while i < v.len() && is_white_space(v[i])
        invariant
            i <= v@.len(),
            trimmed_start(v@.skip(i as int)) == trimmed_start(v@),
        decreases v@.len() - i,
    {
        assert(v@.skip(i as int).skip(1) == v@.skip(i + 1));
        i = i + 1;
    }
    assert(v@.subrange(i as int, v@.len() as int) == v@.skip(i as int));
    from_chars(&v, i, v.len())
}

/// Removes the white space at the end.
pub fn trim_end(s: &str) -> (r: String)
    ensures
        r@ == trimmed_end(s@),
{
    let v = to_chars(s);
    let mut n: usize = v.len();
    assert(v@.take(n as int) == v@);
    while n > 0 && is_white_space(v[n - 1])
        invariant
            n <= v@.len(),
            trimmed_end(v@.take(n as int)) == trimmed_end(v@),
        decreases n,
    {
        assert(v@.take(n as int).drop_last() == v@.take(n - 1));
        n = n - 1;
    }
    assert(v@.subrange(0, n as int) == v@.take(n as int));
    from_chars(&v, 0, n)
}

/// Removes the white space at both ends.
pub fn trim(s: &str) -> (r: String)
    ensures
        r@ == trimmed(s@),
{
    trim_end(trim_start(s).as_str())
}

/// `s` without the run of `c` at its end.
pub open spec fn trimmed_end_char(s: Seq<char>, c: char) -> Seq<char>
    decreases s.len(),
{
    if s.len() > 0 && s.last() == c {
        trimmed_end_char(s.drop_last(), c)
    } else {
        s
    }
}

/// `s` without the run of `c` at its start.
pub open spec fn trimmed_start_char(s: Seq<char>, c: char) -> Seq<char>
    decreases s.len(),
{
    if s.len() > 0 && s[0] == c {
        trimmed_start_char(s.skip(1), c)
    } else {
        s
    }
}

/// Removes every `c` at the end.
pub fn trim_end_char(s: &str, c: char) -> (r: String)
    ensures
        r@ == trimmed_end_char(s@, c),
{
    let v = to_chars(s);
    let mut n: usize = v.len();
    assert(v@.take(n as int) == v@);
    while n > 0 && v[n - 1] == c
        invariant
            n <= v@.len(),
            trimmed_end_char(v@.take(n as int), c) == trimmed_end_char(v@, c),
        decreases n,
    {
        assert(v@.take(n as int).drop_last() == v@.take(n - 1));
        n = n - 1;
    }
    assert(v@.subrange(0, n as int) == v@.take(n as int));
    from_chars(&v, 0, n)
}

/// Removes every `c` at the start.
pub fn trim_start_char(s: &str, c: char) -> (r: String)
    ensures
        r@ == trimmed_start_char(s@, c),
{
    let v = to_chars(s);
    let mut i: usize = 0;
    assert(v@.skip(0) == v@);
    while i < v.len() && v[i] == c
        invariant
            i <= v@.len(),
            trimmed_start_char(v@.skip(i as int), c) == trimmed_start_char(v@, c),
        decreases v@.len() - i,
    {
        assert(v@.skip(i as int).skip(1) == v@.skip(i + 1));
        i = i + 1;
    }
    assert(v@.subrange(i as int, v@.len() as int) == v@.skip(i as int));
    from_chars(&v, i, v.len())
}

// ---------------------------------------------------------------------------
// Replacing, splitting, joining
// ---------------------------------------------------------------------------

/// `s` with every `pat`, taken from the left without overlap, turned into `rep`.
/// An empty `pat` changes nothing.
pub open spec fn replaced(s: Seq<char>, pat: Seq<char>, rep: Seq<char>) -> Seq<char>
    decreases s.len(),
{
    if pat.len() == 0 || s.len() < pat.len() {
        s
    } else if has_prefix(s, pat) {
        rep + replaced(s.skip(pat.len() as int), pat, rep)
    } else {
        seq![s[0]] + replaced(s.skip(1), pat, rep)
    }
}

/// Turns every `pat`, taken from the left without overlap, into `rep`.
pub fn replace(s: &str, pat: &str, rep: &str) -> (r: String)
    requires
        pat@.len() > 0,
    ensures
        r@ == replaced(s@, pat@, rep@),
{
    let v = to_chars(s);
    let p = to_chars(pat);
    let mut out = String::new();
    let mut i: usize = 0;
    assert(out@ + replaced(v@.skip(0), pat@, rep@) == replaced(s@, pat@, rep@)) by {
        assert(v@.skip(0) == s@);
        assert(out@ + replaced(s@, pat@, rep@) == replaced(s@, pat@, rep@));
    }
    while i < v.len()
        invariant
            i <= v@.len(),
            p@ == pat@,
            pat@.len() > 0,
            out@ + replaced(v@.skip(i as int), pat@, rep@) == replaced(s@, pat@, rep@),
        decreases v@.len() - i,
    {
        let ghost tail = v@.skip(i as int);
        if p.len() <= v.len() - i && matches_at(&v, &p, i) {
            proof {
                assert(tail.subrange(0, pat@.len() as int) == v@.subrange(
                    i as int,
                    i + pat@.len(),
                ));
                assert(has_prefix(tail, pat@));
                assert(tail.skip(pat@.len() as int) == v@.skip(i + pat@.len()));
                let rest = replaced(v@.skip(i + pat@.len()), pat@, rep@);
                assert((out@ + rep@) + rest == out@ + (rep@ + rest));
            }
            out.append(rep);
            i = i + p.len();
        } else {
            proof {
                assert(!has_prefix(tail, pat@)) by {
                    if has_prefix(tail, pat@) {
                        assert(tail.subrange(0, pat@.len() as int) == v@.subrange(
                            i as int,
                            i + pat@.len(),
                        ));
                    }
                }
                assert(tail.skip(1) == v@.skip(i + 1));
                let rest = replaced(v@.skip(i + 1), pat@, rep@);
                if tail.len() < pat@.len() {
                    assert(v@.skip(i + 1).len() < pat@.len());
                    assert(tail == seq![tail[0]] + v@.skip(i + 1));
                }
                assert(out@.push(v@[i as int]) + rest == out@ + (seq![tail[0]] + rest));
            }
            out.push(v[i]);
            i = i + 1;
        }
    }
    assert(v@.skip(i as int) == Seq::<char>::empty());
    assert(out@ + Seq::<char>::empty() == out@);
    out
}

/// The position of the first `c` in `s`, or the length of `s`.
pub open spec fn first_index(s: Seq<char>, c: char) -> int
    decreases s.len(),
{
    if s.len() == 0 || s[0] == c {
        0
    } else {
        1 + first_index(s.skip(1), c)
    }
}

pub proof fn lemma_first_index(s: Seq<char>, c: char)
    ensures
        0 <= first_index(s, c) <= s.len(),
        first_index(s, c) < s.len() ==> s[first_index(s, c)] == c,
        forall|j: int| 0 <= j < first_index(s, c) ==> s[j] != c,
    decreases s.len(),
{
    if s.len() > 0 && s[0] != c {
        lemma_first_index(s.skip(1), c);
        assert forall|j: int| 0 <= j < first_index(s, c) implies s[j] != c by {
            if j > 0 {
                assert(s[j] == s.skip(1)[j - 1]);
            }
        }
    }
}

/// The pieces of `s` between the `c`s: always one more than there are `c`s.
pub open spec fn pieces(s: Seq<char>, c: char) -> Seq<Seq<char>>
    decreases s.len(),
{
    let i = first_index(s, c);
    if 0 <= i < s.len() {
        seq![s.take(i)] + pieces(s.skip(i + 1), c)
    } else {
        seq![s]
    }
}

/// The texts that a vector of strings holds.
pub open spec fn views(v: Seq<String>) -> Seq<Seq<char>> {
    v.map_values(|s: String| s@)
}

/// Whether one of the texts is `s`.
pub fn holds(texts: &Vec<String>, s: &str) -> (r: bool)
    ensures
        r == views(texts@).contains(s@),
{
    let mut i: usize = 0;
    while i < texts.len()
        invariant
            i <= texts@.len(),
            forall|j: int| 0 <= j < i ==> (#[trigger] texts@[j])@ != s@,
        decreases texts@.len() - i,
    {
        if same(texts[i].as_str(), s) {
            assert(views(texts@)[i as int] == s@);
            return true;
        }
        i = i + 1;
    }
    assert(!views(texts@).contains(s@)) by {
        if views(texts@).contains(s@) {
            let k = choose|k: int|
                0 <= k < views(texts@).len() && views(texts@)[k] == s@;
            assert(texts@[k]@ == s@);
        }
    }
    false
}

/// Splits at every `c`.
pub fn split(s: &str, c: char) -> (r: Vec<String>)
    ensures
        views(r@) == pieces(s@, c),
{
    let v = to_chars(s);
    let mut out: Vec<String> = Vec::new();
    let mut start: usize = 0;
    let mut i: usize = 0;
    assert(v@.skip(0) == s@);
    assert(views(out@) + pieces(s@, c) == pieces(s@, c));
    while i < v.len()
        invariant
            start <= i <= v@.len(),
            v@ == s@,
            views(out@) + pieces(v@.skip(start as int), c) == pieces(s@, c),
            first_index(v@.skip(start as int), c) == (i - start) + first_index(
                v@.skip(i as int),
                c,
            ),
        decreases v@.len() - i,
    {
        let ghost tail = v@.skip(start as int);
        let ghost here = v@.skip(i as int);
        assert(here.skip(1) == v@.skip(i + 1));
        proof {
            lemma_first_index(here, c);
        }
        if v[i] == c {
            let piece = from_chars(&v, start, i);
            proof {
                assert(first_index(tail, c) == i - start);
                assert(tail.take(i - start) == piece@);
                assert(tail.skip(i - start + 1) == v@.skip(i + 1));
                assert(views(out@.push(piece)) == views(out@).push(piece@));
                let rest = pieces(v@.skip(i + 1), c);
                assert(views(out@).push(piece@) + rest == views(out@) + (seq![piece@] + rest));
            }
            out.push(piece);
            start = i + 1;
        }
        i = i + 1;
    }
    let piece = from_chars(&v, start, v.len());
    proof {
        let tail = v@.skip(start as int);
        assert(v@.skip(i as int).len() == 0);
        assert(tail == piece@);
        assert(pieces(tail, c) == seq![tail]);
        assert(views(out@.push(piece)) == views(out@) + seq![piece@]);
    }
    out.push(piece);
    out
}

/// `parts` in order with `sep` between neighbours.
pub open spec fn joined(parts: Seq<Seq<char>>, sep: Seq<char>) -> Seq<char>
    decreases parts.len(),
{
    if parts.len() == 0 {
        Seq::empty()
    } else if parts.len() == 1 {
        parts[0]
    } else {
        joined(parts.drop_last(), sep) + sep + parts.last()
    }
}

/// Joins `parts` with `sep` between neighbours.
pub fn join(parts: &Vec<String>, sep: &str) -> (r: String)
    ensures
        r@ == joined(views(parts@), sep@),
{
    let mut out = String::new();
    let mut i: usize = 0;
    while i < parts.len()
        invariant
            i <= parts@.len(),
            out@ == joined(views(parts@).take(i as int), sep@),
        decreases parts@.len() - i,
    {
        if i > 0 {
            out.append(sep);
        }
        out.append(parts[i].as_str());
        proof {
            let now = views(parts@).take(i + 1);
            assert(now.drop_last() == views(parts@).take(i as int));
            assert(now.last() == parts@[i as int]@);
            if i == 0 {
                assert(Seq::<char>::empty() + now[0] == now[0]);
            }
        }
        i = i + 1;
    }
    assert(views(parts@).take(parts@.len() as int) == views(parts@));
    out
}

// ---------------------------------------------------------------------------
// Case
// ---------------------------------------------------------------------------

/// The ASCII lower-case form of a character; others stay.
pub open spec fn ascii_lower(c: char) -> char {
    if 'A' <= c <= 'Z' {
        (c as u32 + 32) as char
    } else {
        c
    }
}

/// The ASCII upper-case form of a character; others stay.
pub open spec fn ascii_upper(c: char) -> char {
    if 'a' <= c <= 'z' {
        (c as u32 - 32) as char
    } else {
        c
    }
}

/// `s` with every ASCII letter in lower case.
pub open spec fn ascii_lowered(s: Seq<char>) -> Seq<char> {
    s.map_values(|c: char| ascii_lower(c))
}

/// `s` with every ASCII letter in upper case.
pub open spec fn ascii_uppered(s: Seq<char>) -> Seq<char> {
    s.map_values(|c: char| ascii_upper(c))
}

/// The two texts are equal but for the case of ASCII letters.
pub open spec fn equal_ignoring_ascii_case(a: Seq<char>, b: Seq<char>) -> bool {
    ascii_lowered(a) == ascii_lowered(b)
}

fn lower_char(c: char) -> (r: char)
    ensures
        r == ascii_lower(c),
{
    if 'A' <= c && c <= 'Z' {
        ((c as u8) + 32) as char
    } else {
        c
    }
}

fn upper_char(c: char) -> (r: char)
    ensures
        r == ascii_upper(c),
{
    if 'a' <= c && c <= 'z' {
        ((c as u8) - 32) as char
    } else {
        c
    }
}

/// Whether the two texts are equal but for the case of ASCII letters.
pub fn eq_ignore_ascii_case(a: &str, b: &str) -> (r: bool)
    ensures
        r == equal_ignoring_ascii_case(a@, b@),
{
    let x = to_chars(a);
    let y = to_chars(b);
    if x.len() != y.len() {
        assert(ascii_lowered(a@).len() != ascii_lowered(b@).len());
        return false;
    }
    let mut i: usize = 0;
    while i < x.len()
        invariant
            x@ == a@,
            y@ == b@,
            x@.len() == y@.len(),
            i <= x@.len(),
            forall|j: int| 0 <= j < i ==> ascii_lower(x@[j]) == ascii_lower(y@[j]),
        decreases x@.len() - i,
    {
        if lower_char(x[i]) != lower_char(y[i]) {
            assert(ascii_lowered(a@)[i as int] != ascii_lowered(b@)[i as int]);
            return false;
        }
        i = i + 1;
    }
    assert(ascii_lowered(a@) == ascii_lowered(b@));
    true
}

/// Every character is ASCII.
pub open spec fn all_ascii(s: Seq<char>) -> bool {
    forall|i: int| 0 <= i < s.len() ==> (#[trigger] s[i]) <= '\u{7f}'
}

/// What `str::to_lowercase` makes of `s`.
pub uninterp spec fn unicode_lowered(s: Seq<char>) -> Seq<char>;

/// What `str::to_uppercase` makes of `s`.
pub uninterp spec fn unicode_uppered(s: Seq<char>) -> Seq<char>;

/// What `char::is_alphanumeric` says of `c`.
pub uninterp spec fn unicode_alphanumeric(c: char) -> bool;

/// `str::to_lowercase`, the Unicode lower-case form of a text. It depends on the text
/// alone; the contract says no more than that.
#[verifier::external_body]
fn unicode_to_lowercase(s: &str) -> (r: String)
    ensures
        r@ == unicode_lowered(s@),
{
    s.to_lowercase()
}

/// `str::to_uppercase`, the Unicode upper-case form of a text. It depends on the text
/// alone; the contract says no more than that.
#[verifier::external_body]
fn unicode_to_uppercase(s: &str) -> (r: String)
    ensures
        r@ == unicode_uppered(s@),
{
    s.to_uppercase()
}

/// `char::is_alphanumeric`, a Unicode property of the character. It depends on the
/// character alone; the contract says no more than that.
#[verifier::external_body]
fn unicode_is_alphanumeric(c: char) -> (r: bool)
    ensures
        r == unicode_alphanumeric(c),
{
    c.is_alphanumeric()
}

/// The lower-case form of `s`: letter by letter where all of it is ASCII, by Unicode's
/// rules elsewhere.
pub open spec fn lowered(s: Seq<char>) -> Seq<char> {
    if all_ascii(s) {
        ascii_lowered(s)
    } else {
        unicode_lowered(s)
    }
}

/// The upper-case form of `s`: letter by letter where all of it is ASCII, by Unicode's
/// rules elsewhere.
pub open spec fn uppered(s: Seq<char>) -> Seq<char> {
    if all_ascii(s) {
        ascii_uppered(s)
    } else {
        unicode_uppered(s)
    }
}

/// `c` is a letter or a digit.
pub open spec fn alphanumeric(c: char) -> bool {
    if c <= '\u{7f}' {
        'a' <= c <= 'z' || 'A' <= c <= 'Z' || '0' <= c <= '9'
    } else {
        unicode_alphanumeric(c)
    }
}

/// Whether `c` is a letter or a digit.
pub fn is_alphanumeric(c: char) -> (r: bool)
    ensures
        r == alphanumeric(c),
{
    if c <= '\u{7f}' {
        ('a' <= c && c <= 'z') || ('A' <= c && c <= 'Z') || ('0' <= c && c <= '9')
    } else {
        unicode_is_alphanumeric(c)
    }
}

fn is_all_ascii(v: &Vec<char>) -> (r: bool)
    ensures
        r == all_ascii(v@),
{
    let mut i: usize = 0;
    while i < v.len()
        invariant
            i <= v@.len(),
            forall|j: int| 0 <= j < i ==> (#[trigger] v@[j]) <= '\u{7f}',
        decreases v@.len() - i,
    {
        if v[i] > '\u{7f}' {
            return false;
        }
        i = i + 1;
    }
    true
}

/// The lower-case form of a text.
pub fn to_lowercase(s: &str) -> (r: String)
    ensures
        r@ == lowered(s@),
{
    let v = to_chars(s);
    if !is_all_ascii(&v) {
        return unicode_to_lowercase(s);
    }
    let mut out = String::new();
    let mut i: usize = 0;
    while i < v.len()
        invariant
            v@ == s@,
            i <= v@.len(),
            out@ == ascii_lowered(s@).take(i as int),
        decreases v@.len() - i,
    {
        out.push(lower_char(v[i]));
        i = i + 1;
        assert(out@ == ascii_lowered(s@).take(i as int));
    }
    assert(ascii_lowered(s@).take(i as int) == ascii_lowered(s@));
    out
}

/// The upper-case form of a text.
pub fn to_uppercase(s: &str) -> (r: String)
    ensures
        r@ == uppered(s@),
{
    let v = to_chars(s);
    if !is_all_ascii(&v) {
        return unicode_to_uppercase(s);
    }
    let mut out = String::new();
    let mut i: usize = 0;
    while i < v.len()
        invariant
            v@ == s@,
            i <= v@.len(),
            out@ == ascii_uppered(s@).take(i as int),
        decreases v@.len() - i,
    {
        out.push(upper_char(v[i]));
        i = i + 1;
        assert(out@ == ascii_uppered(s@).take(i as int));
    }
    assert(ascii_uppered(s@).take(i as int) == ascii_uppered(s@));
    out
}

/// Whether a text has no characters.
pub fn is_empty(s: &str) -> (r: bool)
    ensures
        r == (s@.len() == 0),
{
    to_chars(s).len() == 0
}

/// The text that an optional text holds.
pub open spec fn view_option(s: Option<String>) -> Option<Seq<char>> {
    match s {
        Some(t) => Some(t@),
        None => None,
    }
}

/// An optional text that holds the same.
pub fn copy_option(s: &Option<String>) -> (r: Option<String>)
    ensures
        r == *s,
{
    match s {
        Some(t) => Some(t.clone()),
        None => None,
    }
}

/// What a result holds.
pub open spec fn view_result(r: Result<String, String>) -> Result<Seq<char>, Seq<char>> {
    match r {
        Ok(s) => Ok(s@),
        Err(s) => Err(s@),
    }
}

/// What a verdict holds.
pub open spec fn view_verdict(r: Result<(), String>) -> Result<(), Seq<char>> {
    match r {
        Ok(_) => Ok(()),
        Err(s) => Err(s@),
    }
}

// ---------------------------------------------------------------------------
// Laws
// ---------------------------------------------------------------------------

/// All characters of `s` are white space.
pub open spec fn blank(s: Seq<char>) -> bool {
    forall|i: int| 0 <= i < s.len() ==> white_space(#[trigger] s[i])
}

/// White space before a text is dropped, up to the first other character.
pub proof fn law_trimmed_start_drops(w: Seq<char>, t: Seq<char>)
    requires
        blank(w),
        t.len() > 0 ==> !white_space(t[0]),
    ensures
        trimmed_start(w + t) == t,
    decreases w.len(),
{
    if w.len() > 0 {
        assert((w + t)[0] == w[0]);
        assert((w + t).skip(1) == w.skip(1) + t);
        assert forall|i: int| 0 <= i < w.skip(1).len() implies white_space(
            #[trigger] w.skip(1)[i],
        ) by {
            assert(w.skip(1)[i] == w[i + 1]);
        }
        law_trimmed_start_drops(w.skip(1), t);
    } else {
        assert(w + t == t);
    }
}

/// White space behind a text is dropped, down to the last other character.
pub proof fn law_trimmed_end_drops(t: Seq<char>, w: Seq<char>)
    requires
        blank(w),
        t.len() > 0 ==> !white_space(t.last()),
    ensures
        trimmed_end(t + w) == t,
    decreases w.len(),
{
    if w.len() > 0 {
        assert((t + w).last() == w[w.len() - 1]);
        assert((t + w).drop_last() == t + w.drop_last());
        assert forall|i: int| 0 <= i < w.drop_last().len() implies white_space(
            #[trigger] w.drop_last()[i],
        ) by {
            assert(w.drop_last()[i] == w[i]);
        }
        law_trimmed_end_drops(t, w.drop_last());
    } else {
        assert(t + w == t);
    }
}

/// Trimming drops the white space at both ends of a text, and nothing else.
pub proof fn law_trimmed_drops(before: Seq<char>, t: Seq<char>, after: Seq<char>)
    requires
        blank(before),
        blank(after),
        t.len() > 0 ==> !white_space(t[0]) && !white_space(t.last()),
    ensures
        trimmed(before + t + after) == t,
{
    if t.len() > 0 {
        assert((t + after)[0] == t[0]);
        assert(before + t + after == before + (t + after));
        law_trimmed_start_drops(before, t + after);
        law_trimmed_end_drops(t, after);
    } else {
        let w = before + after;
        assert(before + t + after == w);
        assert forall|i: int| 0 <= i < w.len() implies white_space(#[trigger] w[i]) by {
            if i >= before.len() {
                assert(w[i] == after[i - before.len()]);
            } else {
                assert(w[i] == before[i]);
            }
        }
        let none = Seq::<char>::empty();
        assert(w + none == w);
        law_trimmed_start_drops(w, none);
        assert(trimmed_end(none) == none);
        assert(t == none);
    }
}

/// `n` times the character `c`.
pub open spec fn repeated(c: char, n: nat) -> Seq<char> {
    Seq::new(n, |i: int| c)
}

/// Every `c` in front of a text is dropped, and nothing behind.
pub proof fn law_trimmed_start_char_drops(c: char, n: nat, t: Seq<char>)
    requires
        t.len() > 0 ==> t[0] != c,
    ensures
        trimmed_start_char(repeated(c, n) + t, c) == t,
    decreases n,
{
    let s = repeated(c, n) + t;
    if n > 0 {
        assert(s[0] == c);
        assert(s.skip(1) == repeated(c, (n - 1) as nat) + t);
        law_trimmed_start_char_drops(c, (n - 1) as nat, t);
    } else {
        assert(s == t);
    }
}

/// Every `c` behind a text is dropped, and nothing in front.
pub proof fn law_trimmed_end_char_drops(t: Seq<char>, c: char, n: nat)
    requires
        t.len() > 0 ==> t.last() != c,
    ensures
        trimmed_end_char(t + repeated(c, n), c) == t,
    decreases n,
{
    let s = t + repeated(c, n);
    if n > 0 {
        assert(s.last() == c);
        assert(s.drop_last() == t + repeated(c, (n - 1) as nat));
        law_trimmed_end_char_drops(t, c, (n - 1) as nat);
    } else {
        assert(s == t);
    }
}

/// A cut takes out the first `pat` and loses nothing else; there is none only where `pat`
/// does not occur.
pub proof fn law_cut_is_first(s: Seq<char>, pat: Seq<char>)
    ensures
        match cut(s, pat) {
            Some((before, after)) => {
                &&& s == before + pat + after
                &&& forall|i: int| 0 <= i < before.len() ==> !occurs_at(s, pat, i)
            },
            None => !occurs(s, pat),
        },
{
    lemma_find_from(s, pat, 0);
    if let Some(i) = find_from(s, pat, 0) {
        assert(s == s.take(i) + s.subrange(i, i + pat.len()) + s.skip(i + pat.len()));
    }
}

/// A text is cut into pieces at the first `c`; without one it is the only piece.
proof fn lemma_pieces_unfold(s: Seq<char>, c: char)
    ensures
        pieces(s, c) == if first_index(s, c) < s.len() {
            seq![s.take(first_index(s, c))] + pieces(s.skip(first_index(s, c) + 1), c)
        } else {
            seq![s]
        },
{
    lemma_first_index(s, c);
}

/// Joining the pieces of a text gives the text back.
pub proof fn law_pieces_make_whole(s: Seq<char>, c: char)
    ensures
        joined(pieces(s, c), seq![c]) == s,
        pieces(s, c).len() >= 1,
    decreases s.len(),
{
    lemma_first_index(s, c);
    lemma_pieces_unfold(s, c);
    let i = first_index(s, c);
    let parts = pieces(s, c);
    if i < s.len() {
        let rest = s.skip(i + 1);
        law_pieces_make_whole(rest, c);
        assert(parts.skip(1) == pieces(rest, c));
        law_joined_front(parts, seq![c]);
        assert(s.take(i) + seq![c] + rest == s);
    } else {
        assert(joined(seq![s], seq![c]) == s);
    }
}

/// No piece of a text holds the character that parts them.
pub proof fn law_pieces_are_parted(s: Seq<char>, c: char, k: int)
    requires
        0 <= k < pieces(s, c).len(),
    ensures
        !pieces(s, c)[k].contains(c),
    decreases s.len(),
{
    lemma_first_index(s, c);
    lemma_pieces_unfold(s, c);
    let i = first_index(s, c);
    let part = pieces(s, c)[k];
    if k > 0 {
        law_pieces_are_parted(s.skip(i + 1), c, k - 1);
    } else if part.contains(c) {
        let j = choose|j: int| 0 <= j < part.len() && part[j] == c;
        assert(s[j] == c);
    }
}

/// Joined texts begin with the first one, the separator and the others joined.
pub proof fn law_joined_front(parts: Seq<Seq<char>>, sep: Seq<char>)
    requires
        parts.len() >= 2,
    ensures
        joined(parts, sep) == parts[0] + sep + joined(parts.skip(1), sep),
    decreases parts.len(),
{
    if parts.len() == 2 {
        assert(parts.drop_last() == seq![parts[0]]);
        assert(parts.skip(1) == seq![parts[1]]);
        assert(joined(seq![parts[0]], sep) == parts[0]);
        assert(joined(seq![parts[1]], sep) == parts[1]);
    } else {
        law_joined_front(parts.drop_last(), sep);
        assert(parts.drop_last().skip(1) == parts.skip(1).drop_last());
        assert(parts.skip(1).last() == parts.last());
        let mid = joined(parts.skip(1).drop_last(), sep);
        assert((parts[0] + sep + mid) + sep + parts.last() == parts[0] + sep + (mid + sep
            + parts.last()));
    }
}

proof fn lemma_pieces_at(a: Seq<char>, c: char, b: Seq<char>)
    requires
        !a.contains(c),
    ensures
        pieces(a + seq![c] + b, c) == seq![a] + pieces(b, c),
{
    let s = a + seq![c] + b;
    lemma_first_index(s, c);
    let i = first_index(s, c);
    assert(s[a.len() as int] == c);
    assert(i == a.len()) by {
        if i < a.len() {
            assert(a[i] == c);
        }
    }
    assert(s.take(i) == a);
    assert(s.skip(i + 1) == b);
}

/// Texts that hold no `c`, joined by `c`, are the pieces again.
pub proof fn law_pieces_of_joined(parts: Seq<Seq<char>>, c: char)
    requires
        parts.len() >= 1,
        forall|i: int| 0 <= i < parts.len() ==> !(#[trigger] parts[i]).contains(c),
    ensures
        pieces(joined(parts, seq![c]), c) == parts,
    decreases parts.len(),
{
    if parts.len() == 1 {
        let a = parts[0];
        lemma_first_index(a, c);
        assert(first_index(a, c) == a.len()) by {
            if first_index(a, c) < a.len() {
                assert(a[first_index(a, c)] == c);
            }
        }
        assert(parts == seq![a]);
    } else {
        law_joined_front(parts, seq![c]);
        assert forall|i: int| 0 <= i < parts.skip(1).len() implies !(#[trigger] parts.skip(
            1,
        )[i]).contains(c) by {
            assert(parts.skip(1)[i] == parts[i + 1]);
        }
        law_pieces_of_joined(parts.skip(1), c);
        lemma_pieces_at(parts[0], c, joined(parts.skip(1), seq![c]));
        assert(seq![parts[0]] + parts.skip(1) == parts);
    }
}

/// The first occurrence is replaced, what stands before it stays, and what follows is
/// treated in the same way.
pub proof fn law_replaced_at_first(s: Seq<char>, pat: Seq<char>, rep: Seq<char>)
    requires
        pat.len() > 0,
    ensures
        match cut(s, pat) {
            Some((before, after)) => replaced(s, pat, rep) == before + rep + replaced(
                after,
                pat,
                rep,
            ),
            None => replaced(s, pat, rep) == s,
        },
    decreases s.len(),
{
    lemma_find_from(s, pat, 0);
    if s.len() >= pat.len() {
        if occurs_at(s, pat, 0) {
            assert(s.take(0) == Seq::<char>::empty());
            assert(s.take(0) + rep == rep);
        } else {
            let t = s.skip(1);
            lemma_find_from(t, pat, 0);
            law_replaced_at_first(t, pat, rep);
            assert forall|i: int| 0 <= i implies occurs_at(t, pat, i) == occurs_at(
                s,
                pat,
                i + 1,
            ) by {
                if i + 1 + pat.len() <= s.len() {
                    assert(t.subrange(i, i + pat.len()) == s.subrange(i + 1, i + 1 + pat.len()));
                }
            }
            match find_from(s, pat, 0) {
                Some(k) => {
                    assert(occurs_at(t, pat, k - 1));
                    assert(find_from(t, pat, 0) is Some);
                    let j = find_from(t, pat, 0)->0;
                    assert(j == k - 1) by {
                        if j < k - 1 {
                            assert(occurs_at(s, pat, j + 1));
                        }
                    }
                    let after = s.skip(k + pat.len());
                    assert(t.skip(j + pat.len()) == after);
                    assert(seq![s[0]] + t.take(j) == s.take(k));
                    let tail = replaced(after, pat, rep);
                    assert(seq![s[0]] + (t.take(j) + rep + tail) == s.take(k) + rep + tail);
                },
                None => {
                    assert(find_from(t, pat, 0) is None) by {
                        if let Some(j) = find_from(t, pat, 0) {
                            assert(occurs_at(s, pat, j + 1));
                        }
                    }
                    assert(seq![s[0]] + t == s);
                },
            }
        }
    }
}

/// Texts without `c`, joined by another character, hold no `c`.
pub proof fn law_joined_holds_no_other(parts: Seq<Seq<char>>, sep: char, c: char)
    requires
        sep != c,
        forall|i: int| 0 <= i < parts.len() ==> !(#[trigger] parts[i]).contains(c),
    ensures
        !joined(parts, seq![sep]).contains(c),
    decreases parts.len(),
{
    if parts.len() > 1 {
        assert forall|i: int| 0 <= i < parts.drop_last().len() implies !(
        #[trigger] parts.drop_last()[i]).contains(c) by {
            assert(parts.drop_last()[i] == parts[i]);
        }
        law_joined_holds_no_other(parts.drop_last(), sep, c);
        let front = joined(parts.drop_last(), seq![sep]);
        let whole = front + seq![sep] + parts.last();
        assert forall|i: int| 0 <= i < whole.len() implies whole[i] != c by {
            if i < front.len() {
                assert(front.contains(whole[i]));
            } else if i > front.len() {
                assert(whole[i] == parts.last()[i - front.len() - 1]);
                assert(parts[parts.len() - 1].contains(whole[i]));
            }
        }
    } else if parts.len() == 1 {
        assert(!parts[0].contains(c));
    }
}

/// A cut finds `pat` behind a text in which it does not begin.
pub proof fn law_cut_at(before: Seq<char>, pat: Seq<char>, after: Seq<char>)
    requires
        forall|i: int| 0 <= i < before.len() ==> !occurs_at(before + pat + after, pat, i),
    ensures
        cut(before + pat + after, pat) == Some((before, after)),
{
    let s = before + pat + after;
    let n = before.len() as int;
    lemma_find_from(s, pat, 0);
    assert(s.subrange(n, n + pat.len()) == pat);
    assert(occurs_at(s, pat, n));
    let i = find_from(s, pat, 0)->0;
    assert(i == n) by {
        if i < n {
            assert(!occurs_at(s, pat, i));
        }
    }
    assert(s.take(n) == before);
    assert(s.skip(n + pat.len()) == after);
}

/// Case is changed letter by letter, in ASCII alone: an upper-case letter has the lower-case
/// letter in the same place of the alphabet, and nothing else changes.
pub proof fn law_ascii_case(c: char)
    ensures
        'A' <= c <= 'Z' ==> 'a' <= ascii_lower(c) <= 'z' && ascii_lower(c) as int - 'a' as int
            == c as int - 'A' as int,
        !('A' <= c <= 'Z') ==> ascii_lower(c) == c,
        'a' <= c <= 'z' ==> 'A' <= ascii_upper(c) <= 'Z' && ascii_upper(c) as int - 'A' as int
            == c as int - 'a' as int,
        !('a' <= c <= 'z') ==> ascii_upper(c) == c,
{
}

/// Texts of ASCII characters are turned into lower or upper case character by character.
pub proof fn law_ascii_texts_change_case(s: Seq<char>, i: int)
    requires
        all_ascii(s),
        0 <= i < s.len(),
    ensures
        lowered(s).len() == s.len(),
        lowered(s)[i] == ascii_lower(s[i]),
        uppered(s).len() == s.len(),
        uppered(s)[i] == ascii_upper(s[i]),
{
}

/// Two texts are equal but for case if and only if they are as long and their characters
/// are, each by itself.
pub proof fn law_equal_but_for_case(a: Seq<char>, b: Seq<char>)
    ensures
        equal_ignoring_ascii_case(a, b) <==> a.len() == b.len() && forall|i: int|
            0 <= i < a.len() ==> ascii_lower(#[trigger] a[i]) == ascii_lower(b[i]),
{
    let x = ascii_lowered(a);
    let y = ascii_lowered(b);
    if equal_ignoring_ascii_case(a, b) {
        assert(x.len() == a.len() && y.len() == b.len());
        assert forall|i: int| 0 <= i < a.len() implies ascii_lower(#[trigger] a[i]) == ascii_lower(
            b[i],
        ) by {
            assert(x[i] == y[i]);
        }
    } else if a.len() == b.len() {
        if forall|i: int| 0 <= i < a.len() ==> ascii_lower(#[trigger] a[i]) == ascii_lower(b[i]) {
            assert(x =~= y);
        }
    }
}

} // verus!
