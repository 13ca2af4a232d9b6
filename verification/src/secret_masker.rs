//! Keeps secret values out of output.
use vstd::prelude::*;
use vstd::string::*;

use crate::{string_map, text};

verus! {

/// The text that stands in for a secret.
pub const MASK: &'static str = "***";

/// The number of bytes of `s` in UTF-8.
pub open spec fn byte_len(s: Seq<char>) -> nat {
    vstd::utf8::encode_utf8(s).len()
}

/// How many of the leading secrets are at least `n` bytes long.
pub open spec fn rank(secrets: Seq<Seq<char>>, n: nat) -> int
    decreases secrets.len(),
{
    if secrets.len() > 0 && byte_len(secrets[0]) >= n {
        1 + rank(secrets.skip(1), n)
    } else {
        0
    }
}

/// The secrets once `value` is registered. Its white space at both ends is dropped; an
/// empty or known value changes nothing; another goes behind those that are not shorter.
pub open spec fn registered(secrets: Seq<Seq<char>>, value: Seq<char>) -> Seq<Seq<char>> {
    let secret = text::trimmed(value);
    if secret.len() == 0 || secrets.contains(secret) {
        secrets
    } else {
        secrets.insert(rank(secrets, byte_len(secret)), secret)
    }
}

/// `input` with each secret in turn replaced by the mask.
pub open spec fn masked(secrets: Seq<Seq<char>>, input: Seq<char>) -> Seq<char>
    decreases secrets.len(),
{
    if secrets.len() == 0 {
        input
    } else {
        text::replaced(masked(secrets.drop_last(), input), secrets.last(), MASK@)
    }
}

/// No secret is empty, none occurs twice, and longer ones stand first.
pub open spec fn well_formed(secrets: Seq<Seq<char>>) -> bool {
    &&& forall|i: int| 0 <= i < secrets.len() ==> (#[trigger] secrets[i]).len() > 0
    &&& forall|i: int, j: int|
        0 <= i < j < secrets.len() ==> (#[trigger] secrets[i]) != (#[trigger] secrets[j])
    &&& forall|i: int, j: int|
        0 <= i < j < secrets.len() ==> byte_len(#[trigger] secrets[i]) >= byte_len(
            #[trigger] secrets[j],
        )
}

proof fn lemma_rank(secrets: Seq<Seq<char>>, n: nat)
    ensures
        0 <= rank(secrets, n) <= secrets.len(),
        forall|i: int| 0 <= i < rank(secrets, n) ==> byte_len(#[trigger] secrets[i]) >= n,
        rank(secrets, n) < secrets.len() ==> byte_len(secrets[rank(secrets, n)]) < n,
    decreases secrets.len(),
{
    if secrets.len() > 0 && byte_len(secrets[0]) >= n {
        lemma_rank(secrets.skip(1), n);
        assert forall|i: int| 0 <= i < rank(secrets, n) implies byte_len(#[trigger] secrets[i])
            >= n by {
            if i > 0 {
                assert(secrets[i] == secrets.skip(1)[i - 1]);
            }
        }
    }
}

/// Registering a value keeps the secrets unique, non-empty and longest first.
pub proof fn law_registered_well_formed(secrets: Seq<Seq<char>>, value: Seq<char>)
    requires
        well_formed(secrets),
    ensures
        well_formed(registered(secrets, value)),
{
    let secret = text::trimmed(value);
    let after = registered(secrets, value);
    if secret.len() > 0 && !secrets.contains(secret) {
        let at = rank(secrets, byte_len(secret));
        lemma_rank(secrets, byte_len(secret));
        assert forall|i: int, j: int| 0 <= i < j < after.len() implies (#[trigger] after[i]) != (
        #[trigger] after[j]) && byte_len(after[i]) >= byte_len(after[j]) by {
            let p = if i < at { i } else { i - 1 };
            let q = if j < at { j } else { j - 1 };
            if i == at {
                assert(after[j] == secrets[q]);
                assert(secrets.contains(secrets[q]));
                if q > at {
                    assert(byte_len(secrets[at]) >= byte_len(secrets[q]));
                }
            } else if j == at {
                assert(after[i] == secrets[p]);
                assert(secrets.contains(secrets[p]));
            } else {
                assert(after[i] == secrets[p] && after[j] == secrets[q]);
            }
        }
        assert forall|i: int| 0 <= i < after.len() implies (#[trigger] after[i]).len() > 0 by {
            if i < at {
                assert(after[i] == secrets[i]);
            } else if i > at {
                assert(after[i] == secrets[i - 1]);
            }
        }
    }
}

/// Every value that is not blank is known once it is registered, however long it is, and
/// no secret is forgotten on that account.
pub proof fn law_registered_is_known(secrets: Seq<Seq<char>>, value: Seq<char>)
    requires
        text::trimmed(value).len() > 0,
    ensures
        registered(secrets, value).contains(text::trimmed(value)),
        forall|k: Seq<char>| #[trigger]
            secrets.contains(k) ==> registered(secrets, value).contains(k),
{
    let secret = text::trimmed(value);
    let after = registered(secrets, value);
    lemma_rank(secrets, byte_len(secret));
    let at = rank(secrets, byte_len(secret));
    if !secrets.contains(secret) {
        assert(after[at] == secret);
        assert forall|k: Seq<char>| #[trigger] secrets.contains(k) implies after.contains(k) by {
            let i = choose|i: int| 0 <= i < secrets.len() && secrets[i] == k;
            assert(after[if i < at { i } else { i + 1 }] == k);
        }
    }
}

/// Registering makes nothing a secret but the value itself, and a blank value nothing at
/// all.
pub proof fn law_registered_adds_no_other(secrets: Seq<Seq<char>>, value: Seq<char>)
    ensures
        forall|k: Seq<char>| #[trigger]
            registered(secrets, value).contains(k) ==> secrets.contains(k) || k == text::trimmed(
                value,
            ),
        text::trimmed(value).len() == 0 ==> registered(secrets, value) == secrets,
        registered(secrets, value).len() <= secrets.len() + 1,
{
    let secret = text::trimmed(value);
    let after = registered(secrets, value);
    lemma_rank(secrets, byte_len(secret));
    let at = rank(secrets, byte_len(secret));
    if secret.len() > 0 && !secrets.contains(secret) {
        assert forall|k: Seq<char>| #[trigger] after.contains(k) implies secrets.contains(k) || k
            == secret by {
            let i = choose|i: int| 0 <= i < after.len() && after[i] == k;
            if i != at {
                assert(secrets[if i < at { i } else { i - 1 }] == k);
            }
        }
    }
}

/// Registering a value a second time changes nothing.
pub proof fn law_register_twice(secrets: Seq<Seq<char>>, value: Seq<char>)
    ensures
        registered(registered(secrets, value), value) == registered(secrets, value),
{
    let secret = text::trimmed(value);
    lemma_rank(secrets, byte_len(secret));
    if secret.len() > 0 && !secrets.contains(secret) {
        let at = rank(secrets, byte_len(secret));
        assert(registered(secrets, value)[at] == secret);
    }
}

// ---------------------------------------------------------------------------
// Masking
// ---------------------------------------------------------------------------

proof fn lemma_byte_len_concat(a: Seq<char>, b: Seq<char>)
    ensures
        byte_len(a + b) == byte_len(a) + byte_len(b),
    decreases a.len(),
{
    if a.len() > 0 {
        assert((a + b).drop_first() == a.drop_first() + b);
        assert((a + b)[0] == a[0]);
        lemma_byte_len_concat(a.drop_first(), b);
    } else {
        assert(a + b == b);
    }
}

proof fn lemma_longer_does_not_occur(s: Seq<char>, pat: Seq<char>)
    requires
        byte_len(s) < byte_len(pat),
    ensures
        !text::occurs(s, pat),
{
    if text::occurs(s, pat) {
        let i = choose|i: int| text::occurs_at(s, pat, i);
        let a = s.take(i);
        let b = s.skip(i + pat.len());
        assert(s == (a + pat) + b);
        lemma_byte_len_concat(a + pat, b);
        lemma_byte_len_concat(a, pat);
    }
}

proof fn lemma_occurs_later(s: Seq<char>, pat: Seq<char>, n: int)
    requires
        0 <= n <= s.len(),
        text::occurs(s.skip(n), pat),
    ensures
        text::occurs(s, pat),
{
    let i = choose|i: int| text::occurs_at(s.skip(n), pat, i);
    assert(s.subrange(i + n, i + n + pat.len()) == s.skip(n).subrange(i, i + pat.len()));
    assert(text::occurs_at(s, pat, i + n));
}

/// Where the pattern does not occur, nothing is replaced.
pub proof fn lemma_nothing_to_replace(s: Seq<char>, pat: Seq<char>, rep: Seq<char>)
    requires
        !text::occurs(s, pat),
    ensures
        text::replaced(s, pat, rep) == s,
    decreases s.len(),
{
    if pat.len() > 0 && s.len() >= pat.len() {
        assert(!text::occurs_at(s, pat, 0));
        if text::occurs(s.skip(1), pat) {
            lemma_occurs_later(s, pat, 1);
        }
        lemma_nothing_to_replace(s.skip(1), pat, rep);
        assert(seq![s[0]] + s.skip(1) == s);
    }
}

/// A text without the mask's character, standing at the start of a masked text, stood
/// at the start of the text before.
proof fn lemma_prefix_survives(s: Seq<char>, pat: Seq<char>, u: Seq<char>)
    requires
        !u.contains('*'),
        text::has_prefix(text::replaced(s, pat, seq!['*', '*', '*']), u),
    ensures
        text::has_prefix(s, u),
    decreases s.len(),
{
    let rep = seq!['*', '*', '*'];
    let r = text::replaced(s, pat, rep);
    if u.len() == 0 {
        assert(s.subrange(0, 0) == u);
    } else if pat.len() == 0 || s.len() < pat.len() {
    } else {
        assert(r.subrange(0, u.len() as int)[0] == r[0]);
        if text::has_prefix(s, pat) {
            assert(r[0] == '*');
            assert(u.contains(u[0]));
        } else {
            let next = text::replaced(s.skip(1), pat, rep);
            let v = u.skip(1);
            assert(next.subrange(0, v.len() as int) == v) by {
                assert forall|i: int| 0 <= i < v.len() implies next[i] == v[i] by {
                    assert(r.subrange(0, u.len() as int)[i + 1] == r[i + 1]);
                }
            }
            assert(!v.contains('*')) by {
                if v.contains('*') {
                    let i = choose|i: int| 0 <= i < v.len() && v[i] == '*';
                    assert(u[i + 1] == '*');
                }
            }
            lemma_prefix_survives(s.skip(1), pat, v);
            assert(s.subrange(0, u.len() as int) == u) by {
                assert forall|i: int| 0 <= i < u.len() implies s[i] == u[i] by {
                    if i > 0 {
                        assert(s.skip(1).subrange(0, v.len() as int)[i - 1] == s[i]);
                    }
                }
            }
        }
    }
}

/// Replacing by the mask brings up no text that was not there, unless it holds the
/// mask's character; and the replaced text itself is gone.
proof fn lemma_mask_step(s: Seq<char>, pat: Seq<char>, t: Seq<char>)
    requires
        pat.len() > 0,
        t.len() > 0,
        !t.contains('*'),
    ensures
        text::occurs(text::replaced(s, pat, seq!['*', '*', '*']), t) ==> text::occurs(s, t)
            && t != pat,
    decreases s.len(),
{
    let rep = seq!['*', '*', '*'];
    let r = text::replaced(s, pat, rep);
    if text::occurs(r, t) {
        let i = choose|i: int| text::occurs_at(r, t, i);
        assert(r.subrange(i, i + t.len())[0] == r[i]);
        if s.len() < pat.len() {
        } else if text::has_prefix(s, pat) {
            let next = text::replaced(s.skip(pat.len() as int), pat, rep);
            assert(i >= 3) by {
                if i < 3 {
                    assert(r[i] == '*');
                    assert(t.contains(t[0]));
                }
            }
            assert(next.subrange(i - 3, i - 3 + t.len()) == r.subrange(i, i + t.len()));
            assert(text::occurs_at(next, t, i - 3));
            lemma_mask_step(s.skip(pat.len() as int), pat, t);
            lemma_occurs_later(s, t, pat.len() as int);
        } else {
            let next = text::replaced(s.skip(1), pat, rep);
            if i == 0 {
                lemma_prefix_survives(s, pat, t);
                assert(text::occurs_at(s, t, 0));
            } else {
                assert(next.subrange(i - 1, i - 1 + t.len()) == r.subrange(i, i + t.len()));
                assert(text::occurs_at(next, t, i - 1));
                lemma_mask_step(s.skip(1), pat, t);
                lemma_occurs_later(s, t, 1);
            }
        }
    }
}

/// No registered secret is left in masked text, unless the secret itself holds the
/// mask's character.
pub proof fn law_masked_holds_no_secret(secrets: Seq<Seq<char>>, input: Seq<char>, k: int)
    requires
        well_formed(secrets),
        0 <= k < secrets.len(),
        !secrets[k].contains('*'),
    ensures
        !text::occurs(masked(secrets, input), secrets[k]),
    decreases secrets.len(),
{
    reveal_strlit("***");
    assert(MASK@ == seq!['*', '*', '*']);
    let t = secrets[k];
    let front = secrets.drop_last();
    lemma_mask_step(masked(front, input), secrets.last(), t);
    if k < secrets.len() - 1 {
        assert forall|i: int, j: int| 0 <= i < j < front.len() implies (#[trigger] front[i]) != (
        #[trigger] front[j]) && byte_len(front[i]) >= byte_len(front[j]) by {
            assert(secrets[i] != secrets[j]);
        }
        assert forall|i: int| 0 <= i < front.len() implies (#[trigger] front[i]).len() > 0 by {
            assert(secrets[i].len() > 0);
        }
        assert(front[k] == t);
        law_masked_holds_no_secret(front, input, k);
    }
}

/// Once a value is registered, masked text does not hold it, and holds none of the secrets
/// from before either, unless such a secret has the mask's character in it.
pub proof fn law_registered_is_masked(
    secrets: Seq<Seq<char>>,
    value: Seq<char>,
    input: Seq<char>,
    known: Seq<char>,
)
    requires
        well_formed(secrets),
        known.len() > 0,
        known == text::trimmed(value) || secrets.contains(known),
        !known.contains('*'),
    ensures
        !text::occurs(masked(registered(secrets, value), input), known),
{
    let after = registered(secrets, value);
    law_registered_well_formed(secrets, value);
    if text::trimmed(value).len() > 0 {
        law_registered_is_known(secrets, value);
    }
    assert(after.contains(known));
    let k = choose|k: int| 0 <= k < after.len() && after[k] == known;
    law_masked_holds_no_secret(after, input, k);
}

/// Text that holds no secret passes through unchanged.
pub proof fn law_clean_text_unchanged(secrets: Seq<Seq<char>>, input: Seq<char>)
    requires
        forall|i: int| 0 <= i < secrets.len() ==> !text::occurs(input, #[trigger] secrets[i]),
    ensures
        masked(secrets, input) == input,
    decreases secrets.len(),
{
    if secrets.len() > 0 {
        let front = secrets.drop_last();
        assert forall|i: int| 0 <= i < front.len() implies !text::occurs(
            input,
            #[trigger] front[i],
        ) by {
            assert(front[i] == secrets[i]);
        }
        law_clean_text_unchanged(front, input);
        assert(!text::occurs(input, secrets[secrets.len() - 1]));
        lemma_nothing_to_replace(input, secrets.last(), MASK@);
    }
}

/// Masking masked text changes nothing, if no secret holds the mask's character.
pub proof fn law_mask_twice(secrets: Seq<Seq<char>>, input: Seq<char>)
    requires
        well_formed(secrets),
        forall|i: int| 0 <= i < secrets.len() ==> !(#[trigger] secrets[i]).contains('*'),
    ensures
        masked(secrets, masked(secrets, input)) == masked(secrets, input),
{
    assert forall|i: int| 0 <= i < secrets.len() implies !text::occurs(
        masked(secrets, input),
        #[trigger] secrets[i],
    ) by {
        law_masked_holds_no_secret(secrets, input, i);
    }
    law_clean_text_unchanged(secrets, masked(secrets, input));
}

/// A secret is masked where it stands: what is before it stays, and what is behind it is
/// masked in the same way.
pub proof fn law_mask_in_place(secret: Seq<char>, input: Seq<char>)
    requires
        secret.len() > 0,
    ensures
        match text::cut(input, secret) {
            Some((before, after)) => masked(seq![secret], input) == before + "***"@ + masked(
                seq![secret],
                after,
            ),
            None => masked(seq![secret], input) == input,
        },
{
    let one = seq![secret];
    assert(one.drop_last() == Seq::<Seq<char>>::empty());
    assert(one.last() == secret);
    assert forall|s: Seq<char>| #[trigger] masked(one, s) == text::replaced(s, secret, MASK@) by {
        assert(masked(one.drop_last(), s) == s);
    }
    text::law_replaced_at_first(input, secret, MASK@);
}

/// Further secrets are masked in what masking the first ones has left.
pub proof fn law_mask_one_after_the_other(
    first: Seq<Seq<char>>,
    more: Seq<Seq<char>>,
    input: Seq<char>,
)
    ensures
        masked(first + more, input) == masked(more, masked(first, input)),
    decreases more.len(),
{
    let all = first + more;
    if more.len() > 0 {
        assert(all.drop_last() == first + more.drop_last());
        assert(all.last() == more.last());
        law_mask_one_after_the_other(first, more.drop_last(), input);
    } else {
        assert(all == first);
    }
}

proof fn lemma_same_bytes_same_text(s: Seq<char>, pat: Seq<char>)
    requires
        byte_len(s) == byte_len(pat),
        text::occurs(s, pat),
    ensures
        s == pat,
{
    let i = choose|i: int| text::occurs_at(s, pat, i);
    let a = s.take(i);
    let b = s.skip(i + pat.len());
    assert(s == (a + pat) + b);
    lemma_byte_len_concat(a + pat, b);
    lemma_byte_len_concat(a, pat);
    lemma_no_bytes_no_text(a);
    lemma_no_bytes_no_text(b);
    assert(s == pat);
}

proof fn lemma_no_bytes_no_text(s: Seq<char>)
    requires
        byte_len(s) == 0,
    ensures
        s == Seq::<char>::empty(),
{
    let none = Seq::<char>::empty();
    vstd::utf8::encode_utf8_decode_utf8(s);
    vstd::utf8::encode_utf8_decode_utf8(none);
    assert(vstd::utf8::encode_utf8(s) == Seq::<u8>::empty());
    assert(vstd::utf8::encode_utf8(none) == Seq::<u8>::empty());
}

/// A secret is masked as a whole, also where a shorter one stands in it.
pub proof fn law_whole_secret_is_masked(secrets: Seq<Seq<char>>, k: int)
    requires
        well_formed(secrets),
        0 <= k < secrets.len(),
        forall|i: int| 0 <= i < secrets.len() ==> !(#[trigger] secrets[i]).contains('*'),
    ensures
        masked(secrets, secrets[k]) == "***"@,
{
    let s = secrets[k];
    let first = secrets.take(k);
    let more = secrets.skip(k + 1);
    assert(secrets == first + seq![s] + more);
    law_mask_one_after_the_other(first + seq![s], more, s);
    law_mask_one_after_the_other(first, seq![s], s);
    assert forall|i: int| 0 <= i < first.len() implies !text::occurs(s, #[trigger] first[i]) by {
        assert(first[i] == secrets[i]);
        assert(byte_len(secrets[i]) >= byte_len(secrets[k]));
        if text::occurs(s, first[i]) {
            if byte_len(s) < byte_len(first[i]) {
                lemma_longer_does_not_occur(s, first[i]);
            } else {
                lemma_same_bytes_same_text(s, first[i]);
                assert(secrets[i] != secrets[k]);
            }
        }
    }
    law_clean_text_unchanged(first, s);
    law_mask_in_place(s, s);
    assert(text::occurs_at(s, s, 0)) by {
        assert(s.subrange(0, s.len() as int) == s);
    }
    text::law_cut_is_first(s, s);
    let none = Seq::<char>::empty();
    let (before, after) = text::cut(s, s)->0;
    assert(s == before + s + after);
    assert(before == none && after == none);
    let one = seq![s];
    assert(masked(one, none) == none) by {
        assert(!text::occurs(none, s));
        assert forall|i: int| 0 <= i < one.len() implies !text::occurs(none, #[trigger] one[i]) by {
        }
        law_clean_text_unchanged(one, none);
    }
    assert(masked(one, s) == none + "***"@ + none);
    assert(none + "***"@ + none == "***"@);
    reveal_strlit("***");
    let mask = "***"@;
    assert(mask == seq!['*', '*', '*']);
    assert forall|i: int| 0 <= i < more.len() implies !text::occurs(mask, #[trigger] more[i]) by {
        let other = more[i];
        assert(other == secrets[k + 1 + i]);
        if text::occurs(mask, other) {
            let j = choose|j: int| text::occurs_at(mask, other, j);
            assert(mask.subrange(j, j + other.len())[0] == mask[j]);
            assert(other.contains(other[0]));
        }
    }
    law_clean_text_unchanged(more, mask);
}

/// The place that `value` takes among the secrets: behind those that are not shorter.
fn place(secrets: &Vec<String>, value: &str) -> (r: usize)
    ensures
        r == rank(text::views(secrets@), byte_len(value@)),
{
    let n: usize = value.as_bytes().len();
    let ghost all = text::views(secrets@);
    let mut i: usize = 0;
    assert(all.skip(0) == all);
    while i < secrets.len() && secrets[i].as_str().as_bytes().len() >= n
        invariant
            i <= secrets@.len(),
            n == byte_len(value@),
            all == text::views(secrets@),
            rank(all, n as nat) == i + rank(all.skip(i as int), n as nat),
        decreases secrets@.len() - i,
    {
        assert(all.skip(i as int)[0] == secrets@[i as int]@);
        assert(all.skip(i as int).skip(1) == all.skip(i + 1));
        i = i + 1;
    }
    assert(i < all.len() ==> all.skip(i as int)[0] == secrets@[i as int]@);
    i
}

/// Replaces registered secret values in arbitrary text.
#[derive(Debug)]
pub struct SecretMasker {
    secrets: Vec<String>,
    min_secret_length: usize,
}

impl Default for SecretMasker {
    fn default() -> (r: Self)
        ensures
            r.secrets() == Seq::<Seq<char>>::empty(),
    {
        SecretMasker::new()
    }
}

impl SecretMasker {
    #[verifier::type_invariant]
    spec fn inv(self) -> bool {
        &&& well_formed(self.secrets())
        &&& self.secrets@.len() > 0 ==> self.min_secret_length == byte_len(self.secrets().last())
    }

    /// The registered secrets, longest first.
    pub closed spec fn secrets(self) -> Seq<Seq<char>> {
        text::views(self.secrets@)
    }

    /// A masker that knows no secret.
    pub fn new() -> (r: Self)
        ensures
            r.secrets() == Seq::<Seq<char>>::empty(),
    {
        let r = SecretMasker { secrets: Vec::new(), min_secret_length: 0 };
        assert(r.secrets() == Seq::<Seq<char>>::empty());
        r
    }

    /// Registers a value to be masked. Its white space at both ends is dropped; empty
    /// and known values are ignored.
    pub fn add_value(&mut self, secret: &str)
        ensures
            final(self).secrets() == registered(old(self).secrets(), secret@),
            well_formed(final(self).secrets()),
    {
        proof {
            use_type_invariant(&*self);
        }
        let ghost before = self.secrets();
        let value = text::trim(secret);
        if text::to_chars(value.as_str()).len() == 0 || text::holds(
            &self.secrets,
            value.as_str(),
        ) {
            return;
        }
        let at = place(&self.secrets, value.as_str());
        let mut next = string_map::copy_texts(&self.secrets);
        proof {
            lemma_rank(before, byte_len(value@));
            assert(text::views(next@.insert(at as int, value)) == before.insert(at as int, value@));
            law_registered_well_formed(before, secret@);
        }
        next.insert(at, value);
        let last: usize = next.len() - 1;
        let shortest: usize = next[last].as_str().as_bytes().len();
        *self = SecretMasker { secrets: next, min_secret_length: shortest };
    }

    /// Forgets every secret.
    pub fn clear(&mut self)
        ensures
            final(self).secrets() == Seq::<Seq<char>>::empty(),
    {
        *self = SecretMasker::new();
    }

    /// Replaces every registered secret in `input` by the mask, longer secrets first.
    pub fn mask_secrets(&self, input: &str) -> (r: String)
        ensures
            r@ == masked(self.secrets(), input@),
            well_formed(self.secrets()),
    {
        proof {
            use_type_invariant(self);
        }
        let ghost secrets = self.secrets();
        let n: usize = input.as_bytes().len();
        if self.secrets.len() == 0 {
            return input.to_owned();
        }
        if n < self.min_secret_length {
            proof {
                assert forall|i: int| 0 <= i < secrets.len() implies !text::occurs(
                    input@,
                    #[trigger] secrets[i],
                ) by {
                    if i < secrets.len() - 1 {
                        assert(byte_len(secrets[i]) >= byte_len(secrets[secrets.len() - 1]));
                    }
                    lemma_longer_does_not_occur(input@, secrets[i]);
                }
                law_clean_text_unchanged(secrets, input@);
            }
            return input.to_owned();
        }
        let mut result = input.to_owned();
        let mut i: usize = 0;
        while i < self.secrets.len()
            invariant
                i <= self.secrets@.len(),
                secrets == text::views(self.secrets@),
                well_formed(secrets),
                result@ == masked(secrets.take(i as int), input@),
            decreases self.secrets@.len() - i,
        {
            assert(secrets.take(i + 1).drop_last() == secrets.take(i as int));
            assert(secrets[i as int] == self.secrets@[i as int]@);
            result = text::replace(result.as_str(), self.secrets[i].as_str(), MASK);
            i = i + 1;
        }
        assert(secrets.take(secrets.len() as int) == secrets);
        result
    }

    /// How many secrets are registered.
    pub fn secret_count(&self) -> (r: usize)
        ensures
            r == self.secrets().len(),
    {
        self.secrets.len()
    }
}

} // verus!
