//! Stored credentials.
use vstd::prelude::*;

use crate::string_map::StringMap;
use crate::text;

verus! {

/// What the runner authenticates with.
#[derive(Debug)]
pub struct CredentialData {
    /// The authentication scheme, such as `OAuth`.
    pub scheme: String,
    /// Where access tokens are issued.
    pub authorization_url: Option<String>,
    /// Who asks for them.
    pub client_id: Option<String>,
    /// Further data, such as a token.
    pub data: StringMap,
}

/// What credentials say.
pub struct CredentialView {
    pub scheme: Seq<char>,
    pub authorization_url: Option<Seq<char>>,
    pub client_id: Option<Seq<char>>,
    pub data: Seq<(Seq<char>, Seq<char>)>,
}

/// The value of the first entry whose key is `key`, but for the case of ASCII letters.
pub open spec fn data_value(items: Seq<(Seq<char>, Seq<char>)>, key: Seq<char>) -> Option<
    Seq<char>,
>
    decreases items.len(),
{
    if items.len() == 0 {
        None
    } else if text::equal_ignoring_ascii_case(items[0].0, key) {
        Some(items[0].1)
    } else {
        data_value(items.skip(1), key)
    }
}

impl CredentialData {
    pub open spec fn view(&self) -> CredentialView {
        CredentialView {
            scheme: self.scheme@,
            authorization_url: text::view_option(self.authorization_url),
            client_id: text::view_option(self.client_id),
            data: self.data.items(),
        }
    }

    /// Credentials of the given scheme, without data.
    pub fn new(scheme: &str) -> (r: Self)
        ensures
            r@ == (CredentialView {
                scheme: scheme@,
                authorization_url: None,
                client_id: None,
                data: Seq::empty(),
            }),
    {
        CredentialData {
            scheme: scheme.to_owned(),
            authorization_url: None,
            client_id: None,
            data: StringMap::new(),
        }
    }

    /// The value stored under `key`; the case of ASCII letters does not matter.
    pub fn get_data(&self, key: &str) -> (r: Option<&String>)
        ensures
            match r {
                Some(v) => data_value(self@.data, key@) == Some(v@),
                None => data_value(self@.data, key@) is None,
            },
    {
        let ghost items = self.data.items();
        let n: usize = self.data.len();
        let mut i: usize = 0;
        assert(items.skip(0) == items);
        while i < n
            invariant
                i <= n,
                n == items.len(),
                items == self.data.items(),
                data_value(items, key@) == data_value(items.skip(i as int), key@),
            decreases n - i,
        {
            assert(items.skip(i as int).skip(1) == items.skip(i + 1));
            if text::eq_ignore_ascii_case(self.data.key_at(i).as_str(), key) {
                return Some(self.data.value_at(i));
            }
            i = i + 1;
        }
        None
    }

    /// Credentials that say the same.
    pub fn duplicate(&self) -> (r: Self)
        ensures
            r@ == self@,
    {
        CredentialData {
            scheme: self.scheme.clone(),
            authorization_url: text::copy_option(&self.authorization_url),
            client_id: text::copy_option(&self.client_id),
            data: self.data.duplicate(),
        }
    }
}

/// A value is found under a key if and only if some entry has that key, whatever its case;
/// and it is the value of such an entry.
pub proof fn law_data_lookup(items: Seq<(Seq<char>, Seq<char>)>, key: Seq<char>)
    ensures
        data_value(items, key) is Some <==> exists|i: int|
            0 <= i < items.len() && text::equal_ignoring_ascii_case((#[trigger] items[i]).0, key),
        data_value(items, key) matches Some(v) ==> exists|i: int|
            0 <= i < items.len() && text::equal_ignoring_ascii_case((#[trigger] items[i]).0, key)
                && items[i].1 == v,
    decreases items.len(),
{
    if items.len() > 0 {
        let rest = items.skip(1);
        law_data_lookup(rest, key);
        if text::equal_ignoring_ascii_case(items[0].0, key) {
            assert(text::equal_ignoring_ascii_case(items[0].0, key) && items[0].1 == data_value(
                items,
                key,
            )->0);
        } else {
            if data_value(rest, key) is Some {
                let j = choose|j: int|
                    0 <= j < rest.len() && text::equal_ignoring_ascii_case(
                        (#[trigger] rest[j]).0,
                        key,
                    ) && rest[j].1 == data_value(rest, key)->0;
                assert(items[j + 1] == rest[j]);
            }
            if exists|i: int|
                0 <= i < items.len() && text::equal_ignoring_ascii_case((#[trigger] items[i]).0, key) {
                let i = choose|i: int|
                    0 <= i < items.len() && text::equal_ignoring_ascii_case(
                        (#[trigger] items[i]).0,
                        key,
                    );
                assert(rest[i - 1] == items[i]);
            }
        }
    }
}

/// The first entry with the key counts, whatever stands behind it.
pub proof fn law_first_entry_counts(
    before: Seq<(Seq<char>, Seq<char>)>,
    entry: (Seq<char>, Seq<char>),
    after: Seq<(Seq<char>, Seq<char>)>,
    key: Seq<char>,
)
    requires
        text::equal_ignoring_ascii_case(entry.0, key),
        forall|i: int|
            0 <= i < before.len() ==> !text::equal_ignoring_ascii_case(
                (#[trigger] before[i]).0,
                key,
            ),
    ensures
        data_value(before + seq![entry] + after, key) == Some(entry.1),
    decreases before.len(),
{
    let all = before + seq![entry] + after;
    if before.len() > 0 {
        assert(all[0] == before[0]);
        assert(all.skip(1) == before.skip(1) + seq![entry] + after);
        assert forall|i: int| 0 <= i < before.skip(1).len() implies !text::equal_ignoring_ascii_case(
            (#[trigger] before.skip(1)[i]).0,
            key,
        ) by {
            assert(before.skip(1)[i] == before[i + 1]);
        }
        law_first_entry_counts(before.skip(1), entry, after, key);
    } else {
        assert(all[0] == entry);
    }
}

} // verus!
