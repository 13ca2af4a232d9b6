//! Environment variables, by the rules of each platform.
use vstd::prelude::*;

use crate::constants::{Architecture, OsPlatform};
use crate::string_map::StringMap;
use crate::{string_map, text};

verus! {

/// Platform-aware helpers.
pub struct VarUtil;

/// Two names stand for the same variable: on Windows the case of ASCII letters does not
/// matter.
pub open spec fn same_variable(platform: OsPlatform, a: Seq<char>, b: Seq<char>) -> bool {
    if platform == OsPlatform::Windows {
        text::equal_ignoring_ascii_case(a, b)
    } else {
        a == b
    }
}

/// The first key that is `key` but for the case of ASCII letters.
pub open spec fn clashing_key(items: Seq<(Seq<char>, Seq<char>)>, key: Seq<char>) -> Option<
    Seq<char>,
>
    decreases items.len(),
{
    if items.len() == 0 {
        None
    } else if text::equal_ignoring_ascii_case(items[0].0, key) {
        Some(items[0].0)
    } else {
        clashing_key(items.skip(1), key)
    }
}

/// An environment once a variable is set. On Windows a variable with the same name in another
/// case goes.
pub open spec fn overridden(
    platform: OsPlatform,
    items: Seq<(Seq<char>, Seq<char>)>,
    entry: (Seq<char>, Seq<char>),
) -> Seq<(Seq<char>, Seq<char>)> {
    let rest = if platform == OsPlatform::Windows {
        match clashing_key(items, entry.0) {
            Some(k) => string_map::without_key(items, k),
            None => items,
        }
    } else {
        items
    };
    string_map::with_entry(rest, entry.0, entry.1)
}

/// An environment once variables are set, one after the other.
pub open spec fn merged(
    platform: OsPlatform,
    base: Seq<(Seq<char>, Seq<char>)>,
    overrides: Seq<(Seq<char>, Seq<char>)>,
) -> Seq<(Seq<char>, Seq<char>)>
    decreases overrides.len(),
{
    if overrides.len() == 0 {
        base
    } else {
        overridden(platform, merged(platform, base, overrides.drop_last()), overrides.last())
    }
}

fn find_clash(map: &StringMap, key: &str) -> (r: Option<String>)
    ensures
        text::view_option(r) == clashing_key(map.items(), key@),
{
    let ghost items = map.items();
    let n: usize = map.len();
    let mut i: usize = 0;
    assert(items.skip(0) == items);
    while i < n
        invariant
            n == items.len(),
            i <= n,
            items == map.items(),
            clashing_key(items, key@) == clashing_key(items.skip(i as int), key@),
        decreases n - i,
    {
        assert(items.skip(i as int).skip(1) == items.skip(i + 1));
        if text::eq_ignore_ascii_case(map.key_at(i).as_str(), key) {
            return Some(map.key_at(i).clone());
        }
        i = i + 1;
    }
    None
}

impl VarUtil {
    /// Whether two names stand for the same variable.
    pub fn env_var_keys_equal(platform: OsPlatform, a: &str, b: &str) -> (r: bool)
        ensures
            r == same_variable(platform, a@, b@),
    {
        match platform {
            OsPlatform::Windows => text::eq_ignore_ascii_case(a, b),
            _ => text::same(a, b),
        }
    }

    /// The name of the operating system.
    pub fn os(platform: OsPlatform) -> (r: &'static str)
        ensures
            r@ == platform.label(),
    {
        platform.label_name()
    }

    /// The name of the architecture.
    pub fn os_architecture(architecture: Architecture) -> (r: &'static str)
        ensures
            r@ == architecture.label(),
    {
        architecture.label_name()
    }

    /// An environment with some variables overridden.
    pub fn merge_env(platform: OsPlatform, base: &StringMap, overrides: &StringMap) -> (r: StringMap)
        ensures
            r.items() == merged(platform, base.items(), overrides.items()),
    {
        let mut out = base.duplicate();
        let ghost all = overrides.items();
        let n: usize = overrides.len();
        let mut i: usize = 0;
        assert(all.take(0) == Seq::<(Seq<char>, Seq<char>)>::empty());
        while i < n
            invariant
                n == all.len(),
                i <= n,
                all == overrides.items(),
                out.items() == merged(platform, base.items(), all.take(i as int)),
            decreases n - i,
        {
            assert(all.take(i + 1).drop_last() == all.take(i as int));
            assert(all.take(i + 1).last() == all[i as int]);
            let key = overrides.key_at(i).clone();
            if let OsPlatform::Windows = platform {
                if let Some(existing) = find_clash(&out, key.as_str()) {
                    out.remove(existing.as_str());
                }
            }
            out.insert(key, overrides.value_at(i).clone());
            i = i + 1;
        }
        assert(all.take(n as int) == all);
        out
    }
}

proof fn lemma_merged_unique(
    platform: OsPlatform,
    base: Seq<(Seq<char>, Seq<char>)>,
    overrides: Seq<(Seq<char>, Seq<char>)>,
)
    requires
        string_map::unique_keys(base),
    ensures
        string_map::unique_keys(merged(platform, base, overrides)),
    decreases overrides.len(),
{
    if overrides.len() > 0 {
        let before = merged(platform, base, overrides.drop_last());
        lemma_merged_unique(platform, base, overrides.drop_last());
        let entry = overrides.last();
        match clashing_key(before, entry.0) {
            Some(k) => {
                string_map::lemma_without_key(before, k);
                string_map::lemma_with_entry(
                    string_map::without_key(before, k),
                    entry.0,
                    entry.1,
                );
            },
            None => {},
        }
        string_map::lemma_with_entry(before, entry.0, entry.1);
    }
}

/// The variable that is overridden last has its new value.
pub proof fn law_last_override_wins(
    platform: OsPlatform,
    base: Seq<(Seq<char>, Seq<char>)>,
    overrides: Seq<(Seq<char>, Seq<char>)>,
)
    requires
        string_map::unique_keys(base),
        overrides.len() > 0,
    ensures
        string_map::value_of(merged(platform, base, overrides), overrides.last().0) == Some(
            overrides.last().1,
        ),
{
    let before = merged(platform, base, overrides.drop_last());
    let entry = overrides.last();
    lemma_merged_unique(platform, base, overrides.drop_last());
    match clashing_key(before, entry.0) {
        Some(k) => {
            string_map::lemma_without_key(before, k);
            string_map::lemma_with_entry(string_map::without_key(before, k), entry.0, entry.1);
        },
        None => {},
    }
    string_map::lemma_with_entry(before, entry.0, entry.1);
}

/// Where case matters, every variable has the value of its override, or else its old one.
pub proof fn law_overrides_take_precedence(
    platform: OsPlatform,
    base: Seq<(Seq<char>, Seq<char>)>,
    overrides: Seq<(Seq<char>, Seq<char>)>,
    key: Seq<char>,
)
    requires
        platform != OsPlatform::Windows,
        string_map::unique_keys(base),
        string_map::unique_keys(overrides),
    ensures
        string_map::value_of(merged(platform, base, overrides), key) == if string_map::has_key(
            overrides,
            key,
        ) {
            string_map::value_of(overrides, key)
        } else {
            string_map::value_of(base, key)
        },
    decreases overrides.len(),
{
    if overrides.len() > 0 {
        let front = overrides.drop_last();
        let entry = overrides.last();
        let before = merged(platform, base, front);
        assert forall|i: int, j: int| 0 <= i < j < front.len() implies (#[trigger] front[i]).0 != (
        #[trigger] front[j]).0 by {
            assert(overrides[i].0 != overrides[j].0);
        }
        law_overrides_take_precedence(platform, base, front, key);
        lemma_merged_unique(platform, base, front);
        string_map::lemma_with_entry(before, entry.0, entry.1);
        assert(!string_map::has_key(front, entry.0)) by {
            if string_map::has_key(front, entry.0) {
                let i = choose|i: int| 0 <= i < front.len() && (#[trigger] front[i]).0 == entry.0;
                assert(overrides[i].0 != overrides[overrides.len() - 1].0);
            }
        }
        assert(overrides == string_map::with_entry(front, entry.0, entry.1));
        string_map::lemma_with_entry(front, entry.0, entry.1);
        assert(overrides[overrides.len() - 1].0 == entry.0);
        if key != entry.0 {
            assert(string_map::value_of(overrides, key) == string_map::value_of(front, key));
        }
    }
}

/// On Windows two names that differ in case alone are the same variable; elsewhere only equal
/// names are.
pub proof fn law_case_matters_but_on_windows(a: Seq<char>, b: Seq<char>)
    ensures
        same_variable(OsPlatform::Windows, a, b) <==> text::ascii_lowered(a)
            == text::ascii_lowered(b),
        same_variable(OsPlatform::Linux, a, b) <==> a == b,
        same_variable(OsPlatform::MacOS, a, b) <==> a == b,
{
}

/// No two variables have names that differ in case alone.
pub open spec fn folded_unique(items: Seq<(Seq<char>, Seq<char>)>) -> bool {
    forall|i: int, j: int|
        0 <= i < j < items.len() ==> !text::equal_ignoring_ascii_case(
            (#[trigger] items[i]).0,
            (#[trigger] items[j]).0,
        )
}

proof fn lemma_clashing_key(items: Seq<(Seq<char>, Seq<char>)>, key: Seq<char>)
    ensures
        match clashing_key(items, key) {
            Some(k) => string_map::has_key(items, k) && text::equal_ignoring_ascii_case(k, key),
            None => forall|i: int|
                0 <= i < items.len() ==> !text::equal_ignoring_ascii_case(
                    (#[trigger] items[i]).0,
                    key,
                ),
        },
    decreases items.len(),
{
    if items.len() > 0 {
        let rest = items.skip(1);
        if text::equal_ignoring_ascii_case(items[0].0, key) {
            assert(string_map::has_key(items, items[0].0));
        } else {
            lemma_clashing_key(rest, key);
            match clashing_key(rest, key) {
                Some(k) => {
                    let i = choose|i: int| 0 <= i < rest.len() && (#[trigger] rest[i]).0 == k;
                    assert(items[i + 1].0 == k);
                },
                None => {
                    assert forall|i: int| 0 <= i < items.len() implies !text::equal_ignoring_ascii_case(
                        (#[trigger] items[i]).0,
                        key,
                    ) by {
                        if i > 0 {
                            assert(rest[i - 1] == items[i]);
                        }
                    }
                },
            }
        }
    }
}

/// Setting a variable on Windows sets it under the new name, takes away the same variable
/// under another name, and leaves every other variable as it is.
pub proof fn law_windows_sets_one_variable(
    items: Seq<(Seq<char>, Seq<char>)>,
    key: Seq<char>,
    value: Seq<char>,
    other: Seq<char>,
)
    requires
        string_map::unique_keys(items),
        folded_unique(items),
    ensures
        ({
            let after = overridden(OsPlatform::Windows, items, (key, value));
            &&& string_map::unique_keys(after)
            &&& folded_unique(after)
            &&& string_map::value_of(after, key) == Some(value)
            &&& other != key && text::equal_ignoring_ascii_case(other, key)
                ==> string_map::value_of(after, other) is None
            &&& !text::equal_ignoring_ascii_case(other, key) ==> string_map::value_of(after, other)
                == string_map::value_of(items, other)
        }),
{
    lemma_clashing_key(items, key);
    let rest = match clashing_key(items, key) {
        Some(k) => string_map::without_key(items, k),
        None => items,
    };
    let after = overridden(OsPlatform::Windows, items, (key, value));
    match clashing_key(items, key) {
        Some(k) => {
            string_map::lemma_without_key(items, k);
            string_map::law_removal_keeps_values(items, k, other);
            let p = choose|p: int| 0 <= p < items.len() && (#[trigger] items[p]).0 == k;
            assert forall|i: int| 0 <= i < rest.len() implies !text::equal_ignoring_ascii_case(
                (#[trigger] rest[i]).0,
                key,
            ) by {
                assert(items.contains(rest[i]));
                let q = choose|q: int| 0 <= q < items.len() && items[q] == rest[i];
                assert(string_map::has_key(rest, rest[i].0));
                if q < p {
                    assert(!text::equal_ignoring_ascii_case(items[q].0, items[p].0));
                } else if p < q {
                    assert(!text::equal_ignoring_ascii_case(items[p].0, items[q].0));
                }
            }
        },
        None => {},
    }
    assert(folded_unique(rest)) by {
        assert forall|i: int, j: int| 0 <= i < j < rest.len() implies !text::equal_ignoring_ascii_case(
            (#[trigger] rest[i]).0,
            (#[trigger] rest[j]).0,
        ) by {
            if clashing_key(items, key) is Some {
                assert(items.contains(rest[i]));
                assert(items.contains(rest[j]));
                let p = choose|p: int| 0 <= p < items.len() && items[p] == rest[i];
                let q = choose|q: int| 0 <= q < items.len() && items[q] == rest[j];
                assert(rest[i].0 != rest[j].0);
                if p < q {
                    assert(!text::equal_ignoring_ascii_case(items[p].0, items[q].0));
                } else {
                    assert(!text::equal_ignoring_ascii_case(items[q].0, items[p].0));
                }
            }
        }
    }
    assert(!string_map::has_key(rest, key));
    assert(after == rest.push((key, value)));
    string_map::lemma_with_entry(rest, key, value);
    if text::equal_ignoring_ascii_case(other, key) {
        assert(!string_map::has_key(rest, other));
    }
    assert forall|i: int, j: int| 0 <= i < j < after.len() implies !text::equal_ignoring_ascii_case(
        (#[trigger] after[i]).0,
        (#[trigger] after[j]).0,
    ) by {
        if j < rest.len() {
            assert(!text::equal_ignoring_ascii_case(rest[i].0, rest[j].0));
        } else {
            assert(!text::equal_ignoring_ascii_case(rest[i].0, key));
        }
    }
}

/// On Windows too every overridden variable has its new value, and every variable that no
/// override names, in whatever case, its old one.
pub proof fn law_windows_overrides_take_precedence(
    base: Seq<(Seq<char>, Seq<char>)>,
    overrides: Seq<(Seq<char>, Seq<char>)>,
    key: Seq<char>,
)
    requires
        string_map::unique_keys(base),
        folded_unique(base),
        string_map::unique_keys(overrides),
        folded_unique(overrides),
    ensures
        ({
            let after = merged(OsPlatform::Windows, base, overrides);
            &&& string_map::unique_keys(after)
            &&& folded_unique(after)
            &&& forall|i: int|
                0 <= i < overrides.len() ==> string_map::value_of(
                    after,
                    (#[trigger] overrides[i]).0,
                ) == Some(overrides[i].1)
            &&& (forall|i: int|
                0 <= i < overrides.len() ==> !text::equal_ignoring_ascii_case(
                    key,
                    (#[trigger] overrides[i]).0,
                )) ==> string_map::value_of(after, key) == string_map::value_of(base, key)
        }),
    decreases overrides.len(),
{
    if overrides.len() > 0 {
        let front = overrides.drop_last();
        let last = overrides.last();
        assert forall|i: int, j: int| 0 <= i < j < front.len() implies (#[trigger] front[i]).0 != (
        #[trigger] front[j]).0 && !text::equal_ignoring_ascii_case(front[i].0, front[j].0) by {
            assert(overrides[i].0 != overrides[j].0);
        }
        law_windows_overrides_take_precedence(base, front, key);
        let before = merged(OsPlatform::Windows, base, front);
        let after = merged(OsPlatform::Windows, base, overrides);
        law_windows_sets_one_variable(before, last.0, last.1, key);
        assert(last == overrides[overrides.len() - 1]);
        assert forall|i: int| 0 <= i < overrides.len() implies string_map::value_of(
            after,
            (#[trigger] overrides[i]).0,
        ) == Some(overrides[i].1) by {
            if i < front.len() {
                assert(front[i] == overrides[i]);
                assert(!text::equal_ignoring_ascii_case(
                    overrides[i].0,
                    overrides[overrides.len() - 1].0,
                ));
                law_windows_sets_one_variable(before, last.0, last.1, overrides[i].0);
            }
        }
        if forall|i: int|
            0 <= i < overrides.len() ==> !text::equal_ignoring_ascii_case(
                key,
                (#[trigger] overrides[i]).0,
            ) {
            assert forall|i: int| 0 <= i < front.len() implies !text::equal_ignoring_ascii_case(
                key,
                (#[trigger] front[i]).0,
            ) by {
                assert(front[i] == overrides[i]);
            }
        }
    }
}

} // verus!
