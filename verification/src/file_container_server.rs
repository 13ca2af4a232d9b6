//! Artifact files in a file container.
use vstd::prelude::*;
use vstd::string::*;

use crate::polling;
use crate::{codec, number, text};

verus! {

/// How many failures of one file, or one query, are put up with.
pub const MAX_RETRIES: u32 = 3;

/// How many files are uploaded at once, at most.
pub const MAX_CONCURRENT_UPLOADS: usize = 2;

/// The pause before failed files are tried again, in seconds.
pub const RETRY_WAIT_SECS: u32 = 60;

/// How often the user is told of the pause, in seconds.
pub const RETRY_TICK_SECS: u32 = 5;

/// The kinds of items in a container.
#[derive(Debug, Clone, Copy, PartialEq, Eq, Structural)]
pub enum ContainerItemType {
    Folder,
    File,
}

/// An item in a container.
#[derive(Debug)]
pub struct FileContainerItem {
    /// Where it stands in the container.
    pub path: String,
    pub item_type: ContainerItemType,
    /// The length of a file, in bytes.
    pub file_length: i64,
}

/// An item in a container.
pub struct ItemView {
    pub path: Seq<char>,
    pub item_type: ContainerItemType,
    pub file_length: i64,
}

impl FileContainerItem {
    pub open spec fn view(&self) -> ItemView {
        ItemView { path: self.path@, item_type: self.item_type, file_length: self.file_length }
    }
}

/// What items are.
pub open spec fn item_views(items: Seq<FileContainerItem>) -> Seq<ItemView> {
    items.map_values(|i: FileContainerItem| i@)
}

// ---------------------------------------------------------------------------
// The order of paths
// ---------------------------------------------------------------------------

/// `a` does not come after `b`, character by character.
pub open spec fn path_le(a: Seq<char>, b: Seq<char>) -> bool
    decreases a.len(),
{
    if a.len() == 0 {
        true
    } else if b.len() == 0 {
        false
    } else if a[0] == b[0] {
        path_le(a.skip(1), b.skip(1))
    } else {
        a[0] < b[0]
    }
}

fn path_not_after(a: &str, b: &str) -> (r: bool)
    ensures
        r == path_le(a@, b@),
{
    let x = text::to_chars(a);
    let y = text::to_chars(b);
    let mut i: usize = 0;
    assert(x@.skip(0) == a@);
    assert(y@.skip(0) == b@);
    while i < x.len()
        invariant
            i <= x@.len(),
            i <= y@.len(),
            path_le(a@, b@) == path_le(x@.skip(i as int), y@.skip(i as int)),
        decreases x@.len() - i,
    {
        if i >= y.len() {
            return false;
        }
        if x[i] != y[i] {
            return x[i] < y[i];
        }
        assert(x@.skip(i as int).skip(1) == x@.skip(i + 1));
        assert(y@.skip(i as int).skip(1) == y@.skip(i + 1));
        i = i + 1;
    }
    true
}

/// Behind a common front the first character that differs decides the order of two paths; a
/// path that ends there comes first.
pub proof fn law_path_order(front: Seq<char>, a: Seq<char>, b: Seq<char>)
    requires
        a.len() > 0 && b.len() > 0 ==> a[0] != b[0],
    ensures
        path_le(front + a, front + b) <==> a.len() == 0 || b.len() > 0 && a[0] < b[0],
    decreases front.len(),
{
    if front.len() > 0 {
        assert((front + a).skip(1) == front.skip(1) + a);
        assert((front + b).skip(1) == front.skip(1) + b);
        law_path_order(front.skip(1), a, b);
    } else {
        assert(front + a == a);
        assert(front + b == b);
    }
}

proof fn lemma_path_le_total(a: Seq<char>, b: Seq<char>)
    ensures
        path_le(a, b) || path_le(b, a),
    decreases a.len(),
{
    if a.len() > 0 && b.len() > 0 && a[0] == b[0] {
        lemma_path_le_total(a.skip(1), b.skip(1));
    }
}

proof fn lemma_path_le_transitive(a: Seq<char>, b: Seq<char>, c: Seq<char>)
    requires
        path_le(a, b),
        path_le(b, c),
    ensures
        path_le(a, c),
    decreases a.len(),
{
    if a.len() > 0 && a[0] == b[0] && b[0] == c[0] {
        lemma_path_le_transitive(a.skip(1), b.skip(1), c.skip(1));
    }
}

/// How many of the leading items do not come after `path`.
pub open spec fn place_of(items: Seq<ItemView>, path: Seq<char>) -> int
    decreases items.len(),
{
    if items.len() > 0 && path_le(items[0].path, path) {
        1 + place_of(items.skip(1), path)
    } else {
        0
    }
}

/// The items in the order of their paths; items with the same path keep their order.
pub open spec fn in_order(items: Seq<ItemView>) -> Seq<ItemView>
    decreases items.len(),
{
    if items.len() == 0 {
        items
    } else {
        let before = in_order(items.drop_last());
        before.insert(place_of(before, items.last().path), items.last())
    }
}

proof fn lemma_place_of(items: Seq<ItemView>, path: Seq<char>)
    ensures
        0 <= place_of(items, path) <= items.len(),
        forall|i: int| 0 <= i < place_of(items, path) ==> path_le((#[trigger] items[i]).path, path),
        place_of(items, path) < items.len() ==> !path_le(
            items[place_of(items, path)].path,
            path,
        ),
    decreases items.len(),
{
    if items.len() > 0 && path_le(items[0].path, path) {
        lemma_place_of(items.skip(1), path);
        assert forall|i: int| 0 <= i < place_of(items, path) implies path_le(
            (#[trigger] items[i]).path,
            path,
        ) by {
            if i > 0 {
                assert(items[i] == items.skip(1)[i - 1]);
            }
        }
    }
}

/// Ordering loses no item, adds none, and leaves every item not after the next.
pub proof fn law_in_order(items: Seq<ItemView>)
    ensures
        in_order(items).to_multiset() == items.to_multiset(),
        in_order(items).len() == items.len(),
        forall|i: int, j: int|
            0 <= i <= j < in_order(items).len() ==> path_le(
                (#[trigger] in_order(items)[i]).path,
                (#[trigger] in_order(items)[j]).path,
            ),
    decreases items.len(),
{
    if items.len() > 0 {
        let front = items.drop_last();
        let last = items.last();
        law_in_order(front);
        let before = in_order(front);
        let at = place_of(before, last.path);
        lemma_place_of(before, last.path);
        let after = in_order(items);
        vstd::seq_lib::to_multiset_insert(before, at, last);
        vstd::seq_lib::to_multiset_build(front, last);
        assert(items == front.push(last));
        assert forall|i: int, j: int| 0 <= i <= j < after.len() implies path_le(
            (#[trigger] after[i]).path,
            (#[trigger] after[j]).path,
        ) by {
            let p = if i < at { i } else { i - 1 };
            let q = if j < at { j } else { j - 1 };
            if i == at && j == at {
                lemma_path_le_total(last.path, last.path);
            } else if i == at {
                assert(after[j] == before[q]);
                lemma_path_le_total(before[at].path, last.path);
                assert(path_le(before[at].path, before[q].path));
                lemma_path_le_transitive(last.path, before[at].path, before[q].path);
            } else if j == at {
                assert(after[i] == before[p]);
            } else {
                assert(after[i] == before[p] && after[j] == before[q]);
            }
        }
    }
}

/// Puts the items in the order of their paths.
pub fn sort_items(items: Vec<FileContainerItem>) -> (r: Vec<FileContainerItem>)
    ensures
        item_views(r@) == in_order(item_views(items@)),
{
    let ghost all = item_views(items@);
    let mut rest = items;
    let mut taken: Vec<FileContainerItem> = Vec::new();
    // Turned round once, the items come off the end in their order.
    while rest.len() > 0
        invariant
            all.len() == rest@.len() + taken@.len(),
            item_views(rest@) == all.take(rest@.len() as int),
            forall|k: int|
                0 <= k < taken@.len() ==> (#[trigger] taken@[k])@ == all[all.len() - 1 - k],
        decreases rest@.len(),
    {
        let ghost before = rest@;
        let item = rest.pop();
        proof {
            assert(item_views(rest@) == all.take(rest@.len() as int));
            assert(item_views(before)[before.len() - 1] == before[before.len() - 1]@);
        }
        if let Some(item) = item {
            taken.push(item);
        }
    }
    let mut out: Vec<FileContainerItem> = Vec::new();
    assert(item_views(out@) == in_order(all.take(0)));
    while taken.len() > 0
        invariant
            out@.len() + taken@.len() == all.len(),
            forall|k: int|
                0 <= k < taken@.len() ==> (#[trigger] taken@[k])@ == all[all.len() - 1 - k],
            item_views(out@) == in_order(all.take(out@.len() as int)),
        decreases taken@.len(),
    {
        let ghost left = taken@;
        let item = taken.pop();
        if let Some(item) = item {
            assert(item@ == left[left.len() - 1]@);
            assert(item@ == all[out@.len() as int]);
            let ghost sorted = item_views(out@);
            let mut at: usize = 0;
            assert(sorted.skip(0) == sorted);
            while at < out.len() && path_not_after(out[at].path.as_str(), item.path.as_str())
                invariant
                    at <= out@.len(),
                    sorted == item_views(out@),
                    place_of(sorted, item@.path) == at + place_of(
                        sorted.skip(at as int),
                        item@.path,
                    ),
                decreases out@.len() - at,
            {
                assert(sorted.skip(at as int)[0] == out@[at as int]@);
                assert(sorted.skip(at as int).skip(1) == sorted.skip(at + 1));
                at = at + 1;
            }
            proof {
                assert(at < out@.len() ==> sorted.skip(at as int)[0] == out@[at as int]@);
                assert(item_views(out@.insert(at as int, item)) == sorted.insert(at as int, item@));
                let now = all.take(out@.len() as int + 1);
                assert(now.drop_last() == all.take(out@.len() as int));
                assert(now.last() == item@);
            }
            out.insert(at, item);
        }
    }
    assert(all.take(all.len() as int) == all);
    out
}

// ---------------------------------------------------------------------------
// Local paths
// ---------------------------------------------------------------------------

/// The number of bytes of a character in UTF-8.
pub open spec fn utf8_width(c: char) -> int {
    if c <= '\u{7f}' {
        1
    } else if c <= '\u{7ff}' {
        2
    } else if c <= '\u{ffff}' {
        3
    } else {
        4
    }
}

/// The number of bytes of a text in UTF-8.
pub open spec fn utf8_len(s: Seq<char>) -> int
    decreases s.len(),
{
    if s.len() == 0 {
        0
    } else {
        utf8_width(s[0]) + utf8_len(s.skip(1))
    }
}

/// What follows the first `n` bytes of a text; `None` if they end within a character or
/// beyond the text.
pub open spec fn after_bytes(s: Seq<char>, n: int) -> Option<Seq<char>>
    decreases s.len(),
{
    if n == 0 {
        Some(s)
    } else if s.len() == 0 || n < utf8_width(s[0]) {
        None
    } else {
        after_bytes(s.skip(1), n - utf8_width(s[0]))
    }
}

fn width(c: char) -> (r: usize)
    ensures
        r == utf8_width(c),
{
    if c <= '\u{7f}' {
        1
    } else if c <= '\u{7ff}' {
        2
    } else if c <= '\u{ffff}' {
        3
    } else {
        4
    }
}

/// What follows the first bytes of `s`, as many as `prefix` has.
fn skip_bytes_of(s: &str, prefix: &str) -> (r: Option<String>)
    ensures
        text::view_option(r) == after_bytes(s@, utf8_len(prefix@)),
{
    let v = text::to_chars(s);
    let p = text::to_chars(prefix);
    let mut n: u128 = 0;
    let mut j: usize = 0;
    assert(p@.skip(0) == prefix@);
    while j < p.len()
        invariant
            j <= p@.len(),
            n <= 4 * j,
            utf8_len(prefix@) == n + utf8_len(p@.skip(j as int)),
        decreases p@.len() - j,
    {
        assert(p@.skip(j as int).skip(1) == p@.skip(j + 1));
        n = n + width(p[j]) as u128;
        j = j + 1;
    }
    assert(p@.skip(j as int).len() == 0);
    let mut i: usize = 0;
    assert(v@.skip(0) == s@);
    while n > 0
        invariant
            i <= v@.len(),
            after_bytes(s@, utf8_len(prefix@)) == after_bytes(v@.skip(i as int), n as int),
        decreases n,
    {
        if i >= v.len() {
            return None;
        }
        let w: u128 = width(v[i]) as u128;
        if n < w {
            return None;
        }
        assert(v@.skip(i as int).skip(1) == v@.skip(i + 1));
        n = n - w;
        i = i + 1;
    }
    assert(v@.subrange(i as int, v@.len() as int) == v@.skip(i as int));
    Some(text::from_chars(&v, i, v.len()))
}

proof fn lemma_width(c: char)
    ensures
        vstd::utf8::encode_scalar(c as u32).len() == utf8_width(c),
{
    vstd::utf8::char_is_scalar(c);
}

/// The two definitions of a text's length in UTF-8 agree.
pub proof fn law_utf8_len(s: Seq<char>)
    ensures
        utf8_len(s) == vstd::utf8::encode_utf8(s).len(),
    decreases s.len(),
{
    if s.len() > 0 {
        law_utf8_len(s.skip(1));
        assert(s.drop_first() == s.skip(1));
        lemma_width(s[0]);
    }
}

// ---------------------------------------------------------------------------
// Plans for downloads
// ---------------------------------------------------------------------------

/// What is done on disk before anything is downloaded. Paths are relative to the
/// destination.
#[derive(Debug)]
pub enum LocalOp {
    EnsureFolder(String),
    CreateEmptyFile(String),
}

/// A file to be downloaded, and where to. The path is relative to the destination.
#[derive(Debug)]
pub struct DownloadInfo {
    pub item_path: String,
    pub local_path: String,
}

/// Why a plan ends early.
#[derive(Debug)]
pub enum PlanError {
    /// The item does not stand under the container's path.
    NotUnder(String),
    /// The item's path cannot be parted where the container's path ends.
    SplitsCharacter(String),
}

/// What is done on disk before anything is downloaded.
pub enum OpView {
    EnsureFolder(Seq<char>),
    CreateEmptyFile(Seq<char>),
}

/// Why a plan ends early.
pub enum PlanErrorView {
    NotUnder(Seq<char>),
    SplitsCharacter(Seq<char>),
}

/// What a download does.
pub struct PlanView {
    pub local: Seq<OpView>,
    pub downloads: Seq<(Seq<char>, Seq<char>)>,
    pub error: Option<PlanErrorView>,
}

impl LocalOp {
    pub open spec fn view(&self) -> OpView {
        match *self {
            LocalOp::EnsureFolder(path) => OpView::EnsureFolder(path@),
            LocalOp::CreateEmptyFile(path) => OpView::CreateEmptyFile(path@),
        }
    }
}

impl PlanError {
    pub open spec fn view(&self) -> PlanErrorView {
        match *self {
            PlanError::NotUnder(path) => PlanErrorView::NotUnder(path@),
            PlanError::SplitsCharacter(path) => PlanErrorView::SplitsCharacter(path@),
        }
    }
}

/// What is done on disk.
pub open spec fn op_views(ops: Seq<LocalOp>) -> Seq<OpView> {
    ops.map_values(|o: LocalOp| o@)
}

/// Which files are downloaded, and where to.
pub open spec fn download_views(downloads: Seq<DownloadInfo>) -> Seq<(Seq<char>, Seq<char>)> {
    downloads.map_values(|d: DownloadInfo| (d.item_path@, d.local_path@))
}

/// What a download does: the operations on disk come first, in order. An item that has no
/// place ends the plan, and then nothing is downloaded.
#[derive(Debug)]
pub struct DownloadPlan {
    pub local: Vec<LocalOp>,
    pub downloads: Vec<DownloadInfo>,
    pub error: Option<PlanError>,
}

impl DownloadPlan {
    pub open spec fn view(&self) -> PlanView {
        PlanView {
            local: op_views(self.local@),
            downloads: download_views(self.downloads@),
            error: match self.error {
                Some(e) => Some(e@),
                None => None,
            },
        }
    }
}

/// The item stands under the container's path; the case of letters does not matter.
pub open spec fn is_under(path: Seq<char>, container_path: Seq<char>) -> bool {
    text::has_prefix(text::lowered(path), text::lowered(container_path))
}

/// Where an item goes, relative to the destination: its path without the bytes that the
/// container's path takes, and without slashes at the start.
pub open spec fn local_path(path: Seq<char>, container_path: Seq<char>) -> Option<Seq<char>> {
    match after_bytes(path, utf8_len(container_path)) {
        Some(rest) => Some(text::trimmed_start_char(rest, '/')),
        None => None,
    }
}

/// The plan for the items from the `i`th on. `so_far` is what precedes.
pub open spec fn plan_from(
    items: Seq<ItemView>,
    i: int,
    container_path: Seq<char>,
    so_far: PlanView,
) -> PlanView
    decreases items.len() - i,
{
    if i < 0 || i >= items.len() {
        so_far
    } else {
        let item = items[i];
        if !is_under(item.path, container_path) {
            PlanView { error: Some(PlanErrorView::NotUnder(item.path)), ..so_far }
        } else {
            match local_path(item.path, container_path) {
                None => PlanView { error: Some(PlanErrorView::SplitsCharacter(item.path)), ..so_far },
                Some(local) => plan_from(
                    items,
                    i + 1,
                    container_path,
                    if item.item_type == ContainerItemType::Folder {
                        PlanView {
                            local: so_far.local.push(OpView::EnsureFolder(local)),
                            ..so_far
                        }
                    } else if item.file_length == 0 {
                        PlanView {
                            local: so_far.local.push(OpView::CreateEmptyFile(local)),
                            ..so_far
                        }
                    } else {
                        PlanView { downloads: so_far.downloads.push((item.path, local)), ..so_far }
                    },
                ),
            }
        }
    }
}

/// The plan for a container's items: they are taken in the order of their paths.
pub open spec fn download_plan(items: Seq<ItemView>, container_path: Seq<char>) -> PlanView {
    plan_from(
        in_order(items),
        0,
        container_path,
        PlanView { local: Seq::empty(), downloads: Seq::empty(), error: None },
    )
}

// ---------------------------------------------------------------------------
// The server
// ---------------------------------------------------------------------------

/// A file container, and what is needed to talk to it.
#[derive(Debug)]
pub struct FileContainerServer {
    base_url: String,
    auth_token: String,
    project_id: u128,
    container_id: i64,
    container_path: String,
}

/// The URL of an item in a container.
pub open spec fn item_url(
    base: Seq<char>,
    container_id: int,
    path: Seq<char>,
    options: Seq<char>,
) -> Seq<char> {
    base + "/_apis/resources/Containers/"@ + number::signed_decimal(container_id) + "?itemPath="@
        + codec::percent_encoded(vstd::utf8::encode_utf8(path)) + options
}

impl FileContainerServer {
    /// The base of every URL.
    pub closed spec fn base(&self) -> Seq<char> {
        self.base_url@
    }

    /// The container's number.
    pub closed spec fn id(&self) -> int {
        self.container_id as int
    }

    /// The path of the artifact in the container.
    pub closed spec fn path(&self) -> Seq<char> {
        self.container_path@
    }

    /// The token that requests carry.
    pub closed spec fn token(&self) -> Seq<char> {
        self.auth_token@
    }

    /// The project's id.
    pub closed spec fn project(&self) -> u128 {
        self.project_id
    }

    /// A container.
    pub fn new(
        base_url: &str,
        auth_token: &str,
        project_id: u128,
        container_id: i64,
        container_path: &str,
    ) -> (r: Self)
        ensures
            r.base() == text::trimmed_end_char(base_url@, '/'),
            r.token() == auth_token@,
            r.project() == project_id,
            r.id() == container_id,
            r.path() == container_path@,
    {
        FileContainerServer {
            base_url: text::trim_end_char(base_url, '/'),
            auth_token: auth_token.to_owned(),
            project_id,
            container_id,
            container_path: container_path.to_owned(),
        }
    }

    /// The token that requests carry.
    pub fn auth_token(&self) -> (r: &str)
        ensures
            r@ == self.token(),
    {
        self.auth_token.as_str()
    }

    /// The project's id.
    pub fn project_id(&self) -> (r: u128)
        ensures
            r == self.project(),
    {
        self.project_id
    }

    fn write_url(&self, path: &str, options: &str) -> (r: String)
        ensures
            r@ == item_url(self.base(), self.id(), path@, options@),
    {
        let mut url = self.base_url.clone();
        url.append("/_apis/resources/Containers/");
        url.append(number::i64_text(self.container_id).as_str());
        url.append("?itemPath=");
        url.append(codec::percent_encode(path).as_str());
        url.append(options);
        url
    }

    /// The URL that lists the container's items.
    pub fn query_container_url(&self) -> (r: String)
        ensures
            r@ == item_url(
                self.base(),
                self.id(),
                self.path(),
                "&isShallow=false&api-version=4.1-preview.4"@,
            ),
    {
        self.write_url(
            self.container_path.as_str(),
            "&isShallow=false&api-version=4.1-preview.4",
        )
    }

    /// The URL that a file is uploaded to.
    pub fn upload_file_url(&self, item_path: &str) -> (r: String)
        ensures
            r@ == item_url(self.base(), self.id(), item_path@, "&api-version=4.1-preview.4"@),
    {
        self.write_url(item_path, "&api-version=4.1-preview.4")
    }

    /// The URL that a file is downloaded from.
    pub fn download_file_url(&self, item_path: &str) -> (r: String)
        ensures
            r@ == item_url(
                self.base(),
                self.id(),
                item_path@,
                "&api-version=4.1-preview.4&$format=octetStream"@,
            ),
    {
        self.write_url(item_path, "&api-version=4.1-preview.4&$format=octetStream")
    }

    /// The path in the container of a file, given its path relative to the source.
    pub fn upload_item_path(&self, relative: &str) -> (r: String)
        ensures
            r@ == text::trimmed_end_char(self.path(), '/') + "/"@ + text::replaced(
                relative@,
                "\\"@,
                "/"@,
            ),
    {
        proof {
            reveal_strlit("\\");
        }
        let mut path = text::trim_end_char(self.container_path.as_str(), '/');
        path.append("/");
        path.append(text::replace(relative, "\\", "/").as_str());
        path
    }

    /// The plan that brings the items of the container to disk.
    pub fn plan_download(&self, items: Vec<FileContainerItem>) -> (r: DownloadPlan)
        ensures
            r@ == download_plan(item_views(items@), self.path()),
    {
        let ghost given = item_views(items@);
        let sorted = sort_items(items);
        let ghost all = item_views(sorted@);
        let container = self.container_path.as_str();
        let container_lower = text::to_lowercase(container);
        let mut local: Vec<LocalOp> = Vec::new();
        let mut downloads: Vec<DownloadInfo> = Vec::new();
        assert(op_views(local@) == Seq::<OpView>::empty());
        assert(download_views(downloads@) == Seq::<(Seq<char>, Seq<char>)>::empty());
        let mut i: usize = 0;
        while i < sorted.len()
            invariant
                i <= sorted@.len(),
                given == item_views(items@),
                all == item_views(sorted@),
                all == in_order(given),
                container@ == self.path(),
                container_lower@ == text::lowered(container@),
                download_plan(given, self.path()) == plan_from(
                    all,
                    i as int,
                    self.path(),
                    PlanView {
                        local: op_views(local@),
                        downloads: download_views(downloads@),
                        error: None,
                    },
                ),
            decreases sorted@.len() - i,
        {
            let item = &sorted[i];
            assert(all[i as int] == item@);
            let path = item.path.as_str();
            if !text::starts_with(text::to_lowercase(path).as_str(), container_lower.as_str()) {
                return DownloadPlan {
                    local,
                    downloads,
                    error: Some(PlanError::NotUnder(item.path.clone())),
                };
            }
            match skip_bytes_of(path, container) {
                None => {
                    return DownloadPlan {
                        local,
                        downloads,
                        error: Some(PlanError::SplitsCharacter(item.path.clone())),
                    };
                },
                Some(rest) => {
                    let place = text::trim_start_char(rest.as_str(), '/');
                    match item.item_type {
                        ContainerItemType::Folder => {
                            let op = LocalOp::EnsureFolder(place);
                            assert(op_views(local@.push(op)) == op_views(local@).push(op@));
                            local.push(op);
                        },
                        ContainerItemType::File => {
                            if item.file_length == 0 {
                                let op = LocalOp::CreateEmptyFile(place);
                                assert(op_views(local@.push(op)) == op_views(local@).push(op@));
                                local.push(op);
                            } else {
                                let info = DownloadInfo {
                                    item_path: item.path.clone(),
                                    local_path: place,
                                };
                                assert(download_views(downloads@.push(info)) == download_views(
                                    downloads@,
                                ).push((info.item_path@, info.local_path@)));
                                downloads.push(info);
                            }
                        },
                    }
                },
            }
            i = i + 1;
        }
        DownloadPlan { local, downloads, error: None }
    }

    /// The error of a plan in words.
    pub fn plan_error_text(&self, error: &PlanError) -> (r: String)
        ensures
            r@ == match error@ {
                PlanErrorView::NotUnder(path) | PlanErrorView::SplitsCharacter(path) => "Item "@
                    + path + " is not under #/"@ + number::signed_decimal(self.id()) + "/"@
                    + self.path(),
            },
    {
        let mut s = "Item ".to_owned();
        s.append(
            match error {
                PlanError::NotUnder(path) => path.as_str(),
                PlanError::SplitsCharacter(path) => path.as_str(),
            },
        );
        s.append(" is not under #/");
        s.append(number::i64_text(self.container_id).as_str());
        s.append("/");
        s.append(self.container_path.as_str());
        s
    }
}

proof fn lemma_plan_covers(
    items: Seq<ItemView>,
    i: int,
    container_path: Seq<char>,
    so_far: PlanView,
)
    requires
        0 <= i <= items.len(),
        so_far.error is None,
        plan_from(items, i, container_path, so_far).error is None,
    ensures
        ({
            let plan = plan_from(items, i, container_path, so_far);
            &&& plan.local.len() + plan.downloads.len() == so_far.local.len()
                + so_far.downloads.len() + (items.len() - i)
            &&& forall|k: int|
                i <= k < items.len() ==> is_under((#[trigger] items[k]).path, container_path)
        }),
    decreases items.len() - i,
{
    if i < items.len() {
        let item = items[i];
        let local = local_path(item.path, container_path)->0;
        let next = if item.item_type == ContainerItemType::Folder {
            PlanView { local: so_far.local.push(OpView::EnsureFolder(local)), ..so_far }
        } else if item.file_length == 0 {
            PlanView { local: so_far.local.push(OpView::CreateEmptyFile(local)), ..so_far }
        } else {
            PlanView { downloads: so_far.downloads.push((item.path, local)), ..so_far }
        };
        lemma_plan_covers(items, i + 1, container_path, next);
    }
}

/// A plan without an error deals with every item of the container, each exactly once, and all
/// of them stand under the container's path.
pub proof fn law_plan_covers_items(items: Seq<ItemView>, container_path: Seq<char>)
    requires
        download_plan(items, container_path).error is None,
    ensures
        download_plan(items, container_path).local.len() + download_plan(
            items,
            container_path,
        ).downloads.len() == items.len(),
        forall|k: int|
            0 <= k < items.len() ==> is_under((#[trigger] items[k]).path, container_path),
{
    law_in_order(items);
    let sorted = in_order(items);
    lemma_plan_covers(
        sorted,
        0,
        container_path,
        PlanView { local: Seq::empty(), downloads: Seq::empty(), error: None },
    );
    assert forall|k: int| 0 <= k < items.len() implies is_under(
        (#[trigger] items[k]).path,
        container_path,
    ) by {
        vstd::seq_lib::to_multiset_contains(items, items[k]);
        vstd::seq_lib::to_multiset_contains(sorted, items[k]);
        assert(items.contains(items[k]));
        assert(sorted.contains(items[k]));
        let j = choose|j: int| 0 <= j < sorted.len() && sorted[j] == items[k];
        assert(is_under(sorted[j].path, container_path));
    }
}

proof fn lemma_after_bytes_of_front(front: Seq<char>, rest: Seq<char>)
    ensures
        after_bytes(front + rest, utf8_len(front)) == Some(rest),
        utf8_len(front) >= front.len(),
    decreases front.len(),
{
    if front.len() > 0 {
        lemma_after_bytes_of_front(front.skip(1), rest);
        assert((front + rest)[0] == front[0]);
        assert((front + rest).skip(1) == front.skip(1) + rest);
    } else {
        assert(front + rest == rest);
    }
}

/// Below the container an item keeps the whole of its path: what goes is a front as long as
/// the container's path, and the slashes behind it.
pub proof fn law_local_path_is_rest(
    container_path: Seq<char>,
    front: Seq<char>,
    slashes: nat,
    rel: Seq<char>,
)
    requires
        utf8_len(front) == utf8_len(container_path),
        rel.len() > 0 ==> rel[0] != '/',
    ensures
        local_path(front + text::repeated('/', slashes) + rel, container_path) == Some(rel),
{
    let rest = text::repeated('/', slashes) + rel;
    assert(front + text::repeated('/', slashes) + rel == front + rest);
    lemma_after_bytes_of_front(front, rest);
    text::law_trimmed_start_char_drops('/', slashes, rel);
}

/// An item has no place only where no front of its path is as long as the container's path.
pub proof fn law_local_path_exists(path: Seq<char>, container_path: Seq<char>, m: int)
    requires
        0 <= m <= path.len(),
        utf8_len(path.take(m)) == utf8_len(container_path),
    ensures
        local_path(path, container_path) is Some,
{
    assert(path == path.take(m) + path.skip(m));
    lemma_after_bytes_of_front(path.take(m), path.skip(m));
}

/// Items with different paths below the container go to different places.
pub proof fn law_local_paths_differ(container_path: Seq<char>, a: Seq<char>, b: Seq<char>)
    requires
        a != b,
        a.len() > 0 ==> a[0] != '/',
        b.len() > 0 ==> b[0] != '/',
    ensures
        local_path(container_path + "/"@ + a, container_path) != local_path(
            container_path + "/"@ + b,
            container_path,
        ),
{
    reveal_strlit("/");
    assert("/"@ == text::repeated('/', 1));
    law_local_path_is_rest(container_path, container_path, 1, a);
    law_local_path_is_rest(container_path, container_path, 1, b);
}

/// A file that was uploaded from a path below the source comes back to the same path below
/// the destination.
pub proof fn law_uploaded_comes_back(container_path: Seq<char>, rel: Seq<char>)
    requires
        container_path.len() > 0 ==> container_path.last() != '/',
        rel.len() > 0 ==> rel[0] != '/',
        !text::occurs(rel, "\\"@),
    ensures
        local_path(
            text::trimmed_end_char(container_path, '/') + "/"@ + text::replaced(
                rel,
                "\\"@,
                "/"@,
            ),
            container_path,
        ) == Some(rel),
{
    reveal_strlit("/");
    reveal_strlit("\\");
    assert("/"@ == text::repeated('/', 1));
    text::law_replaced_at_first(rel, "\\"@, "/"@);
    text::law_cut_is_first(rel, "\\"@);
    if let Some((before, after)) = text::cut(rel, "\\"@) {
        assert(rel.subrange(before.len() as int, before.len() as int + 1) == "\\"@);
        assert(text::occurs_at(rel, "\\"@, before.len() as int));
    }
    law_local_path_is_rest(container_path, container_path, 1, rel);
}

/// What a plan does about an item that goes to `local`: a folder is made, an empty file is
/// made, and the content of any other file is fetched.
pub open spec fn brings(plan: PlanView, item: ItemView, local: Seq<char>) -> bool {
    if item.item_type == ContainerItemType::Folder {
        plan.local.contains(OpView::EnsureFolder(local))
    } else if item.file_length == 0 {
        plan.local.contains(OpView::CreateEmptyFile(local))
    } else {
        plan.downloads.contains((item.path, local))
    }
}

proof fn lemma_contains_push<A>(s: Seq<A>, a: A)
    ensures
        s.push(a).contains(a),
        forall|x: A| #[trigger] s.contains(x) ==> s.push(a).contains(x),
        forall|x: A| #[trigger] s.push(a).contains(x) ==> s.contains(x) || x == a,
{
    assert(s.push(a)[s.len() as int] == a);
    assert forall|x: A| #[trigger] s.contains(x) implies s.push(a).contains(x) by {
        let i = choose|i: int| 0 <= i < s.len() && s[i] == x;
        assert(s.push(a)[i] == x);
    }
    assert forall|x: A| #[trigger] s.push(a).contains(x) implies s.contains(x) || x == a by {
        let i = choose|i: int| 0 <= i < s.push(a).len() && s.push(a)[i] == x;
        if i < s.len() {
            assert(s[i] == x);
        }
    }
}

proof fn lemma_plan_brings(
    items: Seq<ItemView>,
    i: int,
    container_path: Seq<char>,
    so_far: PlanView,
)
    requires
        0 <= i <= items.len(),
        so_far.error is None,
        plan_from(items, i, container_path, so_far).error is None,
    ensures
        ({
            let plan = plan_from(items, i, container_path, so_far);
            &&& forall|op: OpView| #[trigger]
                so_far.local.contains(op) ==> plan.local.contains(op)
            &&& forall|d: (Seq<char>, Seq<char>)| #[trigger]
                so_far.downloads.contains(d) ==> plan.downloads.contains(d)
            &&& forall|k: int|
                i <= k < items.len() ==> local_path((#[trigger] items[k]).path, container_path)
                    is Some && brings(plan, items[k], local_path(items[k].path, container_path)->0)
            &&& forall|d: (Seq<char>, Seq<char>)| #[trigger]
                plan.downloads.contains(d) ==> so_far.downloads.contains(d) || exists|k: int|
                    i <= k < items.len() && fetched_as(#[trigger] items[k], d, container_path)
            &&& forall|op: OpView| #[trigger]
                plan.local.contains(op) ==> so_far.local.contains(op) || exists|k: int|
                    i <= k < items.len() && made_as(#[trigger] items[k], op, container_path)
        }),
    decreases items.len() - i,
{
    if i < items.len() {
        let item = items[i];
        let local = local_path(item.path, container_path)->0;
        let next = if item.item_type == ContainerItemType::Folder {
            PlanView { local: so_far.local.push(OpView::EnsureFolder(local)), ..so_far }
        } else if item.file_length == 0 {
            PlanView { local: so_far.local.push(OpView::CreateEmptyFile(local)), ..so_far }
        } else {
            PlanView { downloads: so_far.downloads.push((item.path, local)), ..so_far }
        };
        lemma_contains_push(so_far.local, OpView::EnsureFolder(local));
        lemma_contains_push(so_far.local, OpView::CreateEmptyFile(local));
        lemma_contains_push(so_far.downloads, (item.path, local));
        lemma_plan_brings(items, i + 1, container_path, next);
        let plan = plan_from(items, i, container_path, so_far);
        assert(plan == plan_from(items, i + 1, container_path, next));
        assert(brings(next, item, local));
        assert(brings(plan, item, local));
        assert forall|d: (Seq<char>, Seq<char>)| #[trigger]
            plan.downloads.contains(d) implies so_far.downloads.contains(d) || exists|k: int|
            i <= k < items.len() && fetched_as(#[trigger] items[k], d, container_path) by {
            if next.downloads.contains(d) && !so_far.downloads.contains(d) {
                assert(fetched_as(items[i], d, container_path));
            }
        }
        assert forall|op: OpView| #[trigger] plan.local.contains(op) implies so_far.local.contains(
            op,
        ) || exists|k: int|
            i <= k < items.len() && made_as(#[trigger] items[k], op, container_path) by {
            if next.local.contains(op) && !so_far.local.contains(op) {
                assert(made_as(items[i], op, container_path));
            }
        }
    }
}

/// The download is that of the item's content, to the item's place.
pub open spec fn fetched_as(
    item: ItemView,
    download: (Seq<char>, Seq<char>),
    container_path: Seq<char>,
) -> bool {
    &&& item.item_type != ContainerItemType::Folder
    &&& item.file_length != 0
    &&& download.0 == item.path
    &&& local_path(item.path, container_path) == Some(download.1)
}

/// The operation makes the item, a folder or an empty file, at the item's place.
pub open spec fn made_as(item: ItemView, op: OpView, container_path: Seq<char>) -> bool {
    match op {
        OpView::EnsureFolder(local) => item.item_type == ContainerItemType::Folder && local_path(
            item.path,
            container_path,
        ) == Some(local),
        OpView::CreateEmptyFile(local) => item.item_type != ContainerItemType::Folder
            && item.file_length == 0 && local_path(item.path, container_path) == Some(local),
    }
}

proof fn lemma_sorted_holds(items: Seq<ItemView>, item: ItemView)
    ensures
        in_order(items).contains(item) <==> items.contains(item),
{
    law_in_order(items);
    vstd::seq_lib::to_multiset_contains(items, item);
    vstd::seq_lib::to_multiset_contains(in_order(items), item);
}

/// A plan without an error brings every item to the place that its own path names below the
/// container: a folder and an empty file are made there, the content of another file is
/// fetched from the item's path to there.
pub proof fn law_item_goes_to_its_place(
    items: Seq<ItemView>,
    container_path: Seq<char>,
    k: int,
    rel: Seq<char>,
)
    requires
        download_plan(items, container_path).error is None,
        0 <= k < items.len(),
        items[k].path == container_path + "/"@ + rel,
        rel.len() > 0 ==> rel[0] != '/',
    ensures
        ({
            let plan = download_plan(items, container_path);
            if items[k].item_type == ContainerItemType::Folder {
                plan.local.contains(OpView::EnsureFolder(rel))
            } else if items[k].file_length == 0 {
                plan.local.contains(OpView::CreateEmptyFile(rel))
            } else {
                plan.downloads.contains((items[k].path, rel))
            }
        }),
{
    reveal_strlit("/");
    assert("/"@ == text::repeated('/', 1));
    law_local_path_is_rest(container_path, container_path, 1, rel);
    let sorted = in_order(items);
    lemma_sorted_holds(items, items[k]);
    let j = choose|j: int| 0 <= j < sorted.len() && sorted[j] == items[k];
    lemma_plan_brings(
        sorted,
        0,
        container_path,
        PlanView { local: Seq::empty(), downloads: Seq::empty(), error: None },
    );
    let plan = download_plan(items, container_path);
    assert(brings(plan, sorted[j], local_path(sorted[j].path, container_path)->0));
}

/// A plan without an error holds nothing but the items of the container: every operation
/// and every download is that of an item, at the item's place.
pub proof fn law_plan_holds_only_items(items: Seq<ItemView>, container_path: Seq<char>)
    requires
        download_plan(items, container_path).error is None,
    ensures
        ({
            let plan = download_plan(items, container_path);
            &&& forall|d: (Seq<char>, Seq<char>)| #[trigger]
                plan.downloads.contains(d) ==> exists|k: int|
                    0 <= k < items.len() && fetched_as(#[trigger] items[k], d, container_path)
            &&& forall|op: OpView| #[trigger]
                plan.local.contains(op) ==> exists|k: int|
                    0 <= k < items.len() && made_as(#[trigger] items[k], op, container_path)
        }),
{
    let sorted = in_order(items);
    let plan = download_plan(items, container_path);
    lemma_plan_brings(
        sorted,
        0,
        container_path,
        PlanView { local: Seq::empty(), downloads: Seq::empty(), error: None },
    );
    assert forall|d: (Seq<char>, Seq<char>)| #[trigger] plan.downloads.contains(d) implies exists|
        k: int,
    |
        0 <= k < items.len() && fetched_as(#[trigger] items[k], d, container_path) by {
        let j = choose|j: int|
            0 <= j < sorted.len() && fetched_as(#[trigger] sorted[j], d, container_path);
        assert(sorted.contains(sorted[j]));
        lemma_sorted_holds(items, sorted[j]);
        let k = choose|k: int| 0 <= k < items.len() && items[k] == sorted[j];
        assert(fetched_as(items[k], d, container_path));
    }
    assert forall|op: OpView| #[trigger] plan.local.contains(op) implies exists|k: int|
        0 <= k < items.len() && made_as(#[trigger] items[k], op, container_path) by {
        let j = choose|j: int|
            0 <= j < sorted.len() && made_as(#[trigger] sorted[j], op, container_path);
        assert(sorted.contains(sorted[j]));
        lemma_sorted_holds(items, sorted[j]);
        let k = choose|k: int| 0 <= k < items.len() && items[k] == sorted[j];
        assert(made_as(items[k], op, container_path));
    }
}

proof fn lemma_plan_error(
    items: Seq<ItemView>,
    i: int,
    container_path: Seq<char>,
    so_far: PlanView,
)
    requires
        0 <= i <= items.len(),
        so_far.error is None,
    ensures
        match plan_from(items, i, container_path, so_far).error {
            None => forall|k: int|
                i <= k < items.len() ==> is_under((#[trigger] items[k]).path, container_path)
                    && local_path(items[k].path, container_path) is Some,
            Some(PlanErrorView::NotUnder(path)) => exists|k: int|
                i <= k < items.len() && (#[trigger] items[k]).path == path && !is_under(
                    path,
                    container_path,
                ),
            Some(PlanErrorView::SplitsCharacter(path)) => exists|k: int|
                i <= k < items.len() && (#[trigger] items[k]).path == path && is_under(
                    path,
                    container_path,
                ) && local_path(path, container_path) is None,
        },
    decreases items.len() - i,
{
    if i < items.len() {
        let item = items[i];
        if is_under(item.path, container_path) && local_path(item.path, container_path) is Some {
            let local = local_path(item.path, container_path)->0;
            let next = if item.item_type == ContainerItemType::Folder {
                PlanView { local: so_far.local.push(OpView::EnsureFolder(local)), ..so_far }
            } else if item.file_length == 0 {
                PlanView { local: so_far.local.push(OpView::CreateEmptyFile(local)), ..so_far }
            } else {
                PlanView { downloads: so_far.downloads.push((item.path, local)), ..so_far }
            };
            lemma_plan_error(items, i + 1, container_path, next);
        }
    }
}

/// A plan fails only over an item that does not stand under the container or has no place
/// there, and the error names such an item; without one it does not fail.
pub proof fn law_plan_fails_only_over_strays(items: Seq<ItemView>, container_path: Seq<char>)
    ensures
        match download_plan(items, container_path).error {
            None => forall|k: int|
                0 <= k < items.len() ==> is_under((#[trigger] items[k]).path, container_path)
                    && local_path(items[k].path, container_path) is Some,
            Some(PlanErrorView::NotUnder(path)) => exists|k: int|
                0 <= k < items.len() && (#[trigger] items[k]).path == path && !is_under(
                    path,
                    container_path,
                ),
            Some(PlanErrorView::SplitsCharacter(path)) => exists|k: int|
                0 <= k < items.len() && (#[trigger] items[k]).path == path && is_under(
                    path,
                    container_path,
                ) && local_path(path, container_path) is None,
        },
{
    let sorted = in_order(items);
    lemma_plan_error(
        sorted,
        0,
        container_path,
        PlanView { local: Seq::empty(), downloads: Seq::empty(), error: None },
    );
    match download_plan(items, container_path).error {
        None => {
            assert forall|k: int| 0 <= k < items.len() implies is_under(
                (#[trigger] items[k]).path,
                container_path,
            ) && local_path(items[k].path, container_path) is Some by {
                lemma_sorted_holds(items, items[k]);
                assert(items.contains(items[k]));
                let j = choose|j: int| 0 <= j < sorted.len() && sorted[j] == items[k];
                assert(is_under(sorted[j].path, container_path));
            }
        },
        Some(error) => {
            let path = match error {
                PlanErrorView::NotUnder(path) => path,
                PlanErrorView::SplitsCharacter(path) => path,
            };
            let j = choose|j: int| 0 <= j < sorted.len() && (#[trigger] sorted[j]).path == path;
            lemma_sorted_holds(items, sorted[j]);
            assert(sorted.contains(sorted[j]));
            let k = choose|k: int| 0 <= k < items.len() && items[k] == sorted[j];
            assert(items[k].path == path);
        },
    }
}

/// An item stands under the container if its path begins with the container's, whatever the
/// case of the letters, and not otherwise.
pub proof fn law_under_ignores_case(path: Seq<char>, container_path: Seq<char>)
    requires
        text::all_ascii(path),
        text::all_ascii(container_path),
    ensures
        is_under(path, container_path) <==> path.len() >= container_path.len()
            && text::equal_ignoring_ascii_case(
            path.take(container_path.len() as int),
            container_path,
        ),
{
    let n = container_path.len() as int;
    if path.len() >= n {
        let front = text::lowered(path).subrange(0, n);
        assert(front == text::ascii_lowered(path.take(n)));
    }
}

// ---------------------------------------------------------------------------
// Uploads
// ---------------------------------------------------------------------------

/// What became of uploaded files.
#[derive(Debug)]
pub struct UploadResult {
    pub retry_files: Vec<String>,
    pub total_size_uploaded: i64,
}

impl UploadResult {
    /// Nothing was uploaded yet.
    pub fn new() -> (r: Self)
        ensures
            r.retry_files@ == Seq::<String>::empty(),
            r.total_size_uploaded == 0,
    {
        UploadResult { retry_files: Vec::new(), total_size_uploaded: 0 }
    }

    /// Adds what became of further files.
    pub fn merge(&mut self, other: UploadResult)
        requires
            i64::MIN <= old(self).total_size_uploaded + other.total_size_uploaded <= i64::MAX,
        ensures
            final(self).retry_files@ == old(self).retry_files@ + other.retry_files@,
            final(self).total_size_uploaded == old(self).total_size_uploaded
                + other.total_size_uploaded,
    {
        let mut files = other.retry_files;
        self.retry_files.append(&mut files);
        self.total_size_uploaded = self.total_size_uploaded + other.total_size_uploaded;
    }
}

/// What became of downloaded files.
#[derive(Debug)]
pub struct DownloadResult {
    pub failed_files: Vec<DownloadInfo>,
}

impl DownloadResult {
    /// Nothing was downloaded yet.
    pub fn new() -> (r: Self)
        ensures
            r.failed_files@ == Seq::<DownloadInfo>::empty(),
    {
        DownloadResult { failed_files: Vec::new() }
    }

    /// Adds what became of further files.
    pub fn merge(&mut self, other: DownloadResult)
        ensures
            final(self).failed_files@ == old(self).failed_files@ + other.failed_files@,
    {
        let mut files = other.failed_files;
        self.failed_files.append(&mut files);
    }
}

/// What an upload's status means.
#[derive(Debug, Clone, Copy, PartialEq, Eq, Structural)]
pub enum UploadStatus {
    Done,
    AlreadyUploaded,
    Failed(u16),
}

/// What an upload's status means.
pub fn upload_status(status: u16) -> (r: UploadStatus)
    ensures
        r == if status == 409 {
            UploadStatus::AlreadyUploaded
        } else if polling::success_status(status) {
            UploadStatus::Done
        } else {
            UploadStatus::Failed(status)
        },
{
    if status == 409 {
        UploadStatus::AlreadyUploaded
    } else if polling::is_success(status) {
        UploadStatus::Done
    } else {
        UploadStatus::Failed(status)
    }
}

/// The range that an upload covers: all of the file.
pub fn content_range(size: u64) -> (r: String)
    ensures
        r@ == "bytes 0-"@ + number::decimal(
            if size == 0 {
                0
            } else {
                size - 1
            },
        ) + "/"@ + number::decimal(size as int),
{
    let mut s = "bytes 0-".to_owned();
    let last: u64 = if size == 0 {
        0
    } else {
        size - 1
    };
    s.append(number::u64_text(last).as_str());
    s.append("/");
    s.append(number::u64_text(size).as_str());
    s
}

/// How many files are downloaded at once.
pub fn download_concurrency(files: usize, cpus: usize) -> (r: usize)
    ensures
        r == if files < cpus {
            files
        } else {
            cpus
        },
{
    if files < cpus {
        files
    } else {
        cpus
    }
}

/// How many files are uploaded at once.
pub fn upload_concurrency(cpus: usize) -> (r: usize)
    ensures
        r == if cpus < MAX_CONCURRENT_UPLOADS {
            cpus
        } else {
            MAX_CONCURRENT_UPLOADS
        },
{
    if cpus < MAX_CONCURRENT_UPLOADS {
        cpus
    } else {
        MAX_CONCURRENT_UPLOADS
    }
}

// ---------------------------------------------------------------------------
// Retries
// ---------------------------------------------------------------------------

/// What is tried again.
#[derive(Debug, Clone, Copy, PartialEq, Eq, Structural)]
pub enum Attempt {
    Query,
    Download,
    Upload,
}

/// The shortest and the longest pause before it is tried again, in seconds.
pub open spec fn backoff_bounds(attempt: Attempt) -> (u64, u64) {
    match attempt {
        Attempt::Download => (10, 30),
        _ => (5, 15),
    }
}

/// `rand::Rng::gen_range` over a closed range, on the thread's generator: some number of the
/// range. Which one is left to chance. An empty range makes it panic.
#[verifier::external_body]
fn random_between(min: u64, max: u64) -> (r: u64)
    requires
        min <= max,
    ensures
        min <= r <= max,
{
    rand::Rng::gen_range(&mut rand::thread_rng(), min..=max)
}

/// Some number of seconds between the two, both included.
pub fn random_backoff_secs(min_secs: u64, max_secs: u64) -> (r: u64)
    requires
        min_secs <= max_secs,
    ensures
        min_secs <= r <= max_secs,
{
    random_between(min_secs, max_secs)
}

/// The pause after the `failures`th failure in a row; `None` if that was the last one.
pub fn backoff_after(attempt: Attempt, failures: u32) -> (r: Option<u64>)
    ensures
        r is None <==> failures >= MAX_RETRIES,
        r matches Some(secs) ==> backoff_bounds(attempt).0 <= secs <= backoff_bounds(attempt).1,
{
    if failures >= MAX_RETRIES {
        return None;
    }
    match attempt {
        Attempt::Download => Some(random_backoff_secs(10, 30)),
        _ => Some(random_backoff_secs(5, 15)),
    }
}

// ---------------------------------------------------------------------------
// Rounds
// ---------------------------------------------------------------------------

/// What a transfer does next.
#[derive(Debug, Clone, Copy, PartialEq, Eq, Structural)]
pub enum RoundAction {
    /// Transfer all files.
    Transfer,
    /// Say that so many seconds are left, and wait for the tick's length.
    Wait(u32),
    /// Transfer the files that failed.
    TransferFailed,
    /// All files are transferred.
    Done,
    /// So many files failed twice.
    Failed(usize),
}

/// What follows when an action left `failed` files untransferred. (A pause leaves that number
/// as it was.)
pub open spec fn next_round(action: RoundAction, failed: usize) -> RoundAction {
    match action {
        RoundAction::Transfer => if failed == 0 {
            RoundAction::Done
        } else {
            RoundAction::Wait(RETRY_WAIT_SECS)
        },
        RoundAction::Wait(left) => if left <= RETRY_TICK_SECS {
            RoundAction::TransferFailed
        } else {
            RoundAction::Wait((left - RETRY_TICK_SECS) as u32)
        },
        RoundAction::TransferFailed => if failed == 0 {
            RoundAction::Done
        } else {
            RoundAction::Failed(failed)
        },
        RoundAction::Done => RoundAction::Done,
        RoundAction::Failed(n) => RoundAction::Failed(n),
    }
}

/// Takes how many files an action left untransferred and names the next one.
pub fn round_step(action: RoundAction, failed: usize) -> (r: RoundAction)
    ensures
        r == next_round(action, failed),
{
    match action {
        RoundAction::Transfer => if failed == 0 {
            RoundAction::Done
        } else {
            RoundAction::Wait(RETRY_WAIT_SECS)
        },
        RoundAction::Wait(left) => if left <= RETRY_TICK_SECS {
            RoundAction::TransferFailed
        } else {
            RoundAction::Wait(left - RETRY_TICK_SECS)
        },
        RoundAction::TransferFailed => if failed == 0 {
            RoundAction::Done
        } else {
            RoundAction::Failed(failed)
        },
        RoundAction::Done => RoundAction::Done,
        RoundAction::Failed(n) => RoundAction::Failed(n),
    }
}

/// A transfer is over once no file is left; files that are left get one more try, and those
/// that fail then are counted.
pub proof fn law_rounds(failed: usize)
    ensures
        next_round(RoundAction::Transfer, failed) is Done <==> failed == 0,
        failed > 0 ==> next_round(RoundAction::Transfer, failed) == RoundAction::Wait(60),
        next_round(RoundAction::TransferFailed, failed) is Done <==> failed == 0,
        failed > 0 ==> next_round(RoundAction::TransferFailed, failed) == RoundAction::Failed(
            failed,
        ),
{
}

/// The action after `n` pauses, beginning with the first.
pub open spec fn after_pauses(n: nat) -> RoundAction
    decreases n,
{
    if n == 0 {
        RoundAction::Wait(RETRY_WAIT_SECS)
    } else {
        next_round(after_pauses((n - 1) as nat), 0)
    }
}

/// Failed files are tried again once, after a minute's pauses.
pub proof fn law_one_retry_after_a_minute(n: nat)
    requires
        n <= 12,
    ensures
        n < 12 ==> after_pauses(n) == RoundAction::Wait((60 - 5 * n) as u32),
        n == 12 ==> after_pauses(n) == RoundAction::TransferFailed,
    decreases n,
{
    if n > 0 {
        law_one_retry_after_a_minute((n - 1) as nat);
    }
}

/// A download that failed is tried again after ten to thirty seconds, anything else after
/// five to fifteen.
pub proof fn law_backoff_bounds(attempt: Attempt)
    ensures
        backoff_bounds(attempt) == if attempt == Attempt::Download {
            (10u64, 30u64)
        } else {
            (5u64, 15u64)
        },
{
}

/// A transfer that is over stays over.
pub proof fn law_rounds_end(failed: usize, n: usize)
    ensures
        next_round(RoundAction::Done, failed) is Done,
        next_round(RoundAction::Failed(n), failed) == RoundAction::Failed(n),
{
}

proof fn lemma_plan_of_front(
    items: Seq<ItemView>,
    last: ItemView,
    i: int,
    container_path: Seq<char>,
    so_far: PlanView,
)
    requires
        0 <= i <= items.len(),
        so_far.error is None,
        plan_from(items, i, container_path, so_far).error is None,
    ensures
        plan_from(items.push(last), i, container_path, so_far) == plan_from(
            items.push(last),
            items.len() as int,
            container_path,
            plan_from(items, i, container_path, so_far),
        ),
    decreases items.len() - i,
{
    if i < items.len() {
        let item = items[i];
        assert(items.push(last)[i] == item);
        let local = local_path(item.path, container_path)->0;
        let next = if item.item_type == ContainerItemType::Folder {
            PlanView { local: so_far.local.push(OpView::EnsureFolder(local)), ..so_far }
        } else if item.file_length == 0 {
            PlanView { local: so_far.local.push(OpView::CreateEmptyFile(local)), ..so_far }
        } else {
            PlanView { downloads: so_far.downloads.push((item.path, local)), ..so_far }
        };
        lemma_plan_of_front(items, last, i + 1, container_path, next);
    }
}

/// Plans follow the order of paths, so that a folder is made before what stands in it: an item
/// whose path is not before any other is dealt with last, and changes nothing that is planned
/// for the others.
pub proof fn law_plan_follows_paths(
    items: Seq<ItemView>,
    last: ItemView,
    container_path: Seq<char>,
    local: Seq<char>,
)
    requires
        download_plan(items, container_path).error is None,
        forall|k: int| 0 <= k < items.len() ==> path_le((#[trigger] items[k]).path, last.path),
        is_under(last.path, container_path),
        local_path(last.path, container_path) == Some(local),
    ensures
        ({
            let before = download_plan(items, container_path);
            let after = download_plan(items.push(last), container_path);
            let folder = last.item_type == ContainerItemType::Folder;
            let empty = !folder && last.file_length == 0;
            &&& after.error is None
            &&& after.local == if folder {
                before.local.push(OpView::EnsureFolder(local))
            } else if empty {
                before.local.push(OpView::CreateEmptyFile(local))
            } else {
                before.local
            }
            &&& after.downloads == if folder || empty {
                before.downloads
            } else {
                before.downloads.push((last.path, local))
            }
        }),
{
    let sorted = in_order(items);
    let at = place_of(sorted, last.path);
    lemma_place_of(sorted, last.path);
    assert(at == sorted.len()) by {
        if at < sorted.len() {
            lemma_sorted_holds(items, sorted[at]);
            assert(sorted.contains(sorted[at]));
            let k = choose|k: int| 0 <= k < items.len() && items[k] == sorted[at];
            assert(path_le(items[k].path, last.path));
        }
    }
    assert(items.push(last).drop_last() == items);
    assert(sorted.insert(at, last) == sorted.push(last));
    let none = PlanView { local: Seq::empty(), downloads: Seq::empty(), error: None };
    lemma_plan_of_front(sorted, last, 0, container_path, none);
    let before = download_plan(items, container_path);
    let all = sorted.push(last);
    let n = sorted.len() as int;
    let next = if last.item_type == ContainerItemType::Folder {
        PlanView { local: before.local.push(OpView::EnsureFolder(local)), ..before }
    } else if last.file_length == 0 {
        PlanView { local: before.local.push(OpView::CreateEmptyFile(local)), ..before }
    } else {
        PlanView { downloads: before.downloads.push((last.path, local)), ..before }
    };
    assert(all[n] == last);
    assert(plan_from(all, n, container_path, before) == plan_from(
        all,
        n + 1,
        container_path,
        next,
    ));
    assert(plan_from(all, n + 1, container_path, next) == next);
    assert(in_order(items.push(last)) == all);
}

} // verus!
