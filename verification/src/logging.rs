//! A log in pages and blocks.
//!
//! Every line goes to the current page and to the current block. A page that is full is
//! followed by the next one, and so is a block. Files are opened when the first line needs
//! them.
use vstd::prelude::*;
use vstd::string::*;

use crate::{codec, number, text};

verus! {

/// The folder that holds the pages.
pub const PAGING_FOLDER: &'static str = "pages";

/// The size at which a page is full, in bytes.
pub const PAGE_SIZE: usize = 8 * 1024 * 1024;

/// The folder that holds the blocks.
pub const BLOCKS_FOLDER: &'static str = "blocks";

/// The size at which a block is full, in bytes.
pub const BLOCK_SIZE: usize = 2 * 1024 * 1024;

/// What the driver does. Names are those of files in the folder of pages, or of blocks.
#[derive(Debug)]
pub enum LogAction {
    /// Close the page and hand it on.
    ClosePage(String),
    /// Open a page.
    OpenPage(String),
    /// Close the block and hand it on, with the number of lines so far.
    CloseBlock { name: String, finalize: bool, first: bool, total_lines: u64 },
    /// Open a block.
    OpenBlock(String),
}

/// What the driver does.
pub enum ActionView {
    ClosePage(Seq<char>),
    OpenPage(Seq<char>),
    CloseBlock { name: Seq<char>, finalize: bool, first: bool, total_lines: int },
    OpenBlock(Seq<char>),
}

impl LogAction {
    pub open spec fn view(&self) -> ActionView {
        match *self {
            LogAction::ClosePage(name) => ActionView::ClosePage(name@),
            LogAction::OpenPage(name) => ActionView::OpenPage(name@),
            LogAction::CloseBlock { name, finalize, first, total_lines } => ActionView::CloseBlock {
                name: name@,
                finalize,
                first,
                total_lines: total_lines as int,
            },
            LogAction::OpenBlock(name) => ActionView::OpenBlock(name@),
        }
    }
}

/// What the driver does.
pub open spec fn action_views(actions: Seq<LogAction>) -> Seq<ActionView> {
    actions.map_values(|a: LogAction| a@)
}

/// The state of a log.
pub struct LogView {
    pub timeline_id: u128,
    pub record_id: u128,
    /// The name of the page that is open.
    pub page: Option<Seq<char>>,
    /// How many bytes it holds.
    pub page_bytes: int,
    /// How many pages were begun.
    pub pages: int,
    /// The name of the block that is open.
    pub block: Option<Seq<char>>,
    pub block_bytes: int,
    pub blocks: int,
    /// How many lines were written.
    pub lines: int,
}

/// The name of the `n`th page.
pub open spec fn page_name(log: LogView, n: int) -> Seq<char> {
    codec::uuid_text(log.timeline_id) + "_"@ + codec::uuid_text(log.record_id) + "_"@
        + number::decimal(n) + ".log"@
}

/// The name of the `n`th block.
pub open spec fn block_name(log: LogView, n: int) -> Seq<char> {
    codec::uuid_text(log.timeline_id) + "_"@ + codec::uuid_text(log.record_id) + "."@
        + number::decimal(n)
}

/// What ends the current page, if there is one.
pub open spec fn close_page(log: LogView) -> Seq<ActionView> {
    match log.page {
        Some(name) => seq![ActionView::ClosePage(name)],
        None => Seq::empty(),
    }
}

/// What begins the next page.
pub open spec fn next_page(log: LogView) -> Seq<ActionView> {
    close_page(log).push(ActionView::OpenPage(page_name(log, log.pages + 1)))
}

/// What ends the current block, if there is one.
pub open spec fn close_block(log: LogView, finalize: bool) -> Seq<ActionView> {
    match log.block {
        Some(name) => seq![
            ActionView::CloseBlock {
                name,
                finalize,
                first: log.blocks == 1,
                total_lines: log.lines,
            },
        ],
        None => Seq::empty(),
    }
}

/// What begins the next block.
pub open spec fn next_block(log: LogView) -> Seq<ActionView> {
    close_block(log, false).push(ActionView::OpenBlock(block_name(log, log.blocks + 1)))
}

/// The log on the next page.
pub open spec fn on_next_page(log: LogView) -> LogView {
    LogView {
        page: Some(page_name(log, log.pages + 1)),
        page_bytes: 0,
        pages: log.pages + 1,
        ..log
    }
}

/// The log on the next block.
pub open spec fn on_next_block(log: LogView) -> LogView {
    LogView {
        block: Some(block_name(log, log.blocks + 1)),
        block_bytes: 0,
        blocks: log.blocks + 1,
        ..log
    }
}

/// The log once it is ready for a line.
pub open spec fn opened(log: LogView) -> LogView {
    let a = if log.page is Some {
        log
    } else {
        on_next_page(log)
    };
    if a.block is Some {
        a
    } else {
        on_next_block(a)
    }
}

/// What makes the log ready for a line.
pub open spec fn opening(log: LogView) -> Seq<ActionView> {
    let pages = if log.page is Some {
        Seq::empty()
    } else {
        next_page(log)
    };
    let a = if log.page is Some {
        log
    } else {
        on_next_page(log)
    };
    pages + if a.block is Some {
        Seq::empty()
    } else {
        next_block(a)
    }
}

/// A line as it is written.
pub open spec fn log_line(timestamp: Seq<char>, message: Seq<char>) -> Seq<char> {
    timestamp + " "@ + message
}

/// How many line feeds a text holds.
pub open spec fn line_feeds(s: Seq<char>) -> int
    decreases s.len(),
{
    if s.len() == 0 {
        0
    } else {
        line_feeds(s.drop_last()) + if s.last() == '\n' {
            1int
        } else {
            0
        }
    }
}

/// The log once a line is counted: it takes its bytes and a line feed.
pub open spec fn counted(log: LogView, line: Seq<char>) -> LogView {
    let bytes = vstd::utf8::encode_utf8(line).len() + 1;
    LogView {
        page_bytes: log.page_bytes + bytes,
        block_bytes: log.block_bytes + bytes,
        lines: log.lines + 1 + line_feeds(line),
        ..log
    }
}

/// The log once full pages and blocks are followed by the next ones.
pub open spec fn rolled(log: LogView) -> LogView {
    let a = if log.page_bytes >= PAGE_SIZE {
        on_next_page(log)
    } else {
        log
    };
    if a.block_bytes >= BLOCK_SIZE {
        on_next_block(a)
    } else {
        a
    }
}

/// What makes full pages and blocks be followed by the next ones.
pub open spec fn rolling(log: LogView) -> Seq<ActionView> {
    let pages = if log.page_bytes >= PAGE_SIZE {
        next_page(log)
    } else {
        Seq::empty()
    };
    let a = if log.page_bytes >= PAGE_SIZE {
        on_next_page(log)
    } else {
        log
    };
    pages + if a.block_bytes >= BLOCK_SIZE {
        next_block(a)
    } else {
        Seq::empty()
    }
}

/// What the writing of a line takes: the actions before it, the line, and those after it.
#[derive(Debug)]
pub struct LogWrite {
    pub before: Vec<LogAction>,
    pub line: String,
    pub after: Vec<LogAction>,
}

/// A log in pages and blocks.
#[derive(Debug)]
pub struct PagingLogger {
    timeline_id: u128,
    timeline_record_id: u128,
    page_file: Option<String>,
    page_byte_count: usize,
    page_count: u32,
    block_file: Option<String>,
    block_byte_count: usize,
    block_count: u32,
    total_lines: u64,
}

fn count_line_feeds(v: &Vec<char>) -> (r: u64)
    ensures
        r == line_feeds(v@),
        r <= v@.len(),
{
    let mut n: u64 = 0;
    let mut i: usize = 0;
    assert(v@.take(0) == Seq::<char>::empty());
    while i < v.len()
        invariant
            i <= v@.len(),
            n <= i,
            n == line_feeds(v@.take(i as int)),
        decreases v@.len() - i,
    {
        assert(v@.take(i + 1).drop_last() == v@.take(i as int));
        if v[i] == '\n' {
            n = n + 1;
        }
        i = i + 1;
    }
    assert(v@.take(v@.len() as int) == v@);
    n
}

impl PagingLogger {
    #[verifier::type_invariant]
    spec fn inv(self) -> bool {
        &&& self.page_byte_count < PAGE_SIZE
        &&& self.block_byte_count < BLOCK_SIZE
    }

    pub closed spec fn view(&self) -> LogView {
        LogView {
            timeline_id: self.timeline_id,
            record_id: self.timeline_record_id,
            page: text::view_option(self.page_file),
            page_bytes: self.page_byte_count as int,
            pages: self.page_count as int,
            block: text::view_option(self.block_file),
            block_bytes: self.block_byte_count as int,
            blocks: self.block_count as int,
            lines: self.total_lines as int,
        }
    }

    /// A log without pages.
    pub fn new() -> (r: Self)
        ensures
            r@ == (LogView {
                timeline_id: 0,
                record_id: 0,
                page: None,
                page_bytes: 0,
                pages: 0,
                block: None,
                block_bytes: 0,
                blocks: 0,
                lines: 0,
            }),
    {
        PagingLogger {
            timeline_id: 0,
            timeline_record_id: 0,
            page_file: None,
            page_byte_count: 0,
            page_count: 0,
            block_file: None,
            block_byte_count: 0,
            block_count: 0,
            total_lines: 0,
        }
    }

    /// Names the record that the log belongs to.
    pub fn setup(&mut self, timeline_id: u128, timeline_record_id: u128)
        ensures
            final(self)@ == (LogView { timeline_id, record_id: timeline_record_id, ..old(self)@ }),
    {
        proof {
            use_type_invariant(&*self);
        }
        self.timeline_id = timeline_id;
        self.timeline_record_id = timeline_record_id;
    }

    /// How many lines were written.
    pub fn total_lines(&self) -> (r: u64)
        ensures
            r == self@.lines,
    {
        self.total_lines
    }

    fn name_page(&self, n: u32) -> (r: String)
        ensures
            r@ == page_name(self@, n as int),
    {
        let mut s = codec::format_uuid(self.timeline_id);
        s.append("_");
        s.append(codec::format_uuid(self.timeline_record_id).as_str());
        s.append("_");
        s.append(number::u64_text(n as u64).as_str());
        s.append(".log");
        s
    }

    fn name_block(&self, n: u32) -> (r: String)
        ensures
            r@ == block_name(self@, n as int),
    {
        let mut s = codec::format_uuid(self.timeline_id);
        s.append("_");
        s.append(codec::format_uuid(self.timeline_record_id).as_str());
        s.append(".");
        s.append(number::u64_text(n as u64).as_str());
        s
    }

    fn end_page(&mut self, out: &mut Vec<LogAction>)
        ensures
            final(self)@ == (LogView { page: None, ..old(self)@ }),
            action_views(final(out)@) == action_views(old(out)@) + close_page(old(self)@),
    {
        proof {
            use_type_invariant(&*self);
        }
        if let Some(name) = &self.page_file {
            let action = LogAction::ClosePage(name.clone());
            proof {
                assert(action_views(out@.push(action)) == action_views(out@).push(action@));
                assert(action_views(out@).push(action@) == action_views(out@) + seq![action@]);
            }
            out.push(action);
        } else {
            assert(action_views(out@) == action_views(out@) + Seq::<ActionView>::empty());
        }
        self.page_file = None;
    }

    fn new_page(&mut self, out: &mut Vec<LogAction>)
        requires
            old(self)@.pages < u32::MAX,
        ensures
            final(self)@ == on_next_page(old(self)@),
            action_views(final(out)@) == action_views(old(out)@) + next_page(old(self)@),
    {
        proof {
            use_type_invariant(&*self);
        }
        let ghost before = action_views(out@);
        let ghost log = self@;
        self.end_page(out);
        self.page_byte_count = 0;
        self.page_count = self.page_count + 1;
        let name = self.name_page(self.page_count);
        let action = LogAction::OpenPage(name.clone());
        proof {
            assert(action_views(out@.push(action)) == action_views(out@).push(action@));
            assert((before + close_page(log)).push(action@) == before + close_page(log).push(
                action@,
            ));
        }
        out.push(action);
        self.page_file = Some(name);
    }

    fn end_block(&mut self, finalize: bool, out: &mut Vec<LogAction>)
        ensures
            final(self)@ == (LogView { block: None, ..old(self)@ }),
            action_views(final(out)@) == action_views(old(out)@) + close_block(
                old(self)@,
                finalize,
            ),
    {
        proof {
            use_type_invariant(&*self);
        }
        if let Some(name) = &self.block_file {
            let action = LogAction::CloseBlock {
                name: name.clone(),
                finalize,
                first: self.block_count == 1,
                total_lines: self.total_lines,
            };
            proof {
                assert(action_views(out@.push(action)) == action_views(out@).push(action@));
                assert(action_views(out@).push(action@) == action_views(out@) + seq![action@]);
            }
            out.push(action);
        } else {
            assert(action_views(out@) == action_views(out@) + Seq::<ActionView>::empty());
        }
        self.block_file = None;
    }

    fn new_block(&mut self, out: &mut Vec<LogAction>)
        requires
            old(self)@.blocks < u32::MAX,
        ensures
            final(self)@ == on_next_block(old(self)@),
            action_views(final(out)@) == action_views(old(out)@) + next_block(old(self)@),
    {
        proof {
            use_type_invariant(&*self);
        }
        let ghost before = action_views(out@);
        let ghost log = self@;
        self.end_block(false, out);
        self.block_byte_count = 0;
        self.block_count = self.block_count + 1;
        let name = self.name_block(self.block_count);
        let action = LogAction::OpenBlock(name.clone());
        proof {
            assert(action_views(out@.push(action)) == action_views(out@).push(action@));
            assert((before + close_block(log, false)).push(action@) == before + close_block(
                log,
                false,
            ).push(action@));
        }
        out.push(action);
        self.block_file = Some(name);
    }

    /// Writes a message, with the current time before it. The counters of pages, blocks and
    /// lines must have room.
    pub fn write(&mut self, timestamp: &str, message: &str) -> (r: LogWrite)
        requires
            old(self)@.pages + 2 <= u32::MAX,
            old(self)@.blocks + 2 <= u32::MAX,
            old(self)@.lines + timestamp@.len() + message@.len() + 2 <= u64::MAX,
        ensures
            r.line@ == log_line(timestamp@, message@),
            action_views(r.before@) == opening(old(self)@),
            action_views(r.after@) == rolling(counted(opened(old(self)@), r.line@)),
            final(self)@ == rolled(counted(opened(old(self)@), r.line@)),
            final(self)@.page_bytes < PAGE_SIZE,
            final(self)@.block_bytes < BLOCK_SIZE,
    {
        proof {
            use_type_invariant(&*self);
            reveal_strlit(" ");
        }
        let ghost start = self@;
        let ghost none = Seq::<ActionView>::empty();
        let mut before: Vec<LogAction> = Vec::new();
        assert(action_views(before@) == none);
        if self.page_file.is_none() {
            self.new_page(&mut before);
            assert(none + next_page(start) == next_page(start));
        }
        if self.block_file.is_none() {
            self.new_block(&mut before);
        }
        assert(action_views(before@) == opening(start));
        let mut line = timestamp.to_owned();
        line.append(" ");
        line.append(message);
        let chars = text::to_chars(line.as_str());
        let feeds: u64 = count_line_feeds(&chars);
        let n: usize = line.as_str().as_bytes().len();
        let ghost ready = counted(opened(start), line@);
        self.total_lines = self.total_lines + 1 + feeds;
        proof {
            use_type_invariant(&*self);
        }
        let page_full = n >= PAGE_SIZE || self.page_byte_count + n + 1 >= PAGE_SIZE;
        let block_full = n >= BLOCK_SIZE || self.block_byte_count + n + 1 >= BLOCK_SIZE;
        let mut after: Vec<LogAction> = Vec::new();
        assert(action_views(after@) == none);
        if page_full {
            self.new_page(&mut after);
            assert(none + next_page(ready) == next_page(ready));
        } else {
            self.page_byte_count = self.page_byte_count + n + 1;
        }
        if block_full {
            self.new_block(&mut after);
        } else {
            self.block_byte_count = self.block_byte_count + n + 1;
        }
        assert(action_views(after@) == rolling(ready));
        LogWrite { before, line, after }
    }

    /// Takes note that a page could not be opened: the next line begins another.
    pub fn page_failed(&mut self)
        ensures
            final(self)@ == (LogView { page: None, ..old(self)@ }),
    {
        proof {
            use_type_invariant(&*self);
        }
        self.page_file = None;
    }

    /// Takes note that a block could not be opened: the next line begins another.
    pub fn block_failed(&mut self)
        ensures
            final(self)@ == (LogView { block: None, ..old(self)@ }),
    {
        proof {
            use_type_invariant(&*self);
        }
        self.block_file = None;
    }

    /// Ends the log.
    pub fn end(&mut self) -> (r: Vec<LogAction>)
        ensures
            action_views(r@) == close_page(old(self)@) + close_block(old(self)@, true),
            final(self)@ == (LogView { page: None, block: None, ..old(self)@ }),
    {
        let ghost start = self@;
        let mut out: Vec<LogAction> = Vec::new();
        assert(action_views(out@) == Seq::<ActionView>::empty());
        self.end_page(&mut out);
        assert(Seq::<ActionView>::empty() + close_page(start) == close_page(start));
        self.end_block(true, &mut out);
        out
    }
}

/// After every line there is room on the page and in the block: neither is ever left full.
pub proof fn law_never_left_full(log: LogView, line: Seq<char>)
    ensures
        rolled(counted(opened(log), line)).page_bytes < PAGE_SIZE,
        rolled(counted(opened(log), line)).block_bytes < BLOCK_SIZE,
        rolled(counted(opened(log), line)).page is Some,
        rolled(counted(opened(log), line)).block is Some,
{
}

/// Ending a log twice hands nothing on twice.
pub proof fn law_end_once(log: LogView)
    ensures
        ({
            let ended = LogView { page: None, block: None, ..log };
            close_page(ended) + close_block(ended, true) == Seq::<ActionView>::empty()
        }),
{
    let ended = LogView { page: None, block: None, ..log };
    assert(close_page(ended) + close_block(ended, true) == Seq::<ActionView>::empty());
}

/// Line feeds are counted one by one, wherever they stand.
pub proof fn law_line_feeds_add_up(a: Seq<char>, b: Seq<char>)
    ensures
        line_feeds(a + b) == line_feeds(a) + line_feeds(b),
        line_feeds(seq!['\n']) == 1,
        !a.contains('\n') ==> line_feeds(a) == 0,
        line_feeds(a) >= 0,
    decreases b.len() + a.len(),
{
    if b.len() > 0 {
        law_line_feeds_add_up(a, b.drop_last());
        assert((a + b).drop_last() == a + b.drop_last());
        assert((a + b).last() == b.last());
    } else {
        assert(a + b == a);
        if a.len() > 0 {
            let none = Seq::<char>::empty();
            law_line_feeds_add_up(a.drop_last(), none);
            assert(a[a.len() - 1] == a.last());
            if a.drop_last().contains('\n') {
                let i = choose|i: int| 0 <= i < a.drop_last().len() && a.drop_last()[i] == '\n';
                assert(a[i] == '\n');
            }
        }
    }
    let one = seq!['\n'];
    assert(one.drop_last() == Seq::<char>::empty());
    assert(line_feeds(one) == line_feeds(one.drop_last()) + 1);
}

/// A written line counts with its bytes and one for the line's end, on the page and in the
/// block; a page of 8 MiB and a block of 2 MiB are followed by the next, and no smaller one
/// is. The number of lines grows by the line and the line feeds in it.
pub proof fn law_line_is_counted(log: LogView, line: Seq<char>)
    ensures
        ({
            let after = rolled(counted(opened(log), line));
            let bytes = vstd::utf8::encode_utf8(line).len() + 1;
            let on_page = bytes + if log.page is Some {
                log.page_bytes
            } else {
                0
            };
            let in_block = bytes + if log.block is Some {
                log.block_bytes
            } else {
                0
            };
            let new_page: int = if log.page is Some {
                0
            } else {
                1
            };
            let new_block: int = if log.block is Some {
                0
            } else {
                1
            };
            &&& after.lines == log.lines + 1 + line_feeds(line)
            &&& on_page < 8_388_608 ==> after.page_bytes == on_page && after.pages == log.pages
                + new_page
            &&& on_page >= 8_388_608 ==> after.page_bytes == 0 && after.pages == log.pages
                + new_page + 1
            &&& in_block < 2_097_152 ==> after.block_bytes == in_block && after.blocks == log.blocks
                + new_block
            &&& in_block >= 2_097_152 ==> after.block_bytes == 0 && after.blocks == log.blocks
                + new_block + 1
            &&& after.pages == log.pages ==> after.page == log.page
            &&& after.pages != log.pages ==> after.page == Some(page_name(log, after.pages))
            &&& after.blocks == log.blocks ==> after.block == log.block
            &&& after.blocks != log.blocks ==> after.block == Some(block_name(log, after.blocks))
            &&& after.timeline_id == log.timeline_id
            &&& after.record_id == log.record_id
        }),
{
}

/// Before a line is written just the files that are not open are opened, each the next of
/// its kind.
pub proof fn law_opens_what_is_missing(log: LogView)
    ensures
        ({
            let page = ActionView::OpenPage(page_name(log, log.pages + 1));
            let block = ActionView::OpenBlock(block_name(log, log.blocks + 1));
            &&& log.page is Some && log.block is Some ==> opening(log) == Seq::<
                ActionView,
            >::empty()
            &&& log.page is None && log.block is Some ==> opening(log) == seq![page]
            &&& log.page is Some && log.block is None ==> opening(log) == seq![block]
            &&& log.page is None && log.block is None ==> opening(log) == seq![page, block]
        }),
{
    let a = if log.page is Some {
        log
    } else {
        on_next_page(log)
    };
    assert(block_name(a, log.blocks + 1) == block_name(log, log.blocks + 1));
    assert(close_page(log).len() == 0 || log.page is Some);
    if log.page is None {
        assert(next_page(log) =~= seq![ActionView::OpenPage(page_name(log, log.pages + 1))]);
    }
    if log.block is None {
        assert(next_block(a) =~= seq![ActionView::OpenBlock(block_name(log, log.blocks + 1))]);
    }
    let page = ActionView::OpenPage(page_name(log, log.pages + 1));
    let block = ActionView::OpenBlock(block_name(log, log.blocks + 1));
    assert(seq![page] + seq![block] =~= seq![page, block]);
    assert(Seq::<ActionView>::empty() + seq![block] =~= seq![block]);
    assert(seq![page] + Seq::<ActionView>::empty() =~= seq![page]);
}

/// A full page or block is closed and handed on under its own name before the next one is
/// opened; a block that is handed on so is not the last one, and says whether it is the
/// first and how many lines there are.
pub proof fn law_full_files_are_handed_on(log: LogView, page: Seq<char>, block: Seq<char>)
    requires
        log.page == Some(page),
        log.block == Some(block),
    ensures
        ({
            let pages = seq![
                ActionView::ClosePage(page),
                ActionView::OpenPage(page_name(log, log.pages + 1)),
            ];
            let blocks = seq![
                ActionView::CloseBlock {
                    name: block,
                    finalize: false,
                    first: log.blocks == 1,
                    total_lines: log.lines,
                },
                ActionView::OpenBlock(block_name(log, log.blocks + 1)),
            ];
            let none = Seq::<ActionView>::empty();
            rolling(log) == (if log.page_bytes >= 8_388_608 {
                pages
            } else {
                none
            }) + if log.block_bytes >= 2_097_152 {
                blocks
            } else {
                none
            }
        }),
{
    let a = on_next_page(log);
    assert(block_name(a, log.blocks + 1) == block_name(log, log.blocks + 1));
    assert(next_page(log) =~= seq![
        ActionView::ClosePage(page),
        ActionView::OpenPage(page_name(log, log.pages + 1)),
    ]);
    let blocks = seq![
        ActionView::CloseBlock {
            name: block,
            finalize: false,
            first: log.blocks == 1,
            total_lines: log.lines,
        },
        ActionView::OpenBlock(block_name(log, log.blocks + 1)),
    ];
    assert(next_block(log) =~= blocks);
    assert(next_block(a) =~= blocks);
}

/// The end of a log hands on the page and the block that are open, the block as the last
/// one.
pub proof fn law_end_hands_on_the_rest(log: LogView, page: Seq<char>, block: Seq<char>)
    ensures
        log.page == Some(page) ==> close_page(log) == seq![ActionView::ClosePage(page)],
        log.block == Some(block) ==> close_block(log, true) == seq![
            ActionView::CloseBlock {
                name: block,
                finalize: true,
                first: log.blocks == 1,
                total_lines: log.lines,
            },
        ],
{
}

/// No two pages of a log have the same name, and no two blocks: none is written over.
pub proof fn law_names_differ(log: LogView, a: int, b: int)
    requires
        0 <= a,
        0 <= b,
        a != b,
    ensures
        page_name(log, a) != page_name(log, b),
        block_name(log, a) != block_name(log, b),
{
    number::law_decimal_reads_back(a);
    number::law_decimal_reads_back(b);
    let x = number::decimal(a);
    let y = number::decimal(b);
    let front = codec::uuid_text(log.timeline_id) + "_"@ + codec::uuid_text(log.record_id);
    let n = (front + "_"@).len() as int;
    let m = (front + "."@).len() as int;
    let p = page_name(log, a);
    let q = page_name(log, b);
    assert(p.len() == n + x.len() + ".log"@.len());
    assert(q.len() == n + y.len() + ".log"@.len());
    if p == q {
        assert(x.len() == y.len());
        assert(p.subrange(n, n + x.len()) == x);
        assert(q.subrange(n, n + y.len()) == y);
    }
    let p = block_name(log, a);
    let q = block_name(log, b);
    assert(p.len() == m + x.len());
    assert(q.len() == m + y.len());
    if p == q {
        assert(x.len() == y.len());
        assert(p.subrange(m, m + x.len()) == x);
        assert(q.subrange(m, m + y.len()) == y);
    }
}

/// A line is the time, a space and the message, all of it.
pub proof fn law_line_holds_message(timestamp: Seq<char>, message: Seq<char>)
    ensures
        log_line(timestamp, message).len() == timestamp.len() + 1 + message.len(),
        log_line(timestamp, message).take(timestamp.len() as int) == timestamp,
        log_line(timestamp, message)[timestamp.len() as int] == ' ',
        log_line(timestamp, message).skip(timestamp.len() as int + 1) == message,
{
    reveal_strlit(" ");
    let line = log_line(timestamp, message);
    assert(line.take(timestamp.len() as int) =~= timestamp);
    assert(line.skip(timestamp.len() as int + 1) =~= message);
}

} // verus!
