//! Filling clangd's persistent index: which files are opened, when they are
//! closed again, and when the run is over.
use vstd::hash_set::StringHashSet;
use vstd::prelude::*;

use crate::json::{self, Json, JsonView};
use crate::lsp_cpp::clangd::{self, Clangd, IndexMode};
use crate::lsp_cpp::error::{self, ShimError, ShimErrorView};
use crate::lsp_messages;
use crate::path;
use crate::text;

verus! {

/// Files that are opened in one run where nothing else is asked for.
pub const BUILD_FULL_INDEX_DEFAULT_MAX_TUS: usize = 5000;

/// Seconds without a new shard after which the run is over.
pub const BUILD_FULL_INDEX_QUIESCENCE_SECS: u64 = 20;

/// Seconds after which the run is over although shards still come.
pub const BUILD_FULL_INDEX_MAX_DRAIN_SECS: u64 = 600;

/// Files that are open at a time.
pub const BUILD_FULL_INDEX_BATCH: usize = 32;

/// Seconds between two counts of the shards.
pub const DRAIN_POLL_SECS: u64 = 2;

/// Messages that are read from clangd in one go, at most.
pub const DRAIN_MESSAGES: usize = 1024;

/// Whether one more message is read and dropped: some bytes must be there,
/// and the go must not be over.
pub fn drains_on(taken: usize, buffered: bool, readable: bool) -> (r: bool)
    ensures
        r == (taken < DRAIN_MESSAGES && (buffered || readable)),
{
    taken < DRAIN_MESSAGES && (buffered || readable)
}

/// The compilation database that is fed: the full one where it is there, else
/// the narrow one.
pub open spec fn fed_database(root: Seq<char>, full: bool, narrow: bool) -> Result<
    Seq<char>,
    ShimErrorView,
> {
    if full {
        Ok(clangd::full_database(root))
    } else if narrow {
        Ok(clangd::narrow_database(root))
    } else {
        Err(ShimErrorView::NoCompileCommands { root })
    }
}

/// Picks the compilation database that is fed.
pub fn pick_compile_commands_path(root: &str, full: bool, narrow: bool) -> (r: Result<
    String,
    ShimError,
>)
    ensures
        clangd::text_outcome(r) == fed_database(root@, full, narrow),
{
    if full {
        Ok(clangd::full_database_path(root))
    } else if narrow {
        Ok(clangd::narrow_database_path(root))
    } else {
        Err(ShimError::NoCompileCommands { root: root.to_owned() })
    }
}

/// The files that entries of a compilation database name, each once, where it
/// is named first.
pub open spec fn unique_files(entries: Seq<JsonView>) -> Seq<Seq<char>>
    decreases entries.len(),
{
    if entries.len() == 0 {
        Seq::empty()
    } else {
        let before = unique_files(entries.drop_last());
        match json::member_str(entries.last(), "file"@) {
            Some(file) => if before.contains(file) {
                before
            } else {
                before.push(file)
            },
            None => before,
        }
    }
}

/// The files that a parsed compilation database names.
pub open spec fn parsed_files(db: Seq<char>, value: JsonView) -> Result<
    Seq<Seq<char>>,
    ShimErrorView,
> {
    match value {
        JsonView::Array(entries) => Ok(unique_files(entries)),
        _ => Err(ShimErrorView::Protocol("compile_commands at "@ + db + " is not a JSON array"@)),
    }
}

/// The files that the bytes of a compilation database name.
pub open spec fn database_files(db: Seq<char>, content: Seq<u8>) -> Result<
    Seq<Seq<char>>,
    ShimErrorView,
> {
    match json::json_of_bytes(content) {
        Err(words) => Err(ShimErrorView::Json(words)),
        Ok(value) => parsed_files(db, value),
    }
}

fn collect_files(entries: &Vec<Json>) -> (r: Vec<String>)
    ensures
        text::views(r@) == unique_files(json::json_views(entries@)),
{
    let ghost listed = json::json_views(entries@);
    let mut seen = StringHashSet::new();
    let mut files: Vec<String> = Vec::new();
    let mut i: usize = 0;
    assert(text::views(files@) =~= unique_files(listed.subrange(0, 0)));
    while i < entries.len()
        invariant
            i <= entries@.len(),
            listed == json::json_views(entries@),
            text::views(files@) == unique_files(listed.subrange(0, i as int)),
            forall|f: Seq<char>| #[trigger]
                seen@.contains(f) <==> text::views(files@).contains(f),
        decreases entries@.len() - i,
    {
        let ghost before = files@;
        let ghost seen_before = seen@;
        match entries[i].get_str("file") {
            Some(file) => {
                let fresh = seen.insert(file.to_owned());
                if fresh {
                    let owned = file.to_owned();
                    proof {
                        text::lemma_views_push(before, owned);
                        let names = text::views(before);
                        let more = names.push(owned@);
                        assert(more[names.len() as int] == owned@);
                        assert forall|f: Seq<char>| #[trigger]
                            seen@.contains(f) <==> more.contains(f) by {
                            if names.contains(f) {
                                let k = choose|k: int| 0 <= k < names.len() && names[k] == f;
                                assert(more[k] == f);
                            }
                            if more.contains(f) && f != owned@ {
                                let k = choose|k: int| 0 <= k < more.len() && more[k] == f;
                                assert(names[k] == f);
                            }
                        }
                    }
                    files.push(owned);
                } else {
                    assert(seen@ =~= seen_before);
                }
            },
            None => {},
        }
        i += 1;
        proof {
            let taken = listed.subrange(0, i as int);
            assert(taken.drop_last() =~= listed.subrange(0, i - 1));
            assert(taken.last() == entries@[i - 1]@);
        }
    }
    assert(listed.subrange(0, i as int) =~= listed);
    files
}

/// The outcome of reading a compilation database in views.
pub open spec fn files_outcome(r: Result<Vec<String>, ShimError>) -> Result<
    Seq<Seq<char>>,
    ShimErrorView,
> {
    match r {
        Ok(files) => Ok(text::views(files@)),
        Err(e) => Err(e@),
    }
}

/// Reads the files that a compilation database names, by its path and content.
pub fn read_compile_commands(db: &str, content: &[u8]) -> (r: Result<Vec<String>, ShimError>)
    ensures
        files_outcome(r) == database_files(db@, content@),
{
    match Json::parse_bytes(content) {
        Err(words) => Err(ShimError::Json(words)),
        Ok(value) => list_files(db, &value),
    }
}

/// Lists the files that a parsed compilation database names.
pub fn list_files(db: &str, value: &Json) -> (r: Result<Vec<String>, ShimError>)
    ensures
        files_outcome(r) == parsed_files(db@, value@),
{
    match value.as_array() {
        Some(entries) => Ok(collect_files(entries)),
        None => {
            let mut words = text::concat("compile_commands at ", db);
            words.append(" is not a JSON array");
            Err(ShimError::Protocol(words))
        },
    }
}

/// Whether an entry of a compilation database names a file.
pub open spec fn entry_names(entry: JsonView, file: Seq<char>) -> bool {
    json::member_str(entry, "file"@) == Some(file)
}

/// Duplicates are dropped and nothing else: every file that is named is listed,
/// only files that are named are, and each is listed once.
pub proof fn law_files_listed_once(entries: Seq<JsonView>)
    ensures
        unique_files(entries).no_duplicates(),
        forall|file: Seq<char>| #[trigger]
            unique_files(entries).contains(file) <==> exists|i: int|
                0 <= i < entries.len() && entry_names(#[trigger] entries[i], file),
    decreases entries.len(),
{
    let files = unique_files(entries);
    if entries.len() > 0 {
        let shorter = entries.drop_last();
        let before = unique_files(shorter);
        law_files_listed_once(shorter);
        assert forall|file: Seq<char>| #[trigger] files.contains(file) implies exists|i: int|
            0 <= i < entries.len() && entry_names(#[trigger] entries[i], file) by {
            if before.contains(file) {
                let i = choose|i: int|
                    0 <= i < shorter.len() && entry_names(#[trigger] shorter[i], file);
                assert(entry_names(entries[i], file));
            } else {
                let k = choose|k: int| 0 <= k < files.len() && files[k] == file;
                assert(k == before.len()) by {
                    if k < before.len() {
                        assert(before[k] == file);
                    }
                }
                assert(entry_names(entries[entries.len() - 1], file));
            }
        }
        assert forall|file: Seq<char>|
            (exists|i: int| 0 <= i < entries.len() && entry_names(#[trigger] entries[i], file))
            implies #[trigger] files.contains(file) by {
            let i = choose|i: int|
                0 <= i < entries.len() && entry_names(#[trigger] entries[i], file);
            if i < shorter.len() {
                assert(entry_names(shorter[i], file));
                assert(before.contains(file));
                let k = choose|k: int| 0 <= k < before.len() && before[k] == file;
                assert(files[k] == file);
            } else if before.contains(file) {
                assert(files == before);
            } else {
                assert(files == before.push(file));
                assert(files[before.len() as int] == file);
            }
        }
    }
}

/// The list only grows at its end as entries are added: where a file is listed
/// depends on where it is named first, not on what comes later.
pub proof fn law_first_mention_decides(entries: Seq<JsonView>, more: Seq<JsonView>)
    ensures
        unique_files(entries).is_prefix_of(unique_files(entries + more)),
    decreases more.len(),
{
    if more.len() == 0 {
        assert(entries + more =~= entries);
    } else {
        let all = entries + more;
        assert(all.drop_last() =~= entries + more.drop_last());
        law_first_mention_decides(entries, more.drop_last());
    }
}

/// Whether a file is a shard of the index.
pub open spec fn is_shard(file: Seq<char>) -> bool {
    path::extension_of(file) == Some("idx"@)
}

fn shard(file: &str) -> (r: bool)
    ensures
        r == is_shard(file@),
{
    match path::extension(file) {
        Some(e) => text::str_eq(e.as_str(), "idx"),
        None => false,
    }
}

/// Number of shards among files.
pub open spec fn shards_among(files: Seq<Seq<char>>) -> nat
    decreases files.len(),
{
    if files.len() == 0 {
        0
    } else {
        shards_among(files.drop_last()) + if is_shard(files.last()) {
            1nat
        } else {
            0nat
        }
    }
}

/// Counts the shards in a directory, by the files in it. One that could not be
/// read has none.
pub fn count_shards(files: Option<&Vec<String>>) -> (n: usize)
    ensures
        n == match files {
            Some(files) => shards_among(text::views(files@)),
            None => 0,
        },
{
    let mut n: usize = 0;
    match files {
        Some(files) => {
            let ghost listed = text::views(files@);
            let mut i: usize = 0;
            while i < files.len()
                invariant
                    i <= files@.len(),
                    n <= i,
                    listed == text::views(files@),
                    n == shards_among(listed.subrange(0, i as int)),
                decreases files@.len() - i,
            {
                if shard(files[i].as_str()) {
                    n += 1;
                }
                i += 1;
                proof {
                    let seen = listed.subrange(0, i as int);
                    assert(seen.drop_last() =~= listed.subrange(0, i - 1));
                    assert(seen.last() == files@[i - 1]@);
                }
            }
            assert(listed.subrange(0, i as int) =~= listed);
        },
        None => {},
    }
    n
}

/// A file and its size, which may not be known.
#[derive(Debug)]
pub struct SizedFile {
    pub name: String,
    pub bytes: Option<u64>,
}

/// Size of the shards among files.
pub open spec fn shard_bytes(files: Seq<SizedFile>) -> nat
    decreases files.len(),
{
    if files.len() == 0 {
        0
    } else {
        let before = shard_bytes(files.drop_last());
        match files.last().bytes {
            Some(n) => if is_shard(files.last().name@) {
                before + n as nat
            } else {
                before
            },
            None => before,
        }
    }
}

/// Adds up the sizes of the shards in a directory. One that could not be read
/// has none, and neither counts a shard whose size is not known. The sum is
/// kept to 64 bits.
pub fn sum_shard_bytes(files: Option<&Vec<SizedFile>>) -> (total: u64)
    ensures
        total as int == match files {
            Some(files) => shard_bytes(files@) as int % 0x1_0000_0000_0000_0000,
            None => 0,
        },
{
    let mut total: u64 = 0;
    match files {
        Some(files) => {
            let mut i: usize = 0;
            while i < files.len()
                invariant
                    i <= files@.len(),
                    total as int == shard_bytes(files@.subrange(0, i as int)) as int
                        % 0x1_0000_0000_0000_0000,
                decreases files@.len() - i,
            {
                match files[i].bytes {
                    Some(n) => {
                        if shard(files[i].name.as_str()) {
                            total = total.wrapping_add(n);
                        }
                    },
                    None => {},
                }
                i += 1;
                proof {
                    let seen = files@.subrange(0, i as int);
                    assert(seen.drop_last() =~= files@.subrange(0, i - 1));
                    assert(seen.last() == files@[i - 1]);
                }
            }
            assert(files@.subrange(0, i as int) =~= files@);
        },
        None => {},
    }
    total
}

/// The failure of a run in an index mode that reads a file and nothing else.
pub open spec fn read_only_index() -> ShimErrorView {
    ShimErrorView::Protocol(
        "build_full_index requires --background-index, but the shim was launched in IndexMode::Full (read-only against a pre-built index file). Restart with LSP_CPP_INDEX_MODE=narrow or hybrid."@,
    )
}

/// A run that opens files in batches: the files of a batch stay open until the
/// next one starts, so that few are open at a time.
#[derive(Debug)]
pub struct IndexRun {
    files: Vec<String>,
    cap: usize,
    next: usize,
    batch_end: usize,
    in_batch: bool,
    batches: usize,
    opened: usize,
    skipped: usize,
    open: Vec<String>,
}

/// What an [`IndexRun`] stands for.
#[verifier::ext_equal]
pub struct IndexRunView {
    /// Files that there are.
    pub files: Seq<Seq<char>>,
    /// How many of them are fed.
    pub cap: int,
    /// How many were taken.
    pub next: int,
    /// Where the batch ends.
    pub batch_end: int,
    /// Whether a batch is being fed.
    pub in_batch: bool,
    /// Batches that are over.
    pub batches: int,
    /// Files that were opened.
    pub opened: int,
    /// Files that could not be read.
    pub skipped: int,
    /// Documents that are open.
    pub open: Seq<Seq<char>>,
}

impl View for IndexRun {
    type V = IndexRunView;

    closed spec fn view(&self) -> IndexRunView {
        IndexRunView {
            files: text::views(self.files@),
            cap: self.cap as int,
            next: self.next as int,
            batch_end: self.batch_end as int,
            in_batch: self.in_batch,
            batches: self.batches as int,
            opened: self.opened as int,
            skipped: self.skipped as int,
            open: text::views(self.open@),
        }
    }
}

/// What holds of a run at every moment.
pub open spec fn run_holds(s: IndexRunView) -> bool {
    &&& 0 <= s.next <= s.batch_end <= s.cap <= s.files.len()
    &&& s.batch_end <= s.next + BUILD_FULL_INDEX_BATCH
    &&& !s.in_batch ==> s.batch_end == s.next
    &&& 0 <= s.batches <= s.next
    &&& s.in_batch ==> s.batches < s.batch_end
    &&& 0 <= s.opened && 0 <= s.skipped
    &&& s.opened + s.skipped == s.next
    &&& s.open.len() <= s.opened
    &&& s.open.len() + (s.batch_end - s.next) <= BUILD_FULL_INDEX_BATCH
}

/// A run before its first step.
pub open spec fn fresh_run(files: Seq<Seq<char>>, max_tus: usize) -> IndexRunView {
    IndexRunView {
        files,
        cap: if max_tus < files.len() {
            max_tus as int
        } else {
            files.len() as int
        },
        next: 0,
        batch_end: 0,
        in_batch: false,
        batches: 0,
        opened: 0,
        skipped: 0,
        open: Seq::empty(),
    }
}

/// What is done next.
#[derive(Debug)]
pub enum IndexAction {
    /// A batch starts: these messages close what is open.
    StartBatch {
        closes: Vec<Json>,
    },
    /// This file is read.
    Read {
        file: String,
    },
    /// A batch is over.
    EndBatch {
        number: usize,
    },
    /// Everything was fed: these messages close what is open.
    Finish {
        closes: Vec<Json>,
    },
}

/// What an [`IndexAction`] stands for.
pub enum IndexActionView {
    StartBatch { closes: Seq<JsonView> },
    Read { file: Seq<char> },
    EndBatch { number: int },
    Finish { closes: Seq<JsonView> },
}

impl View for IndexAction {
    type V = IndexActionView;

    open spec fn view(&self) -> IndexActionView {
        match self {
            IndexAction::StartBatch { closes } => IndexActionView::StartBatch {
                closes: json::json_views(closes@),
            },
            IndexAction::Read { file } => IndexActionView::Read { file: file@ },
            IndexAction::EndBatch { number } => IndexActionView::EndBatch {
                number: *number as int,
            },
            IndexAction::Finish { closes } => IndexActionView::Finish {
                closes: json::json_views(closes@),
            },
        }
    }
}

/// The messages that close documents.
pub open spec fn close_messages(uris: Seq<Seq<char>>) -> Seq<JsonView> {
    Seq::new(uris.len(), |i: int| lsp_messages::close_message(uris[i]))
}

/// Where the next batch ends.
pub open spec fn next_batch_end(s: IndexRunView) -> int {
    if s.cap - s.next < BUILD_FULL_INDEX_BATCH {
        s.cap
    } else {
        s.next + BUILD_FULL_INDEX_BATCH
    }
}

/// What is done next.
pub open spec fn next_action(s: IndexRunView) -> IndexActionView {
    if s.in_batch {
        if s.next < s.batch_end {
            IndexActionView::Read { file: s.files[s.next] }
        } else {
            IndexActionView::EndBatch { number: s.batches }
        }
    } else if s.next < s.cap {
        IndexActionView::StartBatch { closes: close_messages(s.open) }
    } else {
        IndexActionView::Finish { closes: close_messages(s.open) }
    }
}

/// The run once the next thing is being done. A file counts as taken when it is
/// known whether it could be read.
pub open spec fn after_action(s: IndexRunView) -> IndexRunView {
    if s.in_batch {
        if s.next < s.batch_end {
            s
        } else {
            IndexRunView { in_batch: false, batches: s.batches + 1, ..s }
        }
    } else if s.next < s.cap {
        IndexRunView { in_batch: true, batch_end: next_batch_end(s), open: Seq::empty(), ..s }
    } else {
        IndexRunView { open: Seq::empty(), ..s }
    }
}

/// Whether the run waits for the content of a file.
pub open spec fn awaits_file(s: IndexRunView) -> bool {
    s.in_batch && s.next < s.batch_end
}

/// The run once a file was read, or could not be.
pub open spec fn after_file(s: IndexRunView, content: Option<Seq<char>>) -> IndexRunView {
    if !awaits_file(s) {
        s
    } else {
        match content {
            Some(_) => IndexRunView {
                next: s.next + 1,
                opened: s.opened + 1,
                open: s.open.push(lsp_messages::file_uri(s.files[s.next])),
                ..s
            },
            None => IndexRunView { next: s.next + 1, skipped: s.skipped + 1, ..s },
        }
    }
}

/// The message that is sent once a file was read.
pub open spec fn file_message(s: IndexRunView, content: Option<Seq<char>>) -> Option<JsonView> {
    match content {
        Some(text) => if awaits_file(s) {
            Some(lsp_messages::open_message(lsp_messages::file_uri(s.files[s.next]), text))
        } else {
            None
        },
        None => None,
    }
}

fn closing(uris: &Vec<String>) -> (r: Vec<Json>)
    ensures
        json::json_views(r@) == close_messages(text::views(uris@)),
{
    let mut r: Vec<Json> = Vec::new();
    let mut i: usize = 0;
    while i < uris.len()
        invariant
            i <= uris@.len(),
            r@.len() == i,
            forall|j: int|
                0 <= j < i ==> (#[trigger] r@[j])@ == lsp_messages::close_message(uris@[j]@),
        decreases uris@.len() - i,
    {
        r.push(lsp_messages::did_close(uris[i].as_str()));
        i += 1;
    }
    assert(json::json_views(r@) =~= close_messages(text::views(uris@)));
    r
}

impl IndexRun {
    /// What holds of a run at every moment.
    pub open spec fn wf(self) -> bool {
        run_holds(self@)
    }

    /// A run over the first `max_tus` files.
    pub fn new(files: Vec<String>, max_tus: usize) -> (r: Self)
        ensures
            r.wf(),
            r@ == fresh_run(text::views(files@), max_tus),
    {
        let cap: usize = if max_tus < files.len() {
            max_tus
        } else {
            files.len()
        };
        let open: Vec<String> = Vec::new();
        assert(text::views(open@) =~= Seq::empty());
        IndexRun {
            files,
            cap,
            next: 0,
            batch_end: 0,
            in_batch: false,
            batches: 0,
            opened: 0,
            skipped: 0,
            open,
        }
    }

    /// Takes the next step.
    pub fn advance(&mut self) -> (r: IndexAction)
        requires
            old(self).wf(),
        ensures
            final(self).wf(),
            r@ == next_action(old(self)@),
            final(self)@ == after_action(old(self)@),
    {
        if self.in_batch {
            if self.next < self.batch_end {
                IndexAction::Read { file: self.files[self.next].clone() }
            } else {
                let number: usize = self.batches;
                self.in_batch = false;
                self.batches = number + 1;
                IndexAction::EndBatch { number }
            }
        } else {
            let closes = closing(&self.open);
            let open: Vec<String> = Vec::new();
            assert(text::views(open@) =~= Seq::empty());
            self.open = open;
            if self.next < self.cap {
                self.in_batch = true;
                self.batch_end = if self.cap - self.next < BUILD_FULL_INDEX_BATCH {
                    self.cap
                } else {
                    self.next + BUILD_FULL_INDEX_BATCH
                };
                IndexAction::StartBatch { closes }
            } else {
                IndexAction::Finish { closes }
            }
        }
    }

    /// Takes in the content of the file that was to be read, or that it could
    /// not be read, and gives the message that opens it.
    pub fn file_read(&mut self, content: Option<&str>) -> (r: Option<Json>)
        requires
            old(self).wf(),
        ensures
            final(self).wf(),
            json::owned_view(r) == file_message(old(self)@, text::opt_str_view(content)),
            final(self)@ == after_file(old(self)@, text::opt_str_view(content)),
    {
        if !(self.in_batch && self.next < self.batch_end) {
            return None;
        }
        match content {
            Some(text) => {
                let uri = lsp_messages::uri_of(self.files[self.next].as_str());
                let message = lsp_messages::did_open(uri.as_str(), text);
                proof {
                    text::lemma_views_push(self.open@, uri);
                }
                self.open.push(uri);
                self.next = self.next + 1;
                self.opened = self.opened + 1;
                Some(message)
            },
            None => {
                self.next = self.next + 1;
                self.skipped = self.skipped + 1;
                None
            },
        }
    }

    /// Files that were opened.
    pub fn opened(&self) -> (n: usize)
        ensures
            n == self@.opened,
    {
        self.opened
    }

    /// Files that could not be read.
    pub fn skipped(&self) -> (n: usize)
        ensures
            n == self@.skipped,
    {
        self.skipped
    }

    /// Files that there are.
    pub fn total(&self) -> (n: usize)
        ensures
            n == self@.files.len(),
    {
        self.files.len()
    }

    /// How many files are fed.
    pub fn cap(&self) -> (n: usize)
        ensures
            n == self@.cap,
    {
        self.cap
    }
}

/// A run that was asked for and may be started.
#[derive(Debug)]
pub struct IndexOrder {
    max_tus: usize,
}

impl View for IndexOrder {
    type V = usize;

    closed spec fn view(&self) -> usize {
        self.max_tus
    }
}

/// What a run starts from, by the path and content of the compilation database.
pub open spec fn started_run(max_tus: usize, db: Seq<char>, content: Seq<u8>) -> Result<
    IndexRunView,
    ShimErrorView,
> {
    match database_files(db, content) {
        Ok(files) => Ok(fresh_run(files, max_tus)),
        Err(e) => Err(e),
    }
}

impl IndexOrder {
    /// Starts the run on a compilation database.
    pub fn start(&self, db: &str, content: &[u8]) -> (r: Result<IndexRun, ShimError>)
        ensures
            match (r, started_run(self@, db@, content@)) {
                (Ok(run), Ok(fresh)) => run.wf() && run@ == fresh,
                (Err(e), Err(f)) => e@ == f,
                _ => false,
            },
    {
        match read_compile_commands(db, content) {
            Ok(files) => Ok(IndexRun::new(files, self.max_tus)),
            Err(e) => Err(e),
        }
    }
}

impl Clangd {
    /// Asks for a run over the first `max_tus` files. In an index mode that
    /// reads a file and nothing else there is none, because no shard would be
    /// written.
    pub fn build_full_index(&self, max_tus: usize) -> (r: Result<IndexOrder, ShimError>)
        ensures
            match r {
                Ok(order) => !(self@.index_mode is Full) && order@ == max_tus,
                Err(e) => self@.index_mode is Full && e@ == read_only_index(),
            },
    {
        match self.index_mode() {
            IndexMode::Full { .. } => Err(
                ShimError::protocol(
                    "build_full_index requires --background-index, but the shim was launched in IndexMode::Full (read-only against a pre-built index file). Restart with LSP_CPP_INDEX_MODE=narrow or hybrid.",
                ),
            ),
            _ => Ok(IndexOrder { max_tus }),
        }
    }
}

/// Every step keeps what holds of a run; in particular at most one batch of
/// documents is ever open, and every file that was taken was opened or skipped.
pub proof fn law_run_holds(s: IndexRunView, content: Option<Seq<char>>)
    requires
        run_holds(s),
    ensures
        run_holds(after_action(s)),
        run_holds(after_file(s, content)),
        after_action(s).open.len() <= BUILD_FULL_INDEX_BATCH,
        after_file(s, content).open.len() <= BUILD_FULL_INDEX_BATCH,
{
}

/// Steps of a run that take no file, counted down.
pub open spec fn rank(s: IndexRunView) -> nat {
    if !s.in_batch {
        1
    } else if s.next < s.batch_end {
        0
    } else {
        2
    }
}

/// The run after one more step, where `contents` says what each file holds.
pub open spec fn one_step(s: IndexRunView, contents: Seq<Option<Seq<char>>>) -> IndexRunView {
    if awaits_file(s) {
        after_file(s, contents[s.next])
    } else {
        after_action(s)
    }
}

/// Whether the next step is the last one.
pub open spec fn at_end(s: IndexRunView) -> bool {
    !s.in_batch && s.next >= s.cap
}

/// The run when it is over.
pub open spec fn run_end(s: IndexRunView, contents: Seq<Option<Seq<char>>>) -> IndexRunView
    decreases s.cap - s.next, rank(s),
    when run_holds(s)
{
    if at_end(s) {
        after_action(s)
    } else {
        run_end(one_step(s, contents), contents)
    }
}

/// The document that the next step opens, if it opens one.
pub open spec fn opens_now(s: IndexRunView, contents: Seq<Option<Seq<char>>>) -> Seq<Seq<char>> {
    if awaits_file(s) && contents[s.next] is Some {
        seq![lsp_messages::file_uri(s.files[s.next])]
    } else {
        Seq::empty()
    }
}

/// The documents that the next step closes.
pub open spec fn closes_now(s: IndexRunView) -> Seq<Seq<char>> {
    if s.in_batch {
        Seq::empty()
    } else {
        s.open
    }
}

/// The documents that are opened until the run is over, in order.
pub open spec fn opened_to_end(s: IndexRunView, contents: Seq<Option<Seq<char>>>) -> Seq<Seq<char>>
    decreases s.cap - s.next, rank(s),
    when run_holds(s)
{
    if at_end(s) {
        opens_now(s, contents)
    } else {
        opens_now(s, contents) + opened_to_end(one_step(s, contents), contents)
    }
}

/// The documents that are closed until the run is over, in order.
pub open spec fn closed_to_end(s: IndexRunView, contents: Seq<Option<Seq<char>>>) -> Seq<Seq<char>>
    decreases s.cap - s.next, rank(s),
    when run_holds(s)
{
    if at_end(s) {
        closes_now(s)
    } else {
        closes_now(s) + closed_to_end(one_step(s, contents), contents)
    }
}

/// The documents of the files from `from` to `to` that can be read.
pub open spec fn readable(
    files: Seq<Seq<char>>,
    contents: Seq<Option<Seq<char>>>,
    from: int,
    to: int,
) -> Seq<Seq<char>>
    decreases to - from,
{
    if from >= to {
        Seq::empty()
    } else {
        let rest = readable(files, contents, from + 1, to);
        match contents[from] {
            Some(_) => seq![lsp_messages::file_uri(files[from])] + rest,
            None => rest,
        }
    }
}

proof fn lemma_run_to_end(s: IndexRunView, contents: Seq<Option<Seq<char>>>)
    requires
        run_holds(s),
        contents.len() >= s.cap,
    ensures
        run_holds(run_end(s, contents)),
        run_end(s, contents).next == s.cap,
        run_end(s, contents).cap == s.cap,
        run_end(s, contents).open.len() == 0,
        opened_to_end(s, contents) == readable(s.files, contents, s.next, s.cap),
        closed_to_end(s, contents) == s.open + opened_to_end(s, contents),
        run_end(s, contents).opened == s.opened + opened_to_end(s, contents).len(),
    decreases s.cap - s.next, rank(s),
{
    reveal_with_fuel(readable, 2);
    let t = one_step(s, contents);
    if at_end(s) {
        assert(opened_to_end(s, contents) =~= Seq::empty());
        assert(closed_to_end(s, contents) =~= s.open + opened_to_end(s, contents));
    } else {
        if awaits_file(s) {
            law_run_holds(s, contents[s.next]);
        } else {
            law_run_holds(s, None);
        }
        lemma_run_to_end(t, contents);
        let later = opened_to_end(t, contents);
        assert(opened_to_end(s, contents) =~= opens_now(s, contents) + later);
        if awaits_file(s) {
            assert(opened_to_end(s, contents) =~= readable(s.files, contents, s.next, s.cap));
            assert(closed_to_end(s, contents) =~= s.open + opened_to_end(s, contents));
        } else {
            assert(opens_now(s, contents) =~= Seq::empty());
            assert(opened_to_end(s, contents) =~= later);
            assert(closed_to_end(s, contents) =~= s.open + opened_to_end(s, contents));
        }
    }
}

/// A whole run accounts for every file it was asked to feed: each is opened or
/// skipped, and the two counts add up to the number asked for or to all files
/// there are. The files that can be read are opened in the order of the
/// database, and every document that was opened is closed, once, in that order.
pub proof fn law_run_accounts_for_every_file(
    files: Seq<Seq<char>>,
    max_tus: usize,
    contents: Seq<Option<Seq<char>>>,
)
    requires
        contents.len() == files.len(),
    ensures
        ({
            let s = fresh_run(files, max_tus);
            let e = run_end(s, contents);
            &&& e.opened + e.skipped == s.cap
            &&& e.opened == opened_to_end(s, contents).len()
            &&& e.open.len() == 0
            &&& opened_to_end(s, contents) == readable(files, contents, 0, s.cap)
            &&& closed_to_end(s, contents) == opened_to_end(s, contents)
        }),
{
    let s = fresh_run(files, max_tus);
    lemma_run_to_end(s, contents);
    assert(s.open + opened_to_end(s, contents) =~= opened_to_end(s, contents));
}

/// Waiting for the shards to settle.
#[derive(Debug)]
pub struct Drain {
    started_ns: u128,
    count: usize,
    changed_ns: u128,
}

/// What a [`Drain`] stands for.
pub struct DrainView {
    /// When waiting began.
    pub started_ns: u128,
    /// Shards that were counted last.
    pub count: usize,
    /// When that count was first seen.
    pub changed_ns: u128,
}

impl View for Drain {
    type V = DrainView;

    closed spec fn view(&self) -> DrainView {
        DrainView {
            started_ns: self.started_ns,
            count: self.count,
            changed_ns: self.changed_ns,
        }
    }
}

/// How waiting goes on.
#[derive(Debug, Clone, Copy, PartialEq, Eq, Structural)]
pub enum DrainStep {
    /// The shards may still be growing.
    Wait,
    /// They have settled.
    Quiescent,
    /// They have not, and waiting took too long.
    CapHit,
}

/// Time between two moments.
pub open spec fn elapsed(since_ns: u128, now_ns: u128) -> int {
    if now_ns < since_ns {
        0
    } else {
        now_ns - since_ns
    }
}

/// The wait once the shards were counted again.
pub open spec fn counted(d: DrainView, count: usize, now_ns: u128) -> DrainView {
    if count != d.count {
        DrainView { count, changed_ns: now_ns, ..d }
    } else {
        d
    }
}

/// How waiting goes on.
pub open spec fn drain_step(d: DrainView, now_ns: u128) -> DrainStep {
    if elapsed(d.changed_ns, now_ns) >= BUILD_FULL_INDEX_QUIESCENCE_SECS * lsp_messages::NS_PER_S {
        DrainStep::Quiescent
    } else if elapsed(d.started_ns, now_ns) >= BUILD_FULL_INDEX_MAX_DRAIN_SECS * lsp_messages::NS_PER_S {
        DrainStep::CapHit
    } else {
        DrainStep::Wait
    }
}

fn waited(since_ns: u128, now_ns: u128, seconds: u64) -> (r: bool)
    requires
        seconds <= BUILD_FULL_INDEX_MAX_DRAIN_SECS,
    ensures
        r == (elapsed(since_ns, now_ns) >= seconds * lsp_messages::NS_PER_S),
{
    let span: u128 = if now_ns < since_ns {
        0
    } else {
        now_ns - since_ns
    };
    span >= (seconds as u128) * lsp_messages::NS_PER_S
}

impl Drain {
    /// Waiting that began at one moment, with the shards counted at another.
    pub fn new(started_ns: u128, count: usize, counted_ns: u128) -> (r: Self)
        ensures
            r@ == (DrainView { started_ns, count, changed_ns: counted_ns }),
    {
        Drain { started_ns, count, changed_ns: counted_ns }
    }

    /// Takes in a new count and tells whether it differs from the last one, and
    /// how waiting goes on.
    pub fn count(&mut self, count: usize, now_ns: u128) -> (r: (bool, DrainStep))
        ensures
            r.0 == (count != old(self)@.count),
            final(self)@ == counted(old(self)@, count, now_ns),
            r.1 == drain_step(final(self)@, now_ns),
    {
        let changed = count != self.count;
        if changed {
            self.changed_ns = now_ns;
            self.count = count;
        }
        let step = if waited(self.changed_ns, now_ns, BUILD_FULL_INDEX_QUIESCENCE_SECS) {
            DrainStep::Quiescent
        } else if waited(self.started_ns, now_ns, BUILD_FULL_INDEX_MAX_DRAIN_SECS) {
            DrainStep::CapHit
        } else {
            DrainStep::Wait
        };
        (changed, step)
    }
}

/// Waiting for the shards is bounded: from the cap on it is over, whatever is
/// counted. A count that was just seen to change never settles it.
pub proof fn law_drain_is_bounded(d: DrainView, count: usize, now_ns: u128)
    ensures
        elapsed(d.started_ns, now_ns) >= BUILD_FULL_INDEX_MAX_DRAIN_SECS * lsp_messages::NS_PER_S
            ==> drain_step(counted(d, count, now_ns), now_ns) != DrainStep::Wait,
        count != d.count ==> drain_step(counted(d, count, now_ns), now_ns)
            != DrainStep::Quiescent,
        count == d.count && elapsed(d.changed_ns, now_ns) >= BUILD_FULL_INDEX_QUIESCENCE_SECS
            * lsp_messages::NS_PER_S ==> drain_step(counted(d, count, now_ns), now_ns)
            == DrainStep::Quiescent,
{
}

/// What a run came to.
#[derive(Debug)]
pub struct BuildFullIndexReport {
    /// Files that were opened.
    pub tus_opened: usize,
    /// Files that could not be read.
    pub skipped_io_errors: usize,
    /// Seconds that the run took, as a JSON number.
    pub wall_seconds: Json,
    /// Shards on disk after the run.
    pub shards_on_disk_after: usize,
    /// Their size.
    pub shards_size_bytes: u64,
    /// Whether waiting for the shards took too long.
    pub cap_fired: bool,
}

/// A report as JSON.
pub open spec fn report_json(r: BuildFullIndexReport) -> JsonView {
    JsonView::Object(
        map![
            "tus_opened"@ => json::json_int(r.tus_opened as int),
            "skipped_io_errors"@ => json::json_int(r.skipped_io_errors as int),
            "wall_seconds"@ => r.wall_seconds@,
            "shards_on_disk_after"@ => json::json_int(r.shards_on_disk_after as int),
            "shards_size_bytes"@ => json::json_int(r.shards_size_bytes as int),
            "cap_fired"@ => JsonView::Bool(r.cap_fired),
        ],
    )
}

/// A report as the text that is logged.
pub open spec fn report_text(r: BuildFullIndexReport) -> Seq<char> {
    "{\"tus_opened\":"@ + text::dec(r.tus_opened as nat) + ",\"skipped_io_errors\":"@ + text::dec(
        r.skipped_io_errors as nat,
    ) + ",\"wall_seconds\":"@ + json::json_text(r.wall_seconds@) + ",\"shards_on_disk_after\":"@
        + text::dec(r.shards_on_disk_after as nat) + ",\"shards_size_bytes\":"@ + text::dec(
        r.shards_size_bytes as nat,
    ) + ",\"cap_fired\":"@ + (if r.cap_fired {
        "true"@
    } else {
        "false"@
    }) + "}"@
}

/// What a run came to, once waiting for its shards is over.
pub fn report(
    run: &IndexRun,
    ended: DrainStep,
    wall_seconds: Json,
    shards: usize,
    shard_bytes: u64,
) -> (r: BuildFullIndexReport)
    ensures
        r.tus_opened == run@.opened,
        r.skipped_io_errors == run@.skipped,
        r.wall_seconds == wall_seconds,
        r.shards_on_disk_after == shards,
        r.shards_size_bytes == shard_bytes,
        r.cap_fired == (ended == DrainStep::CapHit),
{
    BuildFullIndexReport {
        tus_opened: run.opened(),
        skipped_io_errors: run.skipped(),
        wall_seconds,
        shards_on_disk_after: shards,
        shards_size_bytes: shard_bytes,
        cap_fired: ended == DrainStep::CapHit,
    }
}

impl BuildFullIndexReport {
    /// The report as JSON.
    pub fn to_json(&self) -> (r: Json)
        ensures
            r@ == report_json(*self),
    {
        Json::object().put("tus_opened", Json::uint(self.tus_opened as u64)).put(
            "skipped_io_errors",
            Json::uint(self.skipped_io_errors as u64),
        ).put("wall_seconds", self.wall_seconds.clone()).put(
            "shards_on_disk_after",
            Json::uint(self.shards_on_disk_after as u64),
        ).put("shards_size_bytes", Json::uint(self.shards_size_bytes)).put(
            "cap_fired",
            Json::Bool(self.cap_fired),
        )
    }

    /// The line that is logged when the run is over.
    pub fn done_line(&self) -> (line: String)
        ensures
            line@ == "[build_full_index] done "@ + report_text(*self),
    {
        let mut words = "{\"tus_opened\":".to_owned();
        words.append(text::dec_usize(self.tus_opened).as_str());
        words.append(",\"skipped_io_errors\":");
        words.append(text::dec_usize(self.skipped_io_errors).as_str());
        words.append(",\"wall_seconds\":");
        words.append(self.wall_seconds.to_text().as_str());
        words.append(",\"shards_on_disk_after\":");
        words.append(text::dec_usize(self.shards_on_disk_after).as_str());
        words.append(",\"shards_size_bytes\":");
        words.append(text::dec_u64(self.shards_size_bytes).as_str());
        words.append(",\"cap_fired\":");
        words.append(if self.cap_fired { "true" } else { "false" });
        words.append("}");
        text::concat("[build_full_index] done ", words.as_str())
    }
}

/// The line that is logged when a run starts.
pub fn start_line(db: &str, run: &IndexRun) -> (line: String)
    ensures
        line@ == "[build_full_index] cdb="@ + db@ + " total_tus="@ + text::dec(run@.files.len())
            + " cap="@ + text::dec(run@.cap as nat) + " batch="@ + text::dec(
            BUILD_FULL_INDEX_BATCH as nat,
        ),
{
    let mut line = text::concat("[build_full_index] cdb=", db);
    line.append(" total_tus=");
    line.append(text::dec_usize(run.total()).as_str());
    line.append(" cap=");
    line.append(text::dec_usize(run.cap()).as_str());
    line.append(" batch=");
    line.append(text::dec_usize(BUILD_FULL_INDEX_BATCH).as_str());
    line
}

/// The line that is logged about the shards before a run.
pub fn before_line(shards: usize) -> (line: String)
    ensures
        line@ == "[build_full_index] shards_before="@ + text::dec(shards as nat),
{
    text::concat("[build_full_index] shards_before=", text::dec_usize(shards).as_str())
}

/// The line that is logged after a batch. The time comes as text.
pub fn batch_line(number: usize, run: &IndexRun, elapsed_s: &str) -> (line: String)
    ensures
        line@ == "[build_full_index] batch="@ + text::dec(number as nat) + " tus_opened="@
            + text::dec(run@.opened as nat) + " skipped_io_errors="@ + text::dec(
            run@.skipped as nat,
        ) + " elapsed_s="@ + elapsed_s@,
{
    let mut line = text::concat("[build_full_index] batch=", text::dec_usize(number).as_str());
    line.append(" tus_opened=");
    line.append(text::dec_usize(run.opened()).as_str());
    line.append(" skipped_io_errors=");
    line.append(text::dec_usize(run.skipped()).as_str());
    line.append(" elapsed_s=");
    line.append(elapsed_s);
    line
}

/// The line that is logged when the shards changed. The time comes as text.
pub fn draining_line(shards: usize, elapsed_s: &str) -> (line: String)
    ensures
        line@ == "[build_full_index] draining shards="@ + text::dec(shards as nat)
            + " elapsed_s="@ + elapsed_s@,
{
    let mut line = text::concat(
        "[build_full_index] draining shards=",
        text::dec_usize(shards).as_str(),
    );
    line.append(" elapsed_s=");
    line.append(elapsed_s);
    line
}

/// The line that is logged when waiting is over, if it is. The time comes as
/// text.
pub fn drained_line(step: DrainStep, shards: usize, drain_s: &str) -> (line: Option<String>)
    ensures
        text::opt_view(line) == match step {
            DrainStep::Wait => None,
            DrainStep::Quiescent => Some(
                "[build_full_index] quiescent shards="@ + text::dec(shards as nat) + " drain_s="@
                    + drain_s@,
            ),
            DrainStep::CapHit => Some(
                "[build_full_index] drain_cap_hit shards="@ + text::dec(shards as nat)
                    + " drain_s="@ + drain_s@,
            ),
        },
{
    let head = match step {
        DrainStep::Wait => {
            return None;
        },
        DrainStep::Quiescent => "[build_full_index] quiescent shards=",
        DrainStep::CapHit => "[build_full_index] drain_cap_hit shards=",
    };
    let mut line = text::concat(head, text::dec_usize(shards).as_str());
    line.append(" drain_s=");
    line.append(drain_s);
    Some(line)
}

/// A text without the line ends at its end.
pub open spec fn without_newlines(s: Seq<char>) -> Seq<char>
    decreases s.len(),
{
    if s.len() > 0 && s.last() == '\n' {
        without_newlines(s.drop_last())
    } else {
        s
    }
}

/// Three decimal digits of a number below a thousand; a larger one in full.
pub open spec fn three_digits(n: u32) -> Seq<char> {
    if n < 10 {
        "00"@ + text::dec(n as nat)
    } else if n < 100 {
        "0"@ + text::dec(n as nat)
    } else {
        text::dec(n as nat)
    }
}

/// The time in front of a line of the log: seconds and milliseconds since the
/// epoch, unknown before it.
pub open spec fn time_stamp(since_epoch: Option<(u64, u32)>) -> Seq<char> {
    match since_epoch {
        Some((seconds, millis)) => "[t="@ + text::dec(seconds as nat) + "."@ + three_digits(millis)
            + "]"@,
        None => "[t=?]"@,
    }
}

fn stamp(since_epoch: Option<(u64, u32)>) -> (s: String)
    ensures
        s@ == time_stamp(since_epoch),
{
    match since_epoch {
        Some((seconds, millis)) => {
            let mut s = text::concat("[t=", text::dec_u64(seconds).as_str());
            s.append(".");
            let tail = if millis < 10 {
                text::concat("00", text::dec_u64(millis as u64).as_str())
            } else if millis < 100 {
                text::concat("0", text::dec_u64(millis as u64).as_str())
            } else {
                text::dec_u64(millis as u64)
            };
            s.append(tail.as_str());
            s.append("]");
            s
        },
        None => "[t=?]".to_owned(),
    }
}

/// A message without the line ends at its end.
fn bare_message(message: &str) -> (r: String)
    ensures
        r@ == without_newlines(message@),
{
    let chars = text::chars_of(message);
    let mut end: usize = chars.len();
    assert(chars@.subrange(0, end as int) =~= chars@);
    while end > 0 && chars[end - 1] == '\n'
        invariant
            end <= chars@.len(),
            without_newlines(chars@) == without_newlines(chars@.subrange(0, end as int)),
        decreases end,
    {
        end -= 1;
        assert(chars@.subrange(0, end + 1).drop_last() =~= chars@.subrange(0, end as int));
    }
    text::slice_of(&chars, 0, end)
}

/// A line of the log: the time, the message without line ends at its end, and
/// one line end.
pub fn log_line(since_epoch: Option<(u64, u32)>, message: &str) -> (line: String)
    ensures
        line@ == time_stamp(since_epoch) + " "@ + without_newlines(message@) + "\n"@,
{
    let mut line = stamp(since_epoch);
    line.append(" ");
    line.append(bare_message(message).as_str());
    line.append("\n");
    line
}

/// A whole run feeds as many files as it is asked for, or all there are where
/// there are fewer, and no other: each is opened or skipped, and when the run
/// asks for at least as many as there are, none is left out.
pub proof fn law_run_feeds_what_is_asked_for(
    files: Seq<Seq<char>>,
    max_tus: usize,
    contents: Seq<Option<Seq<char>>>,
)
    requires
        contents.len() == files.len(),
    ensures
        ({
            let e = run_end(fresh_run(files, max_tus), contents);
            &&& max_tus <= files.len() ==> e.opened + e.skipped == max_tus
            &&& max_tus >= files.len() ==> e.opened + e.skipped == files.len()
            &&& e.open.len() == 0
        }),
{
    law_run_accounts_for_every_file(files, max_tus, contents);
}

/// Number of the first `n` files that can be read.
pub open spec fn readable_count(contents: Seq<Option<Seq<char>>>, n: int) -> nat
    decreases n,
{
    if n <= 0 {
        0
    } else {
        readable_count(contents, n - 1) + if contents[n - 1] is Some {
            1nat
        } else {
            0nat
        }
    }
}

/// A whole run opens exactly those of the files it feeds that can be read, each
/// at its place in the order of the database.
pub proof fn law_run_opens_what_can_be_read(
    files: Seq<Seq<char>>,
    max_tus: usize,
    contents: Seq<Option<Seq<char>>>,
    i: int,
)
    requires
        contents.len() == files.len(),
        0 <= i < files.len(),
        i < max_tus,
    ensures
        ({
            let s = fresh_run(files, max_tus);
            let opened = opened_to_end(s, contents);
            &&& contents[i] is Some ==> {
                &&& readable_count(contents, i) < opened.len()
                &&& opened[readable_count(contents, i) as int] == "file://"@ + files[i]
            }
            &&& max_tus >= files.len() ==> opened.len() == readable_count(
                contents,
                files.len() as int,
            )
            &&& max_tus <= files.len() ==> opened.len() == readable_count(contents, max_tus as int)
            &&& run_end(s, contents).opened == opened.len()
            &&& closed_to_end(s, contents) == opened
        }),
{
    let s = fresh_run(files, max_tus);
    law_run_accounts_for_every_file(files, max_tus, contents);
    let n: int = if max_tus < files.len() {
        max_tus as int
    } else {
        files.len() as int
    };
    assert(s.cap == n);
    lemma_readable_counted(files, contents, 0, n, i);
}

proof fn lemma_readable_counted(
    files: Seq<Seq<char>>,
    contents: Seq<Option<Seq<char>>>,
    from: int,
    to: int,
    i: int,
)
    requires
        0 <= from <= i < to <= files.len(),
        contents.len() == files.len(),
    ensures
        readable(files, contents, from, to).len() == readable_count(contents, to) - readable_count(
            contents,
            from,
        ),
        contents[i] is Some ==> {
            let at = readable_count(contents, i) - readable_count(contents, from);
            0 <= at < readable(files, contents, from, to).len() && readable(
                files,
                contents,
                from,
                to,
            )[at] == "file://"@ + files[i]
        },
    decreases to - from,
{
    let rest = readable(files, contents, from + 1, to);
    assert(readable_count(contents, from + 1) == readable_count(contents, from)
        + if contents[from] is Some {
        1nat
    } else {
        0nat
    });
    lemma_count_grows(contents, from, i);
    lemma_count_grows(contents, from + 1, to);
    if from < i {
        lemma_readable_counted(files, contents, from + 1, to, i);
    } else if from + 1 < to {
        lemma_readable_counted(files, contents, from + 1, to, from + 1);
    } else {
        assert(rest.len() == 0);
    }
}

proof fn lemma_count_grows(contents: Seq<Option<Seq<char>>>, from: int, to: int)
    requires
        0 <= from <= to,
    ensures
        readable_count(contents, from) <= readable_count(contents, to),
    decreases to - from,
{
    if from < to {
        lemma_count_grows(contents, from, to - 1);
    }
}

/// A file that was read is opened with the text that was read, under its own
/// address, and counts as opened; one that could not be read is passed over and
/// counts as skipped. Either way the next file is the next of the database.
pub proof fn law_file_is_opened_with_its_text(s: IndexRunView, content: Option<Seq<char>>)
    requires
        s.in_batch,
        s.next < s.batch_end,
    ensures
        next_action(s) == (IndexActionView::Read { file: s.files[s.next] }),
        after_file(s, content).next == s.next + 1,
        after_file(s, content).files == s.files,
        content is Some ==> {
            &&& file_message(s, content) == Some(
                lsp_messages::open_message("file://"@ + s.files[s.next], content->0),
            )
            &&& after_file(s, content).opened == s.opened + 1
            &&& after_file(s, content).skipped == s.skipped
            &&& after_file(s, content).open == s.open.push("file://"@ + s.files[s.next])
        },
        content is None ==> {
            &&& file_message(s, content) is None
            &&& after_file(s, content).opened == s.opened
            &&& after_file(s, content).skipped == s.skipped + 1
            &&& after_file(s, content).open == s.open
        },
{
}

/// A batch begins by closing what is open and takes up to thirty-two files, and
/// the run ends by closing what is open; what is closed is what is open, all of
/// it and nothing else.
pub proof fn law_batches_close_what_is_open(s: IndexRunView)
    requires
        run_holds(s),
        !s.in_batch,
    ensures
        s.next < s.cap ==> {
            &&& next_action(s) is StartBatch
            &&& next_action(s)->StartBatch_closes.len() == s.open.len()
            &&& forall|i: int|
                0 <= i < s.open.len() ==> #[trigger] next_action(s)->StartBatch_closes[i]
                    == lsp_messages::close_message(s.open[i])
            &&& s.cap - s.next >= 32 ==> after_action(s).batch_end == s.next + 32
            &&& s.cap - s.next < 32 ==> after_action(s).batch_end == s.cap
            &&& after_action(s).open.len() == 0
        },
        s.next >= s.cap ==> {
            &&& next_action(s) is Finish
            &&& next_action(s)->Finish_closes.len() == s.open.len()
            &&& forall|i: int|
                0 <= i < s.open.len() ==> #[trigger] next_action(s)->Finish_closes[i]
                    == lsp_messages::close_message(s.open[i])
        },
{
}

/// The files of a database are listed as it names them: an entry adds its file
/// at the end unless that is listed already, and an entry without a file adds
/// nothing.
pub proof fn law_entry_adds_its_file(entries: Seq<JsonView>, entry: JsonView, file: Seq<char>)
    ensures
        json::json_get(entry, "file"@) == Some(JsonView::Str(file)) && !unique_files(
            entries,
        ).contains(file) ==> unique_files(entries.push(entry)) == unique_files(entries).push(file),
        json::json_get(entry, "file"@) == Some(JsonView::Str(file)) && unique_files(
            entries,
        ).contains(file) ==> unique_files(entries.push(entry)) == unique_files(entries),
        !(json::json_get(entry, "file"@) matches Some(JsonView::Str(_))) ==> unique_files(
            entries.push(entry),
        ) == unique_files(entries),
        unique_files(Seq::empty()) == Seq::<Seq<char>>::empty(),
{
    assert(entries.push(entry).drop_last() =~= entries);
}

/// A run starts from the files of its database, and only a database that is a
/// JSON array has any.
pub proof fn law_run_starts_from_its_database(
    max_tus: usize,
    db: Seq<char>,
    content: Seq<u8>,
    entries: Seq<JsonView>,
)
    ensures
        json::json_of_bytes(content) == json::read_ok(JsonView::Array(entries)) ==> {
            &&& started_run(max_tus, db, content) is Ok
            &&& started_run(max_tus, db, content)->Ok_0.files == unique_files(entries)
            &&& started_run(max_tus, db, content)->Ok_0.opened == 0
            &&& started_run(max_tus, db, content)->Ok_0.skipped == 0
            &&& started_run(max_tus, db, content)->Ok_0.next == 0
        },
        json::json_of_bytes(content) is Err ==> started_run(max_tus, db, content) is Err,
        json::json_of_bytes(content) matches Ok(v) && !(v is Array) ==> started_run(
            max_tus,
            db,
            content,
        ) is Err,
{
}

/// The full database is fed where it is there, else the narrow one.
pub proof fn law_full_database_comes_first(root: Seq<char>, narrow: bool)
    requires
        root.len() > 0,
        root.last() != '/',
    ensures
        fed_database(root, true, narrow) == Ok::<Seq<char>, ShimErrorView>(
            root + "/compile_commands.json"@,
        ),
        fed_database(root, false, true) == Ok::<Seq<char>, ShimErrorView>(
            root + "/compile_commands.narrow.json"@,
        ),
        fed_database(root, false, false) is Err,
{
    reveal_strlit("compile_commands.json");
    reveal_strlit("/compile_commands.json");
    reveal_strlit("compile_commands.narrow.json");
    reveal_strlit("/compile_commands.narrow.json");
    assert(root.push('/') + "compile_commands.json"@ =~= root + "/compile_commands.json"@);
    assert(root.push('/') + "compile_commands.narrow.json"@ =~= root
        + "/compile_commands.narrow.json"@);
}

/// Shards are counted one by one: a file more adds one exactly where it is a
/// shard, and its bytes where they are known.
pub proof fn law_shards_are_counted(files: Seq<Seq<char>>, file: Seq<char>, sized: Seq<SizedFile>, one: SizedFile)
    ensures
        shards_among(Seq::empty()) == 0,
        path::extension_of(file) == Some("idx"@) ==> shards_among(files.push(file))
            == shards_among(files) + 1,
        path::extension_of(file) != Some("idx"@) ==> shards_among(files.push(file))
            == shards_among(files),
        shard_bytes(Seq::empty()) == 0,
        path::extension_of(one.name@) == Some("idx"@) && one.bytes is Some ==> shard_bytes(
            sized.push(one),
        ) == shard_bytes(sized) + one.bytes->0,
        path::extension_of(one.name@) != Some("idx"@) || one.bytes is None ==> shard_bytes(
            sized.push(one),
        ) == shard_bytes(sized),
{
    assert(files.push(file).drop_last() =~= files);
    assert(sized.push(one).drop_last() =~= sized);
}

/// Waiting for the shards ends when no new count was seen for twenty seconds,
/// and else after six hundred; before both it goes on.
pub proof fn law_drain_waits_its_time(d: DrainView, now_ns: u128)
    requires
        d.started_ns <= now_ns,
        d.changed_ns <= now_ns,
    ensures
        now_ns - d.changed_ns >= 20_000_000_000 ==> drain_step(d, now_ns) == DrainStep::Quiescent,
        now_ns - d.changed_ns < 20_000_000_000 && now_ns - d.started_ns >= 600_000_000_000
            ==> drain_step(d, now_ns) == DrainStep::CapHit,
        now_ns - d.changed_ns < 20_000_000_000 && now_ns - d.started_ns < 600_000_000_000
            ==> drain_step(d, now_ns) == DrainStep::Wait,
{
}

/// A new count is remembered with its time; an old one keeps the time when it
/// was first seen.
pub proof fn law_new_count_is_remembered(d: DrainView, count: usize, now_ns: u128)
    ensures
        counted(d, count, now_ns).count == count,
        count != d.count ==> counted(d, count, now_ns).changed_ns == now_ns,
        count == d.count ==> counted(d, count, now_ns).changed_ns == d.changed_ns,
        counted(d, count, now_ns).started_ns == d.started_ns,
{
}

/// A report shows each of its numbers under its own name.
pub proof fn law_report_shows_its_numbers(r: BuildFullIndexReport)
    ensures
        json::json_get(report_json(r), "tus_opened"@) == Some(json::json_int(r.tus_opened as int)),
        json::json_get(report_json(r), "skipped_io_errors"@) == Some(
            json::json_int(r.skipped_io_errors as int),
        ),
        json::json_get(report_json(r), "wall_seconds"@) == Some(r.wall_seconds@),
        json::json_get(report_json(r), "shards_on_disk_after"@) == Some(
            json::json_int(r.shards_on_disk_after as int),
        ),
        json::json_get(report_json(r), "shards_size_bytes"@) == Some(
            json::json_int(r.shards_size_bytes as int),
        ),
        json::json_get(report_json(r), "cap_fired"@) == Some(JsonView::Bool(r.cap_fired)),
{
    reveal_strlit("tus_opened");
    reveal_strlit("skipped_io_errors");
    reveal_strlit("wall_seconds");
    reveal_strlit("shards_on_disk_after");
    reveal_strlit("shards_size_bytes");
    reveal_strlit("cap_fired");
    assert("tus_opened"@.len() == 10 && "skipped_io_errors"@.len() == 17);
    assert("wall_seconds"@.len() == 12 && "shards_on_disk_after"@.len() == 20);
    assert("shards_size_bytes"@.len() == 17 && "cap_fired"@.len() == 9);
    assert("skipped_io_errors"@[1] != "shards_size_bytes"@[1]);
}

/// A line of the log keeps its message: only line ends at its end are dropped.
pub proof fn law_log_keeps_the_message(message: Seq<char>)
    ensures
        message.len() == 0 || message.last() != '\n' ==> without_newlines(message) == message,
        without_newlines(message.push('\n')) == without_newlines(message),
        without_newlines(message).len() == 0 || without_newlines(message).last() != '\n',
        without_newlines(message).is_prefix_of(message),
    decreases message.len(),
{
    assert(message.push('\n').drop_last() =~= message);
    if message.len() > 0 && message.last() == '\n' {
        law_log_keeps_the_message(message.drop_last());
    }
}

/// A zero in front does not change a number.
proof fn lemma_leading_zero(s: Seq<char>, max: nat)
    ensures
        text::digits_value(seq!['0'] + s, max) == text::digits_value(s, max),
    decreases s.len(),
{
    let whole = seq!['0'] + s;
    if s.len() == 0 {
        assert(whole =~= seq!['0']);
        assert(whole.drop_last() =~= Seq::empty());
        assert(s =~= Seq::empty());
        assert(text::digits_value(Seq::empty(), max) == Ok::<nat, text::IntFault>(0));
    } else {
        lemma_leading_zero(s.drop_last(), max);
        assert(whole.drop_last() =~= seq!['0'] + s.drop_last());
        assert(whole.last() == s.last());
    }
}

/// Numbers below a thousand have as many digits as they should.
proof fn lemma_digits(n: nat)
    ensures
        n < 10 ==> text::dec(n).len() == 1,
        10 <= n < 100 ==> text::dec(n).len() == 2,
        100 <= n < 1000 ==> text::dec(n).len() == 3,
{
    reveal_with_fuel(text::dec, 3);
}

/// A line of the log starts with its time: the seconds, and behind a point the
/// milliseconds, always in three digits, so that both can be read back.
pub proof fn law_log_line_tells_its_time(seconds: u64, millis: u32)
    requires
        millis < 1000,
    ensures
        ({
            let shown = three_digits(millis);
            &&& time_stamp(Some((seconds, millis))) == "[t="@ + text::dec(seconds as nat) + "."@
                + shown + "]"@
            &&& shown.len() == 3
            &&& text::parse_uint(shown, 999) == Ok::<nat, text::IntFault>(millis as nat)
        }),
{
    let n = millis as nat;
    lemma_digits(n);
    text::lemma_parse_dec(n, 999);
    reveal_strlit("0");
    reveal_strlit("00");
    let d = text::dec(n);
    if millis < 10 {
        assert("00"@ + d =~= seq!['0'] + (seq!['0'] + d));
        lemma_leading_zero(d, 999);
        lemma_leading_zero(seq!['0'] + d, 999);
        assert(three_digits(millis)[0] == '0');
    } else if millis < 100 {
        assert("0"@ + d =~= seq!['0'] + d);
        lemma_leading_zero(d, 999);
        assert(three_digits(millis)[0] == '0');
    }
}

/// What a text holds, it holds with more behind it.
proof fn lemma_held_before(whole: Seq<char>, part: Seq<char>, more: Seq<char>)
    requires
        error::holds(whole, part),
    ensures
        error::holds(whole + more, part),
{
    let (before, after) = choose|before: Seq<char>, after: Seq<char>|
        whole == #[trigger] (before + part + after);
    assert(whole + more =~= before + part + (after + more));
}

/// What a text holds, it holds with a name and a value behind it, and then it
/// holds these too.
proof fn lemma_held_on(whole: Seq<char>, part: Seq<char>, name: Seq<char>, value: Seq<char>)
    requires
        error::holds(whole, part),
    ensures
        error::holds(whole + name + value, part),
        error::holds(whole + name + value, name + value),
{
    lemma_held_before(whole, part, name);
    lemma_held_before(whole + name, part, value);
    assert(whole + name + value =~= whole + (name + value) + Seq::<char>::empty());
}

/// The line at the end of a run shows each number of the report behind its name.
pub proof fn law_done_line_shows_its_numbers(r: BuildFullIndexReport)
    ensures
        ({
            let line = report_text(r);
            &&& error::holds(line, "{\"tus_opened\":"@ + text::dec(r.tus_opened as nat))
            &&& error::holds(
                line,
                ",\"skipped_io_errors\":"@ + text::dec(r.skipped_io_errors as nat),
            )
            &&& error::holds(line, ",\"wall_seconds\":"@ + json::json_text(r.wall_seconds@))
            &&& error::holds(
                line,
                ",\"shards_on_disk_after\":"@ + text::dec(r.shards_on_disk_after as nat),
            )
            &&& error::holds(
                line,
                ",\"shards_size_bytes\":"@ + text::dec(r.shards_size_bytes as nat),
            )
            &&& r.cap_fired ==> error::holds(line, ",\"cap_fired\":"@ + "true"@)
            &&& !r.cap_fired ==> error::holds(line, ",\"cap_fired\":"@ + "false"@)
        }),
{
    let a = "{\"tus_opened\":"@ + text::dec(r.tus_opened as nat);
    let (s1, n1) = (",\"skipped_io_errors\":"@, text::dec(r.skipped_io_errors as nat));
    let (s2, n2) = (",\"wall_seconds\":"@, json::json_text(r.wall_seconds@));
    let (s3, n3) = (",\"shards_on_disk_after\":"@, text::dec(r.shards_on_disk_after as nat));
    let (s4, n4) = (",\"shards_size_bytes\":"@, text::dec(r.shards_size_bytes as nat));
    let (s5, n5) = (
        ",\"cap_fired\":"@,
        if r.cap_fired {
            "true"@
        } else {
            "false"@
        },
    );
    let b = a + s1 + n1;
    let c = b + s2 + n2;
    let d = c + s3 + n3;
    let e = d + s4 + n4;
    assert(a =~= Seq::<char>::empty() + a + Seq::<char>::empty());
    lemma_held_on(a, a, s1, n1);
    lemma_held_on(b, a, s2, n2);
    lemma_held_on(b, s1 + n1, s2, n2);
    lemma_held_on(c, a, s3, n3);
    lemma_held_on(c, s1 + n1, s3, n3);
    lemma_held_on(c, s2 + n2, s3, n3);
    lemma_held_on(d, a, s4, n4);
    lemma_held_on(d, s1 + n1, s4, n4);
    lemma_held_on(d, s2 + n2, s4, n4);
    lemma_held_on(d, s3 + n3, s4, n4);
    lemma_held_on(e, a, s5, n5);
    lemma_held_on(e, s1 + n1, s5, n5);
    lemma_held_on(e, s2 + n2, s5, n5);
    lemma_held_on(e, s3 + n3, s5, n5);
    lemma_held_on(e, s4 + n4, s5, n5);
    let f = e + s5 + n5;
    lemma_held_before(f, a, "}"@);
    lemma_held_before(f, s1 + n1, "}"@);
    lemma_held_before(f, s2 + n2, "}"@);
    lemma_held_before(f, s3 + n3, "}"@);
    lemma_held_before(f, s4 + n4, "}"@);
    lemma_held_before(f, s5 + n5, "}"@);
}

/// Batches are numbered one after the other, from zero.
pub proof fn law_batches_are_numbered(files: Seq<Seq<char>>, max_tus: usize, s: IndexRunView)
    ensures
        fresh_run(files, max_tus).batches == 0,
        s.in_batch && s.next >= s.batch_end ==> next_action(s) == (IndexActionView::EndBatch {
            number: s.batches,
        }) && after_action(s).batches == s.batches + 1,
        !s.in_batch ==> after_action(s).batches == s.batches,
{
}

/// A database that is no list is refused by its name, and one that is no JSON with
/// what is wrong with it.
pub proof fn law_bad_database_is_named(max_tus: usize, db: Seq<char>, content: Seq<u8>)
    ensures
        json::json_of_bytes(content) matches Err(words) ==> started_run(max_tus, db, content)
            == Err::<IndexRunView, ShimErrorView>(ShimErrorView::Json(words)),
        json::json_of_bytes(content) is Ok && !(json::json_of_bytes(content)->Ok_0 is Array)
            ==> started_run(max_tus, db, content) == Err::<IndexRunView, ShimErrorView>(
            ShimErrorView::Protocol("compile_commands at "@ + db + " is not a JSON array"@),
        ),
{
}

} // verus!
