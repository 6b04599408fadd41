//! The dataset store: the loaded records, the page being shown, and the
//! unsaved-changes and save-in-flight flags.
use vstd::prelude::*;

use crate::codec::{
    all_idle, decode, decode_spec, encode, fields_of, format_of, format_of_path, text_of, Fields,
    FileFormat,
};
use crate::errors::{LoadError, SaveError};
use crate::instruction::{Instruction, TaskMessage};

verus! {

/// Records shown on one page.
pub const PAGE_SIZE: usize = 50;

/// The records read from one file.
pub struct Instructions {
    pub tasks: Vec<Instruction>,
}

/// What a read of a file's contents gives: a missing or unreadable file
/// (`None`) is `LoadError::File`, malformed content `LoadError::Format`.
pub open spec fn read_spec(contents: Option<Seq<char>>, format: FileFormat) -> Result<
    Seq<Fields>,
    LoadError,
> {
    match contents {
        None => Err(LoadError::File),
        Some(c) => match decode_spec(format, c) {
            Some(rs) => Ok(rs),
            None => Err(LoadError::Format),
        },
    }
}

pub open spec fn str_view(o: Option<&str>) -> Option<Seq<char>> {
    match o {
        Some(s) => Some(s@),
        None => None,
    }
}

impl Instructions {
    /// Reads the records of a file's contents in `format`; `None` stands for
    /// a file that could not be read. Every record comes back `Idle`, and
    /// contents that `save` wrote for some records give back those records.
    pub fn load_in(contents: Option<&str>, format: FileFormat) -> (r: Result<Instructions, LoadError>)
        ensures
            match read_spec(str_view(contents), format) {
                Ok(rs) => r matches Ok(d) && fields_of(d.tasks@) == rs && all_idle(d.tasks@),
                Err(e) => r matches Err(x) && x == e,
            },
            forall|rs: Seq<Fields>|
                #[trigger] text_of(format, rs) == str_view(contents)->0 && contents is Some ==> (
                r matches Ok(d) && fields_of(d.tasks@) == rs),
    {
        match contents {
            None => Err(LoadError::File),
            Some(text) => match decode(text, format) {
                Ok(tasks) => Ok(Instructions { tasks }),
                Err(e) => Err(e),
            },
        }
    }

    /// Reads line-delimited contents; what `save` wrote in that form reads
    /// back as the same records.
    pub fn load_jsonl(contents: Option<&str>) -> (r: Result<Instructions, LoadError>)
        ensures
            match read_spec(str_view(contents), FileFormat::Jsonl) {
                Ok(rs) => r matches Ok(d) && fields_of(d.tasks@) == rs && all_idle(d.tasks@),
                Err(e) => r matches Err(x) && x == e,
            },
            forall|rs: Seq<Fields>|
                #[trigger] text_of(FileFormat::Jsonl, rs) == str_view(contents)->0 && contents is Some
                    ==> (r matches Ok(d) && fields_of(d.tasks@) == rs),
    {
        Self::load_in(contents, FileFormat::Jsonl)
    }

    /// Reads array-form contents; what `save` wrote in that form reads back
    /// as the same records.
    pub fn load_json(contents: Option<&str>) -> (r: Result<Instructions, LoadError>)
        ensures
            match read_spec(str_view(contents), FileFormat::Json) {
                Ok(rs) => r matches Ok(d) && fields_of(d.tasks@) == rs && all_idle(d.tasks@),
                Err(e) => r matches Err(x) && x == e,
            },
            forall|rs: Seq<Fields>|
                #[trigger] text_of(FileFormat::Json, rs) == str_view(contents)->0 && contents is Some
                    ==> (r matches Ok(d) && fields_of(d.tasks@) == rs),
    {
        Self::load_in(contents, FileFormat::Json)
    }

    /// Writes the records in `format`.
    pub fn save(&self, format: FileFormat) -> (r: Result<String, SaveError>)
        ensures
            r matches Ok(t) && t@ == text_of(format, fields_of(self.tasks@)),
    {
        encode(&self.tasks, format)
    }
}

/// Index of the last page for `n` records; page 0 when there are none.
pub open spec fn last_page(n: nat) -> nat {
    if n == 0 {
        0
    } else {
        ((n - 1) / (PAGE_SIZE as int)) as nat
    }
}

/// First record of page `p`.
pub open spec fn page_start(p: nat) -> nat {
    p * (PAGE_SIZE as nat)
}

/// One past the last record of page `p` among `n` records.
pub open spec fn page_end(p: nat, n: nat) -> nat {
    if page_start(p) + (PAGE_SIZE as nat) < n {
        page_start(p) + (PAGE_SIZE as nat)
    } else {
        n
    }
}

/// What the store holds, as plain values.
pub struct DatasetView {
    pub tasks: Seq<Instruction>,
    pub dirty: bool,
    pub current_page: nat,
    pub saving: bool,
    /// A load has completed, well or not.
    pub ready: bool,
    /// An edit came in after the save in flight took its text.
    pub edited_during_save: bool,
}

impl DatasetView {
    /// The current page is a page of the records (page 0 when there are
    /// none), and a store that has not completed a load holds no records.
    pub open spec fn wf(self) -> bool {
        &&& self.current_page <= last_page(self.tasks.len())
        &&& !self.ready ==> self.tasks.len() == 0
    }

    /// The store right after `tasks` were installed by a load.
    pub open spec fn installed(self, old: DatasetView, tasks: Seq<Instruction>) -> bool {
        self == DatasetView {
            tasks,
            dirty: false,
            current_page: 0,
            ready: true,
            edited_during_save: false,
            ..old
        }
    }

    /// The store after a failed load: unchanged where a load had completed
    /// before, empty but ready otherwise.
    pub open spec fn after_failed_load(self, old: DatasetView) -> bool {
        if old.ready {
            self == old
        } else {
            self.installed(old, Seq::empty())
        }
    }
}

/// Whether a user action changes what would be written to disk.
pub open spec fn is_edit(m: TaskMessage) -> bool {
    match m {
        TaskMessage::InstructionChanged(_) => true,
        TaskMessage::InputChanged(_) => true,
        TaskMessage::Delete => true,
        _ => false,
    }
}

/// The result of asking the store to load a file.
#[derive(Debug, Clone, Copy, PartialEq, Eq, Structural)]
pub enum LoadOutcome {
    /// The path has neither a `.json` nor a `.jsonl` extension: nothing was read.
    InvalidFileType,
    Loaded,
    Failed(LoadError),
}

/// The result of asking the store to save.
#[derive(Debug, Clone, PartialEq, Eq)]
pub enum SaveRequest {
    /// A save is still in flight; this one is dropped.
    Rejected,
    /// The text to write; the store now counts a save as in flight.
    Write(String),
}

/// What loading `contents` from `path` does: a path that names neither
/// form is only reported; otherwise the records are installed, or the
/// failure is reported and leaves the store as `after_failed_load` says.
pub open spec fn load_result(
    old: DatasetView,
    new: DatasetView,
    path: Seq<char>,
    contents: Option<Seq<char>>,
    r: LoadOutcome,
) -> bool {
    match format_of(path) {
        None => r == LoadOutcome::InvalidFileType && new == old,
        Some(f) => match read_spec(contents, f) {
            Ok(rs) => r == LoadOutcome::Loaded && fields_of(new.tasks) == rs && all_idle(new.tasks)
                && new.installed(old, new.tasks),
            Err(e) => r == LoadOutcome::Failed(e) && new.after_failed_load(old),
        },
    }
}

/// What a save request does: rejected with no change while a save is in
/// flight; otherwise the text of the records in `format`, with a save now
/// in flight.
pub open spec fn save_result(old: DatasetView, new: DatasetView, format: FileFormat, r: SaveRequest) -> bool {
    if old.saving {
        r == SaveRequest::Rejected && new == old
    } else {
        match r {
            SaveRequest::Rejected => false,
            SaveRequest::Write(t) => t@ == text_of(format, fields_of(old.tasks)) && new == (
            DatasetView { saving: true, edited_during_save: false, ..old }),
        }
    }
}

/// A load that read `rs` from `contents` in the form `path` names: the
/// text that form writes for some records loads as exactly those records.
pub open spec fn load_round_trip(
    new: DatasetView,
    path: Seq<char>,
    contents: Option<Seq<char>>,
    r: LoadOutcome,
) -> bool {
    forall|rs: Seq<Fields>|
        format_of(path) is Some && contents is Some && #[trigger] text_of(format_of(path)->0, rs)
            == contents->0 ==> r == LoadOutcome::Loaded && fields_of(new.tasks) == rs
}

/// What finishing the save in flight does: nothing is in flight any more;
/// a successful save leaves the store clean unless an edit came in while it
/// was in flight, and a failed one leaves `dirty` as it was.
pub open spec fn save_finished_result(
    old: DatasetView,
    new: DatasetView,
    result: Result<(), SaveError>,
) -> bool {
    new == (DatasetView {
        saving: false,
        dirty: if result is Ok {
            old.edited_during_save
        } else {
            old.dirty
        },
        edited_during_save: false,
        ..old
    })
}

/// What a user action on the record at `index` does: a field change or a
/// deletion marks the store dirty (and, during a save, marks the edit as
/// not yet written); a deletion removes the record and moves back to the new
/// last page if the current one is gone; any other action changes that
/// record alone, as `Instruction::after` says.
pub open spec fn task_updated(old: DatasetView, new: DatasetView, index: int, m: TaskMessage) -> bool {
    &&& new.dirty == (old.dirty || is_edit(m))
    &&& new.edited_during_save == (old.edited_during_save || (old.saving && is_edit(m)))
    &&& new.saving == old.saving
    &&& new.ready == old.ready
    &&& m is Delete ==> new.tasks == old.tasks.remove(index) && new.current_page == if old.current_page
        <= last_page(new.tasks.len()) {
        old.current_page
    } else {
        last_page(new.tasks.len())
    }
    &&& !(m is Delete) ==> new.current_page == old.current_page && new.tasks.len() == old.tasks.len()
        && (forall|i: int| 0 <= i < old.tasks.len() && i != index ==> new.tasks[i] == old.tasks[i])
        && new.tasks[index].fields() == old.tasks[index].after(m).fields() && new.tasks[index].state
        == old.tasks[index].after(m).state
}

/// Dirty tracking: a successful load leaves the store clean; an edit makes
/// it dirty; a successful save with no edit made while it was in flight
/// leaves it clean; a failed save leaves it as dirty as it was.
pub proof fn lemma_dirty_tracking(
    old: DatasetView,
    new: DatasetView,
    tasks: Seq<Instruction>,
    index: int,
    m: TaskMessage,
    result: Result<(), SaveError>,
)
    ensures
        new.installed(old, tasks) ==> !new.dirty,
        task_updated(old, new, index, m) && is_edit(m) ==> new.dirty,
        save_finished_result(old, new, result) && result is Ok && !old.edited_during_save
            ==> !new.dirty,
        save_finished_result(old, new, result) && result is Err ==> new.dirty == old.dirty,
{
}

/// A failed load overwrites no records: a store keeps the records it had
/// (none, if no load had completed), and a loaded store is left as it was.
pub proof fn lemma_failed_load_keeps_records(old: DatasetView, new: DatasetView)
    requires
        old.wf(),
        new.after_failed_load(old),
    ensures
        new.tasks == old.tasks,
        old.ready ==> new == old,
        new.ready,
{
}

/// The current page is never empty unless the dataset is: it starts before
/// the last record, and holds at most a page of records.
pub proof fn lemma_current_page_not_empty(v: DatasetView)
    requires
        v.wf(),
    ensures
        v.tasks.len() == 0 ==> v.current_page == 0,
        v.tasks.len() > 0 ==> page_start(v.current_page) < page_end(v.current_page, v.tasks.len()),
        page_end(v.current_page, v.tasks.len()) <= v.tasks.len(),
        page_end(v.current_page, v.tasks.len()) - page_start(v.current_page) <= PAGE_SIZE,
{
    lemma_page_bounds(v.current_page, v.tasks.len());
}

/// The dataset store.
pub struct Dataset {
    tasks: Vec<Instruction>,
    dirty: bool,
    current_page: usize,
    saving: bool,
    ready: bool,
    edited_during_save: bool,
}

impl View for Dataset {
    type V = DatasetView;

    closed spec fn view(&self) -> DatasetView {
        DatasetView {
            tasks: self.tasks@,
            dirty: self.dirty,
            current_page: self.current_page as nat,
            saving: self.saving,
            ready: self.ready,
            edited_during_save: self.edited_during_save,
        }
    }
}

proof fn lemma_page_bounds(p: nat, n: nat)
    requires
        p <= last_page(n),
    ensures
        n == 0 ==> p == 0,
        n > 0 ==> page_start(p) < n,
        page_start(p) <= page_end(p, n) <= n,
{
    if n > 0 {
        let q = ((n - 1) / 50) as nat;
        assert(p * 50 <= q * 50) by (nonlinear_arith)
            requires
                p <= q,
        ;
        assert(q * 50 <= n - 1) by (nonlinear_arith)
            requires
                q == (n - 1) / 50,
                n >= 1,
        ;
    }
}

impl Dataset {
    /// An empty store waiting for its first load.
    pub fn new() -> (r: Dataset)
        ensures
            r@ == (DatasetView {
                tasks: Seq::empty(),
                dirty: false,
                current_page: 0,
                saving: false,
                ready: false,
                edited_during_save: false,
            }),
    {
        Dataset {
            tasks: Vec::new(),
            dirty: false,
            current_page: 0,
            saving: false,
            ready: false,
            edited_during_save: false,
        }
    }

    /// Takes in the result of a load: on success the records are installed,
    /// the first page shown and the store clean; a failure leaves a loaded
    /// store as it was, and makes a waiting one empty but ready.
    pub fn load_finished(&mut self, outcome: Result<Instructions, LoadError>)
        requires
            old(self)@.wf(),
        ensures
            final(self)@.wf(),
            match outcome {
                Ok(d) => final(self)@.installed(old(self)@, d.tasks@),
                Err(_) => final(self)@.after_failed_load(old(self)@),
            },
    {
        match outcome {
            Ok(d) => {
                self.tasks = d.tasks;
                self.current_page = 0;
                self.dirty = false;
                self.ready = true;
                self.edited_during_save = false;
            },
            Err(_) => {
                if !self.ready {
                    self.tasks = Vec::new();
                    self.current_page = 0;
                    self.dirty = false;
                    self.ready = true;
                    self.edited_during_save = false;
                }
            },
        }
    }

    /// Loads the contents of the file at `path` (`None`: it could not be
    /// read), in the form its extension names. A path with another
    /// extension is only reported; a malformed file changes nothing but a
    /// store still waiting for its first load.
    pub fn load(&mut self, path: &str, contents: Option<&str>) -> (r: LoadOutcome)
        requires
            old(self)@.wf(),
        ensures
            final(self)@.wf(),
            load_result(old(self)@, final(self)@, path@, str_view(contents), r),
            load_round_trip(final(self)@, path@, str_view(contents), r),
    {
        let format = match format_of_path(path) {
            Some(f) => f,
            None => return LoadOutcome::InvalidFileType,
        };
        match Instructions::load_in(contents, format) {
            Ok(d) => {
                self.load_finished(Ok(d));
                LoadOutcome::Loaded
            },
            Err(e) => {
                self.load_finished(Err(e));
                LoadOutcome::Failed(e)
            },
        }
    }


    /// Starts a save in `format`. While a save is in flight another is
    /// rejected and nothing changes; otherwise the store hands out the text
    /// to write and counts a save as in flight.
    pub fn save(&mut self, format: FileFormat) -> (r: SaveRequest)
        requires
            old(self)@.wf(),
        ensures
            final(self)@.wf(),
            save_result(old(self)@, final(self)@, format, r),
    {
        if self.saving {
            return SaveRequest::Rejected;
        }
        match encode(&self.tasks, format) {
            Ok(t) => {
                self.saving = true;
                self.edited_during_save = false;
                SaveRequest::Write(t)
            },
            // `encode` always succeeds.
            Err(_) => SaveRequest::Rejected,
        }
    }

    /// Takes in the result of writing the save in flight: it is no longer
    /// in flight, and a successful one marks the store clean unless an edit
    /// came in meanwhile.
    pub fn save_finished(&mut self, result: Result<(), SaveError>)
        requires
            old(self)@.wf(),
            old(self)@.saving,
        ensures
            final(self)@.wf(),
            save_finished_result(old(self)@, final(self)@, result),
    {
        self.saving = false;
        if result.is_ok() {
            self.dirty = self.edited_during_save;
        }
        self.edited_during_save = false;
    }

    /// Applies a user action to the record at `index`. A field change
    /// or a deletion marks the store dirty; a deletion that empties the last
    /// page moves back to the new last page.
    pub fn update_task(&mut self, index: usize, m: TaskMessage)
        requires
            old(self)@.wf(),
            index < old(self)@.tasks.len(),
        ensures
            final(self)@.wf(),
            task_updated(old(self)@, final(self)@, index as int, m),
    {
        let edit = match &m {
            TaskMessage::InstructionChanged(_) => true,
            TaskMessage::InputChanged(_) => true,
            TaskMessage::Delete => true,
            _ => false,
        };
        if edit {
            self.dirty = true;
            if self.saving {
                self.edited_during_save = true;
            }
        }
        match m {
            TaskMessage::Delete => {
                self.tasks.remove(index);
                let n = self.tasks.len();
                let last = if n == 0 {
                    0
                } else {
                    (n - 1) / PAGE_SIZE
                };
                if self.current_page > last {
                    self.current_page = last;
                }
            },
            _ => {
                self.tasks[index].update(m);
            },
        }
    }

    /// Shows the next page; on the last page nothing changes.
    pub fn page_forward(&mut self)
        requires
            old(self)@.wf(),
        ensures
            final(self)@.wf(),
            final(self)@ == (DatasetView {
                current_page: if old(self)@.current_page < last_page(old(self)@.tasks.len()) {
                    old(self)@.current_page + 1
                } else {
                    old(self)@.current_page
                },
                ..old(self)@
            }),
    {
        let n = self.tasks.len();
        let last = if n == 0 {
            0
        } else {
            (n - 1) / PAGE_SIZE
        };
        if self.current_page < last {
            self.current_page = self.current_page + 1;
        }
    }

    /// Shows the previous page; on the first page nothing changes.
    pub fn page_back(&mut self)
        requires
            old(self)@.wf(),
        ensures
            final(self)@.wf(),
            final(self)@ == (DatasetView {
                current_page: if old(self)@.current_page > 0 {
                    (old(self)@.current_page - 1) as nat
                } else {
                    0
                },
                ..old(self)@
            }),
    {
        if self.current_page > 0 {
            self.current_page = self.current_page - 1;
        }
    }

    /// The records of the current page, each with its position in the
    /// whole dataset.
    pub fn visible_slice(&self) -> (r: Vec<(usize, &Instruction)>)
        requires
            self@.wf(),
        ensures
            r@.len() == page_end(self@.current_page, self@.tasks.len()) - page_start(
                self@.current_page,
            ),
            forall|i: int|
                0 <= i < r@.len() ==> (#[trigger] r@[i]).0 == page_start(self@.current_page) + i
                    && *r@[i].1 == self@.tasks[page_start(self@.current_page) + i],
    {
        proof {
            lemma_page_bounds(self.current_page as nat, self.tasks@.len());
        }
        let n = self.tasks.len();
        let start = self.current_page * PAGE_SIZE;
        let end = if n - start > PAGE_SIZE {
            start + PAGE_SIZE
        } else {
            n
        };
        let mut out: Vec<(usize, &Instruction)> = Vec::new();
        let mut i = start;
        while i < end
            invariant
                start == page_start(self@.current_page),
                end == page_end(self@.current_page, self@.tasks.len()),
                n == self@.tasks.len(),
                start <= i <= end <= n,
                out@.len() == i - start,
                forall|k: int|
                    0 <= k < out@.len() ==> (#[trigger] out@[k]).0 == start + k && *out@[k].1
                        == self@.tasks[start + k],
            decreases end - i,
        {
            out.push((i, &self.tasks[i]));
            i = i + 1;
        }
        out
    }

    /// Number of records.
    pub fn len(&self) -> (r: usize)
        ensures
            r == self@.tasks.len(),
    {
        self.tasks.len()
    }

    /// The record at `index`.
    pub fn get(&self, index: usize) -> (r: &Instruction)
        requires
            index < self@.tasks.len(),
        ensures
            *r == self@.tasks[index as int],
    {
        &self.tasks[index]
    }

    /// The page being shown.
    pub fn current_page(&self) -> (r: usize)
        ensures
            r == self@.current_page,
    {
        self.current_page
    }

    /// Whether there are changes not yet saved.
    pub fn is_dirty(&self) -> (r: bool)
        ensures
            r == self@.dirty,
    {
        self.dirty
    }

    /// Whether a save is in flight.
    pub fn is_saving(&self) -> (r: bool)
        ensures
            r == self@.saving,
    {
        self.saving
    }

    /// Whether a load has completed.
    pub fn is_ready(&self) -> (r: bool)
        ensures
            r == self@.ready,
    {
        self.ready
    }
}

/// A request from the shell's file menu.
pub enum Command {
    /// Open `path`, whose contents are given (`None`: it could not be read).
    OpenFile { path: String, contents: Option<String> },
    /// Save to `path`.
    SaveFileAs { path: String },
}

/// What the store did with a `Command`.
pub enum Handled {
    Opened(LoadOutcome),
    Saving(SaveRequest),
}

/// The form a save to `path` writes: the array form for a `.json` path,
/// the line-delimited form otherwise.
pub open spec fn save_format(path: Seq<char>) -> FileFormat {
    if format_of(path) == Some(FileFormat::Json) {
        FileFormat::Json
    } else {
        FileFormat::Jsonl
    }
}

pub open spec fn string_view(o: Option<String>) -> Option<Seq<char>> {
    match o {
        Some(s) => Some(s@),
        None => None,
    }
}

/// Carries out the shell's file commands on a store.
pub struct Delegate;

impl Delegate {
    /// Opens or saves as `cmd` asks.
    pub fn command(&mut self, cmd: Command, data: &mut Dataset) -> (r: Handled)
        requires
            old(data)@.wf(),
        ensures
            final(data)@.wf(),
            match cmd {
                Command::OpenFile { path, contents } => r matches Handled::Opened(o) && load_result(
                    old(data)@,
                    final(data)@,
                    path@,
                    string_view(contents),
                    o,
                ) && load_round_trip(final(data)@, path@, string_view(contents), o),
                Command::SaveFileAs { path } => r matches Handled::Saving(q) && save_result(
                    old(data)@,
                    final(data)@,
                    save_format(path@),
                    q,
                ),
            },
    {
        match cmd {
            Command::OpenFile { path, contents } => {
                let o = match &contents {
                    Some(c) => data.load(path.as_str(), Some(c.as_str())),
                    None => data.load(path.as_str(), None),
                };
                Handled::Opened(o)
            },
            Command::SaveFileAs { path } => {
                let format = match format_of_path(path.as_str()) {
                    Some(FileFormat::Json) => FileFormat::Json,
                    _ => FileFormat::Jsonl,
                };
                Handled::Saving(data.save(format))
            },
        }
    }
}

} // verus!
