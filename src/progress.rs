//! The progress record of one batch run and its report.

use vstd::prelude::*;

verus! {

/// Where one item stands in its life cycle.
#[derive(Clone, Copy, Debug, PartialEq, Eq, Structural)]
pub enum FileStatus {
    Waiting,
    Processing,
    Completed,
    Failed,
}

impl FileStatus {
    /// Completed and Failed are terminal: nothing moves an item out of them.
    pub open spec fn is_terminal(self) -> bool {
        self is Completed || self is Failed
    }

    /// The one-step moves an item may make in a single mutation (or none).
    pub open spec fn may_become(self, next: FileStatus) -> bool {
        ||| next == self
        ||| (self is Waiting && next is Processing)
        ||| (self is Processing && next.is_terminal())
    }

    pub open spec fn label(self) -> Seq<char> {
        match self {
            FileStatus::Waiting => "waiting"@,
            FileStatus::Processing => "processing"@,
            FileStatus::Completed => "completed"@,
            FileStatus::Failed => "error"@,
        }
    }

    /// The status as the text that observers see.
    pub fn as_string(&self) -> (s: String)
        ensures
            s@ == self.label(),
    {
        match self {
            FileStatus::Waiting => String::from_str("waiting"),
            FileStatus::Processing => String::from_str("processing"),
            FileStatus::Completed => String::from_str("completed"),
            FileStatus::Failed => String::from_str("error"),
        }
    }
}

/// The mathematical value of one item's progress.
pub struct FileView {
    pub path: Seq<char>,
    pub status: FileStatus,
    pub result: Option<Seq<char>>,
    pub error: Option<Seq<char>>,
}

impl FileView {
    /// A result reference only once completed, an error only once failed.
    pub open spec fn wf(self) -> bool {
        match self.status {
            FileStatus::Waiting | FileStatus::Processing => self.result is None && self.error is None,
            FileStatus::Completed => self.result is Some && self.error is None,
            FileStatus::Failed => self.error is Some && self.result is None,
        }
    }
}

/// Progress of one input item.
pub struct FileProgress {
    pub file_path: String,
    pub status: FileStatus,
    pub result: Option<String>,
    pub error: Option<String>,
}

impl View for FileProgress {
    type V = FileView;

    open spec fn view(&self) -> FileView {
        FileView {
            path: self.file_path@,
            status: self.status,
            result: self.result.deep_view(),
            error: self.error.deep_view(),
        }
    }
}

/// Number of items in `files` whose status is terminal.
pub open spec fn count_terminal(files: Seq<FileView>) -> nat
    decreases files.len(),
{
    if files.len() == 0 {
        0
    } else {
        count_terminal(files.drop_last()) + if files.last().status.is_terminal() {
            1nat
        } else {
            0nat
        }
    }
}

/// The mathematical value of a whole batch's progress.
pub struct ProgressView {
    pub files: Seq<FileView>,
    pub current_task: Seq<char>,
    pub completed: nat,
    pub total: nat,
}

impl ProgressView {
    /// `total` is the number of items and `completed` the number of
    /// terminal ones; each item is well formed.
    pub open spec fn wf(self) -> bool {
        &&& self.total == self.files.len()
        &&& self.completed == count_terminal(self.files)
        &&& forall|i: int| 0 <= i < self.files.len() ==> #[trigger] self.files[i].wf()
    }
}

/// The shared progress record of one batch run.
pub struct ProcessProgress {
    pub files: Vec<FileProgress>,
    pub current_task: String,
    pub completed: usize,
    pub total: usize,
}

impl View for ProcessProgress {
    type V = ProgressView;

    open spec fn view(&self) -> ProgressView {
        ProgressView {
            files: self.files@.map_values(|f: FileProgress| f@),
            current_task: self.current_task@,
            completed: self.completed as nat,
            total: self.total as nat,
        }
    }
}

impl ProgressView {
    /// The progress that `ProcessProgress::begin` builds for `paths`.
    pub open spec fn initial(paths: Seq<String>) -> ProgressView {
        ProgressView {
            files: Seq::new(
                paths.len(),
                |i: int|
                    FileView {
                        path: paths[i]@,
                        status: FileStatus::Waiting,
                        result: None,
                        error: None,
                    },
            ),
            current_task: "prepare for processing..."@,
            completed: 0,
            total: paths.len(),
        }
    }

    /// Item `i` moved from Waiting to Processing.
    pub open spec fn start(self, i: int) -> ProgressView {
        ProgressView {
            files: self.files.update(i, FileView { status: FileStatus::Processing, ..self.files[i] }),
            current_task: "Processing: "@ + self.files[i].path,
            ..self
        }
    }

    /// Item `i` reached its terminal state with `outcome`: the result
    /// reference on success, the error message on failure.
    pub open spec fn record(self, i: int, outcome: Result<String, String>) -> ProgressView {
        let f = self.files[i];
        let g = match outcome {
            Ok(r) => FileView { status: FileStatus::Completed, result: Some(r@), ..f },
            Err(e) => FileView { status: FileStatus::Failed, error: Some(e@), ..f },
        };
        ProgressView { files: self.files.update(i, g), completed: self.completed + 1, ..self }
    }

    /// Every item either kept its status or made one allowed step, and
    /// items that were terminal did not change at all.
    pub open spec fn steps_to(self, next: ProgressView) -> bool {
        &&& next.files.len() == self.files.len()
        &&& forall|i: int|
            0 <= i < self.files.len() ==> self.files[i].status.may_become(
                #[trigger] next.files[i].status,
            )
        &&& forall|i: int|
            0 <= i < self.files.len() && self.files[i].status.is_terminal() ==> #[trigger] next.files[i]
                == self.files[i]
    }
}

/// The text that stands for one item in the report: its result reference
/// once completed, its error message once failed, and its status label
/// while it is still unfinished.
pub open spec fn segment(f: FileView) -> Seq<char> {
    match f.status {
        FileStatus::Completed => match f.result {
            Some(r) => r,
            None => Seq::empty(),
        },
        FileStatus::Failed => match f.error {
            Some(e) => e,
            None => "Unknown error"@,
        },
        _ => f.status.label(),
    }
}

/// One segment per item, in item order.
pub open spec fn segments(files: Seq<FileView>) -> Seq<Seq<char>> {
    Seq::new(files.len(), |i: int| segment(files[i]))
}

/// What stands between two segments of the report.
pub open spec fn separator() -> Seq<char> {
    "\n\n---\n\n"@
}

/// `parts` joined with `sep` between each neighbouring pair.
pub open spec fn join(parts: Seq<Seq<char>>, sep: Seq<char>) -> Seq<char>
    decreases parts.len(),
{
    if parts.len() == 0 {
        Seq::empty()
    } else if parts.len() == 1 {
        parts[0]
    } else {
        join(parts.drop_last(), sep) + sep + parts.last()
    }
}

/// The report of a batch: the segments of its items joined by the separator.
pub open spec fn report_text(files: Seq<FileView>) -> Seq<char> {
    join(segments(files), separator())
}

/// Failure of a whole batch run.
#[derive(Clone, Copy, Debug, PartialEq, Eq, Structural)]
pub enum BatchError {
    /// The batch was given no items.
    EmptyInput,
}

impl BatchError {
    pub fn message(&self) -> (s: String)
        ensures
            s@ == "No file paths provided"@,
    {
        String::from_str("No file paths provided")
    }
}

proof fn lemma_count_terminal_bound(files: Seq<FileView>)
    ensures
        count_terminal(files) <= files.len(),
    decreases files.len(),
{
    if files.len() > 0 {
        lemma_count_terminal_bound(files.drop_last());
    }
}

proof fn lemma_count_terminal_update(files: Seq<FileView>, i: int, f: FileView)
    requires
        0 <= i < files.len(),
    ensures
        count_terminal(files.update(i, f)) + (if files[i].status.is_terminal() { 1int } else { 0int })
            == count_terminal(files) + (if f.status.is_terminal() { 1int } else { 0int }),
    decreases files.len(),
{
    let u = files.update(i, f);
    if i == files.len() - 1 {
        assert(u.drop_last() =~= files.drop_last());
    } else {
        assert(u.drop_last() =~= files.drop_last().update(i, f));
        lemma_count_terminal_update(files.drop_last(), i, f);
    }
}

proof fn lemma_count_terminal_none(files: Seq<FileView>)
    requires
        forall|i: int| 0 <= i < files.len() ==> !(#[trigger] files[i]).status.is_terminal(),
    ensures
        count_terminal(files) == 0,
    decreases files.len(),
{
    if files.len() > 0 {
        lemma_count_terminal_none(files.drop_last());
    }
}

/// The segment of one item, as text.
fn segment_text(f: &FileProgress) -> (s: String)
    ensures
        s@ == segment(f@),
{
    match f.status {
        FileStatus::Completed => match &f.result {
            Some(r) => r.clone(),
            None => String::new(),
        },
        FileStatus::Failed => match &f.error {
            Some(e) => e.clone(),
            None => String::from_str("Unknown error"),
        },
        _ => f.status.as_string(),
    }
}

proof fn lemma_all_terminal(files: Seq<FileView>)
    requires
        count_terminal(files) == files.len(),
    ensures
        forall|i: int| 0 <= i < files.len() ==> (#[trigger] files[i]).status.is_terminal(),
    decreases files.len(),
{
    if files.len() > 0 {
        lemma_count_terminal_bound(files.drop_last());
        lemma_all_terminal(files.drop_last());
        assert forall|i: int| 0 <= i < files.len() implies (#[trigger] files[i]).status.is_terminal() by {
            if i < files.len() - 1 {
                assert(files[i] == files.drop_last()[i]);
            }
        }
    }
}

/// Over any sequence of snapshots in which each follows from the one
/// before by allowed steps, an item that was terminal in one snapshot is
/// unchanged in every later one.
pub proof fn lemma_terminal_sticky(trace: Seq<ProgressView>, j: int, k: int, i: int)
    requires
        forall|m: int| 0 <= m < trace.len() - 1 ==> (#[trigger] trace[m]).steps_to(trace[m + 1]),
        0 <= j <= k < trace.len(),
        0 <= i < trace[j].files.len(),
        trace[j].files[i].status.is_terminal(),
    ensures
        trace[k].files.len() == trace[j].files.len(),
        trace[k].files[i] == trace[j].files[i],
    decreases k - j,
{
    if j < k {
        assert(trace[k - 1].steps_to(trace[k]));
        lemma_terminal_sticky(trace, j, k - 1, i);
    }
}

/// Once every item has finished, the report has exactly one segment per
/// item, in input order: the result reference of each completed item and
/// the error message of each failed one.
pub proof fn lemma_final_report(p: ProgressView)
    requires
        p.wf(),
        p.completed == p.total,
    ensures
        segments(p.files).len() == p.total,
        report_text(p.files) == join(segments(p.files), separator()),
        forall|i: int|
            0 <= i < p.total ==> {
                ||| (p.files[i].status is Completed && p.files[i].result == Some(
                    #[trigger] segments(p.files)[i],
                ))
                ||| (p.files[i].status is Failed && p.files[i].error == Some(segments(p.files)[i]))
            },
{
    lemma_all_terminal(p.files);
    assert forall|i: int| 0 <= i < p.total implies {
        ||| (p.files[i].status is Completed && p.files[i].result == Some(
            #[trigger] segments(p.files)[i],
        ))
        ||| (p.files[i].status is Failed && p.files[i].error == Some(segments(p.files)[i]))
    } by {
        assert(p.files[i].wf());
        assert(p.files[i].status.is_terminal());
    }
}

/// The report depends on the items alone: deriving it again from the same
/// items, whatever the current task says, gives the same text.
pub proof fn lemma_report_stable(a: ProgressView, b: ProgressView)
    requires
        a.files == b.files,
    ensures
        report_text(a.files) == report_text(b.files),
{
}

impl ProcessProgress {
    /// Seeds the progress of a batch: one Waiting item per path, in input
    /// order. An empty batch is refused before anything is built.
    pub fn begin(paths: &Vec<String>) -> (r: Result<ProcessProgress, BatchError>)
        ensures
            paths@.len() == 0 <==> r is Err,
            r is Err ==> r == Err::<ProcessProgress, BatchError>(BatchError::EmptyInput),
            r matches Ok(p) ==> p@ == ProgressView::initial(paths@) && p@.wf(),
    {
        if paths.len() == 0 {
            return Err(BatchError::EmptyInput);
        }
        let mut files: Vec<FileProgress> = Vec::new();
        let mut i: usize = 0;
        while i < paths.len()
            invariant
                i <= paths@.len(),
                files@.len() == i,
                forall|j: int|
                    0 <= j < i ==> (#[trigger] files@[j])@ == ProgressView::initial(
                        paths@,
                    ).files[j],
            decreases paths@.len() - i,
        {
            files.push(
                FileProgress {
                    file_path: paths[i].clone(),
                    status: FileStatus::Waiting,
                    result: None,
                    error: None,
                },
            );
            i = i + 1;
        }
        let p = ProcessProgress {
            files,
            current_task: String::from_str("prepare for processing..."),
            completed: 0,
            total: paths.len(),
        };
        let ghost init = ProgressView::initial(paths@);
        assert(p@.files =~= init.files);
        proof {
            lemma_count_terminal_none(init.files);
        }
        Ok(p)
    }

    /// Marks item `idx` as Processing. Only a Waiting item moves; for any
    /// other index nothing changes and `false` is returned.
    pub fn start_item(&mut self, idx: usize) -> (started: bool)
        requires
            old(self)@.wf(),
        ensures
            started == (idx < old(self)@.files.len() && old(self)@.files[idx as int].status
                is Waiting),
            started ==> final(self)@ == old(self)@.start(idx as int),
            !started ==> final(self)@ == old(self)@,
            final(self)@.wf(),
            old(self)@.steps_to(final(self)@),
    {
        if idx >= self.files.len() {
            return false;
        }
        if self.files[idx].status != FileStatus::Waiting {
            return false;
        }
        let ghost before = self@;
        proof {
            assert(before.files[idx as int].wf());
        }
        let path = self.files[idx].file_path.clone();
        let label = String::from_str("Processing: ").concat(path.as_str());
        let f = FileProgress { file_path: path, status: FileStatus::Processing, result: None, error: None };
        self.files.set(idx, f);
        self.current_task = label;
        proof {
            lemma_count_terminal_update(before.files, idx as int, f@);
            assert(self@.files =~= before.start(idx as int).files);
        }
        true
    }

    /// Records the outcome of item `idx`: Completed with the result
    /// reference, or Failed with the error message, and counts it. Only a
    /// Processing item moves; for any other index nothing changes and
    /// `false` is returned.
    pub fn finish_item(&mut self, idx: usize, outcome: Result<String, String>) -> (recorded: bool)
        requires
            old(self)@.wf(),
        ensures
            recorded == (idx < old(self)@.files.len() && old(self)@.files[idx as int].status
                is Processing),
            recorded ==> final(self)@ == old(self)@.record(idx as int, outcome),
            !recorded ==> final(self)@ == old(self)@,
            final(self)@.wf(),
            old(self)@.steps_to(final(self)@),
    {
        if idx >= self.files.len() {
            return false;
        }
        if self.files[idx].status != FileStatus::Processing {
            return false;
        }
        let ghost before = self@;
        proof {
            assert(before.files[idx as int].wf());
        }
        let path = self.files[idx].file_path.clone();
        let f = match outcome {
            Ok(r) => FileProgress { file_path: path, status: FileStatus::Completed, result: Some(r), error: None },
            Err(e) => FileProgress { file_path: path, status: FileStatus::Failed, result: None, error: Some(e) },
        };
        proof {
            lemma_count_terminal_update(before.files, idx as int, f@);
            lemma_count_terminal_bound(before.files.update(idx as int, f@));
        }
        self.files.set(idx, f);
        self.completed = self.completed + 1;
        proof {
            assert(self@.files =~= before.record(idx as int, outcome).files);
        }
        true
    }

    /// The report: one segment per item, in input order.
    pub fn report(&self) -> (r: String)
        ensures
            r@ == report_text(self@.files),
    {
        let ghost segs = segments(self@.files);
        let mut r = String::new();
        let mut i: usize = 0;
        while i < self.files.len()
            invariant
                i <= self.files@.len(),
                segs == segments(self@.files),
                r@ == join(segs.take(i as int), separator()),
            decreases self.files@.len() - i,
        {
            if i > 0 {
                r.append("\n\n---\n\n");
            }
            let seg = segment_text(&self.files[i]);
            r.append(seg.as_str());
            proof {
                let t = segs.take(i as int + 1);
                assert(t.drop_last() =~= segs.take(i as int));
                if i == 0 {
                    assert(r@ =~= join(t, separator()));
                }
            }
            i = i + 1;
        }
        assert(segs.take(self.files@.len() as int) =~= segs);
        r
    }

    /// Marks the run as done; the items are left as they are.
    pub fn finish(&mut self)
        requires
            old(self)@.wf(),
        ensures
            final(self)@ == (ProgressView { current_task: "Completed!"@, ..old(self)@ }),
            final(self)@.wf(),
    {
        self.current_task = String::from_str("Completed!");
    }
}

} // verus!
