//! Copy/move transfers: the progress state driven by worker events, conflict answers, and
//! the per-source plan a worker follows.
use vstd::prelude::*;

use crate::paths::{file_name, file_name_of, join_of, join_path, parent_of, parent_path, paths_equal, same_path};
use crate::text::{append_str, chars_of, string_from_chars};
use crate::view::{lemma_first_match, lemma_has_push, position_in, selection_has};

verus! {

#[derive(Clone, Copy, Debug, PartialEq, Eq, Structural)]
pub enum TransferMode {
    Copy,
    Move,
}

/// Answer to a name conflict at the destination.
#[derive(Clone, Copy, Debug, PartialEq, Eq, Structural)]
pub enum ConflictChoice {
    Skip,
    Replace,
    Rename,
    Cancel,
}

/// Progress shown for the running (or last) transfer.
pub struct TransferProgress {
    pub active: bool,
    pub counting: bool,
    pub operation: String,
    pub label: String,
    pub total_files: usize,
    pub done_files: usize,
    pub total_bytes: u64,
    pub done_bytes: u64,
    pub error: Option<String>,
}

/// A name conflict waiting for an answer.
pub struct PendingConflict {
    pub source: String,
    pub destination: String,
}

/// What a transfer worker reports.
pub enum TransferEvent {
    Totals { total_files: usize, total_bytes: u64 },
    Progress { done_files: usize, done_bytes: u64, current: String },
    Done { invalidate: Vec<String> },
    Error(String),
}

/// State of transfers. `listening` is whether worker events are still taken in;
/// `conflict_state` whether an apply-to-all answer can still be shared with the worker.
pub struct TransferManager {
    pub listening: bool,
    pub progress: TransferProgress,
    pub pending_conflict: Option<PendingConflict>,
    pub apply_to_all: bool,
    pub conflict_state: bool,
    pub invalidation: Vec<String>,
}

fn empty_string() -> (r: String)
    ensures
        r@ == Seq::<char>::empty(),
{
    String::new()
}

fn text(s: &str) -> (r: String)
    ensures
        r@ == s@,
{
    string_from_chars(&chars_of(s))
}

/// Paths in order with every path equal to an earlier one dropped.
pub open spec fn unique_paths(s: Seq<Seq<char>>) -> Seq<Seq<char>>
    decreases s.len(),
{
    if s.len() == 0 {
        Seq::empty()
    } else if selection_has(s.drop_last(), s.last()) {
        unique_paths(s.drop_last())
    } else {
        unique_paths(s.drop_last()).push(s.last())
    }
}

/// Progress of an idle manager.
pub open spec fn idle_progress(p: TransferProgress) -> bool {
    !p.active && !p.counting && p.operation@ == Seq::<char>::empty() && p.label@
        == Seq::<char>::empty() && p.total_files == 0 && p.done_files == 0 && p.total_bytes == 0
        && p.done_bytes == 0 && p.error is None
}

/// A manager with no transfer: not listening, idle progress, no conflict, nothing to reload.
pub open spec fn idle_manager(m: TransferManager) -> bool {
    &&& !m.listening
    &&& idle_progress(m.progress)
    &&& m.pending_conflict is None
    &&& !m.apply_to_all
    &&& !m.conflict_state
    &&& m.invalidation@.len() == 0
}

/// What the caller must do after an answer to a conflict.
pub struct ConflictResolution {
    /// The conflict answered, whose worker waits for the answer.
    pub answered: Option<PendingConflict>,
    /// Answer to share with the worker for every later conflict.
    pub remember: Option<ConflictChoice>,
}

/// The paths of `all`, each once, in first-seen order.
pub fn unique_path_list(all: &Vec<String>) -> (r: Vec<String>)
    ensures
        r.deep_view() == unique_paths(all.deep_view()),
{
    let ghost av = all.deep_view();
    let mut out: Vec<String> = Vec::new();
    let mut i: usize = 0;
    assert(av.take(0) =~= Seq::<Seq<char>>::empty());
    while i < all.len()
        invariant
            i <= all.len(),
            av == all.deep_view(),
            out.deep_view() == unique_paths(av.take(i as int)),
            forall|p: Seq<char>| selection_has(out.deep_view(), p) == selection_has(av.take(i as int), p),
        decreases all.len() - i,
    {
        let ghost pre = av.take(i as int);
        assert(av.take(i + 1).drop_last() =~= pre);
        assert(av.take(i + 1).last() == all@[i as int]@);
        proof {
            lemma_first_match(out.deep_view(), all@[i as int]@);
        }
        let seen = position_in(&out, all[i].as_str()).is_some();
        if !seen {
            let ghost before = out.deep_view();
            let p = text(all[i].as_str());
            out.push(p);
            assert(out.deep_view() =~= before.push(p@));
            assert forall|q: Seq<char>| selection_has(out.deep_view(), q) == selection_has(av.take(i + 1), q) by {
                lemma_has_push(before, p@, q);
                lemma_has_push(pre, p@, q);
            }
        } else {
            assert forall|q: Seq<char>| selection_has(out.deep_view(), q) == selection_has(av.take(i + 1), q) by {
                lemma_has_push(pre, all@[i as int]@, q);
                if selection_has(av.take(i + 1), q) && !selection_has(pre, q) {
                    lemma_same_path_trans(all@[i as int]@, q, out.deep_view());
                }
            }
        }
        i = i + 1;
    }
    assert(av.take(all.len() as int) =~= av);
    out
}

/// Progress as values.
pub struct ProgressView {
    pub active: bool,
    pub counting: bool,
    pub operation: Seq<char>,
    pub label: Seq<char>,
    pub total_files: usize,
    pub done_files: usize,
    pub total_bytes: u64,
    pub done_bytes: u64,
    pub error: Option<Seq<char>>,
}

impl View for TransferProgress {
    type V = ProgressView;

    open spec fn view(&self) -> ProgressView {
        ProgressView {
            active: self.active,
            counting: self.counting,
            operation: self.operation@,
            label: self.label@,
            total_files: self.total_files,
            done_files: self.done_files,
            total_bytes: self.total_bytes,
            done_bytes: self.done_bytes,
            error: match self.error {
                Some(e) => Some(e@),
                None => None,
            },
        }
    }
}

/// The transfer state as values.
pub struct TransferView {
    pub listening: bool,
    pub progress: ProgressView,
    pub conflict: Option<(Seq<char>, Seq<char>)>,
    pub apply_to_all: bool,
    pub conflict_state: bool,
    pub invalidation: Seq<Seq<char>>,
}

impl View for TransferManager {
    type V = TransferView;

    open spec fn view(&self) -> TransferView {
        TransferView {
            listening: self.listening,
            progress: self.progress@,
            conflict: match self.pending_conflict {
                Some(c) => Some((c.source@, c.destination@)),
                None => None,
            },
            apply_to_all: self.apply_to_all,
            conflict_state: self.conflict_state,
            invalidation: self.invalidation.deep_view(),
        }
    }
}

/// A transfer in `mode` just started: events are taken in, no conflict waits, and the
/// progress counts from nothing under `Copying` or `Moving` with `Starting transfer…`.
pub open spec fn started_view(m: TransferView, mode: TransferMode) -> TransferView {
    TransferView {
        listening: true,
        conflict_state: false,
        apply_to_all: false,
        conflict: None,
        progress: ProgressView {
            active: true,
            counting: true,
            operation: match mode {
                TransferMode::Copy => "Copying"@,
                TransferMode::Move => "Moving"@,
            },
            label: "Starting transfer…"@,
            total_files: 0,
            done_files: 0,
            total_bytes: 0,
            done_bytes: 0,
            error: None,
        },
        ..m
    }
}

/// The transfer state after one worker report: totals fill in the counts they give; progress
/// ends counting and names the item being worked on; the end of the transfer keeps the paths
/// to reload, shows `Done` and drops a waiting conflict; an error stops the transfer.
pub open spec fn event_applied(m: TransferView, e: TransferEvent) -> TransferView {
    match e {
        TransferEvent::Totals { total_files, total_bytes } => TransferView {
            progress: ProgressView {
                total_files: if total_files > 0 {
                    total_files
                } else {
                    m.progress.total_files
                },
                total_bytes: if total_bytes > 0 {
                    total_bytes
                } else {
                    m.progress.total_bytes
                },
                ..m.progress
            },
            ..m
        },
        TransferEvent::Progress { done_files, done_bytes, current } => TransferView {
            progress: ProgressView { counting: false, done_files, done_bytes, label: current@, ..m.progress },
            ..m
        },
        TransferEvent::Done { invalidate } => TransferView {
            invalidation: invalidate.deep_view(),
            listening: false,
            conflict_state: false,
            conflict: None,
            progress: ProgressView { active: false, label: "Done"@, ..m.progress },
            ..m
        },
        TransferEvent::Error(message) => TransferView {
            listening: false,
            conflict_state: false,
            progress: ProgressView { error: Some(message@), active: false, ..m.progress },
            ..m
        },
    }
}

/// The transfer state after the reports `es`, in order.
pub open spec fn events_applied(m: TransferView, es: Seq<TransferEvent>) -> TransferView
    decreases es.len(),
{
    if es.len() == 0 {
        m
    } else {
        events_applied(event_applied(m, es[0]), es.drop_first())
    }
}

impl TransferManager {
    /// An idle manager.
    pub fn new() -> (r: TransferManager)
        ensures
            idle_manager(r),
    {
        TransferManager {
            listening: false,
            progress: TransferProgress {
                active: false,
                counting: false,
                operation: empty_string(),
                label: empty_string(),
                total_files: 0,
                done_files: 0,
                total_bytes: 0,
                done_bytes: 0,
                error: None,
            },
            pending_conflict: None,
            apply_to_all: false,
            conflict_state: false,
            invalidation: Vec::new(),
        }
    }

    /// Paths to reload after the last transfer, each once in first-seen order; the list empties.
    pub fn take_invalidation(&mut self) -> (r: Vec<String>)
        ensures
            r.deep_view() == unique_paths(old(self).invalidation.deep_view()),
            final(self).invalidation@.len() == 0,
            final(self).listening == old(self).listening,
            final(self).progress == old(self).progress,
            final(self).pending_conflict == old(self).pending_conflict,
            final(self).apply_to_all == old(self).apply_to_all,
            final(self).conflict_state == old(self).conflict_state,
    {
        let mut all: Vec<String> = Vec::new();
        std::mem::swap(&mut all, &mut self.invalidation);
        unique_path_list(&all)
    }

    pub fn is_active(&self) -> (r: bool)
        ensures
            r == self.progress.active,
    {
        self.progress.active
    }

    pub fn has_conflict(&self) -> (r: bool)
        ensures
            r == (self.pending_conflict is Some),
    {
        self.pending_conflict.is_some()
    }

    /// Starts a transfer of `sources` unless there is none or one is running; `true` when it
    /// started, and then the caller runs the workers.
    pub fn start(&mut self, sources: &Vec<String>, mode: TransferMode) -> (started: bool)
        ensures
            started == (sources@.len() > 0 && !old(self).progress.active),
            started ==> final(self)@ == started_view(old(self)@, mode),
            !started ==> *final(self) == *old(self),
    {
        if sources.len() == 0 || self.progress.active {
            return false;
        }
        self.conflict_state = false;
        self.apply_to_all = false;
        self.pending_conflict = None;
        self.listening = true;
        let operation = match mode {
            TransferMode::Copy => text("Copying"),
            TransferMode::Move => text("Moving"),
        };
        self.progress = TransferProgress {
            active: true,
            counting: true,
            operation,
            label: text("Starting transfer…"),
            total_files: 0,
            done_files: 0,
            total_bytes: 0,
            done_bytes: 0,
            error: None,
        };
        true
    }

    fn finish(&mut self)
        ensures
            !final(self).progress.active,
            final(self).progress.label@ == "Done"@,
            !final(self).listening,
            !final(self).conflict_state,
            final(self).pending_conflict is None,
            final(self).progress.counting == old(self).progress.counting,
            final(self).progress.operation == old(self).progress.operation,
            final(self).progress.total_files == old(self).progress.total_files,
            final(self).progress.done_files == old(self).progress.done_files,
            final(self).progress.total_bytes == old(self).progress.total_bytes,
            final(self).progress.done_bytes == old(self).progress.done_bytes,
            final(self).progress.error == old(self).progress.error,
            final(self).apply_to_all == old(self).apply_to_all,
            final(self).invalidation == old(self).invalidation,
    {
        self.progress.active = false;
        self.progress.label = text("Done");
        self.listening = false;
        self.conflict_state = false;
        self.pending_conflict = None;
    }

    /// Applies one worker event.
    pub fn apply_event(&mut self, event: TransferEvent)
        ensures
            final(self)@ == event_applied(old(self)@, event),
    {
        match event {
            TransferEvent::Totals { total_files, total_bytes } => {
                if total_files > 0 {
                    self.progress.total_files = total_files;
                }
                if total_bytes > 0 {
                    self.progress.total_bytes = total_bytes;
                }
            },
            TransferEvent::Progress { done_files, done_bytes, current } => {
                self.progress.counting = false;
                self.progress.done_files = done_files;
                self.progress.done_bytes = done_bytes;
                self.progress.label = current;
            },
            TransferEvent::Done { invalidate } => {
                self.invalidation = invalidate;
                self.finish();
            },
            TransferEvent::Error(message) => {
                self.progress.error = Some(message);
                self.progress.active = false;
                self.listening = false;
                self.conflict_state = false;
            },
        }
    }

    /// Takes in the events the workers reported since the last poll; `true` when there were
    /// any and events were still taken in.
    pub fn poll(&mut self, events: Vec<TransferEvent>) -> (changed: bool)
        ensures
            changed == (old(self).listening && events@.len() > 0),
            changed ==> final(self)@ == events_applied(old(self)@, events@),
            !changed ==> *final(self) == *old(self),
    {
        if !self.listening {
            return false;
        }
        if events.len() == 0 {
            return false;
        }
        let ghost want = events_applied(self@, events@);
        let mut rest = events;
        while rest.len() > 0
            invariant
                events_applied(self@, rest@) == want,
            decreases rest.len(),
        {
            let ghost before = rest@;
            let event = rest.remove(0);
            assert(before.drop_first() =~= rest@);
            self.apply_event(event);
        }
        true
    }

    /// Answers the pending conflict, if any. With apply-to-all set, an answer other than
    /// `Cancel` is to be shared for later conflicts; `Cancel` stops the transfer with the error
    /// `Transfer cancelled`.
    pub fn resolve_conflict(&mut self, choice: ConflictChoice) -> (r: ConflictResolution)
        ensures
            old(self).pending_conflict is None ==> *final(self) == *old(self) && r.answered is None
                && r.remember is None,
            old(self).pending_conflict is Some ==> {
                &&& r.answered == old(self).pending_conflict
                &&& final(self).pending_conflict is None
                &&& r.remember == (if old(self).apply_to_all && choice != ConflictChoice::Cancel
                    && old(self).conflict_state {
                    Some(choice)
                } else {
                    None
                })
                &&& if choice == ConflictChoice::Cancel {
                    &&& final(self).progress.error matches Some(e) && e@ == "Transfer cancelled"@
                    &&& !final(self).progress.active
                    &&& !final(self).listening
                    &&& !final(self).conflict_state
                } else {
                    &&& final(self).progress == old(self).progress
                    &&& final(self).listening == old(self).listening
                    &&& final(self).conflict_state == old(self).conflict_state
                }
                &&& final(self).apply_to_all == old(self).apply_to_all
                &&& final(self).invalidation == old(self).invalidation
            },
    {
        let conflict = match self.pending_conflict.take() {
            Some(c) => c,
            None => {
                return ConflictResolution { answered: None, remember: None };
            },
        };
        let remember = if self.apply_to_all && choice != ConflictChoice::Cancel && self.conflict_state {
            Some(choice)
        } else {
            None
        };
        if choice == ConflictChoice::Cancel {
            self.progress.error = Some(text("Transfer cancelled"));
            self.progress.active = false;
            self.listening = false;
            self.conflict_state = false;
        }
        ConflictResolution { answered: Some(conflict), remember }
    }
}

/// What a worker does with one source.
pub enum SourceStep {
    Skip,
    Transfer { label: String, destination: String },
}

/// Where `source` lands in `dest_dir`: its file name joined to `dest_dir`.
pub open spec fn destination_of(source: Seq<char>, dest_dir: Seq<char>) -> Result<Seq<char>, Seq<char>> {
    match file_name_of(source) {
        Some(name) => Ok(join_of(dest_dir, name)),
        None => Err("Invalid source path: "@ + source),
    }
}

/// Destination of `source` in `dest_dir`; a source without a file name is an error.
pub fn destination_path_for(source: &str, dest_dir: &str) -> (r: Result<String, String>)
    ensures
        match (r, destination_of(source@, dest_dir@)) {
            (Ok(p), Ok(q)) => p@ == q,
            (Err(e), Err(m)) => e@ == m,
            _ => false,
        },
{
    match file_name(source) {
        Some(name) => Ok(join_path(dest_dir, name.as_str())),
        None => {
            let mut out = chars_of("Invalid source path: ");
            append_str(&mut out, source);
            Err(string_from_chars(&out))
        },
    }
}

/// Step for one source: missing sources are skipped, a source without a file name is an
/// error, a move into the directory it is already in is skipped, and anything else is
/// transferred under its file name.
pub open spec fn source_step_of(source: Seq<char>, dest_dir: Seq<char>, mode: TransferMode, present: bool) -> Result<Option<(Seq<char>, Seq<char>)>, Seq<char>> {
    if !present {
        Ok(None)
    } else {
        match file_name_of(source) {
            None => Err("Invalid source path: "@ + source),
            Some(name) => {
                let in_place = match parent_of(source) {
                    Some(parent) => same_path(parent, dest_dir),
                    None => false,
                };
                if in_place && mode == TransferMode::Move {
                    Ok(None)
                } else {
                    Ok(Some((name, join_of(dest_dir, name))))
                }
            },
        }
    }
}

/// Step a worker takes for `source`, `present` telling whether it exists.
pub fn plan_source(source: &str, dest_dir: &str, mode: TransferMode, present: bool) -> (r: Result<SourceStep, String>)
    ensures
        match (r, source_step_of(source@, dest_dir@, mode, present)) {
            (Ok(SourceStep::Skip), Ok(None)) => true,
            (Ok(SourceStep::Transfer { label, destination }), Ok(Some((l, d)))) => label@ == l
                && destination@ == d,
            (Err(e), Err(m)) => e@ == m,
            _ => false,
        },
{
    if !present {
        return Ok(SourceStep::Skip);
    }
    let name = match file_name(source) {
        Some(n) => n,
        None => {
            let mut out = chars_of("Invalid source path: ");
            append_str(&mut out, source);
            return Err(string_from_chars(&out));
        },
    };
    let in_place = match parent_path(source) {
        Some(parent) => paths_equal(parent.as_str(), dest_dir),
        None => false,
    };
    if in_place && mode == TransferMode::Move {
        return Ok(SourceStep::Skip);
    }
    let destination = join_path(dest_dir, name.as_str());
    Ok(SourceStep::Transfer { label: name, destination })
}

/// Paths to reload after `source` went to `destination`: both, and the source's parent.
pub open spec fn reload_after(source: Seq<char>, destination: Seq<char>) -> Seq<Seq<char>> {
    match parent_of(source) {
        Some(p) => seq![source, destination, p],
        None => seq![source, destination],
    }
}

/// Paths to reload after `source` went to `destination`.
pub fn invalidation_for(source: &str, destination: &str) -> (r: Vec<String>)
    ensures
        r.deep_view() == reload_after(source@, destination@),
{
    let mut out: Vec<String> = Vec::new();
    out.push(text(source));
    out.push(text(destination));
    match parent_path(source) {
        Some(p) => {
            out.push(p);
        },
        None => {},
    }
    assert(out.deep_view() =~= reload_after(source@, destination@));
    out
}

/// Word passed to the KIO client for the mode.
pub fn transfer_action_word(mode: TransferMode) -> (r: &'static str)
    ensures
        r@ == (match mode {
            TransferMode::Copy => "copy"@,
            TransferMode::Move => "move"@,
        }),
{
    match mode {
        TransferMode::Copy => "copy",
        TransferMode::Move => "move",
    }
}

/// Whether a transfer of one source has landed: the destination exists (and for a move the
/// source is gone) and holds at least the expected files and bytes.
pub fn transfer_complete(
    mode: TransferMode,
    source_present: bool,
    dest_present: bool,
    dest_files: usize,
    dest_bytes: u64,
    expected_files: usize,
    expected_bytes: u64,
) -> (r: bool)
    ensures
        r == (dest_present && (mode == TransferMode::Copy || !source_present) && dest_files
            >= expected_files && dest_bytes >= expected_bytes),
{
    match mode {
        TransferMode::Copy => {
            if !dest_present {
                false
            } else {
                dest_files >= expected_files && dest_bytes >= expected_bytes
            }
        },
        TransferMode::Move => {
            if source_present || !dest_present {
                false
            } else {
                dest_files >= expected_files && dest_bytes >= expected_bytes
            }
        },
    }
}

/// Counted files and bytes of a source or a transfer, at least one file.
pub fn transfer_stats(files: usize, bytes: u64) -> (r: (usize, u64))
    ensures
        r.0 == (if files > 1 {
            files
        } else {
            1
        }),
        r.1 == bytes,
{
    (if files > 1 {
        files
    } else {
        1
    }, bytes)
}

/// The error of a KIO client run that failed: its trimmed error output, or when that is
/// empty `<client> <action> failed for <source>`.
pub open spec fn kio_failure_text(client: Seq<char>, mode: TransferMode, source: Seq<char>, stderr: Seq<char>) -> Seq<char> {
    let trimmed = crate::text::trim_of(stderr);
    if trimmed.len() > 0 {
        trimmed
    } else {
        client + " "@ + (match mode {
            TransferMode::Copy => "copy"@,
            TransferMode::Move => "move"@,
        }) + " failed for "@ + source
    }
}

/// Error of a failed KIO client run, from its error output `stderr`.
pub fn kio_failure_message(client: &str, mode: TransferMode, source: &str, stderr: &str) -> (r: String)
    ensures
        r@ == kio_failure_text(client@, mode, source@, stderr@),
{
    let trimmed = crate::text::trim_chars(&chars_of(stderr));
    if trimmed.len() > 0 {
        return string_from_chars(&trimmed);
    }
    let mut out = chars_of(client);
    append_str(&mut out, " ");
    append_str(&mut out, transfer_action_word(mode));
    append_str(&mut out, " failed for ");
    append_str(&mut out, source);
    string_from_chars(&out)
}

/// `Timed out waiting for <copy|move> operation to finish for <source>`.
pub open spec fn timeout_text(mode: TransferMode, source: Seq<char>) -> Seq<char> {
    "Timed out waiting for "@ + (match mode {
        TransferMode::Copy => "copy"@,
        TransferMode::Move => "move"@,
    }) + " operation to finish for "@ + source
}

/// Error when a transfer of `source` did not land in time.
pub fn timeout_message(mode: TransferMode, source: &str) -> (r: String)
    ensures
        r@ == timeout_text(mode, source@),
{
    let mut out = chars_of("Timed out waiting for ");
    append_str(&mut out, transfer_action_word(mode));
    append_str(&mut out, " operation to finish for ");
    append_str(&mut out, source);
    string_from_chars(&out)
}

/// Bookkeeping of a transfer worker: files and bytes done so far and the directories to
/// reload once it ends, starting with the destination.
pub struct TransferRun {
    pub done_files: usize,
    pub done_bytes: u64,
    pub invalidate: Vec<String>,
}

impl TransferRun {
    /// A run into `dest_dir` that has done nothing yet.
    pub fn begin(dest_dir: &str) -> (r: TransferRun)
        ensures
            r.done_files == 0,
            r.done_bytes == 0,
            r.invalidate.deep_view() == seq![dest_dir@],
    {
        let mut invalidate: Vec<String> = Vec::new();
        invalidate.push(text(dest_dir));
        assert(invalidate.deep_view() =~= seq![dest_dir@]);
        TransferRun { done_files: 0, done_bytes: 0, invalidate }
    }

    /// The progress report naming `label` with the counts so far.
    pub fn progress(&self, label: &str) -> (e: TransferEvent)
        ensures
            e matches TransferEvent::Progress { done_files, done_bytes, current } && done_files
                == self.done_files && done_bytes == self.done_bytes && current@ == label@,
    {
        TransferEvent::Progress { done_files: self.done_files, done_bytes: self.done_bytes, current: text(label) }
    }

    /// `source` has landed at `destination` with `files` files and `bytes` bytes: the counts
    /// grow by them and the source, the destination and the source's parent are to reload.
    pub fn source_landed(&mut self, source: &str, destination: &str, files: usize, bytes: u64)
        requires
            old(self).done_files + files <= usize::MAX,
            old(self).done_bytes + bytes <= u64::MAX,
        ensures
            final(self).done_files == old(self).done_files + files,
            final(self).done_bytes == old(self).done_bytes + bytes,
            final(self).invalidate.deep_view() == old(self).invalidate.deep_view() + reload_after(
                source@,
                destination@,
            ),
    {
        self.done_files = self.done_files + files;
        self.done_bytes = self.done_bytes + bytes;
        let ghost before = self.invalidate.deep_view();
        let more = invalidation_for(source, destination);
        let mut i: usize = 0;
        while i < more.len()
            invariant
                i <= more.len(),
                more.deep_view() == reload_after(source@, destination@),
                self.invalidate.deep_view() == before + more.deep_view().take(i as int),
                self.done_files == old(self).done_files + files,
                self.done_bytes == old(self).done_bytes + bytes,
            decreases more.len() - i,
        {
            let ghost mid = self.invalidate.deep_view();
            self.invalidate.push(text(more[i].as_str()));
            assert(more.deep_view().take(i + 1) =~= more.deep_view().take(i as int).push(more@[i as int]@));
            assert(self.invalidate.deep_view() =~= mid.push(more@[i as int]@));
            i = i + 1;
        }
        assert(more.deep_view().take(more.len() as int) =~= more.deep_view());
    }

    /// The report that ends the run, with the directories to reload.
    pub fn finish(self) -> (e: TransferEvent)
        ensures
            e matches TransferEvent::Done { invalidate } && invalidate.deep_view()
                == self.invalidate.deep_view(),
    {
        TransferEvent::Done { invalidate: self.invalidate }
    }
}

/// Removing repeats keeps every path: a path is among the unique paths exactly when it is
/// among the paths given.
pub proof fn law_unique_paths_keep_every_path(s: Seq<Seq<char>>, q: Seq<char>)
    ensures
        selection_has(unique_paths(s), q) == selection_has(s, q),
    decreases s.len(),
{
    if s.len() > 0 {
        let d = s.drop_last();
        law_unique_paths_keep_every_path(d, q);
        lemma_has_push(d, s.last(), q);
        assert(d.push(s.last()) =~= s);
        if selection_has(d, s.last()) {
            if same_path(s.last(), q) && !selection_has(d, q) {
                lemma_same_path_trans(s.last(), q, d);
            }
        } else {
            lemma_has_push(unique_paths(d), s.last(), q);
        }
    }
}

/// The paths a finished transfer asks to reload come without repeats: no two of them are the
/// same path.
pub proof fn law_unique_paths_distinct(s: Seq<Seq<char>>)
    ensures
        forall|i: int, j: int|
            0 <= i < j < unique_paths(s).len() ==> !same_path(
                #[trigger] unique_paths(s)[i],
                #[trigger] unique_paths(s)[j],
            ),
    decreases s.len(),
{
    if s.len() > 0 {
        let d = s.drop_last();
        law_unique_paths_distinct(d);
        if !selection_has(d, s.last()) {
            let u = unique_paths(d);
            let r = u.push(s.last());
            assert forall|i: int, j: int| 0 <= i < j < r.len() implies !same_path(#[trigger] r[i], #[trigger] r[j]) by {
                if j == u.len() {
                    law_unique_paths_keep_every_path(d, s.last());
                    if same_path(r[i], r[j]) {
                        assert(u[i] == r[i]);
                        assert(selection_has(u, s.last()));
                    }
                } else {
                    assert(r[i] == u[i] && r[j] == u[j]);
                }
            }
        }
    }
}

proof fn lemma_same_path_trans(x: Seq<char>, q: Seq<char>, s: Seq<Seq<char>>)
    requires
        selection_has(s, x),
        same_path(x, q),
    ensures
        selection_has(s, q),
{
    let i = choose|i: int| 0 <= i < s.len() && same_path(#[trigger] s[i], x);
    assert(same_path(s[i], q));
}

} // verus!
