//! Scheduling of thumbnail work for the directory on screen.
use vstd::prelude::*;

use crate::entries::{entry_views, FileEntry, FileEntryView};
use crate::media::{media_kind, media_kind_of, MediaKind};
use crate::paths::{paths_equal, same_path};
use crate::text::copy_string;
use crate::view::{first_match, lemma_first_match, position_in, selection_has};

verus! {

/// Most thumbnail workers running at once.
pub const MAX_CONCURRENT: usize = 4;

/// Longest side of a stored thumbnail, in pixels.
pub const THUMB_MAX_PX: u32 = 128;

/// A stored thumbnail: its size and its PNG bytes.
pub struct ThumbnailRecord {
    pub width: u32,
    pub height: u32,
    pub png: Vec<u8>,
}

/// Modification time in nanoseconds since the Unix epoch, given the time elapsed since the
/// epoch (`None` for times before it); 0 for those.
pub fn mtime_ns(since_epoch_ns: Option<u128>) -> (r: u128)
    ensures
        r == match since_epoch_ns {
            Some(n) => n,
            None => 0,
        },
{
    match since_epoch_ns {
        Some(n) => n,
        None => 0,
    }
}

/// Work handed to one thumbnail worker.
pub struct ThumbnailJob {
    pub path: String,
    pub kind: MediaKind,
    pub modified_ns: u128,
    pub generation: u64,
}

pub struct JobView {
    pub path: Seq<char>,
    pub kind: MediaKind,
    pub modified_ns: u128,
    pub generation: u64,
}

impl View for ThumbnailJob {
    type V = JobView;

    open spec fn view(&self) -> JobView {
        JobView { path: self.path@, kind: self.kind, modified_ns: self.modified_ns, generation: self.generation }
    }
}

/// Thumbnail work for the directory on screen: jobs waiting, workers running (with the
/// generation they were started in), paths that have a thumbnail, and progress counts.
pub struct ThumbnailScheduler {
    directory: Option<String>,
    generation: u64,
    job_queue: Vec<(String, MediaKind, u128)>,
    pending: Vec<(String, u64)>,
    loaded: Vec<String>,
    total_jobs: usize,
    finished_jobs: usize,
}

pub struct SchedulerView {
    pub directory: Option<Seq<char>>,
    pub generation: u64,
    pub queue: Seq<(Seq<char>, MediaKind, u128)>,
    pub pending: Seq<(Seq<char>, u64)>,
    pub loaded: Seq<Seq<char>>,
    pub total: int,
    pub finished: int,
}

impl View for ThumbnailScheduler {
    type V = SchedulerView;

    closed spec fn view(&self) -> SchedulerView {
        parts_view(
            self.directory,
            self.generation,
            self.job_queue@,
            self.pending@,
            self.loaded@,
            self.total_jobs,
            self.finished_jobs,
        )
    }
}

pub open spec fn parts_view(
    directory: Option<String>,
    generation: u64,
    queue: Seq<(String, MediaKind, u128)>,
    pending: Seq<(String, u64)>,
    loaded: Seq<String>,
    total: usize,
    finished: usize,
) -> SchedulerView {
    SchedulerView {
        directory: match directory {
            Some(d) => Some(d@),
            None => None,
        },
        generation,
        queue: queue.map_values(|j: (String, MediaKind, u128)| (j.0@, j.1, j.2)),
        pending: pending.map_values(|j: (String, u64)| (j.0@, j.1)),
        loaded: loaded.map_values(|x: String| x@),
        total: total as int,
        finished: finished as int,
    }
}

pub open spec fn jobs_view(jobs: Seq<ThumbnailJob>) -> Seq<JobView> {
    jobs.map_values(|j: ThumbnailJob| j@)
}

/// Running workers of generation `g`.
pub open spec fn current_count(pending: Seq<(Seq<char>, u64)>, g: u64) -> int
    decreases pending.len(),
{
    if pending.len() == 0 {
        0
    } else {
        current_count(pending.drop_last(), g) + if pending.last().1 == g {
            1int
        } else {
            0int
        }
    }
}

/// At most `MAX_CONCURRENT` workers run, and every job of the current directory is waiting,
/// running or finished.
pub open spec fn scheduler_wf(s: SchedulerView) -> bool {
    &&& s.pending.len() <= MAX_CONCURRENT
    &&& s.finished + s.queue.len() + current_count(s.pending, s.generation) == s.total
}

/// Jobs for the media files among `es`, in order.
pub open spec fn media_jobs(es: Seq<FileEntryView>) -> Seq<(Seq<char>, MediaKind, u128)>
    decreases es.len(),
{
    if es.len() == 0 {
        Seq::empty()
    } else {
        let rest = media_jobs(es.drop_last());
        let e = es.last();
        if !e.is_dir && media_kind_of(e.path) is Some {
            rest.push((e.path, media_kind_of(e.path)->0, e.modified_ns))
        } else {
            rest
        }
    }
}

/// Starts workers for waiting jobs while fewer than `MAX_CONCURRENT` run; a job whose path
/// already has a thumbnail finishes at once. The new state, and the jobs started in order.
pub open spec fn dispatched(s: SchedulerView) -> (SchedulerView, Seq<JobView>)
    decreases s.queue.len(),
{
    if s.pending.len() >= MAX_CONCURRENT || s.queue.len() == 0 {
        (s, Seq::empty())
    } else {
        let (p, k, m) = s.queue[0];
        let rest = SchedulerView { queue: s.queue.drop_first(), ..s };
        if selection_has(s.loaded, p) {
            dispatched(SchedulerView { finished: s.finished + 1, ..rest })
        } else {
            let next = dispatched(SchedulerView { pending: s.pending.push((p, s.generation)), ..rest });
            (next.0, seq![JobView { path: p, kind: k, modified_ns: m, generation: s.generation }] + next.1)
        }
    }
}

/// A fresh state of generation `g` for `directory`.
pub open spec fn reset_view(directory: Option<Seq<char>>, g: u64) -> SchedulerView {
    SchedulerView {
        directory,
        generation: g,
        queue: Seq::empty(),
        pending: Seq::empty(),
        loaded: Seq::empty(),
        total: 0,
        finished: 0,
    }
}

pub open spec fn next_generation(g: u64) -> u64 {
    if g == u64::MAX {
        0
    } else {
        (g + 1) as u64
    }
}

proof fn lemma_count_push(pending: Seq<(Seq<char>, u64)>, x: (Seq<char>, u64), g: u64)
    ensures
        current_count(pending.push(x), g) == current_count(pending, g) + if x.1 == g {
            1int
        } else {
            0int
        },
{
    assert(pending.push(x).drop_last() =~= pending);
}

proof fn lemma_count_remove(pending: Seq<(Seq<char>, u64)>, i: int, g: u64)
    requires
        0 <= i < pending.len(),
    ensures
        current_count(pending.remove(i), g) == current_count(pending, g) - if pending[i].1 == g {
            1int
        } else {
            0int
        },
    decreases pending.len(),
{
    if i == pending.len() - 1 {
        assert(pending.remove(i) =~= pending.drop_last());
    } else {
        let d = pending.drop_last();
        lemma_count_remove(d, i, g);
        assert(pending.remove(i) =~= d.remove(i).push(pending.last()));
        lemma_count_push(d.remove(i), pending.last(), g);
        assert(d[i] == pending[i]);
    }
}

proof fn lemma_count_bound(pending: Seq<(Seq<char>, u64)>, g: u64)
    ensures
        0 <= current_count(pending, g) <= pending.len(),
    decreases pending.len(),
{
    if pending.len() > 0 {
        lemma_count_bound(pending.drop_last(), g);
    }
}

proof fn lemma_dispatched_wf(s: SchedulerView)
    requires
        scheduler_wf(s),
    ensures
        scheduler_wf(dispatched(s).0),
        dispatched(s).0.pending.len() == MAX_CONCURRENT || dispatched(s).0.queue.len() == 0,
        dispatched(s).0.generation == s.generation,
        dispatched(s).0.directory == s.directory,
        dispatched(s).0.loaded == s.loaded,
        dispatched(s).0.total == s.total,
    decreases s.queue.len(),
{
    if s.pending.len() >= MAX_CONCURRENT || s.queue.len() == 0 {
    } else {
        let (p, k, m) = s.queue[0];
        let rest = SchedulerView { queue: s.queue.drop_first(), ..s };
        if selection_has(s.loaded, p) {
            lemma_dispatched_wf(SchedulerView { finished: s.finished + 1, ..rest });
        } else {
            lemma_count_push(s.pending, (p, s.generation), s.generation);
            lemma_dispatched_wf(SchedulerView { pending: s.pending.push((p, s.generation)), ..rest });
        }
    }
}

/// Index of the first running worker for `p` of generation `g`, or -1.
pub open spec fn job_index(pending: Seq<(Seq<char>, u64)>, p: Seq<char>, g: u64) -> int
    decreases pending.len(),
{
    if pending.len() == 0 {
        -1
    } else {
        let k = job_index(pending.drop_last(), p, g);
        if k >= 0 {
            k
        } else if same_path(pending.last().0, p) && pending.last().1 == g {
            pending.len() - 1
        } else {
            -1
        }
    }
}

/// The state once the worker for `p` started in generation `g` reported back (`img` when it
/// produced a thumbnail), and whether a thumbnail is to be shown for `p`.
pub open spec fn after_job(s: SchedulerView, p: Seq<char>, g: u64, img: bool) -> (SchedulerView, bool) {
    let i = job_index(s.pending, p, g);
    if i < 0 {
        (s, false)
    } else {
        let s1 = SchedulerView { pending: s.pending.remove(i), ..s };
        if g == s.generation {
            let s2 = SchedulerView { finished: s.finished + 1, ..s1 };
            if img && !selection_has(s.loaded, p) {
                (SchedulerView { loaded: s.loaded.push(p), ..s2 }, true)
            } else {
                (s2, false)
            }
        } else {
            (s1, false)
        }
    }
}

proof fn lemma_job_index(pending: Seq<(Seq<char>, u64)>, p: Seq<char>, g: u64)
    ensures
        -1 <= job_index(pending, p, g) < pending.len(),
        job_index(pending, p, g) >= 0 ==> same_path(pending[job_index(pending, p, g)].0, p)
            && pending[job_index(pending, p, g)].1 == g,
        forall|k: int| 0 <= k < pending.len() && (job_index(pending, p, g) == -1 || k < job_index(pending, p, g))
            ==> !(same_path(#[trigger] pending[k].0, p) && pending[k].1 == g),
    decreases pending.len(),
{
    if pending.len() > 0 {
        let d = pending.drop_last();
        lemma_job_index(d, p, g);
        assert forall|k: int| 0 <= k < pending.len() && (job_index(pending, p, g) == -1 || k < job_index(pending, p, g))
            implies !(same_path(#[trigger] pending[k].0, p) && pending[k].1 == g) by {
            if k < d.len() {
                assert(pending[k] == d[k]);
            }
        }
        if job_index(d, p, g) >= 0 {
            assert(pending[job_index(d, p, g)] == d[job_index(d, p, g)]);
        }
    }
}

fn dispatch_parts(
    directory: &Option<String>,
    generation: u64,
    job_queue: &mut Vec<(String, MediaKind, u128)>,
    pending: &mut Vec<(String, u64)>,
    loaded: &Vec<String>,
    total_jobs: usize,
    finished_jobs: &mut usize,
) -> (jobs: Vec<ThumbnailJob>)
    requires
        scheduler_wf(parts_view(*directory, generation, old(job_queue)@, old(pending)@, loaded@, total_jobs, *old(finished_jobs))),
    ensures
        ({
            let before = parts_view(*directory, generation, old(job_queue)@, old(pending)@, loaded@, total_jobs, *old(finished_jobs));
            let after = parts_view(*directory, generation, final(job_queue)@, final(pending)@, loaded@, total_jobs, *final(finished_jobs));
            &&& after == dispatched(before).0
            &&& jobs_view(jobs@) == dispatched(before).1
            &&& scheduler_wf(after)
        }),
{
    let ghost s0 = parts_view(*directory, generation, job_queue@, pending@, loaded@, total_jobs, *finished_jobs);
    let mut jobs: Vec<ThumbnailJob> = Vec::new();
    assert(loaded@.map_values(|x: String| x@) =~= loaded.deep_view());
    while pending.len() < MAX_CONCURRENT && job_queue.len() > 0
        invariant
            ({
                let cur = parts_view(*directory, generation, job_queue@, pending@, loaded@, total_jobs, *finished_jobs);
                &&& scheduler_wf(cur)
                &&& dispatched(cur).0 == dispatched(s0).0
                &&& jobs_view(jobs@) + dispatched(cur).1 == dispatched(s0).1
            }),
            loaded@.map_values(|x: String| x@) == loaded.deep_view(),
        decreases job_queue.len(),
    {
        let ghost cur = parts_view(*directory, generation, job_queue@, pending@, loaded@, total_jobs, *finished_jobs);
        let ghost q0 = job_queue@;
        let (path, kind, modified) = job_queue.remove(0);
        assert(job_queue@ =~= q0.subrange(1, q0.len() as int));
        assert(cur.queue[0] == (path@, kind, modified));
        assert(job_queue@.map_values(|j: (String, MediaKind, u128)| (j.0@, j.1, j.2)) =~= cur.queue.drop_first());
        proof {
            lemma_first_match(loaded.deep_view(), path@);
            lemma_count_bound(cur.pending, generation);
        }
        if position_in(loaded, path.as_str()).is_some() {
            *finished_jobs = *finished_jobs + 1;
        } else {
            let ghost p0 = pending@;
            let ghost j0 = jobs@;
            jobs.push(ThumbnailJob { path: copy_string(&path), kind, modified_ns: modified, generation });
            pending.push((path, generation));
            proof {
                assert(pending@.map_values(|j: (String, u64)| (j.0@, j.1)) =~= cur.pending.push((path@, generation)));
                lemma_count_push(cur.pending, (path@, generation), generation);
                let nxt = parts_view(*directory, generation, job_queue@, pending@, loaded@, total_jobs, *finished_jobs);
                assert(jobs_view(jobs@) =~= jobs_view(j0).push(JobView { path: path@, kind, modified_ns: modified, generation }));
                assert(jobs_view(jobs@) + dispatched(nxt).1 =~= jobs_view(j0) + (seq![
                    JobView { path: path@, kind, modified_ns: modified, generation },
                ] + dispatched(nxt).1));
            }
        }
    }
    assert(jobs_view(jobs@) + Seq::<JobView>::empty() =~= jobs_view(jobs@));
    jobs
}

fn find_job(pending: &Vec<(String, u64)>, path: &str, generation: u64) -> (r: Option<usize>)
    ensures
        ({
            let pv = pending@.map_values(|j: (String, u64)| (j.0@, j.1));
            match r {
                Some(k) => k == job_index(pv, path@, generation),
                None => job_index(pv, path@, generation) == -1,
            }
        }),
{
    let ghost pv = pending@.map_values(|j: (String, u64)| (j.0@, j.1));
    proof {
        lemma_job_index(pv, path@, generation);
    }
    let mut i: usize = 0;
    while i < pending.len()
        invariant
            i <= pending.len(),
            pv == pending@.map_values(|j: (String, u64)| (j.0@, j.1)),
            -1 <= job_index(pv, path@, generation) < pv.len(),
            forall|k: int| 0 <= k < pv.len() && (job_index(pv, path@, generation) == -1 || k < job_index(pv, path@, generation))
                ==> !(same_path(#[trigger] pv[k].0, path@) && pv[k].1 == generation),
            job_index(pv, path@, generation) >= 0 ==> same_path(pv[job_index(pv, path@, generation)].0, path@)
                && pv[job_index(pv, path@, generation)].1 == generation,
            job_index(pv, path@, generation) == -1 || job_index(pv, path@, generation) >= i,
        decreases pending.len() - i,
    {
        assert(pv[i as int] == (pending@[i as int].0@, pending@[i as int].1));
        if pending[i].1 == generation && paths_equal(pending[i].0.as_str(), path) {
            assert(same_path(pv[i as int].0, path@) && pv[i as int].1 == generation);
            return Some(i);
        }
        i = i + 1;
    }
    None
}

impl ThumbnailScheduler {
    #[verifier::type_invariant]
    closed spec fn inv(self) -> bool {
        scheduler_wf(self@)
    }

    /// No directory, nothing queued.
    pub fn new() -> (r: ThumbnailScheduler)
        ensures
            r@ == reset_view(None, 0),
            scheduler_wf(r@),
    {
        let r = ThumbnailScheduler {
            directory: None,
            generation: 0,
            job_queue: Vec::new(),
            pending: Vec::new(),
            loaded: Vec::new(),
            total_jobs: 0,
            finished_jobs: 0,
        };
        assert(r@.queue =~= Seq::<(Seq<char>, MediaKind, u128)>::empty());
        assert(r@.pending =~= Seq::<(Seq<char>, u64)>::empty());
        assert(r@.loaded =~= Seq::<Seq<char>>::empty());
        r
    }

    pub fn directory(&self) -> (r: Option<&String>)
        ensures
            match r {
                Some(d) => self@.directory == Some(d@),
                None => self@.directory is None,
            },
    {
        match &self.directory {
            Some(d) => Some(d),
            None => None,
        }
    }

    pub fn total_jobs(&self) -> (r: usize)
        ensures
            r == self@.total,
    {
        self.total_jobs
    }

    pub fn finished_jobs(&self) -> (r: usize)
        ensures
            r == self@.finished,
    {
        self.finished_jobs
    }

    pub fn queued_jobs(&self) -> (r: usize)
        ensures
            r == self@.queue.len(),
    {
        self.job_queue.len()
    }

    pub fn running_jobs(&self) -> (r: usize)
        ensures
            r == self@.pending.len(),
    {
        self.pending.len()
    }

    /// Whether `path` has a thumbnail.
    pub fn has_thumbnail(&self, path: &str) -> (r: bool)
        ensures
            r == selection_has(self@.loaded, path@),
    {
        proof {
            lemma_first_match(self.loaded.deep_view(), path@);
            assert(self.loaded@.map_values(|x: String| x@) =~= self.loaded.deep_view());
        }
        position_in(&self.loaded, path).is_some()
    }

    /// Whether thumbnails of `directory` are still being made.
    pub fn is_loading(&self, directory: &str) -> (r: bool)
        ensures
            r == (self@.directory matches Some(d) && same_path(d, directory@) && self@.total > 0 && (self@.finished
                < self@.total || self@.queue.len() > 0 || self@.pending.len() > 0)),
    {
        match &self.directory {
            Some(d) => {
                if !paths_equal(d.as_str(), directory) {
                    return false;
                }
            },
            None => {
                return false;
            },
        }
        if self.total_jobs == 0 {
            return false;
        }
        self.finished_jobs < self.total_jobs || self.job_queue.len() > 0 || self.pending.len() > 0
    }

    /// Leaving the directory: a new generation, nothing queued or shown.
    pub fn on_directory_changing(&mut self)
        ensures
            final(self)@ == reset_view(None, next_generation(old(self)@.generation)),
            scheduler_wf(final(self)@),
    {
        let g = self.generation.wrapping_add(1);
        let r = ThumbnailScheduler {
            directory: None,
            generation: g,
            job_queue: Vec::new(),
            pending: Vec::new(),
            loaded: Vec::new(),
            total_jobs: 0,
            finished_jobs: 0,
        };
        assert(r@.queue =~= Seq::<(Seq<char>, MediaKind, u128)>::empty());
        assert(r@.pending =~= Seq::<(Seq<char>, u64)>::empty());
        assert(r@.loaded =~= Seq::<Seq<char>>::empty());
        *self = r;
    }

    /// Starts workers for waiting jobs, up to `MAX_CONCURRENT` running; the jobs to start.
    pub fn dispatch(&mut self) -> (jobs: Vec<ThumbnailJob>)
        ensures
            final(self)@ == dispatched(old(self)@).0,
            jobs_view(jobs@) == dispatched(old(self)@).1,
            scheduler_wf(final(self)@),
    {
        let mut cur = ThumbnailScheduler::new();
        std::mem::swap(&mut cur, self);
        proof {
            use_type_invariant(&cur);
        }
        let ThumbnailScheduler { directory, generation, mut job_queue, mut pending, loaded, total_jobs, mut finished_jobs } = cur;
        let jobs = dispatch_parts(&directory, generation, &mut job_queue, &mut pending, &loaded, total_jobs, &mut finished_jobs);
        *self = ThumbnailScheduler { directory, generation, job_queue, pending, loaded, total_jobs, finished_jobs };
        jobs
    }

    /// The listing of `directory` is complete: a new generation whose jobs are the media files
    /// among `entries`, in order; workers start for the first of them.
    pub fn begin_directory_load(&mut self, directory: String, entries: &Vec<FileEntry>) -> (jobs: Vec<ThumbnailJob>)
        ensures
            ({
                let queue = media_jobs(entry_views(entries@));
                let start = SchedulerView {
                    directory: Some(directory@),
                    generation: next_generation(old(self)@.generation),
                    queue,
                    pending: Seq::empty(),
                    loaded: Seq::empty(),
                    total: queue.len() as int,
                    finished: 0,
                };
                &&& final(self)@ == dispatched(start).0
                &&& jobs_view(jobs@) == dispatched(start).1
            }),
            scheduler_wf(final(self)@),
    {
        let generation = self.generation.wrapping_add(1);
        let ghost es = entry_views(entries@);
        let mut job_queue: Vec<(String, MediaKind, u128)> = Vec::new();
        let mut i: usize = 0;
        while i < entries.len()
            invariant
                i <= entries.len(),
                es == entry_views(entries@),
                job_queue@.map_values(|j: (String, MediaKind, u128)| (j.0@, j.1, j.2)) == media_jobs(es.take(i as int)),
                job_queue.len() <= i,
            decreases entries.len() - i,
        {
            assert(es.take(i + 1).drop_last() =~= es.take(i as int));
            assert(es.take(i + 1).last() == entries@[i as int]@);
            let ghost before = job_queue@;
            if !entries[i].is_dir {
                match media_kind(entries[i].path.as_str()) {
                    Some(kind) => {
                        job_queue.push((copy_string(&entries[i].path), kind, entries[i].modified_ns));
                        assert(job_queue@.map_values(|j: (String, MediaKind, u128)| (j.0@, j.1, j.2))
                            =~= before.map_values(|j: (String, MediaKind, u128)| (j.0@, j.1, j.2)).push(
                            (entries@[i as int].path@, kind, entries@[i as int].modified_ns),
                        ));
                    },
                    None => {},
                }
            }
            i = i + 1;
        }
        assert(es.take(entries.len() as int) =~= es);
        let total_jobs = job_queue.len();
        let mut pending: Vec<(String, u64)> = Vec::new();
        let loaded: Vec<String> = Vec::new();
        let mut finished_jobs: usize = 0;
        let dir = Some(directory);
        proof {
            assert(pending@.map_values(|j: (String, u64)| (j.0@, j.1)) =~= Seq::<(Seq<char>, u64)>::empty());
            assert(loaded@.map_values(|x: String| x@) =~= Seq::<Seq<char>>::empty());
        }
        let jobs = dispatch_parts(&dir, generation, &mut job_queue, &mut pending, &loaded, total_jobs, &mut finished_jobs);
        *self = ThumbnailScheduler { directory: dir, generation, job_queue, pending, loaded, total_jobs, finished_jobs };
        jobs
    }

    /// The worker for `path` started in `generation` reported back, with a thumbnail when
    /// `has_image`. `true` when the thumbnail is to be shown.
    pub fn job_done(&mut self, path: &str, generation: u64, has_image: bool) -> (show: bool)
        ensures
            (final(self)@, show) == after_job(old(self)@, path@, generation, has_image),
            scheduler_wf(final(self)@),
    {
        let mut cur = ThumbnailScheduler::new();
        std::mem::swap(&mut cur, self);
        proof {
            use_type_invariant(&cur);
        }
        let ghost s0 = cur@;
        let ThumbnailScheduler {
            directory,
            generation: current,
            job_queue,
            mut pending,
            mut loaded,
            total_jobs,
            mut finished_jobs,
        } = cur;
        proof {
            lemma_job_index(s0.pending, path@, generation);
        }
        let found = find_job(&pending, path, generation);
        let show = match found {
            None => false,
            Some(k) => {
                assert(k == job_index(s0.pending, path@, generation));
                let ghost p0 = pending@;
                pending.remove(k);
                proof {
                    assert(pending@.map_values(|j: (String, u64)| (j.0@, j.1)) =~= s0.pending.remove(k as int));
                    lemma_count_remove(s0.pending, k as int, current);
                    lemma_count_bound(s0.pending.remove(k as int), current);
                }
                if generation == current {
                    finished_jobs = finished_jobs + 1;
                    proof {
                        lemma_first_match(loaded.deep_view(), path@);
                        assert(loaded@.map_values(|x: String| x@) =~= loaded.deep_view());
                    }
                    if has_image && position_in(&loaded, path).is_none() {
                        let ghost l0 = loaded@;
                        loaded.push(path.to_string());
                        assert(loaded@.map_values(|x: String| x@) =~= l0.map_values(|x: String| x@).push(path@));
                        true
                    } else {
                        false
                    }
                } else {
                    false
                }
            },
        };
        *self = ThumbnailScheduler { directory, generation: current, job_queue, pending, loaded, total_jobs, finished_jobs };
        show
    }
}

} // verus!
