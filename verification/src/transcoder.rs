//! The background media-transcoding subsystem.
//!
//! The dispatcher discovers source videos that have no published
//! counterpart — once by an exhaustive scan, then continuously from
//! filesystem create events — and enqueues one `Job` per discovered file.
//! A bounded pool of workers drains the queue; for each job a worker
//! probes the source's color space, runs the external encoder into a
//! scratch path, and publishes the output under the job's identity key
//! only when the encoder succeeded.
//!
//! Everything that decides is here and verified; running the external
//! probe and encoder processes, walking and watching directories, and
//! moving files are left to the unverified shell around the library,
//! which feeds the results back in as plain values.

use vstd::prelude::*;
use crate::paths::{
    contains_seq, contains_substr, file_name, file_name_of, identity_key, is_video, is_video_name,
    join_path, key_of, output_name, output_name_of, path_join,
};
use crate::queue::JobQueue;
use crate::settings::Settings;
use std::sync::Arc;

verus! {

/// No more than this many workers may be configured: each worker can hold
/// one external encoder process alive, and the host cannot sustain more.
pub const WORKER_CEILING: usize = 24;

/// A configured worker count is acceptable when it does not exceed the
/// ceiling. Exceeding it is a fatal configuration error at startup.
pub open spec fn worker_count_ok(workers: usize) -> bool {
    workers <= WORKER_CEILING
}

/// Whether a configured worker count is within the safety ceiling. The
/// process must fail fast, before any scanning, when this is false.
pub fn valid_worker_count(workers: usize) -> (r: bool)
    ensures
        r == worker_count_ok(workers),
{
    workers <= WORKER_CEILING
}

/// The marker substring whose presence in the probe's output classifies a
/// source as wide-gamut.
pub open spec fn hdr_marker() -> Seq<char> {
    seq!['b', 't', '2', '0', '2', '0']
}

/// An external process to run: a program and its argument list, in order.
pub struct Invocation {
    pub program: String,
    pub args: Vec<String>,
}

/// What a worker must do with the encoder's scratch output once the
/// encoder has exited.
pub enum FinishAction {
    /// The encoder succeeded: move the scratch file to the publish target.
    /// The move must be atomic for readers of the publish directory.
    Publish { temp: String, target: String },
    /// The encoder failed: remove the scratch file and keep nothing.
    Discard { temp: String },
}

/// One unit of transcoding work: a source path and the shared, read-only
/// process configuration.
pub struct Job {
    pub path: String,
    pub config: Arc<Settings>,
}

impl Job {
    /// The published name this job's output goes under.
    pub open spec fn spec_output_name(&self) -> Seq<char> {
        output_name_of(file_name_of(self.path@))
    }

    /// Where the encoder writes before publication.
    pub open spec fn spec_temp_path(&self, temp_dir: Seq<char>) -> Seq<char> {
        path_join(temp_dir, self.spec_output_name())
    }

    /// Where a successful transcode becomes visible.
    pub open spec fn spec_publish_path(&self) -> Seq<char> {
        path_join(self.config.media.videos_path@, self.spec_output_name())
    }

    pub fn new(path: String, config: Arc<Settings>) -> (r: Job)
        ensures
            r.path == path,
            r.config == config,
    {
        Job { path, config }
    }

    /// The output file name for this job: the source's identity key with
    /// the fixed output extension.
    pub fn mp4(&self) -> (r: String)
        ensures
            r@ == self.spec_output_name(),
    {
        let name = file_name(self.path.as_str());
        output_name(name.as_str())
    }

    /// The scratch path the encoder writes to, under `temp_dir`.
    pub fn temp_path(&self, temp_dir: &str) -> (r: String)
        ensures
            r@ == self.spec_temp_path(temp_dir@),
    {
        let name = self.mp4();
        join_path(temp_dir, name.as_str())
    }

    /// The path in the publish directory where this job's output belongs.
    pub fn publish_path(&self) -> (r: String)
        ensures
            r@ == self.spec_publish_path(),
    {
        let name = self.mp4();
        join_path(self.config.media.videos_path.as_str(), name.as_str())
    }

    /// The probe invocation for this job: ask for the video stream's
    /// color-space tag, with non-essential output suppressed.
    pub fn probe_invocation(&self) -> (r: Invocation)
        ensures
            r.program@ == self.config.media.ffmpeg.probe@,
            r.args.deep_view() == seq![
                "-show_entries"@,
                "stream=color_space"@,
                "-select_streams"@,
                "v"@,
                "-loglevel"@,
                "panic"@,
                self.path@,
            ],
    {
        let mut args: Vec<String> = Vec::new();
        args.push("-show_entries".to_owned());
        args.push("stream=color_space".to_owned());
        args.push("-select_streams".to_owned());
        args.push("v".to_owned());
        args.push("-loglevel".to_owned());
        args.push("panic".to_owned());
        args.push(self.path.clone());
        proof {
            assert(args.deep_view() =~= seq![
                "-show_entries"@,
                "stream=color_space"@,
                "-select_streams"@,
                "v"@,
                "-loglevel"@,
                "panic"@,
                self.path@,
            ]);
        }
        Invocation { program: self.config.media.ffmpeg.probe.clone(), args }
    }

    /// The encoder invocation for this job: the source as input, the
    /// argument set chosen by the classification, and the scratch output
    /// path last.
    pub fn encoder_invocation(&self, hdr: bool, temp_dir: &str) -> (r: Invocation)
        ensures
            r.program@ == self.config.media.ffmpeg.bin@,
            r.args.deep_view() == seq!["-i"@, self.path@] + (if hdr {
                self.config.media.ffmpeg.hdr.deep_view()
            } else {
                self.config.media.ffmpeg.sdr.deep_view()
            }) + seq![self.spec_temp_path(temp_dir@)],
    {
        let mut args: Vec<String> = Vec::new();
        args.push("-i".to_owned());
        args.push(self.path.clone());
        let chosen: &Vec<String> = if hdr {
            &self.config.media.ffmpeg.hdr
        } else {
            &self.config.media.ffmpeg.sdr
        };
        let mut k: usize = 0;
        while k < chosen.len()
            invariant
                0 <= k <= chosen.len(),
                args.deep_view() =~= seq!["-i"@, self.path@] + chosen.deep_view().take(k as int),
            decreases chosen.len() - k,
        {
            let ghost pre = args.deep_view();
            args.push(chosen[k].clone());
            proof {
                assert(args.deep_view() =~= pre.push(chosen@[k as int]@));
                assert(chosen.deep_view().take(k + 1) =~= chosen.deep_view().take(
                    k as int,
                ).push(chosen.deep_view()[k as int]));
                assert(args.deep_view() =~= seq!["-i"@, self.path@] + chosen.deep_view().take(
                    k + 1,
                ));
            }
            k = k + 1;
        }
        let tmp = self.temp_path(temp_dir);
        args.push(tmp);
        proof {
            assert(chosen.deep_view().take(chosen.len() as int) =~= chosen.deep_view());
            assert(args.deep_view() =~= seq!["-i"@, self.path@] + chosen.deep_view() + seq![
                self.spec_temp_path(temp_dir@),
            ]);
        }
        Invocation { program: self.config.media.ffmpeg.bin.clone(), args }
    }

    /// What to do with the scratch output after the encoder exited:
    /// publish it under the job's identity key exactly when the encoder
    /// succeeded, discard it otherwise.
    pub fn finish_action(&self, encode_ok: bool, temp_dir: &str) -> (r: FinishAction)
        ensures
            ({
                match r {
                    FinishAction::Publish { temp, target } => encode_ok && temp@
                        == self.spec_temp_path(temp_dir@) && target@ == self.spec_publish_path(),
                    FinishAction::Discard { temp } => !encode_ok && temp@ == self.spec_temp_path(
                        temp_dir@,
                    ),
                }
            }),
    {
        let temp = self.temp_path(temp_dir);
        if encode_ok {
            FinishAction::Publish { temp, target: self.publish_path() }
        } else {
            FinishAction::Discard { temp }
        }
    }
}

/// Whether probe output classifies a source as wide-gamut: the marker
/// substring is present somewhere in the text.
pub fn probe_indicates_hdr(output: &str) -> (r: bool)
    ensures
        r == contains_seq(output@, hdr_marker()),
{
    let r = contains_substr(output, "bt2020");
    proof {
        reveal_strlit("bt2020");
        assert("bt2020"@ =~= hdr_marker());
    }
    r
}

/// The HDR/SDR classification from a probe's outcome. A failed probe
/// (no output) is non-fatal and classifies as standard.
pub fn classify_hdr(probe_output: &Option<String>) -> (r: bool)
    ensures
        r == ({
            match probe_output {
                Some(out) => contains_seq(out@, hdr_marker()),
                None => false,
            }
        }),
{
    match probe_output {
        Some(out) => probe_indicates_hdr(out.as_str()),
        None => false,
    }
}

/// One entry met while walking a directory tree, as the shell reports it.
pub struct ScanEntry {
    pub path: String,
    pub is_dir: bool,
    pub is_symlink: bool,
}

/// An entry counts as media work when it is a plain file — directories
/// and symlinks are skipped, not traversed as content — whose name is on
/// the recognized-video allow-list.
pub open spec fn is_media_file(e: ScanEntry) -> bool {
    !e.is_dir && !e.is_symlink && is_video_name(file_name_of(e.path@))
}

/// The identity key a publish-tree entry contributes to the published
/// set, if any.
pub open spec fn published_key_of_entry(e: ScanEntry) -> Option<Seq<char>> {
    if is_media_file(e) {
        Some(key_of(file_name_of(e.path@)))
    } else {
        None
    }
}

/// The identity keys of all recognized video files among `entries`, in
/// order: the published set a scan works against.
pub open spec fn published_keys_of(entries: Seq<ScanEntry>) -> Seq<Seq<char>>
    decreases entries.len(),
{
    if entries.len() == 0 {
        Seq::empty()
    } else {
        let rest = published_keys_of(entries.drop_last());
        match published_key_of_entry(entries.last()) {
            Some(k) => rest.push(k),
            None => rest,
        }
    }
}

/// The path a source-tree entry contributes to the scan's backlog: its
/// own, when it is a recognized video whose identity key is not yet
/// published.
pub open spec fn pending_entry_path(published: Seq<Seq<char>>, e: ScanEntry) -> Option<Seq<char>> {
    if is_media_file(e) && !published.contains(key_of(file_name_of(e.path@))) {
        Some(e.path@)
    } else {
        None
    }
}

/// The source paths a scan must enqueue, in source order: every
/// recognized video file whose identity key is absent from `published`.
pub open spec fn pending_source_paths(published: Seq<Seq<char>>, sources: Seq<ScanEntry>) -> Seq<
    Seq<char>,
>
    decreases sources.len(),
{
    if sources.len() == 0 {
        Seq::empty()
    } else {
        let rest = pending_source_paths(published, sources.drop_last());
        match pending_entry_path(published, sources.last()) {
            Some(p) => rest.push(p),
            None => rest,
        }
    }
}

/// The identity keys of the recognized video files among `entries`: the
/// published set, computed fresh for this scan.
pub fn published_keys(entries: &Vec<ScanEntry>) -> (r: Vec<String>)
    ensures
        r.deep_view() == published_keys_of(entries@),
{
    let mut r: Vec<String> = Vec::new();
    let mut i: usize = 0;
    while i < entries.len()
        invariant
            0 <= i <= entries@.len(),
            r.deep_view() =~= published_keys_of(entries@.take(i as int)),
        decreases entries@.len() - i,
    {
        let e = &entries[i];
        let ghost pre = r.deep_view();
        if !e.is_dir && !e.is_symlink {
            let name = file_name(e.path.as_str());
            if is_video(name.as_str()) {
                let key = identity_key(name.as_str());
                r.push(key);
                proof {
                    assert(r.deep_view() =~= pre.push(key_of(file_name_of(e.path@))));
                }
            }
        }
        proof {
            assert(entries@.take(i + 1).drop_last() =~= entries@.take(i as int));
            assert(entries@.take(i + 1).last() == entries@[i as int]);
            assert(r.deep_view() =~= published_keys_of(entries@.take(i + 1)));
        }
        i = i + 1;
    }
    proof {
        assert(entries@.take(entries@.len() as int) =~= entries@);
    }
    r
}

/// Whether `key` is among the published keys.
fn contains_key(published: &Vec<String>, key: &String) -> (r: bool)
    ensures
        r == published.deep_view().contains(key@),
{
    let mut i: usize = 0;
    while i < published.len()
        invariant
            0 <= i <= published@.len(),
            forall|j: int| 0 <= j < i ==> published.deep_view()[j] != key@,
        decreases published@.len() - i,
    {
        if (&published[i]).eq(key) {
            proof {
                assert(published.deep_view()[i as int] == key@);
            }
            return true;
        }
        i = i + 1;
    }
    false
}

/// The scan diff: one job, sharing `config`, for every recognized source
/// video whose identity key is absent from `published`, in source order
/// and nothing else.
pub fn scan_jobs(published: &Vec<String>, sources: &Vec<ScanEntry>, config: &Arc<Settings>) -> (r:
    Vec<Job>)
    ensures
        r@.len() == pending_source_paths(published.deep_view(), sources@).len(),
        forall|i: int|
            0 <= i < r@.len() ==> (#[trigger] r@[i]).path@ == pending_source_paths(
                published.deep_view(),
                sources@,
            )[i] && r@[i].config == *config,
{
    let ghost pdv = published.deep_view();
    let mut r: Vec<Job> = Vec::new();
    let mut i: usize = 0;
    while i < sources.len()
        invariant
            0 <= i <= sources@.len(),
            pdv == published.deep_view(),
            r@.len() == pending_source_paths(pdv, sources@.take(i as int)).len(),
            forall|j: int|
                0 <= j < r@.len() ==> (#[trigger] r@[j]).path@ == pending_source_paths(
                    pdv,
                    sources@.take(i as int),
                )[j] && r@[j].config == *config,
        decreases sources@.len() - i,
    {
        let e = &sources[i];
        let ghost pre = r@;
        let ghost pend_i = pending_source_paths(pdv, sources@.take(i as int));
        if !e.is_dir && !e.is_symlink {
            let name = file_name(e.path.as_str());
            if is_video(name.as_str()) {
                let key = identity_key(name.as_str());
                if !contains_key(published, &key) {
                    r.push(Job::new(e.path.clone(), config.clone()));
                }
            }
        }
        proof {
            assert(sources@.take(i + 1).drop_last() =~= sources@.take(i as int));
            assert(sources@.take(i + 1).last() == sources@[i as int]);
            let pend_next = pending_source_paths(pdv, sources@.take(i + 1));
            match pending_entry_path(pdv, sources@[i as int]) {
                Some(p) => {
                    assert(pend_next =~= pend_i.push(p));
                    assert(r@ =~= pre.push(r@[pre.len() as int]));
                },
                None => {
                    assert(pend_next =~= pend_i);
                },
            }
        }
        i = i + 1;
    }
    proof {
        assert(sources@.take(sources@.len() as int) =~= sources@);
    }
    r
}

/// Every path the scan diff selects comes from a qualifying source
/// entry: a plain recognized video file whose key is unpublished.
pub proof fn lemma_pending_paths_come_from_sources(
    published: Seq<Seq<char>>,
    sources: Seq<ScanEntry>,
)
    ensures
        forall|x: Seq<char>|
            #[trigger] pending_source_paths(published, sources).contains(x) ==> exists|k: int|
                0 <= k < sources.len() && pending_entry_path(published, #[trigger] sources[k])
                    == Some(x),
    decreases sources.len(),
{
    if sources.len() > 0 {
        let rest = sources.drop_last();
        lemma_pending_paths_come_from_sources(published, rest);
        let pend = pending_source_paths(published, sources);
        let pend_rest = pending_source_paths(published, rest);
        assert forall|x: Seq<char>| #[trigger] pend.contains(x) implies exists|k: int|
            0 <= k < sources.len() && pending_entry_path(published, #[trigger] sources[k]) == Some(
            x,
        ) by {
            if pend_rest.contains(x) {
                let k = choose|k: int|
                    0 <= k < rest.len() && pending_entry_path(published, #[trigger] rest[k])
                        == Some(x);
                assert(sources[k] == rest[k]);
            } else {
                assert(pending_entry_path(published, sources.last()) == Some(x));
                assert(pending_entry_path(published, sources[sources.len() - 1]) == Some(x));
            }
        }
    }
}

/// For every recognized source video absent (by identity key) from the
/// published set, the scan diff holds exactly one entry: that file's
/// path appears, nothing unqualified appears, and — when the walk
/// reports each path once — no path appears twice.
pub proof fn lemma_scan_is_exact(published: Seq<Seq<char>>, sources: Seq<ScanEntry>)
    requires
        forall|i: int, j: int|
            0 <= i < j < sources.len() ==> (#[trigger] sources[i]).path@ != (
            #[trigger] sources[j]).path@,
    ensures
        forall|k: int|
            0 <= k < sources.len() ==> (#[trigger] pending_entry_path(published, sources[k])
                matches Some(p) ==> pending_source_paths(published, sources).contains(p)),
        forall|x: Seq<char>|
            #[trigger] pending_source_paths(published, sources).contains(x) ==> exists|k: int|
                0 <= k < sources.len() && pending_entry_path(published, #[trigger] sources[k])
                    == Some(x),
        forall|i: int, j: int|
            0 <= i < j < pending_source_paths(published, sources).len() ==> pending_source_paths(
                published,
                sources,
            )[i] != pending_source_paths(published, sources)[j],
    decreases sources.len(),
{
    lemma_pending_paths_come_from_sources(published, sources);
    let pend = pending_source_paths(published, sources);
    if sources.len() > 0 {
        let rest = sources.drop_last();
        let last = sources.last();
        lemma_scan_is_exact(published, rest);
        let pend_rest = pending_source_paths(published, rest);
        assert forall|k: int|
            0 <= k < sources.len() implies (#[trigger] pending_entry_path(published, sources[k])
            matches Some(p) ==> pend.contains(p)) by {
            if pending_entry_path(published, sources[k]) is Some {
                let p = pending_entry_path(published, sources[k])->Some_0;
                if k < sources.len() - 1 {
                    assert(rest[k] == sources[k]);
                    assert(pend_rest.contains(p));
                    let j = choose|j: int| 0 <= j < pend_rest.len() && pend_rest[j] == p;
                    assert(pend[j] == p);
                } else {
                    assert(pend.last() == p);
                }
            }
        }
        // No duplicates: what the prefix contributes never repeats, and
        // the last entry's path differs from every earlier source path.
        assert forall|i: int, j: int|
            0 <= i < j < pend.len() implies pend[i] != pend[j] by {
            if pending_entry_path(published, last) is Some {
                assert(pend =~= pend_rest.push(pend.last()));
                if j < pend.len() - 1 {
                    assert(pend_rest[i] != pend_rest[j]);
                } else {
                    let p = pending_entry_path(published, last)->Some_0;
                    assert(pend[i] == pend_rest[i]);
                    assert(pend_rest.contains(pend_rest[i]));
                    lemma_pending_paths_come_from_sources(published, rest);
                    let k = choose|k: int|
                        0 <= k < rest.len() && pending_entry_path(published, #[trigger] rest[k])
                            == Some(pend_rest[i]);
                    assert(pend_rest[i] == rest[k].path@);
                    assert(p == last.path@);
                    assert(sources[k] == rest[k]);
                    assert(sources[k].path@ != sources[sources.len() - 1].path@);
                }
            } else {
                assert(pend =~= pend_rest);
            }
        }
    }
}

/// A file whose identity key is already in the published set is never
/// enqueued by the scan — whatever extension, or casing of it, the
/// published variant carries, since membership goes by key alone.
pub proof fn lemma_published_never_reenqueued(published: Seq<Seq<char>>, sources: Seq<ScanEntry>)
    ensures
        forall|x: Seq<char>|
            #[trigger] pending_source_paths(published, sources).contains(x) ==> !published.contains(
                key_of(file_name_of(x)),
            ),
{
    lemma_pending_paths_come_from_sources(published, sources);
    assert forall|x: Seq<char>|
        #[trigger] pending_source_paths(published, sources).contains(x) implies !published.contains(
        key_of(file_name_of(x)),
    ) by {
        let k = choose|k: int|
            0 <= k < sources.len() && pending_entry_path(published, #[trigger] sources[k]) == Some(
                x,
            );
        assert(x == sources[k].path@);
    }
}

/// A debounced filesystem notification, as the watch hands it to the
/// dispatcher: a creation at some path, or anything else.
pub enum FsEvent {
    Create(String),
    Other,
}

/// The dispatcher: discovers work and feeds the shared job queue that a
/// bounded pool of workers drains.
pub struct Transcoder {
    pub config: Arc<Settings>,
    pub queue: JobQueue,
}

impl Transcoder {
    /// A dispatcher over the given configuration and an empty queue. The
    /// worker count must have been validated first: exceeding the ceiling
    /// is a fatal startup error, checked before any scanning.
    pub fn new(config: Arc<Settings>) -> (r: Transcoder)
        requires
            worker_count_ok(config.media.workers),
        ensures
            r.config == config,
            r.queue@ == Seq::<Job>::empty(),
    {
        Transcoder { config, queue: JobQueue::new() }
    }

    /// The scan phase: build the published set from the publish tree,
    /// then enqueue one job for every recognized source video whose
    /// identity key is not in it. Runs once; enqueueing never blocks.
    pub fn scan(&mut self, publish_entries: &Vec<ScanEntry>, source_entries: &Vec<ScanEntry>)
        ensures
            final(self).config == old(self).config,
            final(self).queue@.len() == old(self).queue@.len() + pending_source_paths(
                published_keys_of(publish_entries@),
                source_entries@,
            ).len(),
            forall|i: int|
                0 <= i < old(self).queue@.len() ==> final(self).queue@[i] == old(self).queue@[i],
            forall|i: int|
                old(self).queue@.len() <= i < final(self).queue@.len() ==> (
                #[trigger] final(self).queue@[i]).path@ == pending_source_paths(
                    published_keys_of(publish_entries@),
                    source_entries@,
                )[i - old(self).queue@.len()] && final(self).queue@[i].config == old(self).config,
    {
        let published = published_keys(publish_entries);
        let mut jobs = scan_jobs(&published, source_entries, &self.config);
        let ghost cfg = self.config;
        let ghost q0 = self.queue@;
        let ghost pend = pending_source_paths(
            published_keys_of(publish_entries@),
            source_entries@,
        );
        while jobs.len() > 0
            invariant
                self.config == cfg,
                jobs@.len() <= pend.len(),
                self.queue@.len() == q0.len() + pend.len() - jobs@.len(),
                forall|i: int| 0 <= i < q0.len() ==> self.queue@[i] == q0[i],
                forall|i: int|
                    q0.len() <= i < self.queue@.len() ==> (#[trigger] self.queue@[i]).path@
                        == pend[i - q0.len()] && self.queue@[i].config == cfg,
                forall|j: int|
                    0 <= j < jobs@.len() ==> (#[trigger] jobs@[j]).path@ == pend[pend.len()
                        - jobs@.len() + j] && jobs@[j].config == cfg,
            decreases jobs@.len(),
        {
            let job = jobs.remove(0);
            self.queue.push(job);
        }
    }

    /// The watch phase's step: a creation event for a recognized video
    /// file becomes exactly one enqueued job — its identity key is not
    /// re-checked against the published set, a watched creation is taken
    /// as new work. Every other event is ignored.
    pub fn handle_event(&mut self, event: FsEvent) -> (enqueued: bool)
        ensures
            final(self).config == old(self).config,
            ({
                match event {
                    FsEvent::Create(p) => {
                        if is_video_name(file_name_of(p@)) {
                            enqueued && final(self).queue@ == old(self).queue@.push(
                                (Job { path: p, config: old(self).config }),
                            )
                        } else {
                            !enqueued && final(self).queue@ == old(self).queue@
                        }
                    },
                    FsEvent::Other => !enqueued && final(self).queue@ == old(self).queue@,
                }
            }),
    {
        match event {
            FsEvent::Create(p) => {
                let name = file_name(p.as_str());
                if is_video(name.as_str()) {
                    self.queue.push(Job::new(p, self.config.clone()));
                    true
                } else {
                    false
                }
            },
            FsEvent::Other => false,
        }
    }

    /// Hand the oldest queued job to a worker, removing it from the
    /// queue: each job instance is delivered at most once.
    pub fn pop_job(&mut self) -> (r: Option<Job>)
        ensures
            final(self).config == old(self).config,
            ({
                match r {
                    Some(job) => old(self).queue@.len() > 0 && job == old(self).queue@[0]
                        && final(self).queue@ == old(self).queue@.drop_first(),
                    None => old(self).queue@.len() == 0 && final(self).queue@ == old(self).queue@,
                }
            }),
    {
        self.queue.pop()
    }
}

} // verus!
