//! Conversion jobs and their serial execution queue.
//!
//! A conversion job delegates one playback request to an external
//! transformation pipeline.  The job is a three-stage state machine,
//! `Wait -> Running -> Completed`, whose terminal stage is immutable: the
//! first writer (natural completion or cancellation) decides the result.
//! Jobs are executed one at a time, in submission order, by a single worker
//! that skips jobs abandoned before it reaches them.  The state transitions
//! are decided here; spawning, killing and waiting on the external process
//! is the embedding application's part, reported back through arguments.

use vstd::prelude::*;
use vstd::string::StringExecFns;
use std::collections::VecDeque;
use crate::data::song::{SongMetadata, SourceError};
use crate::text::{
    chars_of, string_from_range, trim_bounds, trim_of, i32_digits, i32_to_string, parse_bool,
    parse_i32, spec_parse_bool, spec_parse_i32, lemma_i32_round_trip,
};

verus! {

/// Terminal outcome of a conversion job.
#[derive(Clone, Copy, Debug, PartialEq, Eq, Structural)]
pub enum RVCProcessorResult {
    Good,
    Canceled,
    Error,
}

/// Argument set of one external pipeline invocation: the working directory
/// the artifacts are produced in, the source locator, the voice model, the
/// pitch shift in semitones, and whether a secondary-format artifact is
/// also exported.
pub struct RVCCommand {
    pub working_dir: String,
    pub source: String,
    pub model: String,
    pub pitch: i32,
    pub export_mp3: bool,
}

impl RVCCommand {
    /// The argument vector the pipeline process is invoked with: working
    /// directory, source locator, model, pitch in semitones, and whether
    /// the secondary-format artifact is exported.
    pub fn args(&self) -> (r: Vec<String>)
        ensures
            r@.len() == 5,
            r@[0] == self.working_dir,
            r@[1] == self.source,
            r@[2] == self.model,
            r@[3]@ == i32_digits(self.pitch as int),
            r@[4]@ == (if self.export_mp3 {
                "true"@
            } else {
                "false"@
            }),
    {
        let mut r: Vec<String> = Vec::new();
        r.push(self.working_dir.clone());
        r.push(self.source.clone());
        r.push(self.model.clone());
        r.push(i32_to_string(self.pitch));
        r.push(
            if self.export_mp3 {
                String::from_str("true")
            } else {
                String::from_str("false")
            },
        );
        r
    }

    /// Reads an argument vector back into a command, the way the pipeline
    /// process reads the arguments it was invoked with.  Succeeds exactly
    /// on five arguments whose pitch and flag parse.
    pub fn parse_args(args: &Vec<String>) -> (r: Option<RVCCommand>)
        ensures
            (r is Some <==> args@.len() == 5 && spec_parse_i32(args@[3]@) is Some
                && spec_parse_bool(args@[4]@) is Some),
            r matches Some(c) ==> {
                &&& c.working_dir == args@[0]
                &&& c.source == args@[1]
                &&& c.model == args@[2]
                &&& Some(c.pitch) == spec_parse_i32(args@[3]@)
                &&& Some(c.export_mp3) == spec_parse_bool(args@[4]@)
            },
    {
        if args.len() != 5 {
            return None;
        }
        let pitch = match parse_i32(args[3].as_str()) {
            Some(p) => p,
            None => {
                return None;
            },
        };
        let export_mp3 = match parse_bool(args[4].as_str()) {
            Some(b) => b,
            None => {
                return None;
            },
        };
        Some(
            RVCCommand {
                working_dir: args[0].clone(),
                source: args[1].clone(),
                model: args[2].clone(),
                pitch,
                export_mp3,
            },
        )
    }
}

/// The command codec round-trips: a rendered pitch parses back to itself,
/// and so does the rendered export flag.
pub proof fn lemma_command_codec(pitch: i32, export_mp3: bool)
    ensures
        spec_parse_i32(i32_digits(pitch as int)) == Some(pitch),
        spec_parse_bool(
            if export_mp3 {
                "true"@
            } else {
                "false"@
            },
        ) == Some(export_mp3),
{
    lemma_i32_round_trip(pitch);
    reveal_strlit("true");
    reveal_strlit("false");
    assert("true"@.len() == 4);
    assert("false"@.len() == 5);
    assert("false"@ != "true"@);
    assert(spec_parse_bool("true"@) == Some(true));
    assert(spec_parse_bool("false"@) == Some(false));
}

/// Lifecycle stage of a conversion job.  `Running` carries the identifier
/// under which the embedder tracks the spawned process.
pub enum RVCProcessorState {
    Wait(RVCCommand),
    Running(u64),
    Completed(RVCProcessorResult),
}

/// One conversion job: its working directory and its lifecycle stage.
pub struct RVCProcessor {
    pub working_dir: String,
    pub state: RVCProcessorState,
}

/// Rank of a lifecycle stage; transitions never decrease it.
pub open spec fn lifecycle_rank(s: RVCProcessorState) -> int {
    match s {
        RVCProcessorState::Wait(_) => 0,
        RVCProcessorState::Running(_) => 1,
        RVCProcessorState::Completed(_) => 2,
    }
}

/// The only admissible steps: the rank never decreases, and a completed
/// job never changes again.
pub open spec fn lifecycle_step(pre: RVCProcessorState, post: RVCProcessorState) -> bool {
    &&& lifecycle_rank(pre) <= lifecycle_rank(post)
    &&& (pre is Completed ==> post == pre)
}

/// Effect of `run` on a job's stage, given the spawn outcome: a waiting job
/// becomes `Running` on a successful spawn and `Completed(Error)` on a
/// failed one; any other job is left untouched and nothing is started.
pub open spec fn spec_run(s: RVCProcessorState, spawned: Option<u64>) -> (RVCProcessorState, Option<
    u64,
>) {
    match s {
        RVCProcessorState::Wait(_) => match spawned {
            Some(h) => (RVCProcessorState::Running(h), Some(h)),
            None => (RVCProcessorState::Completed(RVCProcessorResult::Error), None),
        },
        _ => (s, None),
    }
}

/// Effect of natural completion: a running job completes `Good` on a zero
/// exit status and `Error` otherwise; any other job is left untouched.
pub open spec fn spec_completed(s: RVCProcessorState, success: bool) -> RVCProcessorState {
    match s {
        RVCProcessorState::Running(_) => RVCProcessorState::Completed(
            if success {
                RVCProcessorResult::Good
            } else {
                RVCProcessorResult::Error
            },
        ),
        _ => s,
    }
}

/// Effect of cancellation: a job that has not completed yet completes
/// `Canceled`; a completed job keeps its first result.  The second
/// component is the process to terminate, present exactly when the job was
/// running.
pub open spec fn spec_cancel(s: RVCProcessorState) -> (RVCProcessorState, Option<u64>) {
    match s {
        RVCProcessorState::Wait(_) => (
            RVCProcessorState::Completed(RVCProcessorResult::Canceled),
            None,
        ),
        RVCProcessorState::Running(h) => (
            RVCProcessorState::Completed(RVCProcessorResult::Canceled),
            Some(h),
        ),
        RVCProcessorState::Completed(_) => (s, None),
    }
}

/// Result visible to waiters: the terminal outcome once the job completed.
pub open spec fn spec_result(s: RVCProcessorState) -> Option<RVCProcessorResult> {
    match s {
        RVCProcessorState::Completed(r) => Some(r),
        _ => None,
    }
}

impl RVCProcessor {
    /// A fresh job, waiting with its pipeline command.
    pub fn new(working_dir: String, command: RVCCommand) -> (p: Self)
        ensures
            p.working_dir == working_dir,
            p.state == RVCProcessorState::Wait(command),
    {
        RVCProcessor { working_dir, state: RVCProcessorState::Wait(command) }
    }

    /// The command to spawn, present exactly while the job is waiting.
    pub fn start_command(&self) -> (r: Option<&RVCCommand>)
        ensures
            (r is Some <==> self.state is Wait),
            r matches Some(c) ==> self.state == RVCProcessorState::Wait(*c),
    {
        match &self.state {
            RVCProcessorState::Wait(c) => Some(c),
            _ => None,
        }
    }

    /// Records the worker's spawn attempt.  Returns the process to wait
    /// on, if one was started; on a job that is no longer waiting —
    /// in particular one already completed — this is a no-op and nothing
    /// is started.
    pub fn run(&mut self, spawned: Option<u64>) -> (started: Option<u64>)
        ensures
            (final(self).state, started) == spec_run(old(self).state, spawned),
            final(self).working_dir == old(self).working_dir,
            lifecycle_step(old(self).state, final(self).state),
    {
        if matches!(self.state, RVCProcessorState::Wait(_)) {
            match spawned {
                Some(h) => {
                    self.state = RVCProcessorState::Running(h);
                    Some(h)
                },
                None => {
                    self.state = RVCProcessorState::Completed(RVCProcessorResult::Error);
                    None
                },
            }
        } else {
            None
        }
    }

    /// Records the natural exit of the external process: `success` is
    /// whether it exited with status zero.  First writer wins: a job
    /// already completed (for example canceled meanwhile) is left as it is.
    pub fn completed(&mut self, success: bool)
        ensures
            final(self).state == spec_completed(old(self).state, success),
            final(self).working_dir == old(self).working_dir,
            lifecycle_step(old(self).state, final(self).state),
    {
        if matches!(self.state, RVCProcessorState::Running(_)) {
            self.state = RVCProcessorState::Completed(
                if success {
                    RVCProcessorResult::Good
                } else {
                    RVCProcessorResult::Error
                },
            );
        }
    }

    /// Cancels the job.  Returns the process the caller must terminate,
    /// present exactly when the job was running; termination itself is
    /// best-effort and outside this machine.
    pub fn cancel(&mut self) -> (kill: Option<u64>)
        ensures
            (final(self).state, kill) == spec_cancel(old(self).state),
            final(self).working_dir == old(self).working_dir,
            lifecycle_step(old(self).state, final(self).state),
    {
        let kill: Option<u64> = if let RVCProcessorState::Running(h) = &self.state {
            Some(*h)
        } else {
            None
        };
        if !matches!(self.state, RVCProcessorState::Completed(_)) {
            self.state = RVCProcessorState::Completed(RVCProcessorResult::Canceled);
        }
        kill
    }

    /// The terminal outcome, once there is one.
    pub fn result(&self) -> (r: Option<RVCProcessorResult>)
        ensures
            r == spec_result(self.state),
    {
        match &self.state {
            RVCProcessorState::Completed(res) => Some(*res),
            _ => None,
        }
    }
}

/// Cancellation is idempotent: the first call on a not-yet-completed job
/// completes it `Canceled`; a second call keeps that result and finds no
/// process left to terminate.
pub proof fn lemma_cancel_idempotent(s: RVCProcessorState)
    requires
        !(s is Completed),
    ensures
        spec_cancel(s).0 == RVCProcessorState::Completed(RVCProcessorResult::Canceled),
        spec_cancel(spec_cancel(s).0) == (spec_cancel(s).0, None::<u64>),
{
}

/// Lifecycle monotonicity: every transition is a `Wait -> Running ->
/// Completed` step, and a completed job never moves again; in particular
/// `run` after completion changes nothing and starts nothing.
pub proof fn lemma_lifecycle_monotonic(s: RVCProcessorState, spawned: Option<u64>, success: bool)
    ensures
        lifecycle_step(s, spec_run(s, spawned).0),
        lifecycle_step(s, spec_completed(s, success)),
        lifecycle_step(s, spec_cancel(s).0),
        s is Completed ==> spec_run(s, spawned) == (s, None::<u64>),
{
}

/// What the worker does with the job behind the queue entry it pulled:
/// spawn its process, or skip the entry.
#[derive(Clone, Copy, Debug, PartialEq, Eq, Structural)]
pub enum WorkerAction {
    Spawn,
    Skip,
}

/// The worker's decision on a pulled entry.  `job` is the stage of the job
/// the entry could be upgraded to, or `None` when every strong reference
/// to the job was dropped before the worker reached it.
pub open spec fn spec_worker_decide(job: Option<RVCProcessorState>) -> WorkerAction {
    match job {
        Some(RVCProcessorState::Wait(_)) => WorkerAction::Spawn,
        _ => WorkerAction::Skip,
    }
}

/// Decides what the worker does with a pulled queue entry: only a job that
/// is still reachable and still waiting gets its process spawned.
pub fn worker_decide(job: Option<&RVCProcessor>) -> (a: WorkerAction)
    ensures
        a == spec_worker_decide(
            match job {
                Some(p) => Some(p.state),
                None => None,
            },
        ),
{
    match job {
        Some(p) => {
            if matches!(p.state, RVCProcessorState::Wait(_)) {
                WorkerAction::Spawn
            } else {
                WorkerAction::Skip
            }
        },
        None => WorkerAction::Skip,
    }
}

/// An abandoned entry is discarded without any process being spawned, and
/// a spawn happens only for a job still waiting to start.
pub proof fn lemma_abandoned_skip(job: Option<RVCProcessorState>)
    ensures
        job is None ==> spec_worker_decide(job) == WorkerAction::Skip,
        spec_worker_decide(job) == WorkerAction::Spawn ==> (job matches Some(s) && s is Wait),
{
}

/// The serial execution queue: job identifiers in submission order.  The
/// embedder holds the entries as weak references beside these identifiers
/// and runs the single worker loop; exactly one job is executed at a time,
/// first submitted first.
pub struct RVCProcessorQueue {
    entries: VecDeque<u64>,
}

impl View for RVCProcessorQueue {
    type V = Seq<u64>;

    closed spec fn view(&self) -> Seq<u64> {
        self.entries@
    }
}

impl RVCProcessorQueue {
    /// An empty queue.
    pub fn new() -> (q: Self)
        ensures
            q@ == Seq::<u64>::empty(),
    {
        RVCProcessorQueue { entries: VecDeque::new() }
    }

    /// Enqueues a job behind every job submitted before it.
    pub fn queue(&mut self, job: u64)
        ensures
            final(self)@ == old(self)@.push(job),
    {
        self.entries.push_back(job);
    }

    /// The worker pulls the oldest entry, if any.
    pub fn take_next(&mut self) -> (r: Option<u64>)
        ensures
            old(self)@.len() == 0 ==> r is None && final(self)@ == old(self)@,
            old(self)@.len() > 0 ==> r == Some(old(self)@[0]) && final(self)@ == old(
                self,
            )@.drop_first(),
    {
        self.entries.pop_front()
    }
}

/// Descriptive data of one voice model: its display name and the localized
/// variants, its group, and the selection labels derived from both.
pub struct ModelMetadata {
    pub name: String,
    pub localizations: Vec<(String, String)>,
    pub group: String,
    pub select_name: String,
    pub select_localizations: Vec<(String, String)>,
}

/// The relation `set_group` establishes: the group name is trimmed and
/// recorded, and the selection labels carry the group as a prefix — or
/// equal the plain names when the trimmed group is empty.
pub open spec fn set_grouped_ok(pre: ModelMetadata, group: Seq<char>, post: ModelMetadata) -> bool {
    let t = trim_of(group);
    &&& post.name == pre.name
    &&& post.localizations == pre.localizations
    &&& post.group@ == t
    &&& post.select_localizations@.len() == pre.localizations@.len()
    &&& (t.len() == 0 ==> post.select_name@ == pre.name@ && forall|i: int|
        0 <= i < pre.localizations@.len() ==> (#[trigger] post.select_localizations@[i])
            == pre.localizations@[i])
    &&& (t.len() > 0 ==> post.select_name@ == t + " - "@ + pre.name@ && forall|i: int|
        0 <= i < pre.localizations@.len() ==> (#[trigger] post.select_localizations@[i]).0
            == pre.localizations@[i].0 && post.select_localizations@[i].1@ == t + " - "@
            + pre.localizations@[i].1@)
}

impl ModelMetadata {
    /// Derives the selection labels from a group name: the trimmed group
    /// joined to the display names, or the plain display names under an
    /// empty group.
    pub fn set_group(&mut self, group: &str)
        ensures
            set_grouped_ok(*old(self), group@, *final(self)),
    {
        let gv = chars_of(group);
        let bounds = trim_bounds(&gv);
        let trimmed = string_from_range(&gv, bounds.0, bounds.1);
        let empty = trimmed.unicode_len() == 0;
        let mut select_name = trimmed.clone();
        if empty {
            select_name = self.name.clone();
        } else {
            select_name.append(" - ");
            select_name.append(self.name.as_str());
        }
        let mut select_localizations: Vec<(String, String)> = Vec::new();
        let mut i: usize = 0;
        while i < self.localizations.len()
            invariant
                i <= self.localizations@.len(),
                select_localizations@.len() == i,
                empty ==> forall|k: int|
                    0 <= k < i ==> (#[trigger] select_localizations@[k])
                        == self.localizations@[k],
                !empty ==> forall|k: int|
                    0 <= k < i ==> (#[trigger] select_localizations@[k]).0
                        == self.localizations@[k].0 && select_localizations@[k].1@ == trimmed@
                        + " - "@ + self.localizations@[k].1@,
            decreases self.localizations@.len() - i,
        {
            let key = self.localizations[i].0.clone();
            if empty {
                select_localizations.push((key, self.localizations[i].1.clone()));
            } else {
                let mut v = trimmed.clone();
                v.append(" - ");
                v.append(self.localizations[i].1.as_str());
                select_localizations.push((key, v));
            }
            i = i + 1;
        }
        self.group = trimmed;
        self.select_name = select_name;
        self.select_localizations = select_localizations;
        proof {
            if trim_of(group@).len() == 0 {
                assert(self.select_localizations@ =~= self.localizations@);
            }
        }
    }
}

/// One catalog entry: the model's directory name, its descriptive data,
/// and whether its weight files were found beside the catalog.
pub struct ModelEntry {
    pub raw_name: String,
    pub metadata: ModelMetadata,
    pub available: bool,
}

/// One group of catalog entries, as the catalog file arranges them.
pub struct ModelGroup {
    pub name: String,
    pub models: Vec<ModelEntry>,
}

/// The loaded model catalog: the usable entries in catalog order, and a
/// map from every accepted alias (raw or localized name) to the raw name.
pub struct ModelLibrary {
    pub models: Vec<ModelEntry>,
    pub name_map: Vec<(String, String)>,
}

/// Some catalog entry is named `raw`.
pub open spec fn has_raw(models: Seq<ModelEntry>, raw: Seq<char>) -> bool {
    entry_index(models, raw, 0) is Some
}

/// The pairs kept, in order, when those keyed `k` are removed.
pub open spec fn without_key(pairs: Seq<(String, String)>, k: Seq<char>) -> Seq<(String, String)>
    decreases pairs.len(),
{
    if pairs.len() == 0 {
        Seq::empty()
    } else {
        let rest = without_key(pairs.drop_last(), k);
        if pairs.last().0@ == k {
            rest
        } else {
            rest.push(pairs.last())
        }
    }
}

/// Binding an alias: any earlier binding of the same key is dropped and
/// the new pair goes to the back — the last binding wins.
pub open spec fn put_alias(pairs: Seq<(String, String)>, k: String, v: String) -> Seq<
    (String, String),
> {
    without_key(pairs, k@).push((k, v))
}

/// The alias bindings after binding each localized name, in order, to the
/// raw name.
pub open spec fn locs_fold(
    pairs: Seq<(String, String)>,
    locs: Seq<(String, String)>,
    raw: String,
) -> Seq<(String, String)>
    decreases locs.len(),
{
    if locs.len() == 0 {
        pairs
    } else {
        put_alias(locs_fold(pairs, locs.drop_last(), raw), locs.last().1, raw)
    }
}

/// The alias bindings an entry contributes: its raw name, then each of
/// its localized names, all bound to the raw name.
pub open spec fn entry_aliases(pairs: Seq<(String, String)>, e: ModelEntry) -> Seq<
    (String, String),
> {
    locs_fold(put_alias(pairs, e.raw_name, e.raw_name), e.metadata.localizations@, e.raw_name)
}

/// Registration of a sequence of entries, in order: an entry whose files
/// are present and whose raw name is new joins the catalog and binds its
/// aliases; every other entry is skipped.
pub open spec fn lib_fold(entries: Seq<ModelEntry>) -> (Seq<ModelEntry>, Seq<(String, String)>)
    decreases entries.len(),
{
    if entries.len() == 0 {
        (Seq::empty(), Seq::empty())
    } else {
        let prev = lib_fold(entries.drop_last());
        let e = entries.last();
        if e.available && !has_raw(prev.0, e.raw_name@) {
            (prev.0.push(e), entry_aliases(prev.1, e))
        } else {
            prev
        }
    }
}

/// Binds an alias, dropping any earlier binding of the same key.
fn assoc_put(pairs: &mut Vec<(String, String)>, k: String, v: String)
    ensures
        final(pairs)@ == put_alias(old(pairs)@, k, v),
{
    let ghost orig = pairs@;
    let mut out: Vec<(String, String)> = Vec::new();
    let ghost mut seen: int = 0;
    while pairs.len() > 0
        invariant
            0 <= seen <= orig.len(),
            pairs@ == orig.skip(seen),
            out@ == without_key(orig.take(seen), k@),
        decreases orig.len() - seen,
    {
        let p = pairs.remove(0);
        proof {
            assert(orig.skip(seen).drop_first() =~= orig.skip(seen + 1));
            assert(p == orig[seen]);
            assert(orig.take(seen + 1).drop_last() =~= orig.take(seen));
        }
        let drop_it = crate::text::str_eq(p.0.as_str(), k.as_str());
        if !drop_it {
            out.push(p);
        }
        proof {
            seen = seen + 1;
        }
    }
    proof {
        assert(orig.take(seen) =~= orig);
    }
    out.push((k, v));
    *pairs = out;
}

/// Whether some registered entry is named `raw`.
fn has_model(models: &Vec<ModelEntry>, raw: &str) -> (b: bool)
    ensures
        b == has_raw(models@, raw@),
{
    let mut i: usize = 0;
    while i < models.len()
        invariant
            i <= models@.len(),
            entry_index(models@, raw@, 0) == entry_index(models@, raw@, i as int),
        decreases models@.len() - i,
    {
        if crate::text::str_eq(models[i].raw_name.as_str(), raw) {
            return true;
        }
        i = i + 1;
    }
    false
}

/// First catalog position at or after `from` whose entry is named `raw`.
pub open spec fn entry_index(models: Seq<ModelEntry>, raw: Seq<char>, from: int) -> Option<int>
    decreases models.len() - from
        when 0 <= from <= models.len()
{
    if from >= models.len() {
        None
    } else if models[from].raw_name@ == raw {
        Some(from)
    } else {
        entry_index(models, raw, from + 1)
    }
}

/// Value of the first pair keyed `key`, at or after `from`.
pub open spec fn assoc_lookup(pairs: Seq<(String, String)>, key: Seq<char>, from: int) -> Option<
    Seq<char>,
>
    decreases pairs.len() - from
        when 0 <= from <= pairs.len()
{
    if from >= pairs.len() {
        None
    } else if pairs[from].0@ == key {
        Some(pairs[from].1@)
    } else {
        assoc_lookup(pairs, key, from + 1)
    }
}

/// Looks a key up in an association list, first pair wins.
pub fn assoc_find<'a>(pairs: &'a Vec<(String, String)>, key: &str) -> (r: Option<&'a String>)
    ensures
        match r {
            Some(v) => assoc_lookup(pairs@, key@, 0) == Some(v@),
            None => assoc_lookup(pairs@, key@, 0) is None,
        },
{
    let mut i: usize = 0;
    while i < pairs.len()
        invariant
            i <= pairs@.len(),
            assoc_lookup(pairs@, key@, 0) == assoc_lookup(pairs@, key@, i as int),
        decreases pairs@.len() - i,
    {
        if crate::text::str_eq(pairs[i].0.as_str(), key) {
            return Some(&pairs[i].1);
        }
        i = i + 1;
    }
    None
}

/// Total number of entries in the first `g` groups.
pub open spec fn entries_before(groups: Seq<ModelGroup>, g: int) -> int
    decreases g
        when 0 <= g
{
    if g <= 0 {
        0
    } else {
        entries_before(groups, g - 1) + groups[g - 1].models@.len()
    }
}

/// The running total of entries is never negative.
pub proof fn lemma_entries_before_nonneg(groups: Seq<ModelGroup>, g: int)
    requires
        0 <= g <= groups.len(),
    ensures
        entries_before(groups, g) >= 0,
    decreases g,
{
    if g > 0 {
        lemma_entries_before_nonneg(groups, g - 1);
    }
}

/// A whole earlier group's entries lie before a later group's entries.
pub proof fn lemma_entries_before_mono(groups: Seq<ModelGroup>, a: int, b: int)
    requires
        0 <= a < b <= groups.len(),
    ensures
        entries_before(groups, a) + groups[a].models@.len() <= entries_before(groups, b),
    decreases b,
{
    if b - 1 > a {
        lemma_entries_before_mono(groups, a, b - 1);
    }
}

/// One flattened entry: the catalog entry with its group's name folded
/// into the selection labels.
pub open spec fn grouped_ok(e: ModelEntry, group: Seq<char>, o: ModelEntry) -> bool {
    &&& o.raw_name == e.raw_name
    &&& o.available == e.available
    &&& set_grouped_ok(e.metadata, group, o.metadata)
}

/// Flattens the catalog's groups into one entry sequence, in catalog
/// order, folding each group's name into its entries' selection labels.
pub fn grouped_entries(groups: Vec<ModelGroup>) -> (out: Vec<ModelEntry>)
    ensures
        out@.len() == entries_before(groups@, groups@.len() as int),
        forall|g: int, j: int|
            0 <= g < groups@.len() && 0 <= j < groups@[g].models@.len() ==> grouped_ok(
                #[trigger] groups@[g].models@[j],
                groups@[g].name@,
                out@[entries_before(groups@, g) + j],
            ),
{
    let mut groups = groups;
    let ghost orig = groups@;
    let mut out: Vec<ModelEntry> = Vec::new();
    let ghost mut g: int = 0;
    while groups.len() > 0
        invariant
            0 <= g <= orig.len(),
            groups@ == orig.skip(g),
            out@.len() == entries_before(orig, g),
            forall|gi: int, j: int|
                0 <= gi < g && 0 <= j < orig[gi].models@.len() ==> grouped_ok(
                    #[trigger] orig[gi].models@[j],
                    orig[gi].name@,
                    out@[entries_before(orig, gi) + j],
                ),
        decreases orig.len() - g,
    {
        let mut grp = groups.remove(0);
        proof {
            assert(orig.skip(g).drop_first() =~= orig.skip(g + 1));
            assert(grp == orig[g]);
        }
        let ghost locs = grp.models@;
        let ghost base = out@.len() as int;
        let ghost mut j: int = 0;
        while grp.models.len() > 0
            invariant
                0 <= j <= locs.len(),
                grp.name == orig[g].name,
                0 <= g < orig.len(),
                locs == orig[g].models@,
                grp.models@ == locs.skip(j),
                base == entries_before(orig, g),
                out@.len() == base + j,
                forall|gi: int, jj: int|
                    0 <= gi < g && 0 <= jj < orig[gi].models@.len() ==> grouped_ok(
                        #[trigger] orig[gi].models@[jj],
                        orig[gi].name@,
                        out@[entries_before(orig, gi) + jj],
                    ),
                forall|jj: int|
                    0 <= jj < j ==> grouped_ok(
                        #[trigger] locs[jj],
                        orig[g].name@,
                        out@[base + jj],
                    ),
            decreases locs.len() - j,
        {
            let mut e = grp.models.remove(0);
            proof {
                assert(locs.skip(j).drop_first() =~= locs.skip(j + 1));
                assert(e == locs[j]);
            }
            e.metadata.set_group(grp.name.as_str());
            out.push(e);
            proof {
                j = j + 1;
                lemma_entries_before_nonneg(orig, g);
                assert forall|gi: int, jj: int|
                    0 <= gi < g && 0 <= jj < orig[gi].models@.len() implies grouped_ok(
                    #[trigger] orig[gi].models@[jj],
                    orig[gi].name@,
                    out@[entries_before(orig, gi) + jj],
                ) by {
                    lemma_entries_before_nonneg(orig, gi);
                    lemma_entries_before_mono(orig, gi, g);
                }
            }
        }
        proof {
            assert(j == locs.len());
            g = g + 1;
            assert(entries_before(orig, g) == base + locs.len());
        }
    }
    proof {
        assert(g == orig.len());
    }
    out
}

/// The relation between the parsed catalog groups and a loaded catalog:
/// the groups flatten to some entry sequence whose registration gives
/// exactly the catalog's entries and alias bindings.
pub open spec fn loaded_from(groups: Seq<ModelGroup>, lib: ModelLibrary) -> bool {
    exists|flat: Seq<ModelEntry>|
        {
            &&& flat.len() == entries_before(groups, groups.len() as int)
            &&& (forall|g: int, j: int|
                0 <= g < groups.len() && 0 <= j < groups[g].models@.len() ==> grouped_ok(
                    #[trigger] groups[g].models@[j],
                    groups[g].name@,
                    flat[entries_before(groups, g) + j],
                ))
            &&& (lib.models@, lib.name_map@) == lib_fold(flat)
        }
}

impl Default for ModelLibrary {
    /// The empty catalog.
    fn default() -> (r: Self)
        ensures
            r.models@.len() == 0,
            r.name_map@.len() == 0,
    {
        ModelLibrary { models: Vec::new(), name_map: Vec::new() }
    }
}

impl ModelLibrary {
    /// Registers a flat entry sequence, in order: an entry whose files are
    /// present and whose raw name is not yet taken joins the catalog and
    /// binds its raw and localized names as aliases, the last binding of
    /// an alias winning; duplicates and absent entries are skipped.
    pub fn register_entries(entries: Vec<ModelEntry>) -> (lib: ModelLibrary)
        ensures
            (lib.models@, lib.name_map@) == lib_fold(entries@),
    {
        let mut entries = entries;
        let ghost orig = entries@;
        let mut models: Vec<ModelEntry> = Vec::new();
        let mut name_map: Vec<(String, String)> = Vec::new();
        let ghost mut seen: int = 0;
        while entries.len() > 0
            invariant
                0 <= seen <= orig.len(),
                entries@ == orig.skip(seen),
                (models@, name_map@) == lib_fold(orig.take(seen)),
            decreases orig.len() - seen,
        {
            let e = entries.remove(0);
            proof {
                assert(orig.skip(seen).drop_first() =~= orig.skip(seen + 1));
                assert(e == orig[seen]);
                assert(orig.take(seen + 1).drop_last() =~= orig.take(seen));
            }
            let dup = has_model(&models, e.raw_name.as_str());
            if e.available && !dup {
                let raw = e.raw_name.clone();
                let ghost ps0 = name_map@;
                assoc_put(&mut name_map, raw.clone(), raw.clone());
                proof {
                    assert(name_map@ == put_alias(ps0, e.raw_name, e.raw_name));
                }
                let ghost locs = e.metadata.localizations@;
                let ghost base = name_map@;
                let mut j: usize = 0;
                while j < e.metadata.localizations.len()
                    invariant
                        j <= locs.len(),
                        locs == e.metadata.localizations@,
                        raw == e.raw_name,
                        models@ == lib_fold(orig.take(seen)).0,
                        entries@ == orig.skip(seen + 1),
                        name_map@ == locs_fold(base, locs.take(j as int), e.raw_name),
                    decreases locs.len() - j,
                {
                    proof {
                        assert(locs.take(j as int + 1).drop_last() =~= locs.take(j as int));
                    }
                    assoc_put(
                        &mut name_map,
                        e.metadata.localizations[j].1.clone(),
                        raw.clone(),
                    );
                    j = j + 1;
                }
                proof {
                    assert(locs.take(locs.len() as int) =~= locs);
                    assert(name_map@ == entry_aliases(ps0, e));
                }
                models.push(e);
            }
            proof {
                seen = seen + 1;
            }
        }
        proof {
            assert(orig.take(seen) =~= orig);
        }
        ModelLibrary { models, name_map }
    }

    /// Loads the catalog from its parsed groups: the groups are flattened
    /// — each entry's selection labels folding in its group's name — and
    /// registered in order.
    pub fn load(groups: Vec<ModelGroup>) -> (lib: ModelLibrary)
        ensures
            loaded_from(groups@, lib),
    {
        let ghost gs = groups@;
        let flat = grouped_entries(groups);
        let ghost fv = flat@;
        let lib = Self::register_entries(flat);
        proof {
            assert(fv.len() == entries_before(gs, gs.len() as int));
            assert((lib.models@, lib.name_map@) == lib_fold(fv));
        }
        lib
    }

    /// Loads the catalog where its file could be read and parsed, and
    /// falls back to the empty catalog otherwise.
    pub fn load_or_warn(groups: Option<Vec<ModelGroup>>) -> (lib: ModelLibrary)
        ensures
            groups matches Some(gs) ==> loaded_from(gs@, lib),
            groups is None ==> lib.models@.len() == 0 && lib.name_map@.len() == 0,
    {
        match groups {
            Some(gs) => Self::load(gs),
            None => ModelLibrary { models: Vec::new(), name_map: Vec::new() },
        }
    }

    /// The selection labels offered for the catalog, in catalog order:
    /// each model's selection name with its localized variants.
    pub fn choice_list(&self) -> (r: Vec<(String, Vec<(String, String)>)>)
        ensures
            r@.len() == self.models@.len(),
            forall|i: int|
                0 <= i < self.models@.len() ==> (#[trigger] r@[i]).0
                    == self.models@[i].metadata.select_name && r@[i].1@
                    == self.models@[i].metadata.select_localizations@,
    {
        let mut r: Vec<(String, Vec<(String, String)>)> = Vec::new();
        let mut i: usize = 0;
        while i < self.models.len()
            invariant
                i <= self.models@.len(),
                r@.len() == i,
                forall|k: int|
                    0 <= k < i ==> (#[trigger] r@[k]).0 == self.models@[k].metadata.select_name
                        && r@[k].1@ == self.models@[k].metadata.select_localizations@,
            decreases self.models@.len() - i,
        {
            let md = &self.models[i].metadata;
            let mut locs: Vec<(String, String)> = Vec::new();
            let mut j: usize = 0;
            while j < md.select_localizations.len()
                invariant
                    j <= md.select_localizations@.len(),
                    locs@.len() == j,
                    forall|k: int|
                        0 <= k < j ==> #[trigger] locs@[k] == md.select_localizations@[k],
                decreases md.select_localizations@.len() - j,
            {
                locs.push(
                    (md.select_localizations[j].0.clone(), md.select_localizations[j].1.clone()),
                );
                j = j + 1;
            }
            proof {
                assert(locs@ =~= md.select_localizations@);
            }
            r.push((md.select_name.clone(), locs));
            i = i + 1;
        }
        r
    }

    /// Position of the entry named `raw`, if one is in the catalog.
    pub fn find_entry(&self, raw: &str) -> (r: Option<usize>)
        ensures
            match r {
                Some(i) => i < self.models@.len() && entry_index(self.models@, raw@, 0) == Some(
                    i as int,
                ),
                None => entry_index(self.models@, raw@, 0) is None,
            },
    {
        let mut i: usize = 0;
        while i < self.models.len()
            invariant
                i <= self.models@.len(),
                entry_index(self.models@, raw@, 0) == entry_index(self.models@, raw@, i as int),
            decreases self.models@.len() - i,
        {
            if crate::text::str_eq(self.models[i].raw_name.as_str(), raw) {
                return Some(i);
            }
            i = i + 1;
        }
        None
    }

    /// The model at a catalog position, the way a selection by index
    /// resolves.
    pub fn from_index(&self, index: usize) -> (r: Option<Model>)
        ensures
            index < self.models@.len() ==> (r matches Some(m) && m.name@
                == self.models@[index as int].raw_name@),
            index >= self.models@.len() ==> r is None,
    {
        if index < self.models.len() {
            Some(Model { name: self.models[index].raw_name.clone() })
        } else {
            None
        }
    }

    /// The model an accepted alias names, the way a selection by name
    /// resolves.
    pub fn from_name(&self, name: &str) -> (r: Option<Model>)
        ensures
            match r {
                Some(m) => assoc_lookup(self.name_map@, name@, 0) == Some(m.name@),
                None => assoc_lookup(self.name_map@, name@, 0) is None,
            },
    {
        match assoc_find(&self.name_map, name) {
            Some(raw) => Some(Model { name: raw.clone() }),
            None => None,
        }
    }
}

/// Replaces the catalog snapshot with one freshly loaded from the parsed
/// groups, or with the empty catalog when the file could not be read.
pub fn reload(library: &mut ModelLibrary, groups: Option<Vec<ModelGroup>>)
    ensures
        groups matches Some(gs) ==> loaded_from(gs@, *final(library)),
        groups is None ==> final(library).models@.len() == 0 && final(library).name_map@.len()
            == 0,
{
    *library = ModelLibrary::load_or_warn(groups);
}

/// A selected voice model, named by its catalog raw name.
pub struct Model {
    pub name: String,
}

/// The selection label a locale sees for a catalog entry, where the entry
/// exists and carries one for that locale.
pub open spec fn spec_localized_name(lib: ModelLibrary, raw: Seq<char>, locale: Seq<char>) -> Option<
    Seq<char>,
> {
    match entry_index(lib.models@, raw, 0) {
        None => None,
        Some(i) => assoc_lookup(lib.models@[i].metadata.select_localizations@, locale, 0),
    }
}

/// The name shown for a model: its localized name where the catalog has
/// one for the locale, its plain name otherwise, and nothing when the
/// model is not in the catalog.
pub open spec fn spec_display_name(
    lib: ModelLibrary,
    raw: Seq<char>,
    locale: Option<Seq<char>>,
) -> Option<Seq<char>> {
    match entry_index(lib.models@, raw, 0) {
        None => None,
        Some(i) => {
            let md = lib.models@[i].metadata;
            match locale {
                Some(l) => match assoc_lookup(md.localizations@, l, 0) {
                    Some(v) => Some(v),
                    None => Some(md.name@),
                },
                None => Some(md.name@),
            }
        },
    }
}

impl Model {
    /// The selection label this model shows under the given locale, where
    /// the catalog carries one.
    pub fn localized_name(&self, library: &ModelLibrary, locale: &str) -> (r: Option<String>)
        ensures
            match r {
                Some(n) => spec_localized_name(*library, self.name@, locale@) == Some(n@),
                None => spec_localized_name(*library, self.name@, locale@) is None,
            },
    {
        let i = match library.find_entry(self.name.as_str()) {
            Some(i) => i,
            None => {
                return None;
            },
        };
        match assoc_find(&library.models[i].metadata.select_localizations, locale) {
            Some(v) => Some(v.clone()),
            None => None,
        }
    }

    /// The display name of this model under the given locale.
    pub fn display_name(&self, library: &ModelLibrary, locale: Option<&str>) -> (r: Option<String>)
        ensures
            match r {
                Some(n) => spec_display_name(
                    *library,
                    self.name@,
                    match locale {
                        Some(l) => Some(l@),
                        None => None,
                    },
                ) == Some(n@),
                None => spec_display_name(
                    *library,
                    self.name@,
                    match locale {
                        Some(l) => Some(l@),
                        None => None,
                    },
                ) is None,
            },
    {
        let i = match library.find_entry(self.name.as_str()) {
            Some(i) => i,
            None => {
                return None;
            },
        };
        let md = &library.models[i].metadata;
        if let Some(l) = locale {
            if let Some(v) = assoc_find(&md.localizations, l) {
                return Some(v.clone());
            }
        }
        Some(md.name.clone())
    }
}

/// A conversion-backed playback request: the chosen model, the source's
/// metadata, the job's working directory, the identifier of the shared
/// job, and the pipeline parameters.
pub struct RVCSong {
    pub model: Model,
    pub metadata: SongMetadata,
    pub working_dir: String,
    pub job: u64,
    pub pitch: i32,
    pub export_mp3: bool,
}

/// The title shown for a conversion-backed request: the model's display
/// name, joined to the source title where one is known.
pub open spec fn spec_rvc_title(
    song: RVCSong,
    lib: ModelLibrary,
    locale: Option<Seq<char>>,
) -> Seq<char> {
    let base = match spec_display_name(lib, song.model.name@, locale) {
        Some(n) => n,
        None => song.model.name@,
    };
    match song.metadata.title {
        Some(t) => base + " - "@ + t@,
        None => base,
    }
}

impl RVCSong {
    /// A well-formed conversion-backed request records the locator its
    /// pipeline downloads from.
    pub open spec fn wf(&self) -> bool {
        self.metadata.source_url is Some
    }

    /// Builds a conversion-backed request and its job.  `dir_token` is the
    /// embedder's fresh name for the working directory, a local timestamp
    /// in a gateway build; `job` is the identifier the embedder tracks the
    /// shared job under.  Fails exactly when the metadata carries no
    /// source locator; otherwise the returned job waits with the pipeline
    /// command, ready for the execution queue.
    pub fn new(
        model: Model,
        metadata: SongMetadata,
        pitch: Option<i32>,
        export_mp3: bool,
        dir_token: String,
        job: u64,
    ) -> (r: Result<(RVCSong, RVCProcessor), SourceError>)
        ensures
            r is Err <==> metadata.source_url is None,
            r matches Err(e) ==> e == SourceError::NoSourceUrl,
            r matches Ok(p) ==> ({
                let song = p.0;
                let proc = p.1;
                &&& song.wf()
                &&& song.model == model
                &&& song.metadata == metadata
                &&& song.working_dir@ == "temp/rvc/"@ + dir_token@
                &&& song.job == job
                &&& song.pitch == (match pitch {
                    Some(v) => v,
                    None => 0,
                })
                &&& song.export_mp3 == export_mp3
                &&& proc.working_dir == song.working_dir
                &&& proc.state matches RVCProcessorState::Wait(c) && c.working_dir
                    == song.working_dir && c.source == metadata.source_url->0 && c.model
                    == model.name && c.pitch == song.pitch && c.export_mp3 == export_mp3
            }),
    {
        let source = match &metadata.source_url {
            Some(u) => u.clone(),
            None => {
                return Err(SourceError::NoSourceUrl);
            },
        };
        let mut working_dir = String::from_str("temp/rvc/");
        working_dir.append(dir_token.as_str());
        let pitch = match pitch {
            Some(v) => v,
            None => 0,
        };
        let command = RVCCommand {
            working_dir: working_dir.clone(),
            source,
            model: model.name.clone(),
            pitch,
            export_mp3,
        };
        let proc = RVCProcessor::new(working_dir.clone(), command);
        let song = RVCSong { model, metadata, working_dir, job, pitch, export_mp3 };
        Ok((song, proc))
    }

    /// The job to cancel when this request's playback is canceled.
    pub fn cancel(&self) -> (j: u64)
        ensures
            j == self.job,
    {
        self.job
    }

    /// Path of the primary audio artifact inside the working directory.
    pub fn file(&self) -> (r: String)
        ensures
            r@ == self.working_dir@ + "/mixdown.wav"@,
    {
        self.working_dir.clone().concat("/mixdown.wav")
    }

    /// Path of the secondary-format artifact inside the working directory.
    pub fn mp3(&self) -> (r: String)
        ensures
            r@ == self.working_dir@ + "/mixdown.mp3"@,
    {
        self.working_dir.clone().concat("/mixdown.mp3")
    }

    /// The title shown for this request under the given locale.
    pub fn title(&self, library: &ModelLibrary, locale: Option<&str>) -> (r: String)
        ensures
            r@ == spec_rvc_title(
                *self,
                *library,
                match locale {
                    Some(l) => Some(l@),
                    None => None,
                },
            ),
    {
        let base = match self.model.display_name(library, locale) {
            Some(n) => n,
            None => self.model.name.clone(),
        };
        match &self.metadata.title {
            Some(t) => {
                let mut r = base;
                r.append(" - ");
                r.append(t.as_str());
                r
            },
            None => base,
        }
    }
}

} // verus!
