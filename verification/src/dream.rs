//! Dreaming: the offline job that reads agent session logs and asks a model
//! to fold new knowledge into the wiki. These are its decisions on plain
//! values: which objects are logs, how a log and the recent changes are put
//! to the model, and how its answer is counted.
use vstd::prelude::*;
use vstd::string::StringSliceAdditionalSpecFns;

use crate::clock::Timestamp;
use crate::ports::{ChangeAction, ChangelogEntry};
use crate::service::{action_name, entries_view, EntryView};
use crate::text::{append_str, chars_of, copy_str, has_prefix, has_suffix, ends_with, strs_view};

verus! {

broadcast use vstd::string::group_string_axioms;

/// What a dreaming run did.
#[derive(Debug, Clone, Copy, PartialEq, Eq, Structural)]
pub struct DreamStats {
    pub logs_processed: usize,
    pub pages_created: usize,
    pub pages_updated: usize,
    pub logs_deleted: usize,
}

impl Default for DreamStats {
    /// Nothing done yet.
    fn default() -> (r: Self)
        ensures
            r == (DreamStats { logs_processed: 0, pages_created: 0, pages_updated: 0, logs_deleted: 0 }),
    {
        DreamStats { logs_processed: 0, pages_created: 0, pages_updated: 0, logs_deleted: 0 }
    }
}

impl DreamStats {
    /// Records a processed log with the pages it created and updated, and
    /// whether the log was then deleted.
    pub fn record(&mut self, created: usize, updated: usize, deleted: bool)
        requires
            old(self).logs_processed < usize::MAX,
            old(self).pages_created + created <= usize::MAX,
            old(self).pages_updated + updated <= usize::MAX,
            old(self).logs_deleted < usize::MAX,
        ensures
            final(self).logs_processed == old(self).logs_processed + 1,
            final(self).pages_created == old(self).pages_created + created,
            final(self).pages_updated == old(self).pages_updated + updated,
            final(self).logs_deleted == old(self).logs_deleted + if deleted {
                1usize
            } else {
                0usize
            },
    {
        self.logs_processed = self.logs_processed + 1;
        self.pages_created = self.pages_created + created;
        self.pages_updated = self.pages_updated + updated;
        if deleted {
            self.logs_deleted = self.logs_deleted + 1;
        }
    }
}

/// Whether an object key names a session log: it ends in `.jsonl`.
pub fn is_log_key(key: &str) -> (r: bool)
    ensures
        r == has_suffix(key@, ".jsonl"@),
{
    let cs = chars_of(key);
    let suffix = chars_of(".jsonl");
    ends_with(&cs, &suffix)
}

/// A log as put to the model: whole when at most 200 000 bytes, otherwise
/// its first 200 000 bytes (which must end a character).
pub fn truncate_log(content: String) -> (r: String)
    requires
        (vstd::utf8::encode_utf8(content@).len() as usize) <= 200_000 || vstd::utf8::is_char_boundary(
            vstd::utf8::encode_utf8(content@),
            200_000,
        ),
    ensures
        (vstd::utf8::encode_utf8(content@).len() as usize) <= 200_000 ==> r@ == content@,
        (vstd::utf8::encode_utf8(content@).len() as usize) > 200_000 ==> vstd::utf8::encode_utf8(r@)
            == vstd::utf8::encode_utf8(content@).subrange(0, 200_000),
{
    if content.as_str().len() <= 200_000 {
        content
    } else {
        let (head, _) = content.as_str().split_at(200_000);
        copy_str(head)
    }
}

/// The number of non-overlapping occurrences of `p` in `s`, scanning from
/// the left (`str::matches(..).count()`): an empty pattern matches at
/// every character boundary.
pub open spec fn occurrences(s: Seq<char>, p: Seq<char>) -> nat
    decreases s.len(),
{
    if p.len() == 0 {
        s.len() + 1
    } else if s.len() < p.len() {
        0
    } else if s.subrange(0, p.len() as int) == p {
        1 + occurrences(s.subrange(p.len() as int, s.len() as int), p)
    } else {
        occurrences(s.drop_first(), p)
    }
}

/// The number of non-overlapping occurrences of a pattern (for an empty
/// one, the text's length in characters and one).
pub fn count_occurrences(s: &str, p: &str) -> (r: usize)
    requires
        p@.len() == 0 ==> s@.len() < usize::MAX,
    ensures
        r == occurrences(s@, p@),
{
    let cs = chars_of(s);
    let ps = chars_of(p);
    let n = cs.len();
    let m = ps.len();
    if m == 0 {
        return n + 1;
    }
    let mut i: usize = 0;
    let mut count: usize = 0;
    assert(cs@.subrange(0, n as int) =~= s@);
    while i < n
        invariant
            cs@ == s@,
            ps@ == p@,
            n == cs@.len(),
            m == ps@.len(),
            m > 0,
            i <= n,
            count <= i,
            count + occurrences(cs@.subrange(i as int, n as int), ps@) == occurrences(s@, p@),
        decreases n - i,
    {
        let ghost rest = cs@.subrange(i as int, n as int);
        if n - i < m {
            assert(occurrences(rest, ps@) == 0);
            i = n;
            assert(cs@.subrange(n as int, n as int).len() == 0);
        } else {
            let mut matched = true;
            let mut j: usize = 0;
            while j < m
                invariant
                    j <= m,
                    i + m <= n,
                    n == cs@.len(),
                    m == ps@.len(),
                    matched == (forall|k: int| 0 <= k < j ==> cs@[i + k] == ps@[k]),
                decreases m - j,
            {
                if cs[i + j] != ps[j] {
                    matched = false;
                }
                j = j + 1;
            }
            if matched {
                assert(rest.subrange(0, m as int) =~= ps@);
                assert(rest.subrange(m as int, rest.len() as int) =~= cs@.subrange(i + m, n as int));
                count = count + 1;
                i = i + m;
            } else {
                assert(rest.subrange(0, m as int) != ps@) by {
                    let k = choose|k: int| 0 <= k < m && cs@[i + k] != ps@[k];
                    assert(rest.subrange(0, m as int)[k] == cs@[i + k]);
                }
                assert(rest.drop_first() =~= cs@.subrange(i + 1, n as int));
                i = i + 1;
            }
        }
    }
    assert(cs@.subrange(n as int, n as int).len() == 0);
    count
}

/// The pages a model reports having created: `Created page`, `created page`
/// and `Created:` mentions.
pub open spec fn spec_created_count(response: Seq<char>) -> nat {
    occurrences(response, "Created page"@) + occurrences(response, "created page"@) + occurrences(
        response,
        "Created:"@,
    )
}

/// The pages a model reports having updated: `Updated page`, `updated page`
/// and `Updated:` mentions.
pub open spec fn spec_updated_count(response: Seq<char>) -> nat {
    occurrences(response, "Updated page"@) + occurrences(response, "updated page"@) + occurrences(
        response,
        "Updated:"@,
    )
}

/// Counts the pages a model reports having created and updated.
pub fn count_changes(response: &str) -> (r: (usize, usize))
    requires
        response@.len() <= usize::MAX / 4,
    ensures
        r.0 == spec_created_count(response@),
        r.1 == spec_updated_count(response@),
{
    proof {
        reveal_strlit("Created page");
        reveal_strlit("created page");
        reveal_strlit("Created:");
        reveal_strlit("Updated page");
        reveal_strlit("updated page");
        reveal_strlit("Updated:");
        lemma_occurrences_bound(response@, "Created page"@);
        lemma_occurrences_bound(response@, "created page"@);
        lemma_occurrences_bound(response@, "Created:"@);
        lemma_occurrences_bound(response@, "Updated page"@);
        lemma_occurrences_bound(response@, "updated page"@);
        lemma_occurrences_bound(response@, "Updated:"@);
    }
    let a = count_occurrences(response, "Created page");
    let b = count_occurrences(response, "created page");
    let c = count_occurrences(response, "Created:");
    let d = count_occurrences(response, "Updated page");
    let e = count_occurrences(response, "updated page");
    let f = count_occurrences(response, "Updated:");
    (a + b + c, d + e + f)
}

/// A non-empty pattern never occurs more often than there are characters.
pub proof fn lemma_occurrences_bound(s: Seq<char>, p: Seq<char>)
    requires
        p.len() > 0,
    ensures
        occurrences(s, p) <= s.len(),
    decreases s.len(),
{
    if p.len() > 0 && s.len() >= p.len() {
        if s.subrange(0, p.len() as int) == p {
            lemma_occurrences_bound(s.subrange(p.len() as int, s.len() as int), p);
        } else {
            lemma_occurrences_bound(s.drop_first(), p);
        }
    }
}

/// One recent change as put to the model: `- Action slug (summary)`.
pub open spec fn change_line(e: EntryView) -> Seq<char> {
    "- "@ + action_name(e.action) + " "@ + e.slug + " ("@ + match e.summary {
        Some(s) => s,
        None => "no summary"@,
    } + ")"@
}

/// The lines of the first `n` changes, joined by line breaks.
pub open spec fn change_lines(es: Seq<EntryView>) -> Seq<char>
    decreases es.len(),
{
    if es.len() == 0 {
        Seq::empty()
    } else if es.len() == 1 {
        change_line(es[0])
    } else {
        change_lines(es.drop_last()) + "\n"@ + change_line(es.last())
    }
}

/// What the model is told of recent changes: that there are none, or the
/// first 20 of them, one per line.
pub open spec fn spec_changes_context(es: Seq<EntryView>) -> Seq<char> {
    if es.len() == 0 {
        "No recent wiki changes."@
    } else {
        "Recent wiki changes:\n"@ + change_lines(if es.len() <= 20 {
            es
        } else {
            es.take(20)
        })
    }
}

fn change_line_text(e: &ChangelogEntry) -> (r: String)
    ensures
        r@ == change_line(e@),
{
    let mut out = String::from_str("- ");
    let action = crate::service::action_to_string(e.action);
    append_str(&mut out, action.as_str());
    append_str(&mut out, " ");
    append_str(&mut out, e.slug.as_str());
    append_str(&mut out, " (");
    match &e.summary {
        Some(s) => append_str(&mut out, s.as_str()),
        None => append_str(&mut out, "no summary"),
    }
    append_str(&mut out, ")");
    out
}

/// What the model is told of recent changes.
pub fn changes_context(recent: &Vec<ChangelogEntry>) -> (r: String)
    ensures
        r@ == spec_changes_context(entries_view(recent@)),
{
    let ghost es = entries_view(recent@);
    if recent.len() == 0 {
        return String::from_str("No recent wiki changes.");
    }
    let mut out = String::from_str("Recent wiki changes:\n");
    let ghost head = out@;
    let n = if recent.len() <= 20 {
        recent.len()
    } else {
        20
    };
    let ghost shown = if es.len() <= 20 {
        es
    } else {
        es.take(20)
    };
    assert(shown.len() == n);
    for i in 0..n
        invariant
            n <= recent@.len(),
            es == entries_view(recent@),
            shown.len() == n,
            forall|k: int| 0 <= k < n ==> shown[k] == es[k],
            out@ == head + change_lines(shown.take(i as int)),
    {
        let e = &recent[i];
        assert(shown[i as int] == e@);
        let line = change_line_text(e);
        let ghost before = out@;
        if i > 0 {
            append_str(&mut out, "\n");
        }
        append_str(&mut out, line.as_str());
        proof {
            let t = shown.take(i + 1);
            assert(t.drop_last() =~= shown.take(i as int));
            assert(t.last() == e@);
            if i == 0 {
                assert(shown.take(0) =~= Seq::<EntryView>::empty());
                assert(before == head);
                assert(change_lines(t) == change_line(t[0]));
                assert(out@ =~= head + change_lines(t));
            } else {
                assert(change_lines(t) == change_lines(shown.take(i as int)) + "\n"@ + change_line(e@));
                assert(out@ =~= head + change_lines(t));
            }
        }
        assert(out@ =~= head + change_lines(shown.take(i + 1)));
    }
    assert(shown.take(n as int) =~= shown);
    out
}

/// The instruction the model gets for one log.
pub open spec fn spec_user_prompt(changes: Seq<char>, log: Seq<char>) -> Seq<char> {
    "Analyze this session log and update the wiki with any knowledge not already captured.\n\n"@
        + changes + "\n\n--- SESSION LOG ---\n"@ + log + "\n--- END SESSION LOG ---\n\n"@
        + prompt_instructions()
}

/// The standing instructions at the end of the prompt.
pub open spec fn prompt_instructions() -> Seq<char> {
    "Instructions:\n1. Search the wiki for topics mentioned in this session\n2. If knowledge from this session is already captured, skip it\n3. If new knowledge exists, either update existing pages or create new ones\n4. Use appropriate page types: Concept for ideas, Decision for choices made, Entity for specific things, Leaf for detailed reference\n5. Always add links to related existing pages\n6. Be concise — store the insight, not the raw conversation\n7. Report what you did at the end"@
}

/// The instruction the model gets for one log.
pub fn user_prompt(changes: &str, log: &str) -> (r: String)
    ensures
        r@ == spec_user_prompt(changes@, log@),
{
    let mut out = String::from_str(
        "Analyze this session log and update the wiki with any knowledge not already captured.\n\n",
    );
    append_str(&mut out, changes);
    append_str(&mut out, "\n\n--- SESSION LOG ---\n");
    append_str(&mut out, log);
    append_str(&mut out, "\n--- END SESSION LOG ---\n\n");
    append_str(&mut out, "Instructions:\n1. Search the wiki for topics mentioned in this session\n2. If knowledge from this session is already captured, skip it\n3. If new knowledge exists, either update existing pages or create new ones\n4. Use appropriate page types: Concept for ideas, Decision for choices made, Entity for specific things, Leaf for detailed reference\n5. Always add links to related existing pages\n6. Be concise — store the insight, not the raw conversation\n7. Report what you did at the end");
    out
}

/// The instant `days` days before `t` (after it, for negative `days`); the
/// span must be one a `chrono::TimeDelta` can hold.
pub fn days_before(t: Timestamp, days: i64) -> (r: Timestamp)
    requires
        -(i64::MAX / 1000) <= days * 86_400 <= i64::MAX / 1000,
        i64::MIN <= t.secs - days * 86_400 <= i64::MAX,
    ensures
        r.secs == t.secs - days * 86_400,
        r.nanos == t.nanos,
{
    Timestamp { secs: t.secs - days * 86_400, nanos: t.nanos }
}

// ---------------------------------------------------------------------------
// A dreaming run, step by step
// ---------------------------------------------------------------------------

/// Where a dreaming run stands: which outside step it waits on.
#[derive(Debug, Clone, Copy, PartialEq, Eq, Structural)]
pub enum DreamPhase {
    /// Waiting for the listing of the log bucket.
    Listing,
    /// Waiting for the recent wiki changes.
    Loading,
    /// Waiting for the outcome of processing the current log.
    Processing,
    /// Waiting for the deletion of the current log.
    Deleting,
    /// Waiting for old changelog entries to be pruned.
    Pruning,
    /// The run has ended.
    Done,
    /// The run has failed.
    Failed,
}

/// What the outside world reports back to a run.
#[derive(Debug, Clone)]
pub enum DreamEvent {
    /// The object keys under the log prefix.
    Listed(Vec<String>),
    /// The log bucket could not be listed.
    ListFailed,
    /// The recent wiki changes are at hand (an empty list when they could
    /// not be read).
    RecentLoaded,
    /// The current log was processed, with the pages it created and
    /// updated, or its processing failed.
    Processed(Option<(usize, usize)>),
    /// Whether the current log was deleted.
    Deleted(bool),
    /// Pruning ended (its outcome does not change the run).
    Pruned,
}

/// What a run asks the outside world to do next.
#[derive(Debug, Clone)]
pub enum DreamAction {
    ListLogs,
    LoadRecentChanges,
    Process(String),
    Delete(String),
    Prune,
    /// The run is over, with these statistics.
    Finish(DreamStats),
    /// The run failed.
    Fail,
}

/// A dreaming run: the logs found, the index of the current one, and what
/// has been done so far.
#[derive(Debug, Clone)]
pub struct DreamRun {
    pub phase: DreamPhase,
    pub logs: Vec<String>,
    pub next: usize,
    pub stats: DreamStats,
}

/// The logs among listed keys, in listing order.
pub open spec fn log_keys(keys: Seq<Seq<char>>) -> Seq<Seq<char>> {
    keys.filter(|k: Seq<char>| has_suffix(k, ".jsonl"@))
}

impl DreamRun {
    /// The run's invariant: the current log exists while one is processed or
    /// deleted, every log is a session log, no more logs are counted than
    /// were reached, and a log is deleted only after it was processed.
    pub open spec fn wf(&self) -> bool {
        &&& self.next <= self.logs@.len()
        &&& (self.phase == DreamPhase::Processing || self.phase == DreamPhase::Deleting) ==> self.next
            < self.logs@.len()
        &&& self.phase == DreamPhase::Listing ==> self.stats.logs_processed == 0
        &&& self.phase == DreamPhase::Loading ==> self.logs@.len() > 0 && self.next == 0
            && self.stats.logs_processed == 0
        &&& forall|i: int| 0 <= i < self.logs@.len() ==> has_suffix(#[trigger] self.logs@[i]@, ".jsonl"@)
        &&& self.stats.logs_processed <= self.logs@.len()
        &&& self.phase == DreamPhase::Processing ==> self.stats.logs_processed <= self.next
        &&& self.phase == DreamPhase::Deleting ==> self.stats.logs_processed <= self.next + 1
        &&& self.stats.logs_deleted <= self.stats.logs_processed
        &&& self.phase == DreamPhase::Deleting ==> self.stats.logs_deleted < self.stats.logs_processed
    }

    /// A new run, which first lists the logs.
    pub fn start() -> (r: (DreamRun, DreamAction))
        ensures
            r.0.wf(),
            r.0.phase == DreamPhase::Listing,
            r.0.logs@.len() == 0,
            r.0.next == 0,
            r.0.stats == (DreamStats { logs_processed: 0, pages_created: 0, pages_updated: 0, logs_deleted: 0 }),
            r.1 is ListLogs,
    {
        let stats = DreamStats { logs_processed: 0, pages_created: 0, pages_updated: 0, logs_deleted: 0 };
        (DreamRun { phase: DreamPhase::Listing, logs: Vec::new(), next: 0, stats }, DreamAction::ListLogs)
    }

    /// Moves on to log `next`, or to pruning after the last one.
    fn advance(self) -> (r: (DreamRun, DreamAction))
        requires
            self.next < self.logs@.len(),
            forall|i: int| 0 <= i < self.logs@.len() ==> has_suffix(#[trigger] self.logs@[i]@, ".jsonl"@),
            self.stats.logs_deleted <= self.stats.logs_processed,
            self.stats.logs_processed <= self.next + 1,
            self.stats.logs_processed <= self.logs@.len(),
        ensures
            r.0.wf(),
            r.0.logs@ == self.logs@,
            r.0.next == self.next + 1,
            r.0.stats == self.stats,
            if self.next + 1 < self.logs@.len() {
                r.0.phase == DreamPhase::Processing && (r.1 matches DreamAction::Process(k) && k@
                    == self.logs@[self.next + 1]@)
            } else {
                r.0.phase == DreamPhase::Pruning && r.1 is Prune
            },
    {
        let n = self.logs.len();
        let next = self.next + 1;
        if next < n {
            let key = self.logs[next].clone();
            (DreamRun { phase: DreamPhase::Processing, logs: self.logs, next, stats: self.stats }, DreamAction::Process(key))
        } else {
            (DreamRun { phase: DreamPhase::Pruning, logs: self.logs, next, stats: self.stats }, DreamAction::Prune)
        }
    }

    /// The run after `event`, and what it asks for next. A listing keeps the
    /// session logs; with none the run ends at once (nothing is pruned),
    /// otherwise the recent changes are loaded and the logs processed in
    /// order. A processed log is counted and then deleted; a log whose
    /// processing failed is skipped and kept. After the last log, old
    /// changelog entries are pruned and the run ends. A failed listing, or
    /// an event the run is not waiting for, fails the run.
    pub fn step(self, event: DreamEvent) -> (r: (DreamRun, DreamAction))
        requires
            self.wf(),
            self.phase == DreamPhase::Processing ==> (event matches DreamEvent::Processed(Some((c, u)))
                ==> self.stats.logs_processed < usize::MAX && self.stats.pages_created + c <= usize::MAX
                && self.stats.pages_updated + u <= usize::MAX),
        ensures
            r.0.wf(),
            match (self.phase, event) {
                (DreamPhase::Listing, DreamEvent::Listed(keys)) => {
                    &&& strs_view(r.0.logs@) == log_keys(strs_view(keys@))
                    &&& r.0.next == 0
                    &&& r.0.stats == self.stats
                    &&& if r.0.logs@.len() == 0 {
                        r.0.phase == DreamPhase::Done && (r.1 matches DreamAction::Finish(st) && st
                            == self.stats)
                    } else {
                        r.0.phase == DreamPhase::Loading && r.1 is LoadRecentChanges
                    }
                },
                (DreamPhase::Loading, DreamEvent::RecentLoaded) => {
                    &&& r.0.logs@ == self.logs@
                    &&& r.0.next == 0
                    &&& r.0.stats == self.stats
                    &&& r.0.phase == DreamPhase::Processing
                    &&& r.1 matches DreamAction::Process(k) && k@ == self.logs@[0]@
                },
                (DreamPhase::Processing, DreamEvent::Processed(Some((c, u)))) => {
                    &&& r.0.logs@ == self.logs@
                    &&& r.0.next == self.next
                    &&& r.0.phase == DreamPhase::Deleting
                    &&& r.0.stats.logs_processed == self.stats.logs_processed + 1
                    &&& r.0.stats.pages_created == self.stats.pages_created + c
                    &&& r.0.stats.pages_updated == self.stats.pages_updated + u
                    &&& r.0.stats.logs_deleted == self.stats.logs_deleted
                    &&& r.1 matches DreamAction::Delete(k) && k@ == self.logs@[self.next as int]@
                },
                (DreamPhase::Processing, DreamEvent::Processed(None)) => {
                    &&& r.0.logs@ == self.logs@
                    &&& r.0.next == self.next + 1
                    &&& r.0.stats == self.stats
                    &&& !(r.1 is Delete)
                },
                (DreamPhase::Deleting, DreamEvent::Deleted(ok)) => {
                    &&& r.0.logs@ == self.logs@
                    &&& r.0.next == self.next + 1
                    &&& r.0.stats.logs_deleted == self.stats.logs_deleted + if ok {
                        1int
                    } else {
                        0int
                    }
                    &&& r.0.stats.logs_processed == self.stats.logs_processed
                    &&& r.0.stats.pages_created == self.stats.pages_created
                    &&& r.0.stats.pages_updated == self.stats.pages_updated
                    &&& !(r.1 is Delete)
                },
                (DreamPhase::Pruning, DreamEvent::Pruned) => {
                    &&& r.0.phase == DreamPhase::Done
                    &&& r.0.stats == self.stats
                    &&& r.1 matches DreamAction::Finish(st) && st == self.stats
                },
                _ => r.0.phase == DreamPhase::Failed && r.1 is Fail,
            },
            r.0.phase == DreamPhase::Processing ==> (r.1 matches DreamAction::Process(k) && k@
                == r.0.logs@[r.0.next as int]@),
            r.0.phase == DreamPhase::Processing && self.phase == DreamPhase::Processing ==> r.0.next
                == self.next + 1,
    {
        let DreamRun { phase, logs, next, stats } = self;
        match (phase, event) {
            (DreamPhase::Listing, DreamEvent::Listed(keys)) => {
                let found = log_keys_of(&keys);
                if found.len() == 0 {
                    (DreamRun { phase: DreamPhase::Done, logs: found, next: 0, stats }, DreamAction::Finish(stats))
                } else {
                    (DreamRun { phase: DreamPhase::Loading, logs: found, next: 0, stats }, DreamAction::LoadRecentChanges)
                }
            },
            (DreamPhase::Loading, DreamEvent::RecentLoaded) => {
                if logs.len() == 0 {
                    return (DreamRun { phase: DreamPhase::Failed, logs, next, stats }, DreamAction::Fail);
                }
                let key = logs[0].clone();
                (DreamRun { phase: DreamPhase::Processing, logs, next: 0, stats }, DreamAction::Process(key))
            },
            (DreamPhase::Processing, DreamEvent::Processed(Some((created, updated)))) => {
                let mut stats = stats;
                stats.record(created, updated, false);
                let key = logs[next].clone();
                (DreamRun { phase: DreamPhase::Deleting, logs, next, stats }, DreamAction::Delete(key))
            },
            (DreamPhase::Processing, DreamEvent::Processed(None)) => {
                DreamRun { phase, logs, next, stats }.advance()
            },
            (DreamPhase::Deleting, DreamEvent::Deleted(ok)) => {
                let mut stats = stats;
                if ok {
                    stats.logs_deleted = stats.logs_deleted + 1;
                }
                DreamRun { phase, logs, next, stats }.advance()
            },
            (DreamPhase::Pruning, DreamEvent::Pruned) => {
                (DreamRun { phase: DreamPhase::Done, logs, next, stats }, DreamAction::Finish(stats))
            },
            _ => (DreamRun { phase: DreamPhase::Failed, logs, next, stats }, DreamAction::Fail),
        }
    }
}

/// The session logs among listed keys, in order.
fn log_keys_of(keys: &Vec<String>) -> (r: Vec<String>)
    ensures
        strs_view(r@) == log_keys(strs_view(keys@)),
        forall|i: int| 0 <= i < r@.len() ==> has_suffix(#[trigger] r@[i]@, ".jsonl"@),
{
    let mut out: Vec<String> = Vec::new();
    let n = keys.len();
    for i in 0..n
        invariant
            n == keys@.len(),
            strs_view(out@) == log_keys(strs_view(keys@).subrange(0, i as int)),
            forall|j: int| 0 <= j < out@.len() ==> has_suffix(#[trigger] out@[j]@, ".jsonl"@),
    {
        let ghost before = strs_view(keys@).subrange(0, i as int);
        assert(strs_view(keys@).subrange(0, i + 1) =~= before.push(keys@[i as int]@));
        proof {
            before.lemma_filter_push(keys@[i as int]@, |k: Seq<char>| has_suffix(k, ".jsonl"@));
        }
        if is_log_key(keys[i].as_str()) {
            let ghost o = strs_view(out@);
            out.push(keys[i].clone());
            assert(strs_view(out@) =~= o.push(keys@[i as int]@));
        }
    }
    assert(strs_view(keys@).subrange(0, n as int) =~= strs_view(keys@));
    out
}

} // verus!
