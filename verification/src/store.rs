//! The bounded, insertion-ordered log record store with severity-based
//! filtering, presentation, and plain-text export.
//!
//! The store keeps at most `capacity` records, newest first. Pushing a
//! record beyond capacity evicts the oldest. Filtered reads preserve the
//! newest-first order and only select a subset. The store itself is a
//! plain value: a host that shares it between threads wraps it in a
//! mutual-exclusion lock, which keeps every mutation and traversal atomic.

use crate::color::{base_color, base_color_spec};
use crate::decode::{decode_line, decode_spec, push_char, run_views, StyledRun};
use crate::severity::{admits, filter_rank, severity_admitted, Severity, SeverityFilter};
use std::collections::VecDeque;
use vstd::prelude::*;
use vstd::string::StringExecFns;

verus! {

/// Mathematical model of one stored record.
#[verifier::ext_equal]
pub ghost struct RecordView {
    pub severity: Severity,
    pub text: Seq<char>,
}

/// One retained log record: its severity and its fully formatted line,
/// which may still embed SGR escape sequences. A record is allowed to
/// contain embedded newlines: when decoded, each newline flushes its own
/// run, so a multi-line record shows as several runs of one record.
pub struct LogRecord {
    pub severity: Severity,
    pub text: String,
}

impl View for LogRecord {
    type V = RecordView;

    open spec fn view(&self) -> RecordView {
        RecordView { severity: self.severity, text: self.text@ }
    }
}

/// The models of a sequence of records.
pub open spec fn record_views(rs: Seq<LogRecord>) -> Seq<RecordView> {
    rs.map_values(|r: LogRecord| r@)
}

/// The record subset admitted by a threshold, in unchanged order.
pub open spec fn admitted(rs: Seq<RecordView>, threshold: SeverityFilter) -> Seq<RecordView>
    decreases rs.len(),
{
    if rs.len() == 0 {
        Seq::empty()
    } else {
        let rest = admitted(rs.drop_last(), threshold);
        if admits(threshold, rs.last().severity) {
            rest.push(rs.last())
        } else {
            rest
        }
    }
}

/// The effect of one push on the newest-first record sequence: the new
/// record goes in front, and whatever exceeds the capacity is evicted
/// from the old end.
pub open spec fn push_model(rs: Seq<RecordView>, r: RecordView, max: nat) -> Seq<RecordView> {
    let grown = seq![r] + rs;
    if grown.len() <= max {
        grown
    } else {
        grown.take(max as int)
    }
}

/// The newest-first record sequence after pushing `rs` in order (oldest
/// push first) into an empty store of capacity `max`.
pub open spec fn push_fold(rs: Seq<RecordView>, max: nat) -> Seq<RecordView>
    decreases rs.len(),
{
    if rs.len() == 0 {
        Seq::empty()
    } else {
        push_model(push_fold(rs.drop_last(), max), rs.last(), max)
    }
}

/// Law: after any sequence of pushes into an empty store, the store holds
/// exactly as many records as were pushed, capped at the capacity.
pub proof fn lemma_bounded_size(rs: Seq<RecordView>, max: nat)
    requires
        1 <= max,
    ensures
        push_fold(rs, max).len() == if rs.len() <= max {
            rs.len()
        } else {
            max
        },
    decreases rs.len(),
{
    if rs.len() > 0 {
        lemma_bounded_size(rs.drop_last(), max);
    }
}

/// Law: after any sequence of pushes into an empty store, the store holds
/// exactly the most recent pushes, newest first, in their original
/// relative order; everything older is evicted.
pub proof fn lemma_eviction_order(rs: Seq<RecordView>, max: nat)
    requires
        1 <= max,
    ensures
        push_fold(rs, max).len() == if rs.len() <= max {
            rs.len()
        } else {
            max
        },
        forall|i: int|
            0 <= i < push_fold(rs, max).len() ==> #[trigger] push_fold(rs, max)[i] == rs[rs.len()
                - 1 - i],
    decreases rs.len(),
{
    lemma_bounded_size(rs, max);
    if rs.len() > 0 {
        lemma_eviction_order(rs.drop_last(), max);
        lemma_bounded_size(rs.drop_last(), max);
        let prev = push_fold(rs.drop_last(), max);
        let cur = push_fold(rs, max);
        assert forall|i: int| 0 <= i < cur.len() implies cur[i] == rs[rs.len() - 1 - i] by {
            if i == 0 {
                assert(cur[0] == rs.last());
            } else {
                assert(cur[i] == prev[i - 1]);
                assert(prev[i - 1] == rs.drop_last()[rs.drop_last().len() - 1 - (i - 1)]);
                assert(rs.drop_last()[rs.len() - 1 - i] == rs[rs.len() - 1 - i]);
            }
        }
    }
}

/// Law: a threshold that admits at least the severities of another also
/// admits at least the records of the other: every record selected under
/// the stricter threshold is selected under the more permissive one.
pub proof fn lemma_filter_monotone(rs: Seq<RecordView>, t1: SeverityFilter, t2: SeverityFilter)
    requires
        filter_rank(t2) <= filter_rank(t1),
    ensures
        forall|r: RecordView|
            admitted(rs, t2).contains(r) ==> #[trigger] admitted(rs, t1).contains(r),
    decreases rs.len(),
{
    if rs.len() > 0 {
        lemma_filter_monotone(rs.drop_last(), t1, t2);
        let a2 = admitted(rs, t2);
        let a1 = admitted(rs, t1);
        let r2 = admitted(rs.drop_last(), t2);
        let r1 = admitted(rs.drop_last(), t1);
        assert forall|r: RecordView| a2.contains(r) implies a1.contains(r) by {
            let j = choose|j: int| 0 <= j < a2.len() && a2[j] == r;
            if admits(t2, rs.last().severity) && j == a2.len() - 1 {
                assert(admits(t1, rs.last().severity));
                assert(a1[a1.len() - 1] == r);
                assert(a1.contains(r));
            } else {
                assert(r2[j] == r);
                assert(r2.contains(r));
                assert(r1.contains(r));
                let k = choose|k: int| 0 <= k < r1.len() && r1[k] == r;
                assert(a1[k] == r);
                assert(a1.contains(r));
            }
        }
    }
}

/// A bounded, insertion-ordered collection of log records, newest first.
pub struct LogStore {
    records: VecDeque<LogRecord>,
    max_len: usize,
}

impl View for LogStore {
    type V = Seq<RecordView>;

    closed spec fn view(&self) -> Seq<RecordView> {
        record_views(self.records@)
    }
}

impl LogStore {
    /// The fixed maximum number of retained records.
    pub closed spec fn capacity(&self) -> nat {
        self.max_len as nat
    }

    /// The store never holds more records than its capacity, and the
    /// capacity is positive.
    pub open spec fn wf(&self) -> bool {
        self@.len() <= self.capacity() && 1 <= self.capacity()
    }

    /// Creates an empty store that will retain at most `max_len` records.
    pub fn new(max_len: usize) -> (s: Self)
        requires
            1 <= max_len,
        ensures
            s.wf(),
            s@ == Seq::<RecordView>::empty(),
            s.capacity() == max_len,
    {
        let s = LogStore { records: VecDeque::new(), max_len };
        proof {
            assert(s@ =~= Seq::<RecordView>::empty());
        }
        s
    }

    /// The number of records currently retained.
    pub fn len(&self) -> (n: usize)
        ensures
            n as nat == self@.len(),
    {
        self.records.len()
    }

    /// The fixed maximum number of retained records.
    pub fn max_len(&self) -> (n: usize)
        ensures
            n as nat == self.capacity(),
    {
        self.max_len
    }

    /// Appends a record as the most recent entry; if the store would then
    /// exceed its capacity, the oldest entry is evicted.
    pub fn push(&mut self, severity: Severity, text: String)
        requires
            old(self).wf(),
        ensures
            final(self).wf(),
            final(self).capacity() == old(self).capacity(),
            final(self)@ == push_model(
                old(self)@,
                RecordView { severity, text: text@ },
                old(self).capacity(),
            ),
    {
        let ghost r = RecordView { severity, text: text@ };
        self.records.push_front(LogRecord { severity, text });
        proof {
            assert(record_views(self.records@) =~= seq![r] + old(self)@);
        }
        if self.records.len() > self.max_len {
            let ghost grown = self.records@;
            self.records.truncate(self.max_len);
            proof {
                assert(self.records@ =~= grown.take(self.max_len as int));
                assert(record_views(grown.take(self.max_len as int)) =~= record_views(
                    grown,
                ).take(self.max_len as int));
            }
        }
    }

    /// Empties the store.
    pub fn clear(&mut self)
        requires
            old(self).wf(),
        ensures
            final(self).wf(),
            final(self).capacity() == old(self).capacity(),
            final(self)@ == Seq::<RecordView>::empty(),
    {
        self.records.clear();
        proof {
            assert(record_views(self.records@) =~= Seq::<RecordView>::empty());
        }
    }

    /// Returns copies of the records admitted by the threshold, newest
    /// first, in the store's order.
    pub fn filtered(&self, threshold: SeverityFilter) -> (out: Vec<LogRecord>)
        ensures
            record_views(out@) == admitted(self@, threshold),
    {
        let mut out: Vec<LogRecord> = Vec::new();
        let n = self.records.len();
        let mut i: usize = 0;
        while i < n
            invariant
                n == self.records@.len(),
                i <= n,
                record_views(out@) == admitted(
                    record_views(self.records@).take(i as int),
                    threshold,
                ),
            decreases n - i,
        {
            let ghost views = record_views(self.records@);
            proof {
                assert(views.take(i + 1).drop_last() =~= views.take(i as int));
                assert(views.take(i + 1).last() == views[i as int]);
            }
            let rec = &self.records[i];
            let copy = LogRecord { severity: rec.severity, text: rec.text.clone() };
            proof {
                assert(copy@ == views[i as int]);
            }
            if severity_admitted(threshold, rec.severity) {
                out.push(copy);
                proof {
                    assert(record_views(out@) =~= admitted(views.take(i as int), threshold).push(
                        views[i as int],
                    ));
                }
            }
            i += 1;
        }
        proof {
            assert(record_views(self.records@).take(n as int) =~= record_views(self.records@));
        }
        out
    }

    /// Decodes every admitted record into styled runs, newest first: each
    /// element pairs the record's severity with the runs of its text,
    /// decoded from the severity's base color. The length of the result
    /// is the count of records shown.
    pub fn snapshot(&self, threshold: SeverityFilter) -> (out: Vec<(Severity, Vec<StyledRun>)>)
        ensures
            out@.len() == admitted(self@, threshold).len(),
            forall|j: int| #![trigger out@[j]]
                0 <= j < out@.len() ==> out@[j].0 == admitted(self@, threshold)[j].severity
                    && run_views(out@[j].1@) == decode_spec(
                    admitted(self@, threshold)[j].text,
                    base_color_spec(admitted(self@, threshold)[j].severity),
                ),
    {
        let ghost sel = admitted(self@, threshold);
        let selected = self.filtered(threshold);
        let mut out: Vec<(Severity, Vec<StyledRun>)> = Vec::new();
        let mut i: usize = 0;
        let n = selected.len();
        while i < n
            invariant
                n == selected@.len(),
                record_views(selected@) == sel,
                sel == admitted(self@, threshold),
                i <= n,
                out@.len() == i,
                forall|j: int| #![trigger out@[j]]
                    0 <= j < i ==> out@[j].0 == sel[j].severity && run_views(out@[j].1@)
                        == decode_spec(sel[j].text, base_color_spec(sel[j].severity)),
            decreases n - i,
        {
            let rec = &selected[i];
            proof {
                assert(rec@ == sel[i as int]);
            }
            let runs = decode_line(rec.text.as_str(), base_color(rec.severity));
            out.push((rec.severity, runs));
            i += 1;
        }
        out
    }

    /// The plain-text export of a newest-first record selection: each
    /// record's raw text, escape sequences and all, followed by a space
    /// and a newline.
    pub open spec fn export_model(rs: Seq<RecordView>) -> Seq<char>
        decreases rs.len(),
    {
        if rs.len() == 0 {
            Seq::empty()
        } else {
            rs.first().text + seq![' ', '\n'] + Self::export_model(rs.drop_first())
        }
    }

    /// Concatenates the raw text of every admitted record, newest first,
    /// one line per record, each followed by a space and a newline.
    /// Styling escape sequences are kept as they were stored; a caller
    /// that wants them stripped decodes instead.
    pub fn export_plain_text(&self, threshold: SeverityFilter) -> (s: String)
        ensures
            s@ == Self::export_model(admitted(self@, threshold)),
    {
        let ghost sel = admitted(self@, threshold);
        let selected = self.filtered(threshold);
        let mut s = String::new();
        let mut i: usize = 0;
        let n = selected.len();
        proof {
            assert(sel.skip(0) =~= sel);
            assert(s@ + Self::export_model(sel) =~= Self::export_model(sel));
        }
        while i < n
            invariant
                n == selected@.len(),
                record_views(selected@) == sel,
                i <= n,
                s@ + Self::export_model(sel.skip(i as int)) == Self::export_model(sel),
            decreases n - i,
        {
            let rec = &selected[i];
            let ghost before = s@;
            proof {
                assert(rec@ == sel[i as int]);
                assert(sel.skip(i as int).first() == sel[i as int]);
                assert(sel.skip(i as int).drop_first() =~= sel.skip(i + 1));
            }
            s.append(rec.text.as_str());
            push_char(&mut s, ' ');
            push_char(&mut s, '\n');
            proof {
                assert(s@ =~= before + sel[i as int].text + seq![' ', '\n']);
                assert(s@ + Self::export_model(sel.skip(i + 1)) =~= before + Self::export_model(
                    sel.skip(i as int),
                ));
            }
            i += 1;
        }
        proof {
            assert(sel.skip(n as int) =~= Seq::<RecordView>::empty());
            assert(s@ =~= Self::export_model(sel));
        }
        s
    }
}

} // verus!
