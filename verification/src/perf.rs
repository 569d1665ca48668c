//! Optional phase timing. Entirely inert unless debug is enabled. Starting a
//! label records the clock under that label, a restart replacing the pending
//! reading with the newer one; stopping a label that was never started is a
//! silent no-op; spans sharing a label accumulate into one reported value.
//! Readings come from the wall clock, so the contracts pin the labels, their
//! order, and the shape of the accumulation, never the durations themselves.
use vstd::prelude::*;

verus! {

#[verifier::external_type_specification]
#[verifier::external_body]
pub struct ExInstant(std::time::Instant);

/// Relies on `std::time::Instant::now`; nothing is assumed of the reading.
#[verifier::external_body]
fn instant_now() -> std::time::Instant {
    std::time::Instant::now()
}

/// Relies on `Instant::saturating_duration_since`: it never panics, returning
/// a zero duration when the other instant is later.
#[verifier::external_body]
fn since(later: &std::time::Instant, earlier: &std::time::Instant) -> std::time::Duration {
    later.saturating_duration_since(*earlier)
}

/// Relies on `Duration::as_nanos`; nothing is assumed of the count.
#[verifier::external_body]
fn duration_nanos(d: &std::time::Duration) -> u128 {
    d.as_nanos()
}

/// The pending starts, each label mapped to its most recent reading.
pub open spec fn started_map(s: Seq<(String, std::time::Instant)>) -> Map<
    Seq<char>,
    std::time::Instant,
>
    decreases s.len(),
{
    if s.len() == 0 {
        Map::empty()
    } else {
        started_map(s.drop_last()).insert(s.last().0@, s.last().1)
    }
}

/// The labels of the recorded spans, in record order.
pub open spec fn spans_labels(s: Seq<(Seq<char>, std::time::Instant, std::time::Instant)>) -> Seq<
    Seq<char>,
> {
    Seq::new(s.len(), |i: int| s[i].0)
}

/// The labels of a span list, first occurrence first, later repeats dropped.
pub open spec fn first_labels(s: Seq<Seq<char>>) -> Seq<Seq<char>>
    decreases s.len(),
{
    if s.len() == 0 {
        Seq::empty()
    } else if s.drop_last().contains(s.last()) {
        first_labels(s.drop_last())
    } else {
        first_labels(s.drop_last()).push(s.last())
    }
}

/// A span list and its first-occurrence labels hold the same labels.
pub proof fn lemma_first_labels_contains(s: Seq<Seq<char>>, x: Seq<char>)
    ensures
        first_labels(s).contains(x) <==> s.contains(x),
    decreases s.len(),
{
    if s.len() > 0 {
        let d = s.drop_last();
        lemma_first_labels_contains(d, x);
        assert(s.contains(x) <==> (d.contains(x) || s.last() == x)) by {
            if s.contains(x) {
                let i = choose|i: int| 0 <= i < s.len() && s[i] == x;
                if i < s.len() - 1 {
                    assert(d[i] == x);
                }
            }
            if d.contains(x) {
                let i = choose|i: int| 0 <= i < d.len() && d[i] == x;
                assert(s[i] == x);
            }
            if s.last() == x {
                assert(s[s.len() - 1] == x);
            }
        }
        if !d.contains(s.last()) {
            let f = first_labels(d).push(s.last());
            assert(first_labels(s) == f);
            assert(f.contains(x) <==> (first_labels(d).contains(x) || s.last() == x)) by {
                if f.contains(x) {
                    let i = choose|i: int| 0 <= i < f.len() && f[i] == x;
                    if i < f.len() - 1 {
                        assert(first_labels(d)[i] == x);
                    }
                }
                if first_labels(d).contains(x) {
                    let i = choose|i: int|
                        0 <= i < first_labels(d).len() && first_labels(d)[i] == x;
                    assert(f[i] == x);
                }
                if s.last() == x {
                    assert(f[f.len() - 1] == x);
                }
            }
        }
    }
}

/// The nanosecond values of a report's entries, as label–value pairs.
pub open spec fn entries_view(s: Seq<(String, u64)>) -> Seq<(Seq<char>, u64)> {
    Seq::new(s.len(), |i: int| (s[i].0@, s[i].1))
}

/// The labels of a report's entries, in order.
pub open spec fn entry_labels(s: Seq<(String, u64)>) -> Seq<Seq<char>> {
    Seq::new(s.len(), |i: int| s[i].0@)
}

/// Labels paired with their values.
pub open spec fn with_values(labels: Seq<Seq<char>>, ns: Seq<u64>) -> Seq<(Seq<char>, u64)>
    recommends
        labels.len() == ns.len(),
{
    Seq::new(labels.len(), |i: int| (labels[i], ns[i]))
}

/// Addition that stops at the numeric ceiling instead of overflowing.
pub open spec fn sat_add(a: u64, b: u64) -> u64 {
    if a + b <= 0xFFFF_FFFF_FFFF_FFFFu64 {
        (a + b) as u64
    } else {
        0xFFFF_FFFF_FFFF_FFFFu64
    }
}

/// The accumulated value of one label: the sum, over the entries carrying
/// that label, of their values.
pub open spec fn label_total(entries: Seq<(Seq<char>, u64)>, l: Seq<char>) -> u64
    decreases entries.len(),
{
    if entries.len() == 0 {
        0u64
    } else if entries.last().0 == l {
        sat_add(label_total(entries.drop_last(), l), entries.last().1)
    } else {
        label_total(entries.drop_last(), l)
    }
}

/// A label no entry carries accumulates to zero.
proof fn lemma_label_total_absent(entries: Seq<(Seq<char>, u64)>, l: Seq<char>)
    requires
        forall|i: int| 0 <= i < entries.len() ==> (#[trigger] entries[i]).0 != l,
    ensures
        label_total(entries, l) == 0,
    decreases entries.len(),
{
    if entries.len() > 0 {
        assert(entries[entries.len() - 1].0 != l);
        assert forall|i: int| 0 <= i < entries.drop_last().len() implies (#[trigger] entries.drop_last()[i]).0
            != l by {
            assert(entries[i].0 != l);
        }
        lemma_label_total_absent(entries.drop_last(), l);
    }
}

/// Sums a list of labeled values into one entry per label, labels in
/// first-occurrence order, each value the accumulated total of its label.
#[verifier::loop_isolation(false)]
pub fn accumulate_nanos(entries: &Vec<(String, u64)>) -> (r: Vec<(String, u64)>)
    ensures
        entry_labels(r@) =~= first_labels(entry_labels(entries@)),
        forall|j: int|
            0 <= j < r@.len() ==> (#[trigger] r@[j]).1 == label_total(
                entries_view(entries@),
                r@[j].0@,
            ),
{
    let ghost all = entry_labels(entries@);
    let ghost ev = entries_view(entries@);
    let mut r: Vec<(String, u64)> = Vec::new();
    let mut i: usize = 0;
    while i < entries.len()
        invariant
            i <= entries@.len(),
            entry_labels(r@) =~= first_labels(all.take(i as int)),
            forall|j: int|
                0 <= j < r@.len() ==> (#[trigger] r@[j]).1 == label_total(
                    ev.take(i as int),
                    r@[j].0@,
                ),
            forall|p: int, q: int| 0 <= p < q < r@.len() ==> r@[p].0@ != r@[q].0@,
        decreases entries@.len() - i,
    {
        let lbl = entries[i].0.clone();
        let v = entries[i].1;
        let ghost labels_before = entry_labels(r@);
        let mut k: usize = 0;
        let mut found = false;
        while k < r.len() && !found
            invariant
                k <= r@.len(),
                found ==> k < r@.len() && r@[k as int].0@ == lbl@,
                !found ==> forall|j: int| 0 <= j < k ==> (#[trigger] r@[j]).0@ != lbl@,
            decreases r@.len() - k + (if found {
                0int
            } else {
                1int
            }),
        {
            if crate::order::str_eq(r[k].0.as_str(), lbl.as_str()) {
                found = true;
            } else {
                k += 1;
            }
        }
        proof {
            assert(ev.take(i + 1).drop_last() =~= ev.take(i as int));
            assert(ev.take(i + 1).last() == ev[i as int]);
            assert(all.take(i + 1).drop_last() =~= all.take(i as int));
            assert(all.take(i + 1).last() == all[i as int]);
            assert(all[i as int] == lbl@);
            assert(ev[i as int] == (lbl@, v));
            lemma_first_labels_contains(all.take(i as int), lbl@);
        }
        if found {
            proof {
                assert(labels_before[k as int] == lbl@);
                assert(all.take(i as int).contains(lbl@)) by {
                    assert(first_labels(all.take(i as int)).contains(lbl@));
                }
            }
            let old_v = r[k].1;
            let new_v = if old_v <= 0xFFFF_FFFF_FFFF_FFFFu64 - v {
                old_v + v
            } else {
                0xFFFF_FFFF_FFFF_FFFFu64
            };
            let lbl_keep = r[k].0.clone();
            r.set(k, (lbl_keep, new_v));
            proof {
                assert(entry_labels(r@) =~= labels_before);
                assert(first_labels(all.take(i + 1)) =~= labels_before);
                assert forall|j: int| 0 <= j < r@.len() implies (#[trigger] r@[j]).1
                    == label_total(ev.take(i + 1), r@[j].0@) by {
                    if j == k {
                        assert(r@[j].1 == sat_add(label_total(ev.take(i as int), lbl@), v));
                    } else {
                        assert(r@[j].0@ != lbl@);
                    }
                }
            }
        } else {
            proof {
                assert(!all.take(i as int).contains(lbl@)) by {
                    if all.take(i as int).contains(lbl@) {
                        assert(first_labels(all.take(i as int)).contains(lbl@));
                        let j = choose|j: int|
                            0 <= j < labels_before.len() && labels_before[j] == lbl@;
                        assert(r@[j].0@ == lbl@);
                    }
                }
            }
            r.push((lbl, v));
            proof {
                assert(entry_labels(r@) =~= labels_before.push(lbl@));
                assert(first_labels(all.take(i + 1)) =~= labels_before.push(lbl@));
                assert forall|j: int| 0 <= j < r@.len() implies (#[trigger] r@[j]).1
                    == label_total(ev.take(i + 1), r@[j].0@) by {
                    if j == r@.len() - 1 {
                        assert forall|m: int| 0 <= m < all.take(i as int).len() implies (
                        #[trigger] ev.take(i as int)[m]).0 != lbl@ by {
                            assert(all.take(i as int)[m] == ev.take(i as int)[m].0);
                            assert(!all.take(i as int).contains(lbl@));
                        }
                        lemma_label_total_absent(ev.take(i as int), lbl@);
                        assert(r@[j].1 == sat_add(0u64, v));
                    } else {
                        assert(r@[j].0@ != lbl@);
                    }
                }
            }
        }
        i += 1;
    }
    proof {
        assert(all.take(all.len() as int) =~= all);
        assert(ev.take(ev.len() as int) =~= ev);
    }
    r
}

/// Per-phase timing state, scoped to one generation.
pub struct PerfRecords {
    debug: bool,
    started: Vec<(String, std::time::Instant)>,
    spans: Vec<(String, std::time::Instant, std::time::Instant)>,
}

/// The model of the timing state: whether it is live, the pending start of
/// each started label (the most recent, where a label was restarted), and the
/// finished spans with their readings, in record order.
#[verifier::ext_equal]
pub struct PerfModel {
    pub debug: bool,
    pub started: Map<Seq<char>, std::time::Instant>,
    pub spans: Seq<(Seq<char>, std::time::Instant, std::time::Instant)>,
}

impl View for PerfRecords {
    type V = PerfModel;

    closed spec fn view(&self) -> PerfModel {
        PerfModel {
            debug: self.debug,
            started: started_map(self.started@),
            spans: Seq::new(
                self.spans@.len(),
                |i: int| (self.spans@[i].0@, self.spans@[i].1, self.spans@[i].2),
            ),
        }
    }
}

/// The pending-start map of a fresh recorder.
pub open spec fn no_starts() -> Map<Seq<char>, std::time::Instant> {
    Map::empty()
}

/// The span list of a fresh recorder.
pub open spec fn no_spans() -> Seq<(Seq<char>, std::time::Instant, std::time::Instant)> {
    Seq::empty()
}

/// The labels a finished recording reports on: every span's label, then the
/// implicit total, which `end` closes if it is still pending.
pub open spec fn closing_labels(m: PerfModel) -> Seq<Seq<char>> {
    if m.started.dom().contains("total"@) {
        spans_labels(m.spans).push("total"@)
    } else {
        spans_labels(m.spans)
    }
}

/// Whether a report's values are the per-label accumulated totals of the
/// given labels under the given per-span values.
pub open spec fn totals_of(labels: Seq<Seq<char>>, ns: Seq<u64>, out: Seq<(String, u64)>) -> bool {
    &&& ns.len() == labels.len()
    &&& forall|j: int|
        0 <= j < out.len() ==> (#[trigger] out[j]).1 == label_total(
            with_values(labels, ns),
            out[j].0@,
        )
}

/// The accumulated report: one entry per label, in first-start order.
pub struct PerfResult {
    pub per_label: Vec<(String, u64)>,
}

impl PerfRecords {
    /// Fresh state; when debug is on, an implicit total span begins at once.
    pub fn start(debug: bool) -> (r: PerfRecords)
        ensures
            r@.debug == debug,
            r@.spans =~= no_spans(),
            debug ==> r@.started.dom() =~= Set::<Seq<char>>::empty().insert("total"@),
            debug ==> (exists|t: std::time::Instant| r@.started == no_starts().insert(
                "total"@,
                t,
            )),
            !debug ==> r@.started =~= no_starts(),
    {
        let mut r = PerfRecords { debug, started: Vec::new(), spans: Vec::new() };
        proof {
            assert(r@.started =~= no_starts());
            assert(r@.spans =~= no_spans());
            assert(r@.started.dom() =~= Set::<Seq<char>>::empty());
        }
        let ghost pre = r@;
        r.span("total");
        proof {
            if debug {
                let t = choose|t: std::time::Instant| r@.started == pre.started.insert("total"@, t);
                assert(r@.started == no_starts().insert("total"@, t));
            }
        }
        r
    }

    /// Starts the span of a label, a restart replacing the pending reading
    /// with the newer one; inert without debug.
    pub fn span(&mut self, s: &str)
        ensures
            final(self)@.debug == old(self)@.debug,
            final(self)@.spans == old(self)@.spans,
            old(self)@.debug ==> (exists|t: std::time::Instant| final(self)@.started == old(
                self,
            )@.started.insert(s@, t)),
            old(self)@.debug ==> final(self)@.started.dom() =~= old(self)@.started.dom().insert(
                s@,
            ),
            !old(self)@.debug ==> final(self)@ =~= old(self)@,
    {
        if self.debug {
            let now = instant_now();
            let ghost before = self.started@;
            self.started.push((s.to_owned(), now));
            proof {
                assert(self.started@.drop_last() =~= before);
                assert(started_map(self.started@) == started_map(before).insert(s@, now));
                assert(self@.started == old(self)@.started.insert(s@, now));
                assert(self@.started.dom() =~= old(self)@.started.dom().insert(s@));
            }
        }
    }

    /// Closes the span of a label, measuring from that label's pending start
    /// — the most recent one, where the label was restarted; inert without
    /// debug, and a silent no-op for a label never started.
    #[verifier::loop_isolation(false)]
    pub fn span_end(&mut self, s: &str)
        ensures
            final(self)@.debug == old(self)@.debug,
            final(self)@.started == old(self)@.started,
            old(self)@.debug && old(self)@.started.dom().contains(s@) ==> (
            exists|t: std::time::Instant|
                final(self)@.spans =~= old(self)@.spans.push(
                    (s@, old(self)@.started[s@], t),
                )),
            old(self)@.debug && old(self)@.started.dom().contains(s@) ==> spans_labels(
                final(self)@.spans,
            ) =~= spans_labels(old(self)@.spans).push(s@),
            !(old(self)@.debug && old(self)@.started.dom().contains(s@)) ==> final(self)@ =~= old(
                self,
            )@,
    {
        if self.debug {
            let ghost full = self.started@;
            proof {
                assert(full.take(full.len() as int) =~= full);
            }
            let mut k: usize = self.started.len();
            while k > 0
                invariant
                    k <= self.started@.len(),
                    self.debug == old(self).debug,
                    self.started@ == full,
                    self.spans@ == old(self).spans@,
                    started_map(full).dom().contains(s@) <==> started_map(
                        full.take(k as int),
                    ).dom().contains(s@),
                    started_map(full.take(k as int)).dom().contains(s@) ==> started_map(
                        full.take(k as int),
                    )[s@] == started_map(full)[s@],
                decreases k,
            {
                proof {
                    assert(full.take(k as int).drop_last() =~= full.take(k - 1));
                    assert(full.take(k as int).last() == full[k - 1]);
                }
                let hit = {
                    let entry = &self.started[k - 1];
                    crate::order::str_eq(entry.0.as_str(), s)
                };
                if hit {
                    proof {
                        assert(started_map(full.take(k as int))[s@] == full[k - 1].1);
                        assert(started_map(full)[s@] == full[k - 1].1);
                    }
                    let begin = self.started[k - 1].1;
                    let now = instant_now();
                    let ghost before = self@.spans;
                    self.spans.push((s.to_owned(), begin, now));
                    proof {
                        assert(self@.spans =~= before.push((s@, started_map(full)[s@], now)));
                        assert(spans_labels(self@.spans) =~= spans_labels(before).push(s@));
                    }
                    return ;
                }
                k -= 1;
            }
            proof {
                assert(full.take(0) =~= Seq::<(String, std::time::Instant)>::empty());
                assert(!started_map(full).dom().contains(s@));
            }
        }
    }

    /// Closes the implicit total span and accumulates every span into one
    /// value per label, labels in first-record order, each value the
    /// accumulated nanoseconds of its label's spans. The readings come from
    /// the clock, so the per-span durations themselves are not specified.
    #[verifier::loop_isolation(false)]
    pub fn end(&mut self) -> (r: PerfResult)
        ensures
            !old(self)@.debug ==> r.per_label@.len() == 0,
            old(self)@.debug ==> entry_labels(r.per_label@) =~= first_labels(
                closing_labels(old(self)@),
            ),
            old(self)@.debug ==> (exists|ns: Seq<u64>|
                #[trigger] totals_of(closing_labels(old(self)@), ns, r.per_label@)),
    {
        let mut per_label: Vec<(String, u64)> = Vec::new();
        if self.debug {
            let ghost closing = closing_labels(old(self)@);
            self.span_end("total");
            proof {
                assert(spans_labels(self@.spans) =~= closing);
            }
            let mut entries: Vec<(String, u64)> = Vec::new();
            let mut i: usize = 0;
            while i < self.spans.len()
                invariant
                    i <= self.spans@.len(),
                    closing =~= spans_labels(self@.spans),
                    entries@.len() == i,
                    forall|j: int|
                        0 <= j < entries@.len() ==> (#[trigger] entries@[j]).0@ == closing[j],
                decreases self.spans@.len() - i,
            {
                let lbl = self.spans[i].0.clone();
                let nanos = {
                    let d = since(&self.spans[i].2, &self.spans[i].1);
                    let big = duration_nanos(&d);
                    if big > 0xFFFF_FFFF_FFFF_FFFFu128 {
                        0xFFFF_FFFF_FFFF_FFFFu64
                    } else {
                        big as u64
                    }
                };
                entries.push((lbl, nanos));
                i += 1;
            }
            per_label = accumulate_nanos(&entries);
            let out = PerfResult { per_label };
            proof {
                let ns = Seq::new(entries@.len(), |j: int| entries@[j].1);
                assert(entry_labels(entries@) =~= closing);
                assert(with_values(closing, ns) =~= entries_view(entries@));
                assert(ns.len() == closing.len());
                assert(forall|j: int|
                    0 <= j < out.per_label@.len() ==> (#[trigger] out.per_label@[j]).1
                        == label_total(with_values(closing, ns), out.per_label@[j].0@));
                assert(totals_of(closing_labels(old(self)@), ns, out.per_label@));
            }
            return out;
        }
        PerfResult { per_label }
    }
}

} // verus!
