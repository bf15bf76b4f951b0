//! Permits for direct (micro) control, and the observer that counts the
//! operations and violations of each component under direct control.
use crate::queues::command::channel_send;
use crate::queues::telemetry::{Telemetry, TelemetryQueue};
use crossbeam_channel::Sender;
use std::sync::atomic::{AtomicBool, Ordering};
use std::sync::Arc;
use vstd::prelude::*;

verus! {

/// Summary of the micro-control sandbox.
#[derive(Debug, Clone, Default)]
pub struct SandboxSummary {
    /// Total number of micro-control operations.
    pub total_operations: u64,
    /// Total number of violations.
    pub total_violations: u64,
    /// Active components.
    pub components: Vec<String>,
    /// Longest operation time.
    pub max_time_ns: u64,
    /// Component with the longest operation time.
    pub max_time_component: Option<String>,
    /// Number of recorded violations.
    pub violations_count: usize,
}

/// Permission for a component to control a parameter directly.
///
/// Clones share the enabled flag: revoking one revokes all. The flag is an
/// atomic that other threads may change, so no contract states its value.
#[derive(Debug, Clone)]
pub struct MicroControlPermit {
    enabled: Arc<AtomicBool>,
    max_time_ns: u64,
    component: String,
}

impl MicroControlPermit {
    /// The longest processing time allowed, in nanoseconds.
    pub closed spec fn time_limit(&self) -> u64 {
        self.max_time_ns
    }

    /// The component holding the permit.
    pub closed spec fn component_name(&self) -> Seq<char> {
        self.component@
    }

    /// Create a new permit, enabled.
    pub fn new(component: &str, max_time_ns: u64) -> (p: Self)
        ensures
            p.time_limit() == max_time_ns,
            p.component_name() == component@,
    {
        MicroControlPermit {
            enabled: Arc::new(AtomicBool::new(true)),
            max_time_ns,
            component: component.to_owned(),
        }
    }

    /// Whether direct control is still allowed.
    pub fn is_allowed(&self) -> bool {
        self.enabled.load(Ordering::Relaxed)
    }

    /// Revoke direct control, for this permit and all its clones.
    pub fn revoke(&self) {
        self.enabled.store(false, Ordering::Relaxed);
    }

    /// The longest processing time allowed, in nanoseconds.
    pub fn max_time_ns(&self) -> (r: u64)
        ensures
            r == self.time_limit(),
    {
        self.max_time_ns
    }

    /// The component holding the permit.
    pub fn component(&self) -> (r: &str)
        ensures
            r@ == self.component_name(),
    {
        self.component.as_str()
    }
}

/// Counters of one observed component.
#[derive(Debug, Clone, Copy, PartialEq, Eq, Structural)]
pub struct ComponentStats {
    /// Number of completed operations.
    pub operations: u64,
    /// Total time of the completed operations, in nanoseconds.
    pub total_time_ns: u64,
    /// Longest operation time, in nanoseconds.
    pub max_time_ns: u64,
    /// Number of violations.
    pub violations: u64,
}

impl ComponentStats {
    /// The counters of a component seen for the first time.
    pub open spec fn zero() -> ComponentStats {
        ComponentStats { operations: 0, total_time_ns: 0, max_time_ns: 0, violations: 0 }
    }

    /// The counters after one more violation.
    pub open spec fn violated(self) -> ComponentStats {
        ComponentStats { violations: (self.violations + 1) as u64, ..self }
    }

    /// The counters after one more operation lasting `duration_ns`.
    pub open spec fn completed(self, duration_ns: u64) -> ComponentStats {
        ComponentStats {
            operations: (self.operations + 1) as u64,
            total_time_ns: (self.total_time_ns + duration_ns) as u64,
            max_time_ns: if duration_ns > self.max_time_ns {
                duration_ns
            } else {
                self.max_time_ns
            },
            violations: self.violations,
        }
    }

    /// One more violation fits in the counter.
    pub open spec fn can_violate(self) -> bool {
        self.violations < u64::MAX
    }

    /// One more operation lasting `duration_ns` fits in the counters.
    pub open spec fn can_complete(self, duration_ns: u64) -> bool {
        self.operations < u64::MAX && self.total_time_ns + duration_ns <= u64::MAX
    }
}

/// A recorded violation: an operation that took longer than allowed.
#[derive(Debug, PartialEq, Eq)]
pub struct Violation {
    /// The component that overran.
    pub component: String,
    /// The allowed time, in nanoseconds.
    pub expected_ns: u64,
    /// The time taken, in nanoseconds.
    pub actual_ns: u64,
    /// When it happened, in microseconds since the Unix epoch.
    pub timestamp: u64,
    /// The bits of the `f32` value applied, if any.
    pub value_bits: Option<u32>,
}

/// What a violation record holds, with the component by its characters.
pub struct ViolationView {
    /// The component that overran.
    pub component: Seq<char>,
    /// The allowed time, in nanoseconds.
    pub expected_ns: u64,
    /// The time taken, in nanoseconds.
    pub actual_ns: u64,
    /// When it happened.
    pub timestamp: u64,
    /// The bits of the value applied, if any.
    pub value_bits: Option<u32>,
}

impl Violation {
    /// The record, with the component by its characters.
    pub open spec fn view(&self) -> ViolationView {
        ViolationView {
            component: self.component@,
            expected_ns: self.expected_ns,
            actual_ns: self.actual_ns,
            timestamp: self.timestamp,
            value_bits: self.value_bits,
        }
    }

    /// A copy of the record.
    pub fn copy(&self) -> (r: Violation)
        ensures
            r@ == self@,
    {
        Violation {
            component: self.component.clone(),
            expected_ns: self.expected_ns,
            actual_ns: self.actual_ns,
            timestamp: self.timestamp,
            value_bits: self.value_bits,
        }
    }
}

/// A component and its counters, by the component's characters.
pub type StatsEntry = (Seq<char>, ComponentStats);

/// Position of the entry for component `c`, if there is one.
pub open spec fn entry_index(entries: Seq<StatsEntry>, c: Seq<char>) -> Option<int> {
    if exists|i: int| 0 <= i < entries.len() && (#[trigger] entries[i]).0 == c {
        Some(choose|i: int| 0 <= i < entries.len() && (#[trigger] entries[i]).0 == c)
    } else {
        None
    }
}

/// The counters of component `c`, if it was seen.
pub open spec fn stats_of(entries: Seq<StatsEntry>, c: Seq<char>) -> Option<ComponentStats> {
    match entry_index(entries, c) {
        Some(i) => Some(entries[i].1),
        None => None,
    }
}

/// The counters that component `c` starts from: its own, or zero when it
/// was not seen yet.
pub open spec fn current_stats(entries: Seq<StatsEntry>, c: Seq<char>) -> ComponentStats {
    match stats_of(entries, c) {
        Some(s) => s,
        None => ComponentStats::zero(),
    }
}

/// The entries with the counters of `c` replaced by `s`; a component not
/// seen yet is added at the end.
pub open spec fn with_stats(entries: Seq<StatsEntry>, c: Seq<char>, s: ComponentStats) -> Seq<
    StatsEntry,
> {
    match entry_index(entries, c) {
        Some(i) => entries.update(i, (c, s)),
        None => entries.push((c, s)),
    }
}

/// No component has two entries.
pub open spec fn distinct_components(entries: Seq<StatsEntry>) -> bool {
    forall|i: int, j: int|
        0 <= i < entries.len() && 0 <= j < entries.len() && i != j ==> (#[trigger] entries[i]).0
            != (#[trigger] entries[j]).0
}

/// Total of the operation counters.
pub open spec fn sum_operations(entries: Seq<StatsEntry>) -> nat
    decreases entries.len(),
{
    if entries.len() == 0 {
        0
    } else {
        sum_operations(entries.drop_last()) + entries.last().1.operations as nat
    }
}

/// Total of the violation counters.
pub open spec fn sum_violations(entries: Seq<StatsEntry>) -> nat
    decreases entries.len(),
{
    if entries.len() == 0 {
        0
    } else {
        sum_violations(entries.drop_last()) + entries.last().1.violations as nat
    }
}

/// The longest operation time over the entries, starting from zero, with the
/// first component, in entry order, that reached it; none where every time
/// is zero.
pub open spec fn longest(entries: Seq<StatsEntry>) -> (u64, Option<Seq<char>>)
    decreases entries.len(),
{
    if entries.len() == 0 {
        (0, None)
    } else {
        let before = longest(entries.drop_last());
        let last = entries.last();
        if last.1.max_time_ns > before.0 {
            (last.1.max_time_ns, Some(last.0))
        } else {
            before
        }
    }
}

/// A prefix never sums to more than the whole.
proof fn lemma_prefix_sums(entries: Seq<StatsEntry>, i: int)
    requires
        0 <= i <= entries.len(),
    ensures
        sum_operations(entries.take(i)) <= sum_operations(entries),
        sum_violations(entries.take(i)) <= sum_violations(entries),
    decreases entries.len() - i,
{
    if i < entries.len() {
        lemma_prefix_sums(entries, i + 1);
        assert(entries.take(i + 1).drop_last() =~= entries.take(i));
    } else {
        assert(entries.take(i) =~= entries);
    }
}

/// Replacing one entry changes each total by the difference of its counters.
proof fn lemma_sums_update(entries: Seq<StatsEntry>, i: int, x: StatsEntry)
    requires
        0 <= i < entries.len(),
    ensures
        sum_operations(entries.update(i, x)) + entries[i].1.operations == sum_operations(entries)
            + x.1.operations,
        sum_violations(entries.update(i, x)) + entries[i].1.violations == sum_violations(entries)
            + x.1.violations,
    decreases entries.len(),
{
    let u = entries.update(i, x);
    if i == entries.len() - 1 {
        assert(u.drop_last() =~= entries.drop_last());
    } else {
        lemma_sums_update(entries.drop_last(), i, x);
        assert(u.drop_last() =~= entries.drop_last().update(i, x));
    }
}

/// The totals after component `c`'s counters become `s`: each total moves
/// by the difference from the counters `c` had (zero when it was new).
proof fn lemma_sums_with_stats(entries: Seq<StatsEntry>, c: Seq<char>, s: ComponentStats)
    ensures
        sum_operations(with_stats(entries, c, s)) + current_stats(entries, c).operations
            == sum_operations(entries) + s.operations,
        sum_violations(with_stats(entries, c, s)) + current_stats(entries, c).violations
            == sum_violations(entries) + s.violations,
{
    match entry_index(entries, c) {
        Some(i) => {
            lemma_sums_update(entries, i, (c, s));
        },
        None => {
            assert(entries.push((c, s)).drop_last() =~= entries);
        },
    }
}

/// Recording a violation adds exactly one to the violations that the summary
/// totals, and leaves the operation total as it was.
pub proof fn law_violation_is_counted_once(entries: Seq<StatsEntry>, c: Seq<char>)
    requires
        current_stats(entries, c).can_violate(),
    ensures
        sum_violations(with_stats(entries, c, current_stats(entries, c).violated()))
            == sum_violations(entries) + 1,
        sum_operations(with_stats(entries, c, current_stats(entries, c).violated()))
            == sum_operations(entries),
{
    lemma_sums_with_stats(entries, c, current_stats(entries, c).violated());
}

/// Completing an operation adds exactly one to the operations that the
/// summary totals, and leaves the violation total as it was.
pub proof fn law_operation_is_counted_once(entries: Seq<StatsEntry>, c: Seq<char>, duration_ns: u64)
    requires
        current_stats(entries, c).can_complete(duration_ns),
    ensures
        sum_operations(with_stats(entries, c, current_stats(entries, c).completed(duration_ns)))
            == sum_operations(entries) + 1,
        sum_violations(with_stats(entries, c, current_stats(entries, c).completed(duration_ns)))
            == sum_violations(entries),
{
    lemma_sums_with_stats(entries, c, current_stats(entries, c).completed(duration_ns));
}

/// After component `c`'s counters become `s`, they are what the observer
/// reports for `c`, and every other component's counters are unchanged.
pub proof fn law_stats_read_back(entries: Seq<StatsEntry>, c: Seq<char>, s: ComponentStats, d: Seq<char>)
    requires
        distinct_components(entries),
    ensures
        distinct_components(with_stats(entries, c, s)),
        stats_of(with_stats(entries, c, s), c) == Some(s),
        d != c ==> stats_of(with_stats(entries, c, s), d) == stats_of(entries, d),
{
    let w = with_stats(entries, c, s);
    match entry_index(entries, c) {
        Some(i) => {
            assert(w[i].0 == c);
        },
        None => {
            assert(w[entries.len() as int].0 == c);
        },
    }
    if d != c {
        match entry_index(entries, d) {
            Some(j) => {
                assert(w[j].0 == d);
            },
            None => {
                assert forall|j: int| 0 <= j < w.len() implies (#[trigger] w[j]).0 != d by {
                    if j < entries.len() && w[j] != entries[j] {
                        assert(w[j].0 == c);
                    }
                }
            },
        }
    }
}

/// Completing an operation lasting `d` counts one more operation, adds `d`
/// to the total time and leaves the violations alone; the longest time
/// becomes the larger of the longest so far and `d`, so it never goes down
/// and is at least `d`.
pub proof fn law_completion_keeps_longest(s: ComponentStats, d: u64)
    requires
        s.can_complete(d),
    ensures
        s.completed(d).operations == s.operations + 1,
        s.completed(d).total_time_ns == s.total_time_ns + d,
        s.completed(d).violations == s.violations,
        s.completed(d).max_time_ns >= s.max_time_ns,
        s.completed(d).max_time_ns >= d,
        s.completed(d).max_time_ns == s.max_time_ns || s.completed(d).max_time_ns == d,
{
}

/// The counters after operations lasting `ds` complete in turn, from `s`.
pub open spec fn complete_all(s: ComponentStats, ds: Seq<u64>) -> ComponentStats
    decreases ds.len(),
{
    if ds.len() == 0 {
        s
    } else {
        complete_all(s, ds.drop_last()).completed(ds.last())
    }
}

/// After operations lasting `ds` complete in turn for a new component, its
/// longest time is the largest of `ds`: at least every one of them, and
/// equal to one of them (zero when there was none).
pub proof fn law_longest_is_maximum(ds: Seq<u64>)
    ensures
        forall|i: int|
            0 <= i < ds.len() ==> complete_all(ComponentStats::zero(), ds).max_time_ns >= #[trigger] ds[i],
        ds.len() == 0 ==> complete_all(ComponentStats::zero(), ds).max_time_ns == 0,
        ds.len() > 0 ==> exists|i: int|
            0 <= i < ds.len() && complete_all(ComponentStats::zero(), ds).max_time_ns == #[trigger] ds[i],
    decreases ds.len(),
{
    if ds.len() > 0 {
        let front = ds.drop_last();
        law_longest_is_maximum(front);
        let m = complete_all(ComponentStats::zero(), ds).max_time_ns;
        assert forall|i: int| 0 <= i < ds.len() implies m >= #[trigger] ds[i] by {
            if i < ds.len() - 1 {
                assert(front[i] == ds[i]);
            }
        }
        if m == ds.last() {
            assert(ds[ds.len() - 1] == m);
        } else {
            let j = choose|j: int| 0 <= j < front.len() && complete_all(ComponentStats::zero(), front).max_time_ns == #[trigger] front[j];
            assert(ds[j] == front[j]);
        }
    }
}

/// Recording a violation raises the violation count by one and leaves the
/// operation count, the total time and the longest time as they were.
pub proof fn law_violation_changes_only_its_count(s: ComponentStats)
    requires
        s.can_violate(),
    ensures
        s.violated().violations == s.violations + 1,
        s.violated().operations == s.operations,
        s.violated().total_time_ns == s.total_time_ns,
        s.violated().max_time_ns == s.max_time_ns,
{
}

/// The longest time a summary reports is the largest longest time among the
/// components (zero when there is none), and the component it names is the
/// first, in the order seen, whose longest time is that largest one; it
/// names none exactly when every longest time is zero.
pub proof fn law_summary_longest_is_first_maximum(entries: Seq<StatsEntry>)
    ensures
        forall|i: int|
            0 <= i < entries.len() ==> longest(entries).0 >= (#[trigger] entries[i]).1.max_time_ns,
        longest(entries).1 is None ==> longest(entries).0 == 0,
        longest(entries).1 matches Some(c) ==> longest(entries).0 > 0 && exists|i: int|
            0 <= i < entries.len() && (#[trigger] entries[i]).0 == c && entries[i].1.max_time_ns
                == longest(entries).0 && forall|j: int|
                0 <= j < i ==> (#[trigger] entries[j]).1.max_time_ns < longest(entries).0,
    decreases entries.len(),
{
    if entries.len() > 0 {
        let front = entries.drop_last();
        law_summary_longest_is_first_maximum(front);
        let n = entries.len() - 1;
        assert forall|i: int| 0 <= i < entries.len() implies longest(entries).0 >= (
        #[trigger] entries[i]).1.max_time_ns by {
            if i < n {
                assert(front[i] == entries[i]);
            }
        }
        if entries[n].1.max_time_ns > longest(front).0 {
            assert forall|j: int| 0 <= j < n implies (#[trigger] entries[j]).1.max_time_ns
                < longest(entries).0 by {
                assert(front[j] == entries[j]);
            }
        } else if longest(front).1 is Some {
            let c = longest(front).1->0;
            let i = choose|i: int|
                0 <= i < front.len() && (#[trigger] front[i]).0 == c && front[i].1.max_time_ns
                    == longest(front).0 && forall|j: int|
                    0 <= j < i ==> (#[trigger] front[j]).1.max_time_ns < longest(front).0;
            assert(entries[i] == front[i]);
            assert forall|j: int| 0 <= j < i implies (#[trigger] entries[j]).1.max_time_ns
                < longest(entries).0 by {
                assert(front[j] == entries[j]);
            }
        }
    }
}

/// The totals a summary reports are at least each component's own count.
pub proof fn law_summary_totals_cover_each(entries: Seq<StatsEntry>)
    ensures
        forall|i: int|
            0 <= i < entries.len() ==> sum_operations(entries) >= (#[trigger] entries[i]).1.operations
                && sum_violations(entries) >= entries[i].1.violations,
    decreases entries.len(),
{
    if entries.len() > 0 {
        let front = entries.drop_last();
        law_summary_totals_cover_each(front);
        assert forall|i: int| 0 <= i < entries.len() implies sum_operations(entries) >= (
        #[trigger] entries[i]).1.operations && sum_violations(entries)
            >= entries[i].1.violations by {
            if i < entries.len() - 1 {
                assert(front[i] == entries[i]);
            }
        }
    }
}

/// An optional name by its characters.
pub open spec fn name_view(name: Option<String>) -> Option<Seq<char>> {
    match name {
        Some(s) => Some(s@),
        None => None,
    }
}

/// Watches components under direct control: counts each component's
/// operations, their times and its violations, keeps every violation, and
/// reports each violation and each completed operation as telemetry.
///
/// Components are kept in the order they were first seen.
pub struct MicroControlObserver {
    names: Vec<String>,
    stats: Vec<ComponentStats>,
    violations: Vec<Violation>,
    telemetry_tx: Sender<Telemetry>,
}

impl MicroControlObserver {
    /// Each component seen, in the order first seen, with its counters.
    pub closed spec fn entries(&self) -> Seq<StatsEntry> {
        Seq::new(self.names@.len(), |i: int| (self.names@[i]@, self.stats@[i]))
    }

    /// The violations recorded, oldest first.
    pub closed spec fn violation_list(&self) -> Seq<ViolationView> {
        self.violations@.map_values(|v: Violation| v@)
    }

    /// One counter set per name, and no name twice.
    pub closed spec fn wf(&self) -> bool {
        &&& self.names@.len() == self.stats@.len()
        &&& distinct_components(self.entries())
    }

    /// Create an observer that has seen nothing and reports to `telemetry`.
    pub fn new(telemetry: TelemetryQueue) -> (o: Self)
        ensures
            o.wf(),
            o.entries() == Seq::<StatsEntry>::empty(),
            o.violation_list() == Seq::<ViolationView>::empty(),
    {
        Self::with_sender(telemetry.sender())
    }

    /// Create an observer that has seen nothing and reports through
    /// `telemetry_tx`.
    pub fn with_sender(telemetry_tx: Sender<Telemetry>) -> (o: Self)
        ensures
            o.wf(),
            o.entries() == Seq::<StatsEntry>::empty(),
            o.violation_list() == Seq::<ViolationView>::empty(),
    {
        let o = MicroControlObserver {
            names: Vec::new(),
            stats: Vec::new(),
            violations: Vec::new(),
            telemetry_tx,
        };
        assert(o.entries() =~= Seq::<StatsEntry>::empty());
        assert(o.violation_list() =~= Seq::<ViolationView>::empty());
        o
    }

    /// Position of the counters of `component`, if it was seen.
    fn find(&self, component: &String) -> (r: Option<usize>)
        requires
            self.wf(),
        ensures
            match r {
                Some(i) => i < self.names@.len() && entry_index(self.entries(), component@)
                    == Some(i as int),
                None => entry_index(self.entries(), component@) is None,
            },
    {
        let ghost e = self.entries();
        let mut i: usize = 0;
        while i < self.names.len()
            invariant
                self.wf(),
                e == self.entries(),
                i <= self.names@.len(),
                forall|j: int| 0 <= j < i ==> (#[trigger] e[j]).0 != component@,
            decreases self.names@.len() - i,
        {
            if self.names[i] == *component {
                assert(e[i as int].0 == component@);
                assert(entry_index(e, component@) == Some(i as int));
                return Some(i);
            }
            i = i + 1;
        }
        None
    }

    /// Set the counters of `component` to `s`, adding it if it is new.
    fn put_stats(&mut self, component: String, at: Option<usize>, s: ComponentStats)
        requires
            old(self).wf(),
            match at {
                Some(i) => i < old(self).names@.len() && entry_index(old(self).entries(), component@)
                    == Some(i as int),
                None => entry_index(old(self).entries(), component@) is None,
            },
        ensures
            final(self).wf(),
            final(self).entries() == with_stats(old(self).entries(), component@, s),
            final(self).violations@ == old(self).violations@,
    {
        let ghost e = self.entries();
        let ghost c = component@;
        match at {
            Some(i) => {
                self.stats.set(i, s);
                assert(self.entries() =~= e.update(i as int, (c, s)));
            },
            None => {
                self.names.push(component);
                self.stats.push(s);
                assert(self.entries() =~= e.push((c, s)));
            },
        }
    }

    /// Record that `component` took `actual_ns` where `expected_ns` was
    /// allowed, at `timestamp`, applying the value with bits `value_bits`:
    /// the violation is kept, the component's violation count rises, and the
    /// violation is sent as telemetry (`Telemetry::violation` with the same
    /// fields; a failed send is ignored).
    pub fn record_violation(
        &mut self,
        component: &str,
        expected_ns: u64,
        actual_ns: u64,
        timestamp: u64,
        value_bits: Option<u32>,
    )
        requires
            old(self).wf(),
            current_stats(old(self).entries(), component@).can_violate(),
        ensures
            final(self).wf(),
            final(self).violation_list() == old(self).violation_list().push(
                ViolationView { component: component@, expected_ns, actual_ns, timestamp, value_bits },
            ),
            final(self).entries() == with_stats(
                old(self).entries(),
                component@,
                current_stats(old(self).entries(), component@).violated(),
            ),
            stats_of(final(self).entries(), component@) matches Some(n) && n.violations
                == current_stats(old(self).entries(), component@).violations + 1 && n.operations
                == current_stats(old(self).entries(), component@).operations && n.total_time_ns
                == current_stats(old(self).entries(), component@).total_time_ns && n.max_time_ns
                == current_stats(old(self).entries(), component@).max_time_ns,
            forall|d: Seq<char>|
                d != component@ ==> #[trigger] stats_of(final(self).entries(), d) == stats_of(
                    old(self).entries(),
                    d,
                ),
    {
        let name = String::from_str(component);
        let ghost vl = self.violation_list();
        let ghost e = self.entries();
        let at = self.find(&name);
        let cur = match at {
            Some(i) => self.stats[i],
            None => ComponentStats { operations: 0, total_time_ns: 0, max_time_ns: 0, violations: 0 },
        };
        let next = ComponentStats { violations: cur.violations + 1, ..cur };
        let record = Violation {
            component: name.clone(),
            expected_ns,
            actual_ns,
            timestamp,
            value_bits,
        };
        self.put_stats(name, at, next);
        self.violations.push(record);
        let message = Telemetry::violation(component, expected_ns, actual_ns, value_bits, timestamp);
        let _ = channel_send(&self.telemetry_tx, message);
        assert(self.violation_list() =~= vl.push(
            ViolationView { component: component@, expected_ns, actual_ns, timestamp, value_bits },
        ));
        proof {
            let cs = current_stats(e, component@);
            law_violation_changes_only_its_count(cs);
            law_stats_read_back(e, component@, cs.violated(), component@);
            assert forall|d: Seq<char>| d != component@ implies #[trigger] stats_of(self.entries(), d)
                == stats_of(e, d) by {
                law_stats_read_back(e, component@, cs.violated(), d);
            }
        }
    }

    /// Record that an operation of `component` completed after
    /// `duration_ns`: its operation count, total time and longest time
    /// follow, and a `micro_complete` event from `observer` carrying
    /// `duration_bits` (the duration as an `f32`, by its bits) is sent as
    /// telemetry, stamped `timestamp` (a failed send is ignored).
    pub fn complete_operation(
        &mut self,
        component: &str,
        duration_ns: u64,
        duration_bits: u32,
        timestamp: u64,
    )
        requires
            old(self).wf(),
            current_stats(old(self).entries(), component@).can_complete(duration_ns),
        ensures
            final(self).wf(),
            final(self).violation_list() == old(self).violation_list(),
            final(self).entries() == with_stats(
                old(self).entries(),
                component@,
                current_stats(old(self).entries(), component@).completed(duration_ns),
            ),
            stats_of(final(self).entries(), component@) matches Some(n) && n.operations
                == current_stats(old(self).entries(), component@).operations + 1 && n.total_time_ns
                == current_stats(old(self).entries(), component@).total_time_ns + duration_ns
                && n.max_time_ns >= current_stats(old(self).entries(), component@).max_time_ns
                && n.max_time_ns >= duration_ns && (n.max_time_ns == current_stats(
                old(self).entries(),
                component@,
            ).max_time_ns || n.max_time_ns == duration_ns) && n.violations == current_stats(
                old(self).entries(),
                component@,
            ).violations,
            forall|d: Seq<char>|
                d != component@ ==> #[trigger] stats_of(final(self).entries(), d) == stats_of(
                    old(self).entries(),
                    d,
                ),
    {
        let ghost e = self.entries();
        let name = String::from_str(component);
        let at = self.find(&name);
        let cur = match at {
            Some(i) => self.stats[i],
            None => ComponentStats { operations: 0, total_time_ns: 0, max_time_ns: 0, violations: 0 },
        };
        let next = ComponentStats {
            operations: cur.operations + 1,
            total_time_ns: cur.total_time_ns + duration_ns,
            max_time_ns: if duration_ns > cur.max_time_ns {
                duration_ns
            } else {
                cur.max_time_ns
            },
            violations: cur.violations,
        };
        self.put_stats(name, at, next);
        let message = Telemetry::event("observer", "micro_complete", vec![duration_bits], timestamp);
        let _ = channel_send(&self.telemetry_tx, message);
        proof {
            let cs = current_stats(e, component@);
            law_completion_keeps_longest(cs, duration_ns);
            law_stats_read_back(e, component@, cs.completed(duration_ns), component@);
            assert forall|d: Seq<char>| d != component@ implies #[trigger] stats_of(self.entries(), d)
                == stats_of(e, d) by {
                law_stats_read_back(e, component@, cs.completed(duration_ns), d);
            }
        }
    }

    /// The counters of `component`, if it was seen.
    pub fn component_stats(&self, component: &str) -> (r: Option<ComponentStats>)
        requires
            self.wf(),
        ensures
            r == stats_of(self.entries(), component@),
    {
        let name = String::from_str(component);
        match self.find(&name) {
            Some(i) => Some(self.stats[i]),
            None => None,
        }
    }

    /// Every violation recorded, oldest first.
    pub fn violations(&self) -> (r: Vec<Violation>)
        ensures
            r@.map_values(|v: Violation| v@) == self.violation_list(),
    {
        let mut out: Vec<Violation> = Vec::new();
        let mut i: usize = 0;
        while i < self.violations.len()
            invariant
                i <= self.violations@.len(),
                out@.len() == i,
                forall|j: int| 0 <= j < i ==> (#[trigger] out@[j])@ == self.violations@[j]@,
            decreases self.violations@.len() - i,
        {
            out.push(self.violations[i].copy());
            i = i + 1;
        }
        assert(out@.map_values(|v: Violation| v@) =~= self.violation_list());
        out
    }

    /// The totals over all components: operations, violations, the
    /// components in the order first seen, the longest operation time with
    /// the first component that reached it, and the number of violations
    /// recorded.
    pub fn sandbox_summary(&self) -> (r: SandboxSummary)
        requires
            self.wf(),
            sum_operations(self.entries()) <= u64::MAX,
            sum_violations(self.entries()) <= u64::MAX,
        ensures
            r.total_operations == sum_operations(self.entries()),
            r.total_violations == sum_violations(self.entries()),
            r.components@.map_values(|s: String| s@) == self.entries().map_values(
                |e: StatsEntry| e.0,
            ),
            r.max_time_ns == longest(self.entries()).0,
            name_view(r.max_time_component) == longest(self.entries()).1,
            r.violations_count == self.violation_list().len(),
    {
        let ghost e = self.entries();
        let mut total_operations: u64 = 0;
        let mut total_violations: u64 = 0;
        let mut components: Vec<String> = Vec::new();
        let mut max_time_ns: u64 = 0;
        let mut max_time_component: Option<String> = None;
        let mut i: usize = 0;
        while i < self.names.len()
            invariant
                self.wf(),
                e == self.entries(),
                i <= self.names@.len(),
                sum_operations(e) <= u64::MAX,
                sum_violations(e) <= u64::MAX,
                total_operations == sum_operations(e.take(i as int)),
                total_violations == sum_violations(e.take(i as int)),
                components@.len() == i,
                forall|j: int| 0 <= j < i ==> (#[trigger] components@[j])@ == e[j].0,
                max_time_ns == longest(e.take(i as int)).0,
                name_view(max_time_component) == longest(e.take(i as int)).1,
            decreases self.names@.len() - i,
        {
            let ghost p = e.take(i as int + 1);
            assert(p.drop_last() =~= e.take(i as int));
            assert(p.last() == e[i as int]);
            proof {
                lemma_prefix_sums(e, i as int + 1);
            }
            let s = self.stats[i];
            total_operations = total_operations + s.operations;
            total_violations = total_violations + s.violations;
            components.push(self.names[i].clone());
            if s.max_time_ns > max_time_ns {
                max_time_ns = s.max_time_ns;
                max_time_component = Some(self.names[i].clone());
            }
            i = i + 1;
        }
        assert(e.take(self.names@.len() as int) =~= e);
        assert(components@.map_values(|s: String| s@) =~= e.map_values(|x: StatsEntry| x.0));
        SandboxSummary {
            total_operations,
            total_violations,
            components,
            max_time_ns,
            max_time_component,
            violations_count: self.violations.len(),
        }
    }
}

} // verus!
