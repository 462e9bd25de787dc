//! Query records and snapshots, and the diff that finds finished queries.
use vstd::prelude::*;

verus! {

/// A point in time: whole seconds since the Unix epoch and the nanoseconds
/// past that second.
#[derive(Clone, Copy, PartialEq, Eq, Structural, Debug, Hash)]
pub struct Timestamp {
    pub secs: i64,
    pub nanos: u32,
}

/// One active database session that has run longer than the threshold.
#[derive(Clone, Debug, Hash)]
pub struct RunningQuery {
    pub query_start: Timestamp,
    pub pid: i32,
    pub application_name: String,
    pub query: String,
}

/// The abstract record of a query: start time, session id, client label and text.
pub type QueryRecord = (Timestamp, i32, Seq<char>, Seq<char>);

impl View for RunningQuery {
    type V = QueryRecord;

    open spec fn view(&self) -> QueryRecord {
        (self.query_start, self.pid, self.application_name@, self.query@)
    }
}

impl PartialEq for RunningQuery {
    /// Two records are the same logical entry iff all four attributes match.
    fn eq(&self, o: &RunningQuery) -> (r: bool) {
        self.same_entry(o)
    }
}

impl Eq for RunningQuery {

}

impl vstd::std_specs::cmp::PartialEqSpecImpl for RunningQuery {
    open spec fn obeys_eq_spec() -> bool {
        true
    }

    open spec fn eq_spec(&self, o: &RunningQuery) -> bool {
        self@ == o@
    }
}

impl RunningQuery {
    /// Builds a record from its four attributes.
    pub fn new(query_start: Timestamp, pid: i32, application_name: String, query: String) -> (r:
        RunningQuery)
        ensures
            r@ == (query_start, pid, application_name@, query@),
    {
        RunningQuery { query_start, pid, application_name, query }
    }

    /// Whether the two records are the same logical entry.
    pub fn same_entry(&self, o: &RunningQuery) -> (r: bool)
        ensures
            r == (self@ == o@),
    {
        self.query_start == o.query_start && self.pid == o.pid
            && self.application_name == o.application_name && self.query == o.query
    }
}

/// The records that a sequence of queries holds.
pub open spec fn record_set(s: Seq<RunningQuery>) -> Set<QueryRecord> {
    Set::new(|r: QueryRecord| exists|i: int| 0 <= i < s.len() && s[i]@ == r)
}

/// No record occurs twice in the sequence.
pub open spec fn distinct_records(s: Seq<RunningQuery>) -> bool {
    forall|i: int, j: int| 0 <= i < j < s.len() ==> s[i]@ != s[j]@
}

/// The queries observed at one poll tick; each record occurs once.
pub struct Snapshot {
    entries: Vec<RunningQuery>,
}

impl View for Snapshot {
    type V = Set<QueryRecord>;

    closed spec fn view(&self) -> Set<QueryRecord> {
        record_set(self.entries@)
    }
}

impl Snapshot {
    /// The snapshot holds no record twice.
    pub closed spec fn wf(&self) -> bool {
        distinct_records(self.entries@)
    }

    /// The empty snapshot, which a poller starts from.
    pub fn new() -> (r: Snapshot)
        ensures
            r.wf(),
            r@ == Set::<QueryRecord>::empty(),
    {
        let r = Snapshot { entries: Vec::new() };
        assert(r@ =~= Set::<QueryRecord>::empty());
        r
    }

    /// Whether the snapshot holds a record equal to `q`.
    pub fn contains(&self, q: &RunningQuery) -> (r: bool)
        ensures
            r == self@.contains(q@),
    {
        let mut i: usize = 0;
        while i < self.entries.len()
            invariant
                i <= self.entries@.len(),
                forall|k: int| 0 <= k < i ==> self.entries@[k]@ != q@,
            decreases self.entries@.len() - i,
        {
            if self.entries[i].same_entry(q) {
                assert(record_set(self.entries@).contains(q@));
                return true;
            }
            i = i + 1;
        }
        false
    }

    /// Collects fetched rows into a snapshot, keeping one of each record.
    pub fn from_rows(rows: Vec<RunningQuery>) -> (r: Snapshot)
        ensures
            r.wf(),
            r@ == record_set(rows@),
    {
        let mut rows = rows;
        let ghost all = record_set(rows@);
        let mut out = Snapshot::new();
        while rows.len() > 0
            invariant
                out.wf(),
                out@ + record_set(rows@) == all,
            decreases rows@.len(),
        {
            let ghost before = rows@;
            let q = rows.pop().unwrap();
            proof {
                assert(before == rows@.push(q));
                assert(record_set(before) =~= record_set(rows@).insert(q@)) by {
                    assert forall|r: QueryRecord| record_set(before).contains(r) implies
                        record_set(rows@).insert(q@).contains(r) by {
                        let i = choose|i: int| 0 <= i < before.len() && before[i]@ == r;
                        if i < rows@.len() {
                            assert(rows@[i] == before[i]);
                        }
                    }
                    assert forall|r: QueryRecord| record_set(rows@).insert(q@).contains(r)
                        implies record_set(before).contains(r) by {
                        if r == q@ {
                            assert(before[before.len() - 1] == q);
                        } else {
                            let i = choose|i: int| 0 <= i < rows@.len() && rows@[i]@ == r;
                            assert(before[i] == rows@[i]);
                        }
                    }
                }
            }
            out.insert(q);
        }
        assert(record_set(rows@) =~= Set::<QueryRecord>::empty());
        assert(out@ =~= all);
        out
    }

    /// Adds `q` unless an equal record is already present.
    pub fn insert(&mut self, q: RunningQuery)
        requires
            old(self).wf(),
        ensures
            final(self).wf(),
            final(self)@ == old(self)@.insert(q@),
    {
        if !self.contains(&q) {
            let ghost before = self.entries@;
            let ghost qv = q@;
            self.entries.push(q);
            proof {
                assert(self.entries@ == before.push(self.entries@.last()));
                assert forall|r: QueryRecord| record_set(self.entries@).contains(r) <==> (
                record_set(before).insert(qv).contains(r)) by {
                    if record_set(before).contains(r) {
                        let i = choose|i: int| 0 <= i < before.len() && before[i]@ == r;
                        assert(self.entries@[i] == before[i]);
                    }
                    if record_set(self.entries@).contains(r) {
                        let i = choose|i: int| 0 <= i < self.entries@.len() && self.entries@[i]@ == r;
                        if i < before.len() {
                            assert(self.entries@[i] == before[i]);
                        }
                    }
                }
                assert(self@ =~= record_set(before).insert(qv));
                assert forall|i: int, j: int| 0 <= i < j < self.entries@.len() implies
                    self.entries@[i]@ != self.entries@[j]@ by {
                    if j == before.len() {
                        assert(self.entries@[i] == before[i]);
                        assert(record_set(before).contains(before[i]@));
                    } else {
                        assert(self.entries@[i] == before[i]);
                        assert(self.entries@[j] == before[j]);
                    }
                }
            }
        } else {
            assert(self@ =~= self@.insert(q@));
        }
    }
    /// Hands out, once each, the records of this snapshot that `curr` no
    /// longer holds: the queries that finished between the two ticks.
    pub fn finished_since(self, curr: &Snapshot) -> (r: Vec<RunningQuery>)
        requires
            self.wf(),
        ensures
            distinct_records(r@),
            record_set(r@) == self@.difference(curr@),
    {
        let ghost orig = self.entries@;
        let mut entries = self.entries;
        let mut out: Vec<RunningQuery> = Vec::new();
        proof {
            assert(record_set(out@) =~= Set::new(
                |r: QueryRecord| exists|j: int| entries@.len() <= j < orig.len() && orig[j]@ == r
                    && !curr@.contains(r),
            ));
        }
        while entries.len() > 0
            invariant
                distinct_records(orig),
                entries@.len() <= orig.len(),
                entries@ == orig.subrange(0, entries@.len() as int),
                distinct_records(out@),
                record_set(out@) == Set::new(
                    |r: QueryRecord| exists|j: int| entries@.len() <= j < orig.len() && orig[j]@ == r
                        && !curr@.contains(r),
                ),
            decreases entries@.len(),
        {
            let ghost n = entries@.len() as int;
            let ghost before = out@;
            let q = entries.pop().unwrap();
            proof {
                assert(q == orig[n - 1]);
            }
            let keep = !curr.contains(&q);
            let ghost qv = q@;
            if keep {
                out.push(q);
            }
            proof {
                let later = Set::new(
                    |r: QueryRecord| exists|j: int| n - 1 <= j < orig.len() && orig[j]@ == r
                        && !curr@.contains(r),
                );
                let earlier = Set::new(
                    |r: QueryRecord| exists|j: int| n <= j < orig.len() && orig[j]@ == r
                        && !curr@.contains(r),
                );
                assert(record_set(before) == earlier);
                assert forall|r: QueryRecord| record_set(out@).contains(r) <==> later.contains(r) by {
                    if record_set(out@).contains(r) {
                        let i = choose|i: int| 0 <= i < out@.len() && out@[i]@ == r;
                        if i < before.len() {
                            assert(out@[i] == before[i]);
                            assert(record_set(before).contains(r));
                            assert(earlier.contains(r));
                            let j = choose|j: int| n <= j < orig.len() && orig[j]@ == r
                                && !curr@.contains(r);
                            assert(later.contains(r));
                        } else {
                            assert(keep && r == qv);
                            assert(orig[n - 1]@ == r);
                            assert(later.contains(r));
                        }
                    }
                    if later.contains(r) {
                        let j = choose|j: int| n - 1 <= j < orig.len() && orig[j]@ == r
                            && !curr@.contains(r);
                        if j == n - 1 {
                            assert(keep);
                            assert(out@[before.len() as int]@ == r);
                        } else {
                            assert(earlier.contains(r));
                            let i = choose|i: int| 0 <= i < before.len() && before[i]@ == r;
                            assert(out@[i] == before[i]);
                        }
                    }
                }
                assert(record_set(out@) =~= later);
                if keep {
                    assert forall|i: int, j: int| 0 <= i < j < out@.len() implies out@[i]@
                        != out@[j]@ by {
                        assert(out@[i] == before[i]);
                        if j < before.len() {
                            assert(out@[j] == before[j]);
                        } else {
                            assert(record_set(before).contains(before[i]@));
                            let k = choose|k: int| n <= k < orig.len() && orig[k]@ == before[i]@
                                && !curr@.contains(before[i]@);
                            assert(orig[n - 1]@ != orig[k]@);
                        }
                    }
                } else {
                    assert(out@ == before);
                }
            }
        }
        proof {
            assert forall|r: QueryRecord| record_set(out@).contains(r) <==> self@.difference(
                curr@,
            ).contains(r) by {
                if record_set(orig).contains(r) {
                    let i = choose|i: int| 0 <= i < orig.len() && orig[i]@ == r;
                }
            }
            assert(record_set(out@) =~= self@.difference(curr@));
        }
        out
    }
}

/// The statement that lists every active session but the caller's own whose
/// query started longer ago than `threshold`, an interval in the database's
/// own syntax that is passed through verbatim.
pub fn active_queries_sql(threshold: &str) -> (r: String)
    ensures
        r@ == "select query_start, pid, application_name, query from pg_stat_activity where state = 'active' and pid <> pg_backend_pid() and query_start < NOW() - INTERVAL '"@
            + threshold@ + "'"@,
{
    let mut out = String::from_str(
        "select query_start, pid, application_name, query from pg_stat_activity where state = 'active' and pid <> pg_backend_pid() and query_start < NOW() - INTERVAL '",
    );
    out.append(threshold);
    out.append("'");
    out
}

} // verus!
