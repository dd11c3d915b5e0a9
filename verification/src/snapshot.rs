//! The snapshot record: one point-in-time filesystem state entry as the
//! external backend reports it. The numeric id is the sole stable identity
//! used for destructive operations; every other field is display-only.

use vstd::prelude::*;

verus! {

/// One backend snapshot. A full set of these is (re)created by a successful
/// backend fetch and wholesale-replaces the previous set.
#[derive(Clone, Debug, PartialEq, Eq)]
pub struct Snapshot {
    /// Name of the backend configuration the record came from.
    pub config: String,
    /// Subvolume path the snapshot belongs to.
    pub subvolume: String,
    /// Numeric id, unique within a configuration; the identity used for
    /// delete, rollback and status operations.
    pub number: u32,
    /// Type tag reported by the backend (single/pre/post).
    pub snapshot_type: String,
    /// Id of the paired "pre" snapshot, when this is a "post" snapshot.
    pub pre_number: Option<u32>,
    /// Id of the paired "post" snapshot, when this is a "pre" snapshot.
    pub post_number: Option<u32>,
    /// Timestamp string as reported by the backend.
    pub date: String,
    /// User the snapshot was created by.
    pub user: String,
    /// Cleanup-algorithm tag, when one is set.
    pub cleanup: Option<String>,
    /// Free-text description.
    pub description: String,
    /// User metadata key/value pairs; insertion order carries no meaning.
    pub userdata: Option<Vec<(String, String)>>,
    /// Used-space byte count, when the backend reports one.
    pub used_space: Option<u64>,
    /// Whether this is the default snapshot.
    pub default: bool,
    /// Whether this snapshot is the active one.
    pub active: bool,
}

impl Snapshot {
    /// First id of the range a status report is requested over: the paired
    /// "pre" id when one is recorded, otherwise a best-effort range start
    /// one below the snapshot's own id (saturating at zero).
    pub open spec fn spec_status_range_start(self) -> u32 {
        match self.pre_number {
            Some(p) => p,
            None => if self.number > 0 {
                (self.number - 1) as u32
            } else {
                0u32
            },
        }
    }

    /// The id range `(start, end)` that a backend status call for this
    /// snapshot is made over.
    pub fn status_range(&self) -> (r: (u32, u32))
        ensures
            r.0 == self.spec_status_range_start(),
            r.1 == self.number,
    {
        let start = match self.pre_number {
            Some(p) => p,
            None => if self.number > 0 {
                self.number - 1
            } else {
                0
            },
        };
        (start, self.number)
    }
}

/// `(name, record)` pairs for one configuration's records.
pub open spec fn group_pairs(name: Seq<char>, snaps: Seq<Snapshot>) -> Seq<(Seq<char>, Snapshot)> {
    snaps.map_values(|s: Snapshot| (name, s))
}

/// The per-configuration groups flattened in order: each record paired
/// with the name of the configuration it belongs to.
pub open spec fn tagged_pairs(groups: Seq<(String, Vec<Snapshot>)>) -> Seq<(Seq<char>, Snapshot)>
    decreases groups.len(),
{
    if groups.len() == 0 {
        Seq::empty()
    } else {
        tagged_pairs(groups.drop_last()) + group_pairs(groups.last().0@, groups.last().1@)
    }
}

/// `t` is `s` with its configuration field set to `name` and every other
/// field kept.
pub open spec fn tagged_as(t: Snapshot, name: Seq<char>, s: Snapshot) -> bool {
    &&& t.config@ == name
    &&& t.subvolume == s.subvolume
    &&& t.number == s.number
    &&& t.snapshot_type == s.snapshot_type
    &&& t.pre_number == s.pre_number
    &&& t.post_number == s.post_number
    &&& t.date == s.date
    &&& t.user == s.user
    &&& t.cleanup == s.cleanup
    &&& t.description == s.description
    &&& t.userdata == s.userdata
    &&& t.used_space == s.used_space
    &&& t.default == s.default
    &&& t.active == s.active
}

proof fn lemma_tagged_pairs_step(groups: Seq<(String, Vec<Snapshot>)>, i: int)
    requires
        0 <= i < groups.len(),
    ensures
        tagged_pairs(groups.take(i + 1)) == tagged_pairs(groups.take(i)) + group_pairs(
            groups[i].0@,
            groups[i].1@,
        ),
{
    assert(groups.take(i + 1).drop_last() =~= groups.take(i));
    assert(groups.take(i + 1).last() == groups[i]);
}

/// Flattens the per-configuration groups a fetch returns into one list,
/// tagging each record with the name of the configuration it came from,
/// keeping the groups' order and each group's own order.
pub fn tag_with_configs(groups: Vec<(String, Vec<Snapshot>)>) -> (r: Vec<Snapshot>)
    ensures
        r@.len() == tagged_pairs(groups@).len(),
        forall|i: int|
            0 <= i < r@.len() ==> tagged_as(
                #[trigger] r@[i],
                tagged_pairs(groups@)[i].0,
                tagged_pairs(groups@)[i].1,
            ),
{
    let ghost all = groups@;
    let mut out: Vec<Snapshot> = Vec::new();
    let mut rem = groups;
    let ghost mut done: int = 0;
    while rem.len() > 0
        invariant
            0 <= done <= all.len(),
            rem@ == all.skip(done),
            out@.len() == tagged_pairs(all.take(done)).len(),
            forall|i: int|
                0 <= i < out@.len() ==> tagged_as(
                    #[trigger] out@[i],
                    tagged_pairs(all.take(done))[i].0,
                    tagged_pairs(all.take(done))[i].1,
                ),
        decreases rem@.len(),
    {
        let (name, mut snaps) = rem.remove(0);
        proof {
            assert(all.skip(done)[0] == all[done]);
            assert(rem@ =~= all.skip(done + 1));
            lemma_tagged_pairs_step(all, done);
        }
        let ghost pre_len = out@.len();
        let ghost group = snaps@;
        let ghost mut taken: int = 0;
        while snaps.len() > 0
            invariant
                0 <= taken <= group.len(),
                snaps@ == group.skip(taken),
                name@ == all[done].0@,
                group == all[done].1@,
                0 <= done < all.len(),
                pre_len == tagged_pairs(all.take(done)).len(),
                out@.len() == pre_len + taken,
                forall|i: int|
                    0 <= i < pre_len ==> tagged_as(
                        #[trigger] out@[i],
                        tagged_pairs(all.take(done))[i].0,
                        tagged_pairs(all.take(done))[i].1,
                    ),
                forall|i: int|
                    pre_len <= i < out@.len() ==> tagged_as(
                        #[trigger] out@[i],
                        name@,
                        group[i - pre_len],
                    ),
            decreases snaps@.len(),
        {
            let s = snaps.remove(0);
            proof {
                assert(group.skip(taken)[0] == group[taken]);
                assert(snaps@ =~= group.skip(taken + 1));
            }
            let tagged = Snapshot { config: name.clone(), ..s };
            out.push(tagged);
            proof {
                taken = taken + 1;
            }
        }
        proof {
            assert(group.skip(group.len() as int) =~= Seq::<Snapshot>::empty());
            assert(taken == group.len());
            let next = tagged_pairs(all.take(done + 1));
            let prev = tagged_pairs(all.take(done));
            assert(next == prev + group_pairs(all[done].0@, group));
            assert(out@.len() == next.len());
            assert forall|i: int| 0 <= i < out@.len() implies tagged_as(
                #[trigger] out@[i],
                next[i].0,
                next[i].1,
            ) by {
                if i < pre_len {
                    assert(next[i] == prev[i]);
                } else {
                    assert(next[i] == group_pairs(all[done].0@, group)[i - pre_len]);
                    assert(group_pairs(all[done].0@, group)[i - pre_len] == (
                        all[done].0@,
                        group[i - pre_len],
                    ));
                }
            }
            done = done + 1;
        }
    }
    proof {
        assert(all.skip(done) =~= rem@);
        assert(done == all.len());
        assert(all.take(done) =~= all);
    }
    out
}

/// How many of a run of per-id outcomes succeeded.
pub open spec fn count_true(s: Seq<bool>) -> int
    decreases s.len(),
{
    if s.len() == 0 {
        0
    } else {
        count_true(s.drop_last()) + if s.last() {
            1int
        } else {
            0int
        }
    }
}

proof fn lemma_count_true_bound(s: Seq<bool>)
    ensures
        0 <= count_true(s) <= s.len(),
    decreases s.len(),
{
    if s.len() > 0 {
        lemma_count_true_bound(s.drop_last());
    }
}

/// Aggregates the per-id outcomes of a bulk delete into the success and
/// failure counts the caller reports.
pub fn delete_outcome_counts(results: &Vec<bool>) -> (r: (usize, usize))
    ensures
        r.0 == count_true(results@),
        r.1 == results@.len() - count_true(results@),
{
    let mut ok: usize = 0;
    let mut i: usize = 0;
    while i < results.len()
        invariant
            0 <= i <= results@.len(),
            ok == count_true(results@.take(i as int)),
            ok <= i,
        decreases results@.len() - i,
    {
        proof {
            assert(results@.take(i as int + 1).drop_last() =~= results@.take(i as int));
        }
        if results[i] {
            ok = ok + 1;
        }
        i = i + 1;
    }
    proof {
        assert(results@.take(results@.len() as int) =~= results@);
        lemma_count_true_bound(results@);
    }
    (ok, results.len() - ok)
}

} // verus!
