use vstd::prelude::*;
use crate::record::{RecordView, BasicPicture, recs_of};

verus! {

/// Entries are ordered by their creation instants, ascending.
pub open spec fn sorted_by_instant(s: Seq<RecordView>) -> bool {
    forall|i: int, j: int| 0 <= i < j < s.len() ==> s[i].timestamp <= s[j].timestamp
}

/// Where an entry lands among earlier entries: after every entry whose
/// instant is not later than its own, so equal instants keep their
/// backend order.
pub open spec fn insert_sorted(x: RecordView, s: Seq<RecordView>) -> Seq<RecordView>
    decreases s.len(),
{
    if s.len() == 0 {
        seq![x]
    } else if s.first().timestamp <= x.timestamp {
        seq![s.first()] + insert_sorted(x, s.drop_first())
    } else {
        seq![x] + s
    }
}

/// The ascending ordering of a sequence of entries: each entry inserted,
/// in backend order, behind the sorted entries before it.
pub open spec fn sort_by_instant(s: Seq<RecordView>) -> Seq<RecordView>
    decreases s.len(),
{
    if s.len() == 0 {
        s
    } else {
        insert_sorted(s.last(), sort_by_instant(s.drop_last()))
    }
}

/// An entry lands exactly at the first position whose entry has a later
/// instant.
proof fn lemma_insert_sorted_at(x: RecordView, s: Seq<RecordView>, j: int)
    requires
        0 <= j <= s.len(),
        forall|k: int| 0 <= k < j ==> s[k].timestamp <= x.timestamp,
        j < s.len() ==> s[j].timestamp > x.timestamp,
    ensures
        insert_sorted(x, s) == s.insert(j, x),
    decreases s.len(),
{
    if j == 0 {
        if s.len() == 0 {
            assert(insert_sorted(x, s) =~= s.insert(0, x));
        } else {
            assert(insert_sorted(x, s) =~= s.insert(0, x));
        }
    } else {
        assert(s.first().timestamp <= x.timestamp);
        lemma_insert_sorted_at(x, s.drop_first(), j - 1);
        assert(seq![s.first()] + s.drop_first().insert(j - 1, x) =~= s.insert(j, x));
    }
}

/// Inserting an entry keeps the others, adds that one, and keeps the
/// sequence ordered.
pub proof fn lemma_insert_sorted_props(x: RecordView, s: Seq<RecordView>)
    requires
        sorted_by_instant(s),
    ensures
        sorted_by_instant(insert_sorted(x, s)),
        insert_sorted(x, s).to_multiset() =~= s.to_multiset().insert(x),
        insert_sorted(x, s).len() == s.len() + 1,
    decreases s.len(),
{
    broadcast use vstd::seq_lib::group_to_multiset_ensures;
    broadcast use vstd::seq_lib::lemma_multiset_commutative;
    broadcast use vstd::multiset::group_multiset_axioms;

    if s.len() == 0 {
        assert(seq![x] =~= Seq::empty().push(x));
        assert(insert_sorted(x, s).to_multiset() =~= s.to_multiset().insert(x));
    } else if s.first().timestamp <= x.timestamp {
        let rest = insert_sorted(x, s.drop_first());
        assert(sorted_by_instant(s.drop_first()));
        lemma_insert_sorted_props(x, s.drop_first());
        assert(seq![s.first()] + s.drop_first() =~= s);
        assert(seq![s.first()] =~= Seq::empty().push(s.first()));
        assert(insert_sorted(x, s).to_multiset() =~= s.to_multiset().insert(x));
        assert forall|i: int, j: int|
            0 <= i < j < insert_sorted(x, s).len() implies insert_sorted(x, s)[i].timestamp
            <= insert_sorted(x, s)[j].timestamp by {
            if i == 0 {
                let e = rest[j - 1];
                assert(rest.to_multiset().count(e) > 0);
                assert(rest.to_multiset().contains(e));
                if e == x {
                    assert(s.first().timestamp <= x.timestamp);
                } else {
                    assert(s.drop_first().to_multiset().insert(x).count(e) > 0);
                    assert(s.drop_first().to_multiset().count(e) > 0);
                    assert(s.drop_first().contains(e));
                    let k = choose|k: int|
                        0 <= k < s.drop_first().len() && s.drop_first()[k] == e;
                    assert(s[0].timestamp <= s[k + 1].timestamp);
                }
            } else {
                assert(rest[i - 1].timestamp <= rest[j - 1].timestamp);
            }
        }
    } else {
        assert(insert_sorted(x, s) =~= seq![x] + s);
        assert(seq![x] =~= Seq::empty().push(x));
        assert(insert_sorted(x, s).to_multiset() =~= s.to_multiset().insert(x));
        assert forall|i: int, j: int|
            0 <= i < j < insert_sorted(x, s).len() implies insert_sorted(x, s)[i].timestamp
            <= insert_sorted(x, s)[j].timestamp by {
            if i == 0 {
                assert(x.timestamp <= s[0].timestamp);
                if j > 1 {
                    assert(s[0].timestamp <= s[j - 1].timestamp);
                }
            }
        }
    }
}

/// Sorting keeps exactly the original entries and orders them by their
/// instants, ascending.
pub proof fn lemma_sort_props(s: Seq<RecordView>)
    ensures
        sorted_by_instant(sort_by_instant(s)),
        sort_by_instant(s).to_multiset() =~= s.to_multiset(),
        sort_by_instant(s).len() == s.len(),
    decreases s.len(),
{
    broadcast use vstd::seq_lib::group_to_multiset_ensures;

    if s.len() > 0 {
        lemma_sort_props(s.drop_last());
        lemma_insert_sorted_props(s.last(), sort_by_instant(s.drop_last()));
        assert(s =~= s.drop_last().push(s.last()));
        assert(s.to_multiset() =~= s.drop_last().to_multiset().insert(s.last()));
    }
}

/// An ordered prefix of an ordered sequence is ordered.
pub proof fn lemma_sorted_take(s: Seq<RecordView>, n: int)
    requires
        sorted_by_instant(s),
        0 <= n <= s.len(),
    ensures
        sorted_by_instant(s.take(n)),
{
}

/// Sorts served entries by their creation instants, ascending, keeping
/// entries with equal instants in their incoming order.
pub fn sort_records(input: Vec<BasicPicture>) -> (r: Vec<BasicPicture>)
    ensures
        recs_of(r@) == sort_by_instant(recs_of(input@)),
        r@.to_multiset() == input@.to_multiset(),
{
    let ghost orig = input@;
    let mut v = input;
    let mut res: Vec<BasicPicture> = Vec::new();
    let ghost mut done: Seq<BasicPicture> = Seq::empty();
    proof {
        assert(done + v@ =~= orig);
        assert(recs_of(res@) =~= sort_by_instant(recs_of(done)));
        broadcast use vstd::seq_lib::group_to_multiset_ensures;
        assert(res@.to_multiset() =~= done.to_multiset());
    }
    while v.len() > 0
        invariant
            done + v@ == orig,
            recs_of(res@) == sort_by_instant(recs_of(done)),
            res@.to_multiset() == done.to_multiset(),
        decreases v@.len(),
    {
        let ghost old_v = v@;
        let x = v.remove(0);
        let ghost old_res = res@;
        let mut j: usize = 0;
        while j < res.len() && res[j].fs_create_time.timestamp <= x.fs_create_time.timestamp
            invariant
                j <= res@.len(),
                forall|k: int|
                    0 <= k < j ==> (#[trigger] res@[k]).fs_create_time.timestamp
                        <= x.fs_create_time.timestamp,
                res@ == old_res,
            decreases res@.len() - j,
        {
            j = j + 1;
        }
        res.insert(j, x);
        proof {
            broadcast use vstd::seq_lib::group_to_multiset_ensures;

            let xs = recs_of(old_res);
            assert(forall|k: int|
                0 <= k < old_res.len() ==> xs[k] == (#[trigger] old_res[k]).rec());
            assert(forall|k: int| 0 <= k < j ==> xs[k].timestamp <= x.rec().timestamp);
            assert(j < old_res.len() ==> xs[j as int].timestamp > x.rec().timestamp);
            lemma_insert_sorted_at(x.rec(), xs, j as int);
            assert(recs_of(res@) =~= xs.insert(j as int, x.rec()));
            assert(recs_of(done.push(x)) =~= recs_of(done).push(x.rec()));
            assert(recs_of(done.push(x)).drop_last() =~= recs_of(done));
            assert(sort_by_instant(recs_of(done.push(x))) == insert_sorted(
                x.rec(),
                sort_by_instant(recs_of(done)),
            ));
            assert(res@.to_multiset() == old_res.to_multiset().insert(x));
            assert(done.push(x).to_multiset() =~= done.to_multiset().insert(x));
            assert(done.push(x) + v@ =~= orig) by {
                assert(old_v == seq![x] + v@) by {
                    assert(old_v.remove(0) == v@);
                    assert(old_v =~= seq![old_v[0]] + old_v.remove(0));
                }
                assert(done + old_v =~= orig);
            }
        }
        proof {
            done = done.push(x);
        }
    }
    proof {
        assert(done =~= orig);
    }
    res
}

} // verus!
