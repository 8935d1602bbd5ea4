use vstd::prelude::*;

use crate::revision::{ts_le, Revision, RevisionView};

verus! {

/// Places `x` after every revision of `s` that is no later than it, and before the
/// later ones that end `s`.
pub open spec fn insert_by_time(s: Seq<RevisionView>, x: RevisionView) -> Seq<RevisionView>
    decreases s.len(),
{
    if s.len() == 0 {
        seq![x]
    } else if ts_le(s.last().timestamp, x.timestamp) {
        s.push(x)
    } else {
        insert_by_time(s.drop_last(), x).push(s.last())
    }
}

/// The revisions ordered by timestamp, those with equal timestamps in their
/// order in `s`.
pub open spec fn sort_by_time(s: Seq<RevisionView>) -> Seq<RevisionView>
    decreases s.len(),
{
    if s.len() == 0 {
        s
    } else {
        insert_by_time(sort_by_time(s.drop_last()), s.last())
    }
}

pub open spec fn sorted_by_time(s: Seq<RevisionView>) -> bool {
    forall|i: int, j: int| 0 <= i < j < s.len() ==> ts_le(s[i].timestamp, s[j].timestamp)
}

pub open spec fn views(v: Seq<Revision>) -> Seq<RevisionView> {
    v.map_values(|r: Revision| r@)
}

/// Inserting into a sorted sequence keeps it sorted, and adds `x` to its contents.
pub proof fn lemma_insert_by_time(s: Seq<RevisionView>, x: RevisionView)
    requires
        sorted_by_time(s),
    ensures
        sorted_by_time(insert_by_time(s, x)),
        insert_by_time(s, x).to_multiset() == s.to_multiset().insert(x),
        insert_by_time(s, x).len() == s.len() + 1,
    decreases s.len(),
{
    broadcast use vstd::seq_lib::group_seq_properties;
    if s.len() == 0 {
        assert(seq![x] =~= Seq::<RevisionView>::empty().push(x));
    } else if ts_le(s.last().timestamp, x.timestamp) {
        let u = s.push(x);
        assert forall|i: int, j: int| 0 <= i < j < u.len() implies ts_le(
            u[i].timestamp,
            u[j].timestamp,
        ) by {
            if j == u.len() - 1 && i < s.len() - 1 {
                assert(ts_le(s[i].timestamp, s[s.len() - 1].timestamp));
            }
        }
    } else {
        let t = s.drop_last();
        assert(sorted_by_time(t));
        lemma_insert_by_time(t, x);
        let u = insert_by_time(t, x);
        assert(s =~= t.push(s.last()));
        assert forall|k: int| 0 <= k < u.len() implies ts_le(
            #[trigger] u[k].timestamp,
            s.last().timestamp,
        ) by {
            assert(u.to_multiset().count(u[k]) > 0);
            if u[k] != x {
                assert(t.to_multiset().count(u[k]) > 0);
                assert(t.contains(u[k]));
                let m = choose|m: int| 0 <= m < t.len() && t[m] == u[k];
                assert(ts_le(s[m].timestamp, s[s.len() - 1].timestamp));
            }
        }
        let w = u.push(s.last());
        assert forall|i: int, j: int| 0 <= i < j < w.len() implies ts_le(
            w[i].timestamp,
            w[j].timestamp,
        ) by {
            if j == w.len() - 1 {
                assert(ts_le(u[i].timestamp, s.last().timestamp));
            } else {
                assert(ts_le(u[i].timestamp, u[j].timestamp));
            }
        }
    }
}

/// Sorting by time gives a sequence that is ordered by timestamp and holds the
/// same revisions.
pub proof fn lemma_sort_by_time(s: Seq<RevisionView>)
    ensures
        sorted_by_time(sort_by_time(s)),
        sort_by_time(s).to_multiset() == s.to_multiset(),
        sort_by_time(s).len() == s.len(),
    decreases s.len(),
{
    broadcast use vstd::seq_lib::group_seq_properties;
    if s.len() > 0 {
        lemma_sort_by_time(s.drop_last());
        lemma_insert_by_time(sort_by_time(s.drop_last()), s.last());
        assert(s =~= s.drop_last().push(s.last()));
    }
}

proof fn lemma_insert_at(s: Seq<RevisionView>, x: RevisionView, j: int)
    requires
        0 <= j <= s.len(),
        j == 0 || ts_le(s[j - 1].timestamp, x.timestamp),
        forall|k: int| j <= k < s.len() ==> !ts_le(#[trigger] s[k].timestamp, x.timestamp),
    ensures
        insert_by_time(s, x) == s.take(j).push(x) + s.skip(j),
    decreases s.len(),
{
    if s.len() == 0 {
        assert(s.take(j).push(x) + s.skip(j) =~= seq![x]);
    } else if j == s.len() {
        assert(s.take(j).push(x) + s.skip(j) =~= s.push(x));
    } else {
        let t = s.drop_last();
        assert(!ts_le(s[s.len() - 1].timestamp, x.timestamp));
        lemma_insert_at(t, x, j);
        assert(t.take(j).push(x) + t.skip(j) + seq![s.last()] =~= s.take(j).push(x) + s.skip(j));
        assert((t.take(j).push(x) + t.skip(j)).push(s.last()) =~= t.take(j).push(x) + t.skip(j)
            + seq![s.last()]);
    }
}

fn insert_revision(v: &mut Vec<Revision>, x: Revision)
    ensures
        views(final(v)@) == insert_by_time(views(old(v)@), x@),
{
    let ghost s = views(v@);
    let mut j = v.len();
    let tx = *x.timestamp();
    while j > 0 && !v[j - 1].timestamp().no_later_than(&tx)
        invariant
            j <= v@.len(),
            tx == x@.timestamp,
            s == views(v@),
            forall|k: int| j <= k < s.len() ==> !ts_le(#[trigger] s[k].timestamp, x@.timestamp),
        decreases j,
    {
        assert(v@[j - 1]@ == s[j - 1]);
        j = j - 1;
    }
    if j > 0 {
        assert(v@[j - 1]@ == s[j - 1]);
    }
    proof {
        lemma_insert_at(s, x@, j as int);
    }
    v.insert(j, x);
    assert(views(v@) =~= s.take(j as int).push(x@) + s.skip(j as int));
}

/// Orders revisions by timestamp; those with equal timestamps keep their order.
pub fn sort_revisions(revisions: Vec<Revision>) -> (r: Vec<Revision>)
    ensures
        views(r@) == sort_by_time(views(revisions@)),
{
    let ghost s = views(revisions@);
    let ghost n = s.len();
    let mut rest = revisions;
    let mut stack: Vec<Revision> = Vec::new();
    while rest.len() > 0
        invariant
            n == s.len(),
            views(rest@) == s.take(rest@.len() as int),
            rest@.len() + stack@.len() == n,
            forall|k: int| 0 <= k < stack@.len() ==> #[trigger] stack@[k]@ == s[n - 1 - k],
        decreases rest@.len(),
    {
        let ghost m = rest@.len();
        match rest.pop() {
            Some(x) => {
                assert(x@ == s.take(m as int)[m - 1]);
                stack.push(x);
                assert(views(rest@) =~= s.take(rest@.len() as int));
            },
            None => {},
        }
    }
    let mut out: Vec<Revision> = Vec::new();
    while stack.len() > 0
        invariant
            n == s.len(),
            stack@.len() <= n,
            forall|k: int| 0 <= k < stack@.len() ==> #[trigger] stack@[k]@ == s[n - 1 - k],
            views(out@) == sort_by_time(s.take(n - stack@.len())),
        decreases stack@.len(),
    {
        let ghost m = n - stack@.len();
        match stack.pop() {
            Some(x) => {
                assert(x@ == s[m]);
                assert(s.take(m + 1).drop_last() =~= s.take(m));
                insert_revision(&mut out, x);
            },
            None => {},
        }
    }
    assert(s.take(n as int) =~= s);
    out
}

/// A page of the wiki, with its revisions in order of time.
pub struct Page {
    pub(crate) id: i64,
    pub(crate) namespace: i64,
    pub(crate) title: String,
    pub(crate) revisions: Vec<Revision>,
}

pub struct PageView {
    pub id: i64,
    pub namespace: i64,
    pub title: Seq<char>,
    pub revisions: Seq<RevisionView>,
}

impl View for Page {
    type V = PageView;

    closed spec fn view(&self) -> PageView {
        PageView {
            id: self.id,
            namespace: self.namespace,
            title: self.title@,
            revisions: views(self.revisions@),
        }
    }
}

impl Page {
    pub(crate) fn assemble(id: i64, namespace: i64, title: String, revisions: Vec<Revision>) -> (r:
        Page)
        ensures
            r@ == (PageView { id, namespace, title: title@, revisions: views(revisions@) }),
    {
        Page { id, namespace, title, revisions }
    }

    /// Page id.
    pub fn id(&self) -> (r: i64)
        ensures
            r == self@.id,
    {
        self.id
    }

    /// Namespace of the page (on Wikipedia 0 is articles, 1 talk pages, 2 user pages).
    pub fn namespace(&self) -> (r: i64)
        ensures
            r == self@.namespace,
    {
        self.namespace
    }

    /// Page title.
    pub fn title(&self) -> (r: &String)
        ensures
            r@ == self@.title,
    {
        &self.title
    }

    /// The revisions of the page, ordered by timestamp.
    pub fn revisions(&self) -> (r: &Vec<Revision>)
        ensures
            views(r@) == self@.revisions,
    {
        &self.revisions
    }
}

} // verus!
