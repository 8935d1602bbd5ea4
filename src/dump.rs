use vstd::prelude::*;
use vstd::string::StrSliceExecFns;

use crate::page::{Page, PageView};
use crate::text::{parse_i64, parse_i64_range};

verus! {

/// The first index at or after `from` where `s` holds `c`, or `s.len()` if there is none.
pub open spec fn index_of(s: Seq<char>, c: char, from: int) -> int
    decreases s.len() - from,
{
    if from < 0 || from >= s.len() {
        s.len() as int
    } else if s[from] == c {
        from
    } else {
        index_of(s, c, from + 1)
    }
}

/// The last index before `end` where `s` holds `c`, or `-1` if there is none.
pub open spec fn last_index_of(s: Seq<char>, c: char, end: int) -> int
    decreases end,
{
    if end <= 0 || end > s.len() {
        -1
    } else if s[end - 1] == c {
        end - 1
    } else {
        last_index_of(s, c, end - 1)
    }
}

/// Where the file name of a path starts: just after its last `/`.
pub open spec fn file_name_start(p: Seq<char>) -> int {
    last_index_of(p, '/', p.len() as int) + 1
}

/// The two bounds of a shard file name, as text.
///
/// A shard file name reads `<prefix>.xml-p<min>p<max>.<ext>`: the prefix holds no
/// `.`, `<min>` is not empty and holds no `p`, `<max>` is not empty and holds no
/// `.`, and `<ext>` is not empty. The positions are those in the whole path `p`,
/// whose file name starts at `file_name_start(p)`.
pub open spec fn shard_bounds(p: Seq<char>) -> Option<(Seq<char>, Seq<char>)> {
    let dot = index_of(p, '.', file_name_start(p));
    let lo = dot + 6;
    let sep = index_of(p, 'p', lo);
    let dot2 = index_of(p, '.', sep + 1);
    if lo <= p.len() && p[dot + 1] == 'x' && p[dot + 2] == 'm' && p[dot + 3] == 'l' && p[dot + 4]
        == '-' && p[dot + 5] == 'p' && lo < sep && sep + 1 < dot2 && dot2 + 1 < p.len() {
        Some((p.subrange(lo, sep), p.subrange(sep + 1, dot2)))
    } else {
        None
    }
}

/// The page id range that a path names, if its file name is a shard name whose
/// bounds read as integers with `min <= max`.
pub open spec fn shard_range(p: Seq<char>) -> Option<(i64, i64)> {
    match shard_bounds(p) {
        Some((a, b)) => match (parse_i64(a), parse_i64(b)) {
            (Some(lo), Some(hi)) => if lo <= hi {
                Some((lo, hi))
            } else {
                None
            },
            _ => None,
        },
        None => None,
    }
}

pub open spec fn range_contains(range: (i64, i64), page_id: i64) -> bool {
    range.0 <= page_id && page_id <= range.1
}

proof fn lemma_index_of_bounds(s: Seq<char>, c: char, from: int)
    requires
        0 <= from <= s.len(),
    ensures
        from <= index_of(s, c, from) <= s.len(),
    decreases s.len() - from,
{
    if from < s.len() && s[from] != c {
        lemma_index_of_bounds(s, c, from + 1);
    }
}

proof fn lemma_last_index_of_bounds(s: Seq<char>, c: char, end: int)
    requires
        0 <= end <= s.len(),
    ensures
        -1 <= last_index_of(s, c, end) < end,
    decreases end,
{
    if end > 0 && s[end - 1] != c {
        lemma_last_index_of_bounds(s, c, end - 1);
    }
}

fn find_char(s: &str, n: usize, c: char, from: usize) -> (r: usize)
    requires
        n == s@.len(),
        from <= n,
    ensures
        r == index_of(s@, c, from as int),
{
    let mut i = from;
    while i < n
        invariant
            n == s@.len(),
            from <= i <= n,
            index_of(s@, c, from as int) == index_of(s@, c, i as int),
        decreases n - i,
    {
        if s.get_char(i) == c {
            return i;
        }
        i = i + 1;
    }
    i
}

fn find_last_char(s: &str, n: usize, c: char) -> (r: usize)
    requires
        n == s@.len(),
    ensures
        r == last_index_of(s@, c, n as int) + 1,
{
    let mut end = n;
    while end > 0
        invariant
            n == s@.len(),
            end <= n,
            last_index_of(s@, c, n as int) == last_index_of(s@, c, end as int),
        decreases end,
    {
        if s.get_char(end - 1) == c {
            return end;
        }
        end = end - 1;
    }
    0
}

/// One archive file of a dump, which claims a contiguous range of page ids.
pub struct Dump {
    path: String,
    page_id_range: (i64, i64),
}

pub struct DumpView {
    pub path: Seq<char>,
    pub range: (i64, i64),
}

impl View for Dump {
    type V = DumpView;

    closed spec fn view(&self) -> DumpView {
        DumpView { path: self.path@, range: self.page_id_range }
    }
}

impl Dump {
    /// A dump for the archive at `path`, if its file name is a shard name.
    pub fn new(path: String) -> (r: Option<Dump>)
        ensures
            match shard_range(path@) {
                Some(range) => r is Some && r->0@ == (DumpView { path: path@, range }),
                None => r is None,
            },
    {
        let n = path.unicode_len();
        let s = path.as_str();
        let base = find_last_char(s, n, '/');
        proof {
            lemma_last_index_of_bounds(s@, '/', n as int);
        }
        let dot = find_char(s, n, '.', base);
        if n < 6 || dot > n - 6 {
            return None;
        }
        let lo = dot + 6;
        if !(s.get_char(dot + 1) == 'x' && s.get_char(dot + 2) == 'm' && s.get_char(dot + 3) == 'l'
            && s.get_char(dot + 4) == '-' && s.get_char(dot + 5) == 'p') {
            return None;
        }
        let sep = find_char(s, n, 'p', lo);
        if sep >= n || sep <= lo {
            return None;
        }
        let dot2 = find_char(s, n, '.', sep + 1);
        proof {
            lemma_index_of_bounds(s@, '.', sep + 1);
        }
        if dot2 <= sep + 1 || dot2 >= n - 1 {
            return None;
        }
        let min_id = parse_i64_range(s, lo, sep);
        let max_id = parse_i64_range(s, sep + 1, dot2);
        match (min_id, max_id) {
            (Some(a), Some(b)) => if a <= b {
                Some(Dump { path, page_id_range: (a, b) })
            } else {
                None
            },
            _ => None,
        }
    }

    /// The path of the archive file.
    pub fn path(&self) -> (r: &String)
        ensures
            r@ == self@.path,
    {
        &self.path
    }

    /// The range of page ids that the file name claims, both ends included.
    pub fn page_id_range(&self) -> (r: (i64, i64))
        ensures
            r == self@.range,
    {
        self.page_id_range
    }

    /// Whether the dump claims `page_id`. Only parsing the archive shows whether
    /// the page is really there.
    pub fn contains_page_id(&self, page_id: i64) -> (r: bool)
        ensures
            r == range_contains(self@.range, page_id),
            r == (self@.range.0 <= page_id && page_id <= self@.range.1),
    {
        let (min_id, max_id) = self.page_id_range();
        min_id <= page_id && page_id <= max_id
    }
}

/// The dumps that a list of paths yields: those whose file name is a shard name,
/// in the order of the paths.
pub open spec fn dumps_of(paths: Seq<Seq<char>>) -> Seq<DumpView>
    decreases paths.len(),
{
    if paths.len() == 0 {
        Seq::empty()
    } else {
        let rest = dumps_of(paths.drop_last());
        match shard_range(paths.last()) {
            Some(range) => rest.push(DumpView { path: paths.last(), range }),
            None => rest,
        }
    }
}

/// Whether a dump claims at least one of the page ids.
pub open spec fn claims_any(d: DumpView, page_ids: Seq<i64>) -> bool {
    exists|k: int| 0 <= k < page_ids.len() && range_contains(d.range, #[trigger] page_ids[k])
}

/// The positions, in increasing order, of the dumps that claim one of the page ids.
pub open spec fn candidate_dumps(ds: Seq<DumpView>, page_ids: Seq<i64>) -> Seq<usize>
    decreases ds.len(),
{
    if ds.len() == 0 {
        Seq::empty()
    } else {
        let rest = candidate_dumps(ds.drop_last(), page_ids);
        if claims_any(ds.last(), page_ids) {
            rest.push((ds.len() - 1) as usize)
        } else {
            rest
        }
    }
}

/// The archives of one dump directory.
pub struct DumpStore {
    dump_dir: String,
    dumps: Vec<Dump>,
}

impl DumpStore {
    pub closed spec fn dir_view(&self) -> Seq<char> {
        self.dump_dir@
    }

    pub closed spec fn dump_views(&self) -> Seq<DumpView> {
        self.dumps@.map_values(|d: Dump| d@)
    }

    /// A store over the archives among `paths` (the entries of `dump_dir`) whose
    /// file names are shard names, in the order given. Other paths are left out.
    pub fn from_paths(dump_dir: String, paths: Vec<String>) -> (r: DumpStore)
        ensures
            r.dir_view() == dump_dir@,
            r.dump_views() == dumps_of(paths@.map_values(|p: String| p@)),
    {
        let ghost pv = paths@.map_values(|p: String| p@);
        let mut dumps: Vec<Dump> = Vec::new();
        let mut i: usize = 0;
        while i < paths.len()
            invariant
                i <= paths@.len(),
                pv == paths@.map_values(|p: String| p@),
                dumps@.map_values(|d: Dump| d@) == dumps_of(pv.take(i as int)),
            decreases paths.len() - i,
        {
            let path = paths[i].clone();
            assert(pv.take(i + 1).drop_last() =~= pv.take(i as int));
            assert(pv.take(i + 1).last() == path@);
            match Dump::new(path) {
                Some(d) => {
                    dumps.push(d);
                    assert(dumps@.map_values(|d: Dump| d@) =~= dumps_of(pv.take(i + 1)));
                },
                None => {},
            }
            i = i + 1;
        }
        assert(pv.take(paths@.len() as int) =~= pv);
        DumpStore { dump_dir, dumps }
    }

    /// The directory that holds the archives.
    pub fn dump_dir(&self) -> (r: &String)
        ensures
            r@ == self.dir_view(),
    {
        &self.dump_dir
    }

    /// The dumps of the store.
    pub fn dumps(&self) -> (r: &Vec<Dump>)
        ensures
            r@.map_values(|d: Dump| d@) == self.dump_views(),
    {
        &self.dumps
    }

    /// The positions of the dumps that may hold one of the pages: those whose range
    /// claims one of the ids. Only these need to be parsed.
    pub fn dumps_for_page_ids(&self, page_ids: &Vec<i64>) -> (r: Vec<usize>)
        ensures
            r@ == candidate_dumps(self.dump_views(), page_ids@),
    {
        let ghost ds = self.dump_views();
        let mut r: Vec<usize> = Vec::new();
        let mut i: usize = 0;
        while i < self.dumps.len()
            invariant
                i <= self.dumps@.len(),
                ds == self.dump_views(),
                ds.len() == self.dumps@.len(),
                r@ == candidate_dumps(ds.take(i as int), page_ids@),
            decreases self.dumps.len() - i,
        {
            let d = &self.dumps[i];
            assert(ds.take(i + 1).drop_last() =~= ds.take(i as int));
            assert(ds.take(i + 1).last() == d@);
            let mut claimed = false;
            let mut k: usize = 0;
            while k < page_ids.len()
                invariant
                    k <= page_ids@.len(),
                    claimed == exists|j: int| 0 <= j < k && range_contains(d@.range, #[trigger] page_ids@[j]),
                decreases page_ids.len() - k,
            {
                if d.contains_page_id(page_ids[k]) {
                    claimed = true;
                }
                k = k + 1;
            }
            if claimed {
                r.push(i);
            }
            i = i + 1;
        }
        assert(ds.take(self.dumps@.len() as int) =~= ds);
        r
    }

    /// The positions of the dumps whose range claims `page_id`.
    pub fn dumps_for_page_id(&self, page_id: i64) -> (r: Vec<usize>)
        ensures
            r@ == candidate_dumps(self.dump_views(), seq![page_id]),
    {
        let ids = vec![page_id];
        assert(ids@ =~= seq![page_id]);
        self.dumps_for_page_ids(&ids)
    }
}

/// Whether `page_id` is among the requested ids.
pub fn is_requested(page_ids: &Vec<i64>, page_id: i64) -> (r: bool)
    ensures
        r == page_ids@.contains(page_id),
{
    let mut k: usize = 0;
    while k < page_ids.len()
        invariant
            k <= page_ids@.len(),
            forall|j: int| 0 <= j < k ==> page_ids@[j] != page_id,
        decreases page_ids.len() - k,
    {
        if page_ids[k] == page_id {
            return true;
        }
        k = k + 1;
    }
    false
}

/// A page id that no dump claims leaves no dump to parse; one that exactly one
/// dump claims leaves that dump alone.
pub proof fn lemma_lookup_plan(ds: Seq<DumpView>, page_id: i64)
    requires
        ds.len() <= usize::MAX,
    ensures
        (forall|i: int| 0 <= i < ds.len() ==> !range_contains(#[trigger] ds[i].range, page_id))
            ==> candidate_dumps(ds, seq![page_id]) == Seq::<usize>::empty(),
        forall|k: int|
            0 <= k < ds.len() && range_contains(#[trigger] ds[k].range, page_id) && (forall|i: int|
                0 <= i < ds.len() && i != k ==> !range_contains(#[trigger] ds[i].range, page_id))
                ==> candidate_dumps(ds, seq![page_id]) == seq![k as usize],
    decreases ds.len(),
{
    if ds.len() > 0 {
        let ids = seq![page_id];
        let rest = ds.drop_last();
        lemma_lookup_plan(rest, page_id);
        assert(claims_any(ds.last(), ids) == range_contains(ds.last().range, page_id)) by {
            if range_contains(ds.last().range, page_id) {
                assert(range_contains(ds.last().range, ids[0]));
            }
        }
        assert forall|i: int| 0 <= i < rest.len() implies rest[i] == ds[i] by {}
        assert forall|k: int|
            0 <= k < ds.len() && range_contains(#[trigger] ds[k].range, page_id) && (forall|i: int|
                0 <= i < ds.len() && i != k ==> !range_contains(#[trigger] ds[i].range, page_id))
            implies candidate_dumps(ds, seq![page_id]) == seq![k as usize] by {
            if k == ds.len() - 1 {
                assert forall|i: int| 0 <= i < rest.len() implies !range_contains(
                    #[trigger] rest[i].range,
                    page_id,
                ) by {
                    assert(rest[i] == ds[i]);
                }
                assert(candidate_dumps(rest, ids) == Seq::<usize>::empty());
                assert(candidate_dumps(rest, ids).push(k as usize) =~= seq![k as usize]);
            } else {
                assert(rest[k] == ds[k]);
                assert forall|i: int| 0 <= i < rest.len() && i != k implies !range_contains(
                    #[trigger] rest[i].range,
                    page_id,
                ) by {
                    assert(rest[i] == ds[i]);
                }
                assert(!range_contains(ds[ds.len() - 1].range, page_id));
            }
        }
        if forall|i: int| 0 <= i < ds.len() ==> !range_contains(#[trigger] ds[i].range, page_id) {
            assert forall|i: int| 0 <= i < rest.len() implies !range_contains(
                #[trigger] rest[i].range,
                page_id,
            ) by {
                assert(rest[i] == ds[i]);
            }
            assert(!range_contains(ds[ds.len() - 1].range, page_id));
        }
    }
}

/// Only paths whose file name is a shard name become dumps, each with the range
/// that its name gives; a list with no shard name yields no dump, which is no
/// error.
pub proof fn lemma_dumps_of(paths: Seq<Seq<char>>)
    ensures
        forall|k: int|
            0 <= k < dumps_of(paths).len() ==> paths.contains(#[trigger] dumps_of(paths)[k].path)
                && shard_range(dumps_of(paths)[k].path) == Some(dumps_of(paths)[k].range),
        (forall|i: int| 0 <= i < paths.len() ==> shard_range(#[trigger] paths[i]) is None)
            ==> dumps_of(paths) == Seq::<DumpView>::empty(),
    decreases paths.len(),
{
    if paths.len() > 0 {
        let rest = paths.drop_last();
        lemma_dumps_of(rest);
        assert forall|k: int| 0 <= k < dumps_of(rest).len() implies paths.contains(
            #[trigger] dumps_of(rest)[k].path,
        ) by {
            let i = choose|i: int| 0 <= i < rest.len() && rest[i] == dumps_of(rest)[k].path;
            assert(paths[i] == rest[i]);
        }
        assert(paths[paths.len() - 1] == paths.last());
        if forall|i: int| 0 <= i < paths.len() ==> shard_range(#[trigger] paths[i]) is None {
            assert forall|i: int| 0 <= i < rest.len() implies shard_range(
                #[trigger] rest[i],
            ) is None by {
                assert(rest[i] == paths[i]);
            }
        }
    }
}

/// A search of a store's dumps for pages by id. It names the dumps to read, one
/// after another, and keeps the pages asked for that they yield; a search for the
/// first match stops at it.
pub struct PageSearch {
    page_ids: Vec<i64>,
    plan: Vec<usize>,
    next: usize,
    first_only: bool,
    found: Vec<Page>,
}

pub struct SearchView {
    pub page_ids: Seq<i64>,
    pub plan: Seq<usize>,
    pub next: int,
    pub first_only: bool,
    pub found: Seq<PageView>,
}

/// Whether a search has all that it needs.
pub open spec fn search_satisfied(s: SearchView) -> bool {
    s.first_only && s.found.len() > 0
}

/// The search after it names the next dump to read, and that dump.
pub open spec fn next_spec(s: SearchView) -> (SearchView, Option<usize>) {
    if search_satisfied(s) || s.next >= s.plan.len() {
        (s, None)
    } else {
        (SearchView { next: s.next + 1, ..s }, Some(s.plan[s.next]))
    }
}

/// The search after it is offered page `p`: it keeps a page asked for, unless it
/// has all that it needs.
pub open spec fn offer_spec(s: SearchView, p: PageView) -> SearchView {
    SearchView {
        found: if !search_satisfied(s) && s.page_ids.contains(p.id) {
            s.found.push(p)
        } else {
            s.found
        },
        ..s
    }
}

/// The search after reading a dump that holds `pages`, page by page, for as long
/// as it asks for more.
pub open spec fn read_dump(s: SearchView, pages: Seq<PageView>) -> SearchView
    decreases pages.len(),
{
    if pages.len() == 0 || search_satisfied(s) {
        s
    } else {
        read_dump(offer_spec(s, pages[0]), pages.skip(1))
    }
}

/// The search after at most `n` dumps are read, dump `i` holding `contents[i]`.
pub open spec fn drive(s: SearchView, contents: Seq<Seq<PageView>>, n: nat) -> SearchView
    decreases n,
{
    if n == 0 {
        s
    } else {
        match next_spec(s).1 {
            None => s,
            Some(d) => drive(read_dump(next_spec(s).0, contents[d as int]), contents, (n - 1) as nat),
        }
    }
}

/// The first page of `pages` with id `page_id`.
pub open spec fn first_with_id(pages: Seq<PageView>, page_id: i64) -> Option<PageView>
    decreases pages.len(),
{
    if pages.len() == 0 {
        None
    } else if pages[0].id == page_id {
        Some(pages[0])
    } else {
        first_with_id(pages.skip(1), page_id)
    }
}

proof fn lemma_read_dump_first(s: SearchView, pages: Seq<PageView>, page_id: i64)
    requires
        s.page_ids == seq![page_id],
        s.first_only,
        s.found.len() == 0,
    ensures
        read_dump(s, pages) == (SearchView {
            found: match first_with_id(pages, page_id) {
                Some(p) => seq![p],
                None => Seq::empty(),
            },
            ..s
        }),
    decreases pages.len(),
{
    if pages.len() > 0 {
        let p = pages[0];
        if p.id == page_id {
            assert(s.page_ids[0] == p.id);
            assert(s.found.push(p) =~= seq![p]);
            assert(read_dump(offer_spec(s, p), pages.skip(1)) == offer_spec(s, p));
        } else {
            assert(!s.page_ids.contains(p.id)) by {
                if s.page_ids.contains(p.id) {
                    let j = choose|j: int| 0 <= j < s.page_ids.len() && s.page_ids[j] == p.id;
                    assert(j == 0);
                }
            }
            assert(offer_spec(s, p) == s);
            lemma_read_dump_first(s, pages.skip(1), page_id);
        }
    } else {
        assert(s.found =~= Seq::<PageView>::empty());
    }
}

/// Looking up one page id: when no dump claims the id, the search names no dump
/// to read and finds nothing; when exactly one dump claims it, the search reads
/// that dump alone and finds the first page with that id that the dump holds.
pub proof fn lemma_page_lookup(
    ds: Seq<DumpView>,
    contents: Seq<Seq<PageView>>,
    page_id: i64,
    s: SearchView,
)
    requires
        ds.len() <= usize::MAX,
        contents.len() == ds.len(),
        s == (SearchView {
            page_ids: seq![page_id],
            plan: candidate_dumps(ds, seq![page_id]),
            next: 0,
            first_only: true,
            found: Seq::empty(),
        }),
    ensures
        (forall|i: int| 0 <= i < ds.len() ==> !range_contains(#[trigger] ds[i].range, page_id))
            ==> next_spec(s).1 is None && drive(s, contents, ds.len() as nat).found.len() == 0,
        forall|k: int|
            0 <= k < ds.len() && range_contains(#[trigger] ds[k].range, page_id) && (forall|i: int|
                0 <= i < ds.len() && i != k ==> !range_contains(#[trigger] ds[i].range, page_id))
                ==> drive(s, contents, ds.len() as nat).found == match first_with_id(
                contents[k],
                page_id,
            ) {
                Some(p) => seq![p],
                None => Seq::<PageView>::empty(),
            },
{
    lemma_lookup_plan(ds, page_id);
    if forall|i: int| 0 <= i < ds.len() ==> !range_contains(#[trigger] ds[i].range, page_id) {
        if ds.len() > 0 {
            assert(drive(s, contents, ds.len() as nat) == s);
        }
    }
    assert forall|k: int|
        0 <= k < ds.len() && range_contains(#[trigger] ds[k].range, page_id) && (forall|i: int|
            0 <= i < ds.len() && i != k ==> !range_contains(#[trigger] ds[i].range, page_id))
        implies drive(s, contents, ds.len() as nat).found == match first_with_id(
        contents[k],
        page_id,
    ) {
        Some(p) => seq![p],
        None => Seq::<PageView>::empty(),
    } by {
        assert(s.plan == seq![k as usize]);
        let s1 = next_spec(s).0;
        assert(next_spec(s).1 == Some(k as usize));
        lemma_read_dump_first(s1, contents[k], page_id);
        let s2 = read_dump(s1, contents[k]);
        assert(next_spec(s2).1 is None);
        let n = (ds.len() - 1) as nat;
        if n > 0 {
            assert(drive(s2, contents, n) == s2);
        }
    }
}

impl View for PageSearch {
    type V = SearchView;

    closed spec fn view(&self) -> SearchView {
        SearchView {
            page_ids: self.page_ids@,
            plan: self.plan@,
            next: self.next as int,
            first_only: self.first_only,
            found: self.found@.map_values(|p: Page| p@),
        }
    }
}

impl PageSearch {
    pub closed spec fn wf(&self) -> bool {
        self.next <= self.plan@.len()
    }

    /// The next dump to read, or `None` once the plan is done or the first match
    /// has been found.
    pub fn next_dump(&mut self) -> (r: Option<usize>)
        requires
            old(self).wf(),
        ensures
            final(self).wf(),
            (final(self)@, r) == next_spec(old(self)@),
    {
        if (self.first_only && self.found.len() > 0) || self.next == self.plan.len() {
            None
        } else {
            let d = self.plan[self.next];
            self.next = self.next + 1;
            Some(d)
        }
    }

    /// Takes a page that the dump being read yielded; returns whether to go on
    /// reading that dump.
    pub fn offer(&mut self, page: Page) -> (r: bool)
        requires
            old(self).wf(),
        ensures
            final(self).wf(),
            final(self)@ == offer_spec(old(self)@, page@),
            r == !search_satisfied(final(self)@),
    {
        let ghost before = self.found@.map_values(|p: Page| p@);
        if !(self.first_only && self.found.len() > 0) && is_requested(&self.page_ids, page.id()) {
            self.found.push(page);
            assert(self.found@.map_values(|p: Page| p@) =~= before.push(page@));
        }
        !(self.first_only && self.found.len() > 0)
    }

    /// The pages kept, in the order in which they came.
    pub fn into_pages(self) -> (r: Vec<Page>)
        ensures
            r@.map_values(|p: Page| p@) == self@.found,
    {
        self.found
    }
}

impl DumpStore {
    /// A search for the pages with the given ids, over the dumps that claim one of
    /// them; with `first_only`, for the first such page alone.
    pub fn search(&self, page_ids: Vec<i64>, first_only: bool) -> (r: PageSearch)
        ensures
            r.wf(),
            r@ == (SearchView {
                page_ids: page_ids@,
                plan: candidate_dumps(self.dump_views(), page_ids@),
                next: 0,
                first_only,
                found: Seq::empty(),
            }),
    {
        let plan = self.dumps_for_page_ids(&page_ids);
        let r = PageSearch { page_ids, plan, next: 0, first_only, found: Vec::new() };
        assert(r.found@.map_values(|p: Page| p@) =~= Seq::<PageView>::empty());
        r
    }
}

} // verus!
