use wiki_dump_analyzer::dump::is_requested;
use wiki_dump_analyzer::{Dump, DumpStore};

fn dump(path: &str) -> Option<Dump> {
    Dump::new(path.to_string())
}

#[test]
fn shard_name_gives_range() {
    let d = dump("/data/dumps/enwiki-20230101-pages-meta-history1.xml-p1p812.7z").unwrap();
    assert_eq!(d.page_id_range(), (1, 812));
    assert_eq!(
        d.path(),
        "/data/dumps/enwiki-20230101-pages-meta-history1.xml-p1p812.7z"
    );
}

#[test]
fn shard_name_without_directory() {
    let d = dump("wiki.xml-p10p20.7z").unwrap();
    assert_eq!(d.page_id_range(), (10, 20));
}

#[test]
fn shard_name_other_extension() {
    let d = dump("wiki.xml-p5p5.bz2").unwrap();
    assert_eq!(d.page_id_range(), (5, 5));
}

#[test]
fn shard_name_signed_bounds() {
    assert_eq!(dump("w.xml-p-3p+4.7z").unwrap().page_id_range(), (-3, 4));
}

#[test]
fn non_shard_names_are_excluded() {
    assert!(dump("foo.txt").is_none());
    assert!(dump("bar.xml-p1.7z").is_none());
    assert!(dump("dir/bar.xml-p1p2").is_none());
    assert!(dump("bar.xml-p1p2.").is_none());
    assert!(dump("bar.xml-pp2.7z").is_none());
    assert!(dump("bar.xml-p1p.7z").is_none());
    assert!(dump("bar.xml-q1p2.7z").is_none());
    assert!(dump("").is_none());
}

#[test]
fn prefix_with_a_dot_is_excluded() {
    assert!(dump("a.b.xml-p1p2.7z").is_none());
}

#[test]
fn directory_dots_do_not_matter() {
    let d = dump("/home/x.y/wiki.xml-p7p9.7z").unwrap();
    assert_eq!(d.page_id_range(), (7, 9));
}

#[test]
fn bounds_that_are_not_integers_are_excluded() {
    assert!(dump("w.xml-pxp2.7z").is_none());
    assert!(dump("w.xml-p1p2x.7z").is_none());
    assert!(dump("w.xml-p1p99999999999999999999.7z").is_none());
    assert!(dump("w.xml-p1p9223372036854775808.7z").is_none());
}

#[test]
fn largest_bound_is_accepted() {
    let d = dump("w.xml-p1p9223372036854775807.7z").unwrap();
    assert_eq!(d.page_id_range(), (1, i64::MAX));
}

#[test]
fn reversed_range_is_excluded() {
    assert!(dump("w.xml-p9p2.7z").is_none());
}

#[test]
fn contains_page_id_checks_both_ends() {
    let d = dump("w.xml-p100p200.7z").unwrap();
    assert!(d.contains_page_id(100));
    assert!(d.contains_page_id(150));
    assert!(d.contains_page_id(200));
    assert!(!d.contains_page_id(99));
    assert!(!d.contains_page_id(201));
}

fn store(paths: &[&str]) -> DumpStore {
    DumpStore::from_paths(
        "/data".to_string(),
        paths.iter().map(|p| p.to_string()).collect(),
    )
}

#[test]
fn store_keeps_only_shards_in_order() {
    let s = store(&[
        "/data/a.xml-p1p10.7z",
        "/data/foo.txt",
        "/data/b.xml-p11p20.7z",
        "/data/bar.xml-p1.7z",
    ]);
    assert_eq!(s.dump_dir(), "/data");
    let ranges: Vec<(i64, i64)> = s.dumps().iter().map(|d| d.page_id_range()).collect();
    assert_eq!(ranges, vec![(1, 10), (11, 20)]);
}

#[test]
fn store_without_shards_is_empty() {
    let s = store(&["/data/foo.txt", "/data/bar.xml-p1.7z"]);
    assert!(s.dumps().is_empty());
    assert!(store(&[]).dumps().is_empty());
}

#[test]
fn lookup_plan_for_one_id() {
    let s = store(&[
        "/data/a.xml-p1p10.7z",
        "/data/b.xml-p11p20.7z",
        "/data/c.xml-p21p30.7z",
    ]);
    assert_eq!(s.dumps_for_page_id(15), vec![1]);
    assert_eq!(s.dumps_for_page_id(10), vec![0]);
    assert!(s.dumps_for_page_id(31).is_empty());
    assert!(s.dumps_for_page_id(0).is_empty());
}

#[test]
fn lookup_plan_with_overlapping_ranges() {
    let s = store(&["/data/a.xml-p1p10.7z", "/data/b.xml-p5p20.7z"]);
    assert_eq!(s.dumps_for_page_id(7), vec![0, 1]);
}

#[test]
fn lookup_plan_for_several_ids() {
    let s = store(&[
        "/data/a.xml-p1p10.7z",
        "/data/b.xml-p11p20.7z",
        "/data/c.xml-p21p30.7z",
    ]);
    assert_eq!(s.dumps_for_page_ids(&vec![25, 3]), vec![0, 2]);
    assert!(s.dumps_for_page_ids(&vec![]).is_empty());
    assert!(s.dumps_for_page_ids(&vec![40, -1]).is_empty());
}

#[test]
fn requested_ids() {
    assert!(is_requested(&vec![3, 5], 5));
    assert!(!is_requested(&vec![3, 5], 4));
    assert!(!is_requested(&vec![], 4));
}
