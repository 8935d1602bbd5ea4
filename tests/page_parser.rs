use wiki_dump_analyzer::{pages_from_events, Page, PageParser, XmlEvent};

fn start(n: &str) -> XmlEvent {
    XmlEvent::Start(n.to_string())
}

fn end(n: &str) -> XmlEvent {
    XmlEvent::End(n.to_string())
}

fn text(t: &str) -> XmlEvent {
    XmlEvent::Text(t.to_string())
}

fn elem(out: &mut Vec<XmlEvent>, name: &str, value: &str) {
    out.push(start(name));
    out.push(text(value));
    out.push(end(name));
}

fn page_header(out: &mut Vec<XmlEvent>, id: &str, title: &str) {
    out.push(start("page"));
    elem(out, "title", title);
    elem(out, "ns", "0");
    elem(out, "id", id);
}

fn revision(out: &mut Vec<XmlEvent>, id: &str, timestamp: &str) {
    out.push(start("revision"));
    elem(out, "id", id);
    elem(out, "timestamp", timestamp);
    out.push(start("contributor"));
    elem(out, "username", "Someone");
    elem(out, "id", "42");
    out.push(end("contributor"));
    elem(out, "model", "wikitext");
    elem(out, "format", "text/x-wiki");
    elem(out, "text", "body");
    out.push(end("revision"));
}

fn ids(page: &Page) -> Vec<i64> {
    page.revisions().iter().map(|r| r.id()).collect()
}

#[test]
fn two_pages_end_to_end() {
    let mut ev = vec![start("mediawiki"), start("siteinfo")];
    elem(&mut ev, "sitename", "Wiki");
    ev.push(end("siteinfo"));
    page_header(&mut ev, "10", "First");
    revision(&mut ev, "3", "2003-03-01T00:00:00Z");
    revision(&mut ev, "1", "2001-01-15T13:15:00Z");
    revision(&mut ev, "2", "2002-02-25T15:43:11Z");
    ev.push(end("page"));
    page_header(&mut ev, "11", "Second");
    ev.push(end("page"));
    ev.push(end("mediawiki"));
    ev.push(XmlEvent::Eof);
    let pages = pages_from_events(ev);
    assert_eq!(pages.len(), 2);
    assert_eq!(pages[0].id(), 10);
    assert_eq!(pages[0].namespace(), 0);
    assert_eq!(pages[0].title(), "First");
    assert_eq!(ids(&pages[0]), vec![1, 2, 3]);
    let secs: Vec<i64> = pages[0]
        .revisions()
        .iter()
        .map(|r| r.timestamp().seconds)
        .collect();
    assert_eq!(secs, vec![979564500, 1014651791, 1046476800]);
    assert_eq!(pages[1].id(), 11);
    assert_eq!(pages[1].title(), "Second");
    assert!(pages[1].revisions().is_empty());
}

#[test]
fn equal_timestamps_keep_their_order() {
    let mut ev = Vec::new();
    page_header(&mut ev, "1", "T");
    revision(&mut ev, "7", "2002-02-25T15:43:11Z");
    revision(&mut ev, "5", "2001-01-15T13:15:00Z");
    revision(&mut ev, "6", "2002-02-25T15:43:11Z");
    ev.push(end("page"));
    let pages = pages_from_events(ev);
    assert_eq!(ids(&pages[0]), vec![5, 7, 6]);
}

#[test]
fn revision_fields_are_read() {
    let mut ev = Vec::new();
    page_header(&mut ev, "1", "T");
    ev.push(start("revision"));
    elem(&mut ev, "id", "9");
    elem(&mut ev, "parentid", "8");
    elem(&mut ev, "timestamp", "2010-06-01T12:00:00+02:00");
    ev.push(start("contributor"));
    elem(&mut ev, "ip", "10.0.0.1");
    ev.push(end("contributor"));
    elem(&mut ev, "model", "wikitext");
    elem(&mut ev, "format", "text/x-wiki");
    elem(&mut ev, "text", "Hello & bye");
    ev.push(end("revision"));
    ev.push(end("page"));
    let pages = pages_from_events(ev);
    let r = &pages[0].revisions()[0];
    assert_eq!(r.id(), 9);
    assert_eq!(r.parent_id(), Some(8));
    assert_eq!(r.timestamp().seconds, 1275386400);
    assert_eq!(r.timestamp().nanos, 0);
    assert_eq!(r.contributor_ip().map(|s| s.as_str()), Some("10.0.0.1"));
    assert_eq!(r.contributor_id(), None);
    assert_eq!(r.contributor_username(), None);
    assert_eq!(r.model(), "wikitext");
    assert_eq!(r.format(), "text/x-wiki");
    assert_eq!(r.body(), "Hello & bye");
}

#[test]
fn contributor_id_does_not_replace_revision_id() {
    let mut ev = Vec::new();
    page_header(&mut ev, "1", "T");
    revision(&mut ev, "4", "2001-01-15T13:15:00Z");
    ev.push(end("page"));
    let pages = pages_from_events(ev);
    let r = &pages[0].revisions()[0];
    assert_eq!(r.id(), 4);
    assert_eq!(r.contributor_id(), Some(42));
    assert_eq!(r.contributor_username().map(|s| s.as_str()), Some("Someone"));
}

#[test]
fn page_without_title_is_not_emitted() {
    let mut ev = vec![start("page")];
    elem(&mut ev, "ns", "0");
    elem(&mut ev, "id", "1");
    revision(&mut ev, "1", "2001-01-15T13:15:00Z");
    revision(&mut ev, "2", "2002-02-25T15:43:11Z");
    ev.push(end("page"));
    page_header(&mut ev, "2", "Next");
    ev.push(end("page"));
    ev.push(XmlEvent::Eof);
    let pages = pages_from_events(ev);
    assert_eq!(pages.len(), 1);
    assert_eq!(pages[0].id(), 2);
}

#[test]
fn page_without_id_or_namespace_is_not_emitted() {
    let mut ev = vec![start("page")];
    elem(&mut ev, "title", "A");
    elem(&mut ev, "ns", "0");
    ev.push(end("page"));
    ev.push(start("page"));
    elem(&mut ev, "title", "B");
    elem(&mut ev, "id", "5");
    ev.push(end("page"));
    assert!(pages_from_events(ev).is_empty());
}

#[test]
fn incomplete_revision_is_dropped() {
    let mut ev = Vec::new();
    page_header(&mut ev, "1", "T");
    ev.push(start("revision"));
    elem(&mut ev, "id", "3");
    elem(&mut ev, "timestamp", "2001-01-15T13:15:00Z");
    elem(&mut ev, "format", "text/x-wiki");
    elem(&mut ev, "text", "no model");
    ev.push(end("revision"));
    revision(&mut ev, "4", "2002-02-25T15:43:11Z");
    ev.push(end("page"));
    let pages = pages_from_events(ev);
    assert_eq!(ids(&pages[0]), vec![4]);
}

#[test]
fn page_with_all_revisions_dropped_is_emitted_empty() {
    let mut ev = Vec::new();
    page_header(&mut ev, "1", "T");
    ev.push(start("revision"));
    elem(&mut ev, "id", "3");
    elem(&mut ev, "timestamp", "not a date");
    elem(&mut ev, "model", "wikitext");
    elem(&mut ev, "format", "text/x-wiki");
    elem(&mut ev, "text", "x");
    ev.push(end("revision"));
    ev.push(start("revision"));
    elem(&mut ev, "timestamp", "2001-01-15T13:15:00Z");
    ev.push(end("revision"));
    ev.push(end("page"));
    let pages = pages_from_events(ev);
    assert_eq!(pages.len(), 1);
    assert!(pages[0].revisions().is_empty());
}

#[test]
fn empty_text_element_is_an_empty_body() {
    let mut ev = Vec::new();
    page_header(&mut ev, "1", "T");
    ev.push(start("revision"));
    elem(&mut ev, "id", "3");
    elem(&mut ev, "timestamp", "2001-01-15T13:15:00Z");
    elem(&mut ev, "model", "wikitext");
    elem(&mut ev, "format", "text/x-wiki");
    ev.push(start("text"));
    ev.push(end("text"));
    ev.push(end("revision"));
    ev.push(end("page"));
    let pages = pages_from_events(ev);
    assert_eq!(pages[0].revisions()[0].body(), "");
}

#[test]
fn self_closing_text_means_no_body() {
    let mut ev = Vec::new();
    page_header(&mut ev, "1", "T");
    ev.push(start("revision"));
    elem(&mut ev, "id", "3");
    elem(&mut ev, "timestamp", "2001-01-15T13:15:00Z");
    elem(&mut ev, "model", "wikitext");
    elem(&mut ev, "format", "text/x-wiki");
    ev.push(XmlEvent::Other);
    ev.push(end("revision"));
    ev.push(end("page"));
    let pages = pages_from_events(ev);
    assert!(pages[0].revisions().is_empty());
}

#[test]
fn first_value_wins_and_bad_ids_are_skipped() {
    let mut ev = vec![start("page")];
    elem(&mut ev, "title", "First");
    elem(&mut ev, "title", "Second");
    elem(&mut ev, "ns", "zero");
    elem(&mut ev, "ns", "4");
    elem(&mut ev, "id", "12");
    elem(&mut ev, "id", "13");
    ev.push(end("page"));
    let pages = pages_from_events(ev);
    assert_eq!(pages[0].title(), "First");
    assert_eq!(pages[0].namespace(), 4);
    assert_eq!(pages[0].id(), 12);
}

#[test]
fn field_that_starts_with_markup_is_missing() {
    let mut ev = vec![start("page")];
    elem(&mut ev, "ns", "0");
    elem(&mut ev, "id", "1");
    ev.push(start("title"));
    ev.push(XmlEvent::Other);
    ev.push(text("late"));
    ev.push(end("title"));
    ev.push(end("page"));
    assert!(pages_from_events(ev).is_empty());
}

#[test]
fn nested_elements_of_the_same_name_are_passed_over() {
    let mut ev = vec![start("page")];
    ev.push(start("title"));
    ev.push(text("Outer"));
    ev.push(start("title"));
    ev.push(text("Inner"));
    ev.push(end("title"));
    ev.push(end("title"));
    elem(&mut ev, "ns", "0");
    elem(&mut ev, "id", "1");
    ev.push(end("page"));
    let pages = pages_from_events(ev);
    assert_eq!(pages[0].title(), "Outer");
}

#[test]
fn end_of_stream_inside_a_revision_emits_nothing() {
    let mut ev = Vec::new();
    page_header(&mut ev, "1", "T");
    ev.push(start("revision"));
    elem(&mut ev, "id", "3");
    ev.push(XmlEvent::Eof);
    assert!(pages_from_events(ev).is_empty());
}

#[test]
fn end_of_stream_closes_a_complete_page() {
    let mut ev = Vec::new();
    page_header(&mut ev, "1", "T");
    revision(&mut ev, "3", "2001-01-15T13:15:00Z");
    ev.push(XmlEvent::Eof);
    let pages = pages_from_events(ev);
    assert_eq!(pages.len(), 1);
    assert_eq!(ids(&pages[0]), vec![3]);
}

#[test]
fn parser_stops_after_end_of_stream() {
    let mut p = PageParser::new();
    assert!(!p.is_done());
    assert!(p.feed(XmlEvent::Eof).is_none());
    assert!(p.is_done());
    assert!(p.feed(start("page")).is_none());
    assert!(p.feed(end("page")).is_none());
}

#[test]
fn parser_emits_at_page_end() {
    let mut ev = Vec::new();
    page_header(&mut ev, "8", "T");
    let mut p = PageParser::new();
    for e in ev {
        assert!(p.feed(e).is_none());
    }
    let page = p.feed(end("page")).unwrap();
    assert_eq!(page.id(), 8);
}

#[test]
fn timestamp_order_uses_fractions() {
    let mut ev = Vec::new();
    page_header(&mut ev, "1", "T");
    revision(&mut ev, "2", "2001-01-15T13:15:00.5Z");
    revision(&mut ev, "1", "2001-01-15T13:15:00.25Z");
    ev.push(end("page"));
    let pages = pages_from_events(ev);
    assert_eq!(ids(&pages[0]), vec![1, 2]);
    assert_eq!(pages[0].revisions()[0].timestamp().nanos, 250_000_000);
}

fn one_page(id: &str, title: &str) -> Page {
    let mut ev = Vec::new();
    page_header(&mut ev, id, title);
    ev.push(end("page"));
    pages_from_events(ev).pop().unwrap()
}

fn search_store() -> wiki_dump_analyzer::DumpStore {
    wiki_dump_analyzer::DumpStore::from_paths(
        "/d".to_string(),
        vec![
            "/d/a.xml-p1p10.7z".to_string(),
            "/d/b.xml-p11p20.7z".to_string(),
            "/d/c.xml-p21p30.7z".to_string(),
        ],
    )
}

#[test]
fn lookup_reads_only_the_claiming_dump() {
    let store = search_store();
    let mut search = store.search(vec![15], true);
    assert_eq!(search.next_dump(), Some(1));
    assert!(search.offer(one_page("11", "Eleven")));
    assert!(!search.offer(one_page("15", "Fifteen")));
    assert!(!search.offer(one_page("15", "Again")));
    assert_eq!(search.next_dump(), None);
    let found = search.into_pages();
    assert_eq!(found.len(), 1);
    assert_eq!(found[0].title(), "Fifteen");
}

#[test]
fn lookup_of_unclaimed_id_reads_nothing() {
    let store = search_store();
    let mut search = store.search(vec![99], true);
    assert_eq!(search.next_dump(), None);
    assert!(search.into_pages().is_empty());
}

#[test]
fn search_for_several_ids_keeps_all_matches() {
    let store = search_store();
    let mut search = store.search(vec![25, 3], false);
    assert_eq!(search.next_dump(), Some(0));
    assert!(search.offer(one_page("3", "Three")));
    assert!(search.offer(one_page("4", "Four")));
    assert_eq!(search.next_dump(), Some(2));
    assert!(search.offer(one_page("25", "TwentyFive")));
    assert_eq!(search.next_dump(), None);
    let titles: Vec<String> = search.into_pages().iter().map(|p| p.title().clone()).collect();
    assert_eq!(titles, vec!["Three".to_string(), "TwentyFive".to_string()]);
}
