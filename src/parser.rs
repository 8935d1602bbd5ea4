use vstd::prelude::*;
use vstd::string::StrSliceExecFns;

use crate::page::{
    lemma_sort_by_time, sort_by_time, sort_revisions, sorted_by_time, views, Page, PageView,
};
use crate::revision::{opt_view, parse_rfc3339, timestamp_of, Revision, RevisionView, Timestamp};
use crate::text::{parse_i64, parse_i64_range, str_eq};

verus! {

/// One event of the tag stream that a dump decompresses to.
pub enum XmlEvent {
    /// An opening tag, by name.
    Start(String),
    /// A closing tag, by name.
    End(String),
    /// Character data, with entities already resolved.
    Text(String),
    /// Anything else: an empty-element tag, CDATA, a comment, a declaration.
    Other,
    /// The end of the stream.
    Eof,
}

pub enum EventView {
    Start(Seq<char>),
    End(Seq<char>),
    Text(Seq<char>),
    Other,
    Eof,
}

impl View for XmlEvent {
    type V = EventView;

    open spec fn view(&self) -> EventView {
        match self {
            XmlEvent::Start(n) => EventView::Start(n@),
            XmlEvent::End(n) => EventView::End(n@),
            XmlEvent::Text(t) => EventView::Text(t@),
            XmlEvent::Other => EventView::Other,
            XmlEvent::Eof => EventView::Eof,
        }
    }
}

/// A field of a page or of a revision that the parser reads from the text of
/// one element.
#[derive(Clone, Copy, Debug, PartialEq, Eq, Structural)]
pub enum Field {
    PageId,
    Namespace,
    Title,
    RevisionId,
    ParentId,
    Timestamp,
    Model,
    Format,
    Body,
    ContributorId,
    Username,
    Ip,
}

/// The name of the element that holds a field.
pub open spec fn field_tag(f: Field) -> Seq<char> {
    match f {
        Field::PageId => "id"@,
        Field::Namespace => "ns"@,
        Field::Title => "title"@,
        Field::RevisionId => "id"@,
        Field::ParentId => "parentid"@,
        Field::Timestamp => "timestamp"@,
        Field::Model => "model"@,
        Field::Format => "format"@,
        Field::Body => "text"@,
        Field::ContributorId => "id"@,
        Field::Username => "username"@,
        Field::Ip => "ip"@,
    }
}

fn tag_name(f: Field) -> (r: &'static str)
    ensures
        r@ == field_tag(f),
{
    match f {
        Field::PageId => "id",
        Field::Namespace => "ns",
        Field::Title => "title",
        Field::RevisionId => "id",
        Field::ParentId => "parentid",
        Field::Timestamp => "timestamp",
        Field::Model => "model",
        Field::Format => "format",
        Field::Body => "text",
        Field::ContributorId => "id",
        Field::Username => "username",
        Field::Ip => "ip",
    }
}

/// What has been read so far of the revision that is open.
pub struct DraftView {
    pub id: Option<i64>,
    pub parent_id: Option<i64>,
    pub timestamp: Option<Timestamp>,
    pub model: Option<Seq<char>>,
    pub format: Option<Seq<char>>,
    pub body: Option<Seq<char>>,
    pub contributor_id: Option<i64>,
    pub contributor_username: Option<Seq<char>>,
    pub contributor_ip: Option<Seq<char>>,
    pub in_contributor: bool,
}

/// The element whose text is being read: the field, how many elements of the
/// same name are open inside it, whether its first event has come, and the text
/// that event gave.
pub struct CaptureView {
    pub field: Field,
    pub depth: u64,
    pub started: bool,
    pub text: Option<Seq<char>>,
}

/// The parser's state: what has been read of the current page, the revision and
/// the element that are open, and whether the stream has ended.
pub struct ParserView {
    pub page_id: Option<i64>,
    pub namespace: Option<i64>,
    pub title: Option<Seq<char>>,
    pub revisions: Seq<RevisionView>,
    pub revision: Option<DraftView>,
    pub capture: Option<CaptureView>,
    pub done: bool,
}

pub open spec fn empty_draft() -> DraftView {
    DraftView {
        id: None,
        parent_id: None,
        timestamp: None,
        model: None,
        format: None,
        body: None,
        contributor_id: None,
        contributor_username: None,
        contributor_ip: None,
        in_contributor: false,
    }
}

/// The state before a page: nothing read yet.
pub open spec fn fresh_page() -> ParserView {
    ParserView {
        page_id: None,
        namespace: None,
        title: None,
        revisions: Seq::empty(),
        revision: None,
        capture: None,
        done: false,
    }
}

/// The field that an opening tag named `name` starts, in state `s`.
pub open spec fn field_opened(s: ParserView, name: Seq<char>) -> Option<Field> {
    match s.revision {
        None => if name == "id"@ {
            Some(Field::PageId)
        } else if name == "ns"@ {
            Some(Field::Namespace)
        } else if name == "title"@ {
            Some(Field::Title)
        } else {
            None
        },
        Some(d) => if name == "id"@ {
            Some(if d.in_contributor { Field::ContributorId } else { Field::RevisionId })
        } else if name == "parentid"@ {
            Some(Field::ParentId)
        } else if name == "timestamp"@ {
            Some(Field::Timestamp)
        } else if name == "model"@ {
            Some(Field::Model)
        } else if name == "format"@ {
            Some(Field::Format)
        } else if name == "text"@ {
            Some(Field::Body)
        } else if d.in_contributor && name == "username"@ {
            Some(Field::Username)
        } else if d.in_contributor && name == "ip"@ {
            Some(Field::Ip)
        } else {
            None
        },
    }
}

/// A field keeps the first value that was read for it; text that does not read
/// as a value of the field's type (an id that is no integer, a timestamp that is
/// no RFC 3339 date-time) leaves the field empty.
pub open spec fn keep_first<T>(old: Option<T>, new: Option<T>) -> Option<T> {
    if old is Some {
        old
    } else {
        new
    }
}

pub open spec fn store_draft(d: DraftView, f: Field, t: Seq<char>) -> DraftView {
    match f {
        Field::RevisionId => DraftView { id: keep_first(d.id, parse_i64(t)), ..d },
        Field::ParentId => DraftView { parent_id: keep_first(d.parent_id, parse_i64(t)), ..d },
        Field::Timestamp => DraftView {
            timestamp: keep_first(d.timestamp, timestamp_of(t)),
            ..d
        },
        Field::Model => DraftView { model: keep_first(d.model, Some(t)), ..d },
        Field::Format => DraftView { format: keep_first(d.format, Some(t)), ..d },
        Field::Body => DraftView { body: keep_first(d.body, Some(t)), ..d },
        Field::ContributorId => DraftView {
            contributor_id: keep_first(d.contributor_id, parse_i64(t)),
            ..d
        },
        Field::Username => DraftView {
            contributor_username: keep_first(d.contributor_username, Some(t)),
            ..d
        },
        Field::Ip => DraftView { contributor_ip: keep_first(d.contributor_ip, Some(t)), ..d },
        _ => d,
    }
}

/// The state once the text `t` of field `f` has been read.
pub open spec fn store(s: ParserView, f: Field, t: Seq<char>) -> ParserView {
    match f {
        Field::PageId => ParserView { page_id: keep_first(s.page_id, parse_i64(t)), ..s },
        Field::Namespace => ParserView { namespace: keep_first(s.namespace, parse_i64(t)), ..s },
        Field::Title => ParserView { title: keep_first(s.title, Some(t)), ..s },
        _ => match s.revision {
            Some(d) => ParserView { revision: Some(store_draft(d, f, t)), ..s },
            None => s,
        },
    }
}

/// The revision that a draft makes: only one with an id, a timestamp, a model,
/// a format and a body makes one.
pub open spec fn revision_of(d: DraftView) -> Option<RevisionView> {
    if d.id is Some && d.timestamp is Some && d.model is Some && d.format is Some && d.body is Some {
        Some(
            RevisionView {
                id: d.id->0,
                contributor_id: d.contributor_id,
                contributor_username: d.contributor_username,
                contributor_ip: d.contributor_ip,
                parent_id: d.parent_id,
                timestamp: d.timestamp->0,
                model: d.model->0,
                format: d.format->0,
                body: d.body->0,
            },
        )
    } else {
        None
    }
}

/// The page that the state makes when the page ends: only one with an id, a
/// namespace and a title makes one, and its revisions come in order of time.
pub open spec fn page_of(s: ParserView) -> Option<PageView> {
    if s.page_id is Some && s.namespace is Some && s.title is Some {
        Some(
            PageView {
                id: s.page_id->0,
                namespace: s.namespace->0,
                title: s.title->0,
                revisions: sort_by_time(s.revisions),
            },
        )
    } else {
        None
    }
}

pub enum CaptureStep {
    Reading(CaptureView),
    Closed(Option<Seq<char>>),
}

/// One event inside the element whose text is read. The text is that of the
/// element's first event if it is character data, empty if the element closes
/// at once, and missing otherwise; the rest of the element is passed over.
pub open spec fn capture_step(c: CaptureView, e: EventView) -> CaptureStep {
    match e {
        EventView::Text(t) => if !c.started {
            CaptureStep::Reading(CaptureView { started: true, text: Some(t), ..c })
        } else {
            CaptureStep::Reading(c)
        },
        EventView::Start(n) => CaptureStep::Reading(
            CaptureView {
                started: true,
                depth: if n == field_tag(c.field) && c.depth < u64::MAX {
                    (c.depth + 1) as u64
                } else {
                    c.depth
                },
                ..c
            },
        ),
        EventView::End(n) => if n == field_tag(c.field) && c.depth == 0 {
            CaptureStep::Closed(
                if c.started {
                    c.text
                } else {
                    Some(Seq::empty())
                },
            )
        } else if n == field_tag(c.field) {
            CaptureStep::Reading(CaptureView { started: true, depth: (c.depth - 1) as u64, ..c })
        } else {
            CaptureStep::Reading(CaptureView { started: true, ..c })
        },
        _ => CaptureStep::Reading(CaptureView { started: true, ..c }),
    }
}

pub open spec fn start_capture(f: Field) -> CaptureView {
    CaptureView { field: f, depth: 0, started: false, text: None }
}

/// One step of the parser: the state after event `e`, and the page that `e`
/// completes, if any.
///
/// A page ends at its closing `page` tag, or at the end of the stream if no
/// revision and no field element is open there; the stream's end inside a
/// revision or a field emits nothing. A revision ends at its closing tag, and is
/// kept only if it is complete. Tags that the parser does not know are passed
/// over.
pub open spec fn step(s: ParserView, e: EventView) -> (ParserView, Option<PageView>) {
    if s.done {
        (s, None)
    } else if e is Eof {
        (
            ParserView { done: true, ..fresh_page() },
            if s.revision is None && s.capture is None {
                page_of(s)
            } else {
                None
            },
        )
    } else {
        match s.capture {
            Some(c) => match capture_step(c, e) {
                CaptureStep::Reading(c2) => (ParserView { capture: Some(c2), ..s }, None),
                CaptureStep::Closed(t) => (
                    match t {
                        Some(t) => store(ParserView { capture: None, ..s }, c.field, t),
                        None => ParserView { capture: None, ..s },
                    },
                    None,
                ),
            },
            None => match e {
                EventView::Start(n) => if s.revision is None && n == "revision"@ {
                    (ParserView { revision: Some(empty_draft()), ..s }, None)
                } else if s.revision is Some && n == "contributor"@ {
                    (
                        ParserView {
                            revision: Some(DraftView { in_contributor: true, ..s.revision->0 }),
                            ..s
                        },
                        None,
                    )
                } else {
                    match field_opened(s, n) {
                        Some(f) => (ParserView { capture: Some(start_capture(f)), ..s }, None),
                        None => (s, None),
                    }
                },
                EventView::End(n) => if s.revision is None && n == "page"@ {
                    (fresh_page(), page_of(s))
                } else if s.revision is Some && n == "contributor"@ {
                    (
                        ParserView {
                            revision: Some(DraftView { in_contributor: false, ..s.revision->0 }),
                            ..s
                        },
                        None,
                    )
                } else if s.revision is Some && n == "revision"@ {
                    (
                        ParserView {
                            revision: None,
                            revisions: match revision_of(s.revision->0) {
                                Some(r) => s.revisions.push(r),
                                None => s.revisions,
                            },
                            ..s
                        },
                        None,
                    )
                } else {
                    (s, None)
                },
                _ => (s, None),
            },
        }
    }
}

/// The state and the pages after a run of events.
pub open spec fn run(s: ParserView, events: Seq<EventView>) -> (ParserView, Seq<PageView>)
    decreases events.len(),
{
    if events.len() == 0 {
        (s, Seq::empty())
    } else {
        let (s1, pages) = run(s, events.drop_last());
        let (s2, p) = step(s1, events.last());
        (
            s2,
            match p {
                Some(p) => pages.push(p),
                None => pages,
            },
        )
    }
}

pub open spec fn page_opt_view(p: Option<Page>) -> Option<PageView> {
    match p {
        Some(p) => Some(p@),
        None => None,
    }
}

struct RevisionDraft {
    id: Option<i64>,
    parent_id: Option<i64>,
    timestamp: Option<Timestamp>,
    model: Option<String>,
    format: Option<String>,
    body: Option<String>,
    contributor_id: Option<i64>,
    contributor_username: Option<String>,
    contributor_ip: Option<String>,
    in_contributor: bool,
}

spec fn draft_view(d: RevisionDraft) -> DraftView {
    DraftView {
        id: d.id,
        parent_id: d.parent_id,
        timestamp: d.timestamp,
        model: opt_view(d.model),
        format: opt_view(d.format),
        body: opt_view(d.body),
        contributor_id: d.contributor_id,
        contributor_username: opt_view(d.contributor_username),
        contributor_ip: opt_view(d.contributor_ip),
        in_contributor: d.in_contributor,
    }
}

spec fn opt_draft_view(d: Option<RevisionDraft>) -> Option<DraftView> {
    match d {
        Some(d) => Some(draft_view(d)),
        None => None,
    }
}

fn read_i64(t: &String) -> (r: Option<i64>)
    ensures
        r == parse_i64(t@),
{
    let n = t.as_str().unicode_len();
    assert(t@.subrange(0, n as int) =~= t@);
    parse_i64_range(t.as_str(), 0, n)
}

fn first_str(old: Option<String>, new: String) -> (r: Option<String>)
    ensures
        opt_view(r) == keep_first(opt_view(old), Some(new@)),
{
    match old {
        Some(o) => Some(o),
        None => Some(new),
    }
}

fn first_i64(old: Option<i64>, new: Option<i64>) -> (r: Option<i64>)
    ensures
        r == keep_first(old, new),
{
    match old {
        Some(o) => Some(o),
        None => new,
    }
}

impl RevisionDraft {
    fn empty() -> (r: RevisionDraft)
        ensures
            draft_view(r) == empty_draft(),
    {
        RevisionDraft {
            id: None,
            parent_id: None,
            timestamp: None,
            model: None,
            format: None,
            body: None,
            contributor_id: None,
            contributor_username: None,
            contributor_ip: None,
            in_contributor: false,
        }
    }

    fn store(self, f: Field, t: String) -> (r: RevisionDraft)
        ensures
            draft_view(r) == store_draft(draft_view(self), f, t@),
    {
        let mut d = self;
        match f {
            Field::RevisionId => {
                d.id = first_i64(d.id, read_i64(&t));
            },
            Field::ParentId => {
                d.parent_id = first_i64(d.parent_id, read_i64(&t));
            },
            Field::Timestamp => {
                if d.timestamp.is_none() {
                    d.timestamp = parse_rfc3339(t.as_str());
                }
            },
            Field::Model => {
                d.model = first_str(d.model, t);
            },
            Field::Format => {
                d.format = first_str(d.format, t);
            },
            Field::Body => {
                d.body = first_str(d.body, t);
            },
            Field::ContributorId => {
                d.contributor_id = first_i64(d.contributor_id, read_i64(&t));
            },
            Field::Username => {
                d.contributor_username = first_str(d.contributor_username, t);
            },
            Field::Ip => {
                d.contributor_ip = first_str(d.contributor_ip, t);
            },
            _ => {},
        }
        d
    }

    fn finish(self) -> (r: Option<Revision>)
        ensures
            match r {
                Some(rev) => revision_of(draft_view(self)) == Some(rev@),
                None => revision_of(draft_view(self)) is None,
            },
    {
        match (self.id, self.timestamp, self.model, self.format, self.body) {
            (Some(id), Some(timestamp), Some(model), Some(format), Some(body)) => Some(
                Revision::assemble(
                    id,
                    self.parent_id,
                    timestamp,
                    model,
                    format,
                    body,
                    self.contributor_id,
                    self.contributor_username,
                    self.contributor_ip,
                ),
            ),
            _ => None,
        }
    }
}

struct Capture {
    field: Field,
    depth: u64,
    started: bool,
    text: Option<String>,
}

spec fn capture_view(c: Capture) -> CaptureView {
    CaptureView { field: c.field, depth: c.depth, started: c.started, text: opt_view(c.text) }
}

spec fn opt_capture_view(c: Option<Capture>) -> Option<CaptureView> {
    match c {
        Some(c) => Some(capture_view(c)),
        None => None,
    }
}

enum CaptureOutcome {
    Reading(Capture),
    Closed(Option<String>),
}

spec fn outcome_view(o: CaptureOutcome) -> CaptureStep {
    match o {
        CaptureOutcome::Reading(c) => CaptureStep::Reading(capture_view(c)),
        CaptureOutcome::Closed(t) => CaptureStep::Closed(opt_view(t)),
    }
}

impl Capture {
    fn advance(self, e: XmlEvent) -> (r: CaptureOutcome)
        requires
            !(e is Eof),
        ensures
            outcome_view(r) == capture_step(capture_view(self), e@),
    {
        let mut c = self;
        match e {
            XmlEvent::Text(t) => {
                if !c.started {
                    c.started = true;
                    c.text = Some(t);
                }
                CaptureOutcome::Reading(c)
            },
            XmlEvent::Start(n) => {
                if str_eq(n.as_str(), tag_name(c.field)) && c.depth < u64::MAX {
                    c.depth = c.depth + 1;
                }
                c.started = true;
                CaptureOutcome::Reading(c)
            },
            XmlEvent::End(n) => {
                let same = str_eq(n.as_str(), tag_name(c.field));
                if same && c.depth == 0 {
                    if c.started {
                        CaptureOutcome::Closed(c.text)
                    } else {
                        CaptureOutcome::Closed(Some(String::new()))
                    }
                } else {
                    if same {
                        c.depth = c.depth - 1;
                    }
                    c.started = true;
                    CaptureOutcome::Reading(c)
                }
            },
            _ => {
                c.started = true;
                CaptureOutcome::Reading(c)
            },
        }
    }
}

/// Turns the tag events of a dump into pages, one event at a time.
pub struct PageParser {
    page_id: Option<i64>,
    namespace: Option<i64>,
    title: Option<String>,
    revisions: Vec<Revision>,
    revision: Option<RevisionDraft>,
    capture: Option<Capture>,
    done: bool,
}

impl View for PageParser {
    type V = ParserView;

    closed spec fn view(&self) -> ParserView {
        ParserView {
            page_id: self.page_id,
            namespace: self.namespace,
            title: opt_view(self.title),
            revisions: views(self.revisions@),
            revision: opt_draft_view(self.revision),
            capture: opt_capture_view(self.capture),
            done: self.done,
        }
    }
}

impl PageParser {
    /// A parser at the start of a stream.
    pub fn new() -> (r: PageParser)
        ensures
            r@ == fresh_page(),
    {
        let r = PageParser {
            page_id: None,
            namespace: None,
            title: None,
            revisions: Vec::new(),
            revision: None,
            capture: None,
            done: false,
        };
        assert(views(r.revisions@) =~= Seq::<RevisionView>::empty());
        r
    }

    /// Whether the stream has ended.
    pub fn is_done(&self) -> (r: bool)
        ensures
            r == self@.done,
    {
        self.done
    }

    fn take_page(self) -> (r: Option<Page>)
        ensures
            page_opt_view(r) == page_of(self@),
    {
        match (self.page_id, self.namespace, self.title) {
            (Some(id), Some(namespace), Some(title)) => {
                let revisions = sort_revisions(self.revisions);
                Some(Page::assemble(id, namespace, title, revisions))
            },
            _ => None,
        }
    }

    fn opened_field(&self, name: &String) -> (r: Option<Field>)
        ensures
            r == field_opened(self@, name@),
    {
        let n = name.as_str();
        match &self.revision {
            None => if str_eq(n, "id") {
                Some(Field::PageId)
            } else if str_eq(n, "ns") {
                Some(Field::Namespace)
            } else if str_eq(n, "title") {
                Some(Field::Title)
            } else {
                None
            },
            Some(d) => if str_eq(n, "id") {
                Some(if d.in_contributor { Field::ContributorId } else { Field::RevisionId })
            } else if str_eq(n, "parentid") {
                Some(Field::ParentId)
            } else if str_eq(n, "timestamp") {
                Some(Field::Timestamp)
            } else if str_eq(n, "model") {
                Some(Field::Model)
            } else if str_eq(n, "format") {
                Some(Field::Format)
            } else if str_eq(n, "text") {
                Some(Field::Body)
            } else if d.in_contributor && str_eq(n, "username") {
                Some(Field::Username)
            } else if d.in_contributor && str_eq(n, "ip") {
                Some(Field::Ip)
            } else {
                None
            },
        }
    }

    fn store_text(&mut self, f: Field, t: String)
        requires
            old(self)@.capture is None,
        ensures
            final(self)@ == store(old(self)@, f, t@),
    {
        match f {
            Field::PageId => {
                self.page_id = first_i64(self.page_id, read_i64(&t));
            },
            Field::Namespace => {
                self.namespace = first_i64(self.namespace, read_i64(&t));
            },
            Field::Title => {
                self.title = first_str(self.title.take(), t);
            },
            _ => {
                match self.revision.take() {
                    Some(d) => {
                        self.revision = Some(d.store(f, t));
                    },
                    None => {},
                }
            },
        }
    }

    /// Reads one event; returns the page that it completes, if any.
    pub fn feed(&mut self, event: XmlEvent) -> (r: Option<Page>)
        ensures
            (final(self)@, page_opt_view(r)) == step(old(self)@, event@),
    {
        if self.done {
            return None;
        }
        if let XmlEvent::Eof = event {
            let emit = self.revision.is_none() && self.capture.is_none();
            let mut rest = PageParser::new();
            std::mem::swap(self, &mut rest);
            self.done = true;
            return if emit {
                rest.take_page()
            } else {
                None
            };
        }
        match self.capture.take() {
            Some(c) => {
                let field = c.field;
                match c.advance(event) {
                    CaptureOutcome::Reading(c2) => {
                        self.capture = Some(c2);
                    },
                    CaptureOutcome::Closed(t) => {
                        match t {
                            Some(t) => self.store_text(field, t),
                            None => {},
                        }
                    },
                }
                return None;
            },
            None => {},
        }
        match event {
            XmlEvent::Start(n) => {
                if self.revision.is_none() && str_eq(n.as_str(), "revision") {
                    self.revision = Some(RevisionDraft::empty());
                } else if self.revision.is_some() && str_eq(n.as_str(), "contributor") {
                    match self.revision.take() {
                        Some(d) => {
                            let mut d = d;
                            d.in_contributor = true;
                            self.revision = Some(d);
                        },
                        None => {},
                    }
                } else {
                    match self.opened_field(&n) {
                        Some(f) => {
                            self.capture = Some(Capture { field: f, depth: 0, started: false, text: None });
                        },
                        None => {},
                    }
                }
                None
            },
            XmlEvent::End(n) => {
                if self.revision.is_none() && str_eq(n.as_str(), "page") {
                    let mut rest = PageParser::new();
                    std::mem::swap(self, &mut rest);
                    rest.take_page()
                } else if self.revision.is_some() && str_eq(n.as_str(), "contributor") {
                    match self.revision.take() {
                        Some(d) => {
                            let mut d = d;
                            d.in_contributor = false;
                            self.revision = Some(d);
                        },
                        None => {},
                    }
                    None
                } else if self.revision.is_some() && str_eq(n.as_str(), "revision") {
                    match self.revision.take() {
                        Some(d) => {
                            match d.finish() {
                                Some(rev) => {
                                    let ghost before = views(self.revisions@);
                                    self.revisions.push(rev);
                                    assert(views(self.revisions@) =~= before.push(rev@));
                                },
                                None => {},
                            }
                        },
                        None => {},
                    }
                    None
                } else {
                    None
                }
            },
            _ => None,
        }
    }
}

pub open spec fn event_views(events: Seq<XmlEvent>) -> Seq<EventView> {
    events.map_values(|e: XmlEvent| e@)
}

pub open spec fn page_views(pages: Seq<Page>) -> Seq<PageView> {
    pages.map_values(|p: Page| p@)
}

/// The pages of a whole stream of events, in the order in which they end.
pub fn pages_from_events(events: Vec<XmlEvent>) -> (r: Vec<Page>)
    ensures
        page_views(r@) == run(fresh_page(), event_views(events@)).1,
{
    let ghost s = event_views(events@);
    let ghost n = s.len();
    let mut rest = events;
    let mut stack: Vec<XmlEvent> = Vec::new();
    while rest.len() > 0
        invariant
            n == s.len(),
            event_views(rest@) == s.take(rest@.len() as int),
            rest@.len() + stack@.len() == n,
            forall|k: int| 0 <= k < stack@.len() ==> #[trigger] stack@[k]@ == s[n - 1 - k],
        decreases rest@.len(),
    {
        let ghost m = rest@.len();
        match rest.pop() {
            Some(e) => {
                assert(e@ == s.take(m as int)[m - 1]);
                stack.push(e);
                assert(event_views(rest@) =~= s.take(rest@.len() as int));
            },
            None => {},
        }
    }
    let mut parser = PageParser::new();
    let mut pages: Vec<Page> = Vec::new();
    while stack.len() > 0
        invariant
            n == s.len(),
            stack@.len() <= n,
            forall|k: int| 0 <= k < stack@.len() ==> #[trigger] stack@[k]@ == s[n - 1 - k],
            (parser@, page_views(pages@)) == run(fresh_page(), s.take(n - stack@.len())),
        decreases stack@.len(),
    {
        let ghost m = n - stack@.len();
        match stack.pop() {
            Some(e) => {
                assert(e@ == s[m]);
                assert(s.take(m + 1).drop_last() =~= s.take(m));
                let ghost before = page_views(pages@);
                match parser.feed(e) {
                    Some(p) => {
                        pages.push(p);
                        assert(page_views(pages@) =~= before.push(p@));
                    },
                    None => {},
                }
            },
            None => {},
        }
    }
    assert(s.take(n as int) =~= s);
    pages
}

/// Every page that the parser emits holds the revisions that were read for it,
/// in order of time, whatever order they came in.
pub proof fn lemma_emitted_revisions_sorted(s: ParserView, e: EventView)
    ensures
        step(s, e).1 matches Some(p) ==> sorted_by_time(p.revisions) && p.revisions.to_multiset()
            == s.revisions.to_multiset(),
{
    lemma_sort_by_time(s.revisions);
}

/// A page is emitted only if its id, namespace and title were read, and with
/// those values, however many revisions it has.
pub proof fn lemma_page_needs_header(s: ParserView, e: EventView)
    ensures
        step(s, e).1 matches Some(p) ==> s.page_id == Some(p.id) && s.namespace == Some(
            p.namespace,
        ) && s.title == Some(p.title),
        s.page_id is None || s.namespace is None || s.title is None ==> step(s, e).1 is None,
{
}

/// A revision without an id, a timestamp, a model, a format or a body is dropped
/// when it closes: the page's revisions stay as they were.
pub proof fn lemma_incomplete_revision_dropped(s: ParserView, d: DraftView)
    requires
        !s.done,
        s.capture is None,
        s.revision == Some(d),
        d.id is None || d.timestamp is None || d.model is None || d.format is None || d.body
            is None,
    ensures
        step(s, EventView::End("revision"@)).0 == (ParserView { revision: None, ..s }),
        step(s, EventView::End("revision"@)).1 is None,
{
    reveal_strlit("revision");
    reveal_strlit("contributor");
    assert("revision"@[0] == 'r');
    assert("contributor"@[0] == 'c');
    assert("revision"@ != "contributor"@);
}

/// A page all of whose revisions were dropped is still emitted when it closes, with
/// no revisions, if its id, namespace and title were read.
pub proof fn lemma_page_without_revisions(s: ParserView)
    requires
        !s.done,
        s.capture is None,
        s.revision is None,
        s.revisions.len() == 0,
        s.page_id is Some,
        s.namespace is Some,
        s.title is Some,
    ensures
        step(s, EventView::End("page"@)).1 == Some(
            PageView {
                id: s.page_id->0,
                namespace: s.namespace->0,
                title: s.title->0,
                revisions: Seq::empty(),
            },
        ),
{
    assert(sort_by_time(s.revisions) =~= Seq::<RevisionView>::empty());
}

} // verus!
