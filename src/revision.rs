use vstd::prelude::*;

verus! {

/// An instant in UTC: whole seconds since the Unix epoch, and the nanoseconds
/// past that second.
#[derive(Clone, Copy, Debug, PartialEq, Eq, Structural)]
pub struct Timestamp {
    pub seconds: i64,
    pub nanos: u32,
}

/// Whether instant `a` comes no later than instant `b`.
pub open spec fn ts_le(a: Timestamp, b: Timestamp) -> bool {
    a.seconds < b.seconds || (a.seconds == b.seconds && a.nanos <= b.nanos)
}

/// The instant that an RFC 3339 date-time names, as (seconds since the Unix
/// epoch, nanoseconds past that second), or `None` where the text is no such
/// date-time.
pub uninterp spec fn rfc3339_instant(text: Seq<char>) -> Option<(i64, u32)>;

pub open spec fn timestamp_of(text: Seq<char>) -> Option<Timestamp> {
    match rfc3339_instant(text) {
        Some((seconds, nanos)) => Some(Timestamp { seconds, nanos }),
        None => None,
    }
}

/// Relies on chrono's `DateTime::parse_from_rfc3339`, which reads an RFC 3339
/// date-time, and on `timestamp` and `timestamp_subsec_nanos`, which give its
/// instant; the result depends on the text alone.
#[verifier::external_body]
pub(crate) fn parse_rfc3339(text: &str) -> (r: Option<Timestamp>)
    ensures
        match rfc3339_instant(text@) {
            Some((seconds, nanos)) => r == Some(Timestamp { seconds, nanos }),
            None => r is None,
        },
{
    match chrono::DateTime::parse_from_rfc3339(text) {
        Ok(t) => Some(Timestamp { seconds: t.timestamp(), nanos: t.timestamp_subsec_nanos() }),
        Err(_) => None,
    }
}

impl Timestamp {
    /// Whether this instant comes no later than `other`.
    pub fn no_later_than(&self, other: &Timestamp) -> (r: bool)
        ensures
            r == ts_le(*self, *other),
    {
        self.seconds < other.seconds || (self.seconds == other.seconds && self.nanos
            <= other.nanos)
    }
}

pub open spec fn opt_view(o: Option<String>) -> Option<Seq<char>> {
    match o {
        Some(s) => Some(s@),
        None => None,
    }
}

/// One edit of a page.
pub struct Revision {
    pub(crate) id: i64,
    pub(crate) contributor_id: Option<i64>,
    pub(crate) contributor_username: Option<String>,
    pub(crate) contributor_ip: Option<String>,
    pub(crate) parent_id: Option<i64>,
    pub(crate) timestamp: Timestamp,
    pub(crate) model: String,
    pub(crate) format: String,
    pub(crate) body: String,
}

pub struct RevisionView {
    pub id: i64,
    pub contributor_id: Option<i64>,
    pub contributor_username: Option<Seq<char>>,
    pub contributor_ip: Option<Seq<char>>,
    pub parent_id: Option<i64>,
    pub timestamp: Timestamp,
    pub model: Seq<char>,
    pub format: Seq<char>,
    pub body: Seq<char>,
}

impl View for Revision {
    type V = RevisionView;

    closed spec fn view(&self) -> RevisionView {
        RevisionView {
            id: self.id,
            contributor_id: self.contributor_id,
            contributor_username: opt_view(self.contributor_username),
            contributor_ip: opt_view(self.contributor_ip),
            parent_id: self.parent_id,
            timestamp: self.timestamp,
            model: self.model@,
            format: self.format@,
            body: self.body@,
        }
    }
}

impl Revision {
    pub(crate) fn assemble(
        id: i64,
        parent_id: Option<i64>,
        timestamp: Timestamp,
        model: String,
        format: String,
        body: String,
        contributor_id: Option<i64>,
        contributor_username: Option<String>,
        contributor_ip: Option<String>,
    ) -> (r: Revision)
        ensures
            r@ == (RevisionView {
                id,
                contributor_id,
                contributor_username: opt_view(contributor_username),
                contributor_ip: opt_view(contributor_ip),
                parent_id,
                timestamp,
                model: model@,
                format: format@,
                body: body@,
            }),
    {
        Revision {
            id,
            contributor_id,
            contributor_username,
            contributor_ip,
            parent_id,
            timestamp,
            model,
            format,
            body,
        }
    }

    /// Revision id.
    pub fn id(&self) -> (r: i64)
        ensures
            r == self@.id,
    {
        self.id
    }

    /// Account id of the contributor, where the revision names one.
    pub fn contributor_id(&self) -> (r: Option<i64>)
        ensures
            r == self@.contributor_id,
    {
        self.contributor_id
    }

    /// User name of the contributor, where the revision names one (not for
    /// contributors who were not logged in).
    pub fn contributor_username(&self) -> (r: Option<&String>)
        ensures
            match r {
                Some(s) => self@.contributor_username == Some(s@),
                None => self@.contributor_username is None,
            },
    {
        match &self.contributor_username {
            Some(s) => Some(s),
            None => None,
        }
    }

    /// IP address of the contributor, where the revision names one (mostly for
    /// contributors who were not logged in).
    pub fn contributor_ip(&self) -> (r: Option<&String>)
        ensures
            match r {
                Some(s) => self@.contributor_ip == Some(s@),
                None => self@.contributor_ip is None,
            },
    {
        match &self.contributor_ip {
            Some(s) => Some(s),
            None => None,
        }
    }

    /// Id of the parent revision, if there is one.
    pub fn parent_id(&self) -> (r: Option<i64>)
        ensures
            r == self@.parent_id,
    {
        self.parent_id
    }

    /// When the revision was made.
    pub fn timestamp(&self) -> (r: &Timestamp)
        ensures
            *r == self@.timestamp,
    {
        &self.timestamp
    }

    /// Content model (mostly `wikitext`).
    pub fn model(&self) -> (r: &String)
        ensures
            r@ == self@.model,
    {
        &self.model
    }

    /// Content format (mostly `text/x-wiki`).
    pub fn format(&self) -> (r: &String)
        ensures
            r@ == self@.format,
    {
        &self.format
    }

    /// The text of the revision.
    pub fn body(&self) -> (r: &String)
        ensures
            r@ == self@.body,
    {
        &self.body
    }
}

} // verus!
