//! Feed and entry records, and the events and responses of the feed backend that
//! signed calls carry.
use vstd::prelude::*;
use vstd::string::*;
use vstd::utf8::*;

verus! {

/// What xxhash-rust's `xxh3_64` gives for `b`.
pub uninterp spec fn xxh3_64_of(b: Seq<u8>) -> u64;

/// Relies on xxhash-rust's `xxh3::xxh3_64`: a 64-bit hash that depends on `data` alone.
#[verifier::external_body]
pub fn hash(data: &[u8]) -> (r: u64)
    ensures
        r == xxh3_64_of(data@),
{
    xxhash_rust::xxh3::xxh3_64(data)
}

/// The identifier of an entry: a hash of its guid or link.
#[derive(Debug, Clone, Copy, PartialEq, Eq, Structural, Hash)]
pub struct EntryID(pub u64);

/// The identifier of a feed: a hash of its URL.
#[derive(Debug, Clone, Copy, PartialEq, Eq, Structural, Hash)]
pub struct FeedID(pub u64);

impl FeedID {
    /// The identifier number for a feed at `url`.
    pub fn from_url(url: String) -> (r: u64)
        ensures
            r == xxh3_64_of(encode_utf8(url@)),
    {
        hash(url.as_str().as_bytes())
    }
}

/// An entry as the backend stores it.
#[derive(Debug, Clone, PartialEq, Eq)]
pub struct StoredEntry {
    pub entry_id: EntryID,
    pub feed_id: FeedID,
    pub published: u64,
    pub link: Option<String>,
    pub title: Option<String>,
    pub description: Option<String>,
    pub content: Option<String>,
    pub read_ts: i64,
}

/// The fields of an RSS item that an entry is made from.
#[derive(Debug, Clone)]
pub struct RssItem {
    pub title: Option<String>,
    pub description: Option<String>,
    pub content: Option<String>,
    /// The value of the item's guid.
    pub guid: Option<String>,
    pub link: Option<String>,
    pub pub_date: Option<String>,
}

/// The fields of an RSS channel that a feed takes.
#[derive(Debug, Clone)]
pub struct RssChannel {
    pub title: String,
    pub description: String,
}

/// Why an RSS item could not become an entry.
#[derive(Debug, Clone, Copy, PartialEq, Eq, Structural)]
pub enum EntryError {
    /// The item has neither a guid nor a link.
    MissingLink,
    /// The item has no publication date.
    MissingDate,
    /// The publication date is not an RFC 2822 date.
    BadDate,
}

/// What chrono's `DateTime::parse_from_rfc2822` gives for `s`, as seconds since the
/// Unix epoch; `None` where it refuses `s`.
pub uninterp spec fn rfc2822_seconds(s: Seq<char>) -> Option<i64>;

/// Relies on chrono's `DateTime::parse_from_rfc2822` and `timestamp`.
#[verifier::external_body]
fn parse_rfc2822(s: &str) -> (r: Option<i64>)
    ensures
        r == rfc2822_seconds(s@),
{
    chrono::DateTime::parse_from_rfc2822(s).ok().map(|d| d.timestamp())
}

/// The identifier of an item: the hash of its guid, else of its link.
pub open spec fn item_id(item: RssItem) -> Option<u64> {
    match item.guid {
        Some(g) => Some(xxh3_64_of(encode_utf8(g@))),
        None => match item.link {
            Some(l) => Some(xxh3_64_of(encode_utf8(l@))),
            None => None,
        },
    }
}

impl StoredEntry {
    /// The unread entry of feed `feed_id` for `item`, identified by its guid or link and
    /// dated by its RFC 2822 publication date.
    pub fn from_rss_item(feed_id: FeedID, item: RssItem) -> (r: Result<Self, EntryError>)
        ensures
            item_id(item) is None ==> r == Err::<Self, EntryError>(EntryError::MissingLink),
            item_id(item) is Some && item.pub_date is None ==> r == Err::<Self, EntryError>(
                EntryError::MissingDate,
            ),
            item_id(item) is Some && item.pub_date is Some && rfc2822_seconds(
                item.pub_date->Some_0@,
            ) is None ==> r == Err::<Self, EntryError>(EntryError::BadDate),
            r is Ok ==> {
                let e = r->Ok_0;
                &&& item_id(item) == Some(e.entry_id.0)
                &&& item.pub_date is Some
                &&& rfc2822_seconds(item.pub_date->Some_0@) is Some
                &&& e.published == #[verifier::truncate] (rfc2822_seconds(
                    item.pub_date->Some_0@,
                )->Some_0 as u64)
                &&& e.feed_id == feed_id
                &&& e.title == item.title
                &&& e.description == item.description
                &&& e.content == item.content
                &&& e.link == item.link
                &&& e.read_ts == 0
            },
            item_id(item) is Some && item.pub_date is Some && rfc2822_seconds(
                item.pub_date->Some_0@,
            ) is Some ==> r is Ok,
    {
        let RssItem { title, description, content, guid, link, pub_date } = item;
        let entry_id = match &guid {
            Some(g) => hash(g.as_str().as_bytes()),
            None => match &link {
                Some(l) => hash(l.as_str().as_bytes()),
                None => return Err(EntryError::MissingLink),
            },
        };
        let published = match &pub_date {
            Some(d) => match parse_rfc2822(d.as_str()) {
                Some(secs) => #[verifier::truncate] (secs as u64),
                None => return Err(EntryError::BadDate),
            },
            None => return Err(EntryError::MissingDate),
        };
        Ok(StoredEntry {
            entry_id: EntryID(entry_id),
            feed_id,
            published,
            link,
            title,
            description,
            content,
            read_ts: 0,
        })
    }
}

/// A feed as the backend stores it.
#[derive(Debug, Clone, PartialEq, Eq)]
pub struct StoredFeed {
    pub feed_id: FeedID,
    pub last_update: u64,
    pub url: String,
    pub title: Option<String>,
    pub description: Option<String>,
    pub ext_last_update: Option<u64>,
}

impl StoredFeed {
    /// Takes the channel's title and description.
    pub fn update_from_rss_channel(&mut self, channel: RssChannel)
        ensures
            final(self).title == Some(channel.title),
            final(self).description == Some(channel.description),
            final(self).feed_id == old(self).feed_id,
            final(self).last_update == old(self).last_update,
            final(self).url == old(self).url,
            final(self).ext_last_update == old(self).ext_last_update,
    {
        let RssChannel { title, description } = channel;
        self.title = Some(title);
        self.description = Some(description);
    }
}

/// Asks the backend to refresh its feeds.
#[derive(Debug, Clone, Copy, PartialEq, Eq, Structural)]
pub struct RefreshFeeds {
    pub force: bool,
}

/// Asks the backend for entries.
#[derive(Debug, Clone, Copy, PartialEq, Eq, Structural)]
pub struct AllEntries {
    pub unread_only: bool,
    pub feed_id: Option<FeedID>,
}

/// A call to the backend.
#[derive(Debug)]
pub enum Event {
    RefreshFeeds(RefreshFeeds),
    AllEntries(AllEntries),
    AllFeeds(()),
    AddFeed(String),
    MarkReadUnread(Vec<(EntryID, u64, bool)>),
    FixDatabase(()),
    /// A payload that could not be read as an event, and why.
    Bad(Vec<u8>, String),
}

/// A plain acknowledgement with a message.
#[derive(Debug)]
pub struct OkResponse {
    message: String,
}

impl OkResponse {
    /// The message.
    pub closed spec fn message(&self) -> Seq<char> {
        self.message@
    }

    /// An acknowledgement carrying `s`.
    pub fn new(s: &str) -> (r: Self)
        ensures
            r.message() == s@,
    {
        OkResponse { message: String::from_str(s) }
    }

    /// The message.
    pub fn message_str(&self) -> (r: &str)
        ensures
            r@ == self.message(),
    {
        self.message.as_str()
    }
}

/// A reply of the backend.
#[derive(Debug)]
pub enum Response {
    AllEntries(Vec<StoredEntry>),
    AllFeeds(Vec<StoredFeed>),
    MarkedRead(Vec<(EntryID, u64, i64)>),
    Ack(OkResponse),
}

impl Response {
    /// An acknowledgement carrying `s`.
    pub fn new_ok(s: &str) -> (r: Self)
        ensures
            r matches Response::Ack(ok) && ok.message() == s@,
    {
        Response::Ack(OkResponse::new(s))
    }
}

} // verus!
