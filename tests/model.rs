use worker::model::{
    hash, EntryError, FeedID, Response, RssChannel, RssItem, StoredEntry, StoredFeed,
};

#[test]
fn feed_id_is_xxh3_of_url() {
    assert_eq!(hash(b""), 0x2D06800538D394C2);
    assert_eq!(FeedID::from_url(String::new()), 0x2D06800538D394C2);
    let url = "https://www.opennet.ru/opennews/opennews_all_utf.rss".to_string();
    assert_eq!(FeedID::from_url(url.clone()), hash(url.as_bytes()));
    assert_ne!(FeedID::from_url(url), FeedID::from_url("https://example.org/rss".to_string()));
}

#[test]
fn ok_response_carries_message() {
    match Response::new_ok("no fixes requred at the moment") {
        Response::Ack(ok) => assert_eq!(ok.message_str(), "no fixes requred at the moment"),
        other => panic!("unexpected {:?}", other),
    }
}

fn item(guid: Option<&str>, link: Option<&str>, date: Option<&str>) -> RssItem {
    RssItem {
        title: Some("Title".to_string()),
        description: Some("Desc".to_string()),
        content: None,
        guid: guid.map(|s| s.to_string()),
        link: link.map(|s| s.to_string()),
        pub_date: date.map(|s| s.to_string()),
    }
}

#[test]
fn entry_from_rss_item() {
    let e = StoredEntry::from_rss_item(
        FeedID(5),
        item(Some("guid-1"), Some("https://e.org/1"), Some("Sun, 17 Apr 2022 09:19:35 +0000")),
    )
    .unwrap();
    assert_eq!(e.entry_id.0, hash(b"guid-1"));
    assert_eq!(e.feed_id, FeedID(5));
    assert_eq!(e.published, 1650187175);
    assert_eq!(e.title.as_deref(), Some("Title"));
    assert_eq!(e.link.as_deref(), Some("https://e.org/1"));
    assert_eq!(e.read_ts, 0);
    let by_link = StoredEntry::from_rss_item(
        FeedID(5),
        item(None, Some("https://e.org/1"), Some("Sun, 17 Apr 2022 11:19:35 +0200")),
    )
    .unwrap();
    assert_eq!(by_link.entry_id.0, hash(b"https://e.org/1"));
    assert_eq!(by_link.published, 1650187175);
}

#[test]
fn entry_from_rss_item_errors() {
    let date = Some("Sun, 17 Apr 2022 09:19:35 +0000");
    assert_eq!(
        StoredEntry::from_rss_item(FeedID(1), item(None, None, date)).unwrap_err(),
        EntryError::MissingLink
    );
    assert_eq!(
        StoredEntry::from_rss_item(FeedID(1), item(Some("g"), None, None)).unwrap_err(),
        EntryError::MissingDate
    );
    assert_eq!(
        StoredEntry::from_rss_item(FeedID(1), item(Some("g"), None, Some("yesterday"))).unwrap_err(),
        EntryError::BadDate
    );
}

#[test]
fn feed_takes_channel_title() {
    let mut f = StoredFeed {
        feed_id: FeedID(1),
        last_update: 3,
        url: "u".to_string(),
        title: None,
        description: None,
        ext_last_update: None,
    };
    f.update_from_rss_channel(RssChannel { title: "T".to_string(), description: "D".to_string() });
    assert_eq!(f.title.as_deref(), Some("T"));
    assert_eq!(f.description.as_deref(), Some("D"));
    assert_eq!(f.last_update, 3);
}
