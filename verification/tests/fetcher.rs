use xmly_exporter::fetcher::album::{following_page, Album, PageStep, ALBUM_URL, FIRST_PAGE};
use xmly_exporter::fetcher::track::{detail_record_ok, update_record_ok, Track};
use xmly_exporter::json::JsonValue;

fn s(text: &str) -> JsonValue {
    JsonValue::Str(text.to_string())
}

fn n(value: u64) -> JsonValue {
    JsonValue::Number(Some(value))
}

fn obj(members: Vec<(&str, JsonValue)>) -> JsonValue {
    JsonValue::Object(members.into_iter().map(|(k, v)| (k.to_string(), v)).collect())
}

fn listing_entry(id: u64, name: &str, src: &str) -> JsonValue {
    obj(vec![
        ("index", n(1)),
        ("trackId", n(id)),
        ("trackName", s(name)),
        ("trackCoverPath", s("imagev2.xmcdn.com/cover.jpg")),
        ("duration", n(125)),
        ("src", s(src)),
        ("albumName", s("Morning News")),
    ])
}

fn page(entries: Vec<JsonValue>, has_more: bool) -> JsonValue {
    obj(vec![
        ("ret", n(200)),
        (
            "data",
            obj(vec![
                ("tracksAudioPlay", JsonValue::Array(entries)),
                ("hasMore", JsonValue::Bool(has_more)),
            ]),
        ),
    ])
}

fn detail(album_id: u64) -> JsonValue {
    obj(vec![
        ("album_id", n(album_id)),
        ("duration", n(61)),
        ("play_count", n(1000)),
        ("comments_count", n(3)),
        ("shares_count", n(2)),
        ("favorites_count", n(9)),
        ("title", s("Episode")),
        ("album_title", s("Morning News")),
        ("nickname", s("host")),
        ("category_name", s("news")),
        ("cover_url", s("http://img/cover.png")),
        ("play_path", s("http://audio/ep.m4a")),
    ])
}

#[test]
fn json_get_reads_members() {
    let v = obj(vec![("a", n(1)), ("b", s("x")), ("c", JsonValue::Bool(true))]);
    assert_eq!(v.get("a").and_then(|x| x.as_u64()), Some(1));
    assert_eq!(v.get("b").and_then(|x| x.as_str()), Some("x"));
    assert_eq!(v.get("c").and_then(|x| x.as_bool()), Some(true));
    assert!(v.get("d").is_none());
    assert!(s("x").get("a").is_none());
    assert_eq!(v.u64_at("a"), 1);
    assert_eq!(v.string_at("b"), "x");
}

#[test]
fn json_first_member_wins() {
    let v = obj(vec![("a", n(1)), ("a", n(2))]);
    assert_eq!(v.u64_at("a"), 1);
}

#[test]
fn json_accessors_reject_other_kinds() {
    assert_eq!(s("1").as_u64(), None);
    assert_eq!(JsonValue::Number(None).as_u64(), None);
    assert_eq!(n(1).as_str(), None);
    assert_eq!(JsonValue::Null.as_bool(), None);
    assert!(n(1).as_array().is_none());
    assert_eq!(JsonValue::Array(vec![n(1), n(2)]).as_array().map(|a| a.len()), Some(2));
}

#[test]
fn track_from_listing_entry() {
    let t = Track::from_json(&listing_entry(147135825, "Episode 1", "http://audio/1.m4a"));
    assert_eq!(t.id, 147135825);
    assert_eq!(t.duration, 125);
    assert_eq!(t.title, "Episode 1");
    assert_eq!(t.src, "http://audio/1.m4a");
    assert_eq!(t.cover, "http://imagev2.xmcdn.com/cover.jpg");
    assert_eq!((t.album_id, t.plays, t.comments, t.shares, t.likes), (0, 0, 0, 0, 0));
    assert!(t.album_title.is_empty() && t.nickname.is_empty() && t.category.is_empty());
}

#[test]
fn track_url_of_id() {
    assert_eq!(Track::track_url("147135825"), "http://www.ximalaya.com/tracks/147135825.json");
}

#[test]
fn track_fetch_from_detail() {
    let t = Track::fetch("147135825", &detail(4308484));
    assert_eq!(t.id, 147135825);
    assert_eq!(t.album_id, 4308484);
    assert_eq!(t.duration, 61);
    assert_eq!((t.plays, t.comments, t.shares, t.likes), (1000, 3, 2, 9));
    assert_eq!(t.title, "Episode");
    assert_eq!(t.album_title, "Morning News");
    assert_eq!(t.nickname, "host");
    assert_eq!(t.category, "news");
    assert_eq!(t.cover, "http://img/cover.png");
    assert_eq!(t.src, "http://audio/ep.m4a");
}

#[test]
fn track_update_fills_details_once() {
    let mut t = Track::from_json(&listing_entry(5, "Five", "http://audio/5.mp3"));
    assert_eq!(t.update_url(), Some("http://www.ximalaya.com/tracks/5.json".to_string()));
    t.update(&detail(77));
    assert_eq!(t.album_id, 77);
    assert_eq!((t.plays, t.comments, t.shares, t.likes), (1000, 3, 2, 9));
    assert_eq!(t.album_title, "Morning News");
    assert_eq!(t.category, "news");
    assert_eq!(t.nickname, "host");
    // What the listing gave stays.
    assert_eq!(t.title, "Five");
    assert_eq!(t.duration, 125);
    assert_eq!(t.src, "http://audio/5.mp3");
    assert_eq!(t.cover, "http://imagev2.xmcdn.com/cover.jpg");
    // Settled: no address, and another record changes nothing.
    assert_eq!(t.update_url(), None);
    t.update(&detail(99));
    assert_eq!(t.album_id, 77);
}

#[test]
fn album_urls() {
    let mut album = Album::new();
    album.set_id("4308484");
    let base = format!("{}4308484", ALBUM_URL);
    assert_eq!(base, "https://www.ximalaya.com/revision/play/album?albumId=4308484");
    assert_eq!(album.page_url(1), format!("{}&pageNum=1", base));
    assert_eq!(album.page_url(12), format!("{}&pageNum=12", base));
    assert_eq!(album.name_url(), format!("{}&pageNum=1&pageSize=1", base));
}

#[test]
fn set_id_chains_and_keeps_tracks() {
    let mut album = Album::new();
    album.next_page(Some(&page(vec![listing_entry(1, "a", "x.mp3")], true)));
    assert_eq!(album.set_id("9").tracks.len(), 1);
    album.set_id("10").tracks.clear();
    assert!(album.tracks.is_empty());
    assert!(album.page_url(2).ends_with("albumId=10&pageNum=2"));
}

#[test]
fn next_page_appends_in_order() {
    let mut album = Album::new();
    album.set_id("4308484");
    let first = page(vec![listing_entry(1, "one", "http://a/1.mp3"), listing_entry(2, "two", "http://a/2.mp3")], true);
    assert_eq!(album.next_page(Some(&first)), PageStep::Next);
    let second = page(vec![listing_entry(3, "three", "http://a/3.m4a")], false);
    assert_eq!(album.next_page(Some(&second)), PageStep::NameThenDone);
    let ids: Vec<u64> = album.tracks.iter().map(|t| t.id).collect();
    assert_eq!(ids, vec![1, 2, 3]);
    assert_eq!(album.tracks[2].title, "three");
}

#[test]
fn next_page_stops_on_empty_or_missing_page() {
    let mut album = Album::new();
    assert_eq!(album.next_page(None), PageStep::Done);
    assert_eq!(album.next_page(Some(&page(vec![], true))), PageStep::Done);
    assert!(album.tracks.is_empty());
}

#[test]
fn album_name_and_aria2_file() {
    let mut album = Album::new();
    album.set_id("4308484");
    album.next_page(Some(&page(
        vec![listing_entry(1, "One", "http://a/x/1.m4a"), listing_entry(2, "Two", "http://a/2")],
        false,
    )));
    assert_eq!(album.aria2_file_name(), ".ax");
    album.set_name_from(&page(vec![listing_entry(1, "One", "http://a/x/1.m4a")], true));
    assert_eq!(album.aria2_file_name(), "Morning News.ax");
    assert_eq!(
        album.aria2_input(),
        "http://a/x/1.m4a\n\tout=One.m4a\n\tdir=Morning News\n\
         http://a/2\n\tout=Two.http://a/2\n\tdir=Morning News\n"
    );
}

#[test]
fn aria2_input_of_no_tracks_is_empty() {
    assert_eq!(Album::new().aria2_input(), "");
}

#[test]
fn aria2_input_grows_by_page() {
    let mut album = Album::new();
    album.next_page(Some(&page(vec![listing_entry(1, "A", "u/1.mp3")], true)));
    let before = album.aria2_input();
    album.next_page(Some(&page(vec![listing_entry(2, "B", "u/2.mp3")], false)));
    let after = album.aria2_input();
    assert_eq!(after, format!("{}u/2.mp3\n\tout=B.mp3\n\tdir=\n", before));
}

fn update_only_record(album_id: u64) -> JsonValue {
    obj(vec![
        ("album_id", n(album_id)),
        ("play_count", n(5)),
        ("comments_count", n(6)),
        ("shares_count", n(7)),
        ("favorites_count", n(8)),
        ("album_title", s("Album")),
        ("nickname", s("nick")),
        ("category_name", s("cat")),
    ])
}

#[test]
fn update_reads_only_what_it_needs() {
    let record = update_only_record(42);
    assert!(update_record_ok(&record));
    assert!(!detail_record_ok(&record));
    assert!(update_record_ok(&detail(1)));
    let mut t = Track::from_json(&listing_entry(5, "Five", "http://audio/5.mp3"));
    t.update(&record);
    assert_eq!(t.album_id, 42);
    assert_eq!((t.plays, t.comments, t.shares, t.likes), (5, 6, 7, 8));
    assert_eq!((t.album_title.as_str(), t.nickname.as_str(), t.category.as_str()), ("Album", "nick", "cat"));
    assert_eq!((t.id, t.duration, t.title.as_str()), (5, 125, "Five"));
    t.update(&update_only_record(43));
    assert_eq!(t.album_id, 42);
}

#[test]
fn update_record_check_rejects_missing_fields() {
    assert!(!update_record_ok(&obj(vec![("album_id", n(1))])));
    assert!(!update_record_ok(&JsonValue::Null));
}

#[test]
fn start_over_and_keep_only() {
    let mut album = Album::new();
    album.next_page(Some(&page(vec![listing_entry(1, "a", "x.mp3")], true)));
    album.start_over("77");
    assert!(album.tracks.is_empty());
    assert!(album.page_url(1).ends_with("albumId=77&pageNum=1"));
    album.keep_only(Track::fetch("9", &detail(77)));
    assert_eq!(album.tracks.len(), 1);
    assert_eq!(album.tracks[0].id, 9);
    assert!(album.page_url(1).ends_with("albumId=77&pageNum=1"));
}

#[test]
fn page_numbers() {
    assert_eq!(FIRST_PAGE, 1);
    assert_eq!(following_page(1), Some(2));
    assert_eq!(following_page(u32::MAX - 1), Some(u32::MAX));
    assert_eq!(following_page(u32::MAX), None);
}
