use xmly_exporter::fetcher::track::Track;
use xmly_exporter::ui::event_loop::{EventLoop, FRAME_NANOS};
use xmly_exporter::ui::{
    cover_changed, export_allowed, on_paste, pasted, url_ids, FetchTarget, TrackInfo,
    URL_PLACEHOLDER,
};

const ALBUM: &str = "https://www.ximalaya.com/toutiao/4308484/";
const TRACK: &str = "https://www.ximalaya.com/toutiao/4308484/147135825";

fn track(duration: u64) -> Track {
    Track {
        id: 147135825,
        album_id: 4308484,
        duration,
        plays: 12345,
        comments: 0,
        shares: 7,
        likes: 89,
        title: "Episode".to_string(),
        album_title: "Morning News".to_string(),
        nickname: "host".to_string(),
        category: "news".to_string(),
        cover: "http://img/c.jpg".to_string(),
        src: "http://audio/e.m4a".to_string(),
    }
}

#[test]
fn ids_of_album_and_track_addresses() {
    assert_eq!(url_ids(ALBUM), vec!["4308484".to_string()]);
    assert_eq!(url_ids(TRACK), vec!["4308484".to_string(), "147135825".to_string()]);
    assert!(url_ids(URL_PLACEHOLDER).is_empty());
    assert!(url_ids("").is_empty());
}

#[test]
fn ids_skip_empty_and_mixed_parts() {
    assert_eq!(url_ids("a//12/3b/45"), vec!["12".to_string(), "45".to_string()]);
    assert_eq!(url_ids("7"), vec!["7".to_string()]);
    assert_eq!(url_ids("/0/"), vec!["0".to_string()]);
    assert!(url_ids("x1/2y/").is_empty());
}

#[test]
fn ids_agree_with_split_and_filter() {
    for url in [ALBUM, TRACK, "a//12/3b/45", "/", "", "1/2/3", "١٢/34"] {
        let expected: Vec<String> = url
            .split('/')
            .filter(|s| !s.is_empty() && s.chars().all(|c| c.is_digit(10)))
            .map(|s| s.to_string())
            .collect();
        assert_eq!(url_ids(url), expected, "{:?}", url);
    }
}

#[test]
fn paste_album_address() {
    let (url, target) = on_paste(URL_PLACEHOLDER, ALBUM);
    assert_eq!(url, ALBUM);
    assert_eq!(target, FetchTarget::Album { album_id: "4308484".to_string() });
}

#[test]
fn paste_track_address() {
    let (url, target) = on_paste(ALBUM, TRACK);
    assert_eq!(url, TRACK);
    assert_eq!(
        target,
        FetchTarget::Track { album_id: "4308484".to_string(), track_id: "147135825".to_string() }
    );
}

#[test]
fn paste_of_same_text_does_nothing() {
    let (url, target) = on_paste(ALBUM, ALBUM);
    assert_eq!(url, ALBUM);
    assert_eq!(target, FetchTarget::Nothing);
}

#[test]
fn paste_without_http_keeps_address_and_fetches_it_again() {
    assert_eq!(pasted(ALBUM, "4308484"), ALBUM);
    let (url, target) = on_paste(ALBUM, "hello");
    assert_eq!(url, ALBUM);
    assert_eq!(target, FetchTarget::Album { album_id: "4308484".to_string() });
}

#[test]
fn paste_without_ids_fetches_nothing() {
    let (url, target) = on_paste(URL_PLACEHOLDER, "https://www.ximalaya.com/");
    assert_eq!(url, "https://www.ximalaya.com/");
    assert_eq!(target, FetchTarget::Nothing);
    let (url, target) = on_paste(URL_PLACEHOLDER, "not a link");
    assert_eq!(url, URL_PLACEHOLDER);
    assert_eq!(target, FetchTarget::Nothing);
}

#[test]
fn paste_with_three_ids_is_unsupported() {
    let (url, target) = on_paste(URL_PLACEHOLDER, "http://1/2/3");
    assert_eq!(url, "http://1/2/3");
    assert_eq!(target, FetchTarget::Unsupported { album_id: "1".to_string() });
    let (_, target) = on_paste("http://1/2/3", "http://1/2/3");
    assert_eq!(target, FetchTarget::Nothing);
}

#[test]
fn export_only_after_an_address() {
    assert!(!export_allowed(URL_PLACEHOLDER));
    assert!(export_allowed(ALBUM));
    assert!(export_allowed(""));
    assert!(!export_allowed("A"));
}

#[test]
fn track_texts() {
    let info = TrackInfo::of(&track(125));
    assert_eq!(info.id, "147135825");
    assert_eq!(info.title_src, "Episode http://audio/e.m4a");
    assert_eq!(info.album_title, "Morning News");
    assert_eq!(info.album_id, "4308484");
    assert_eq!(info.category, "Category: news");
    assert_eq!(info.nickname, "Nickname: host");
    assert_eq!(info.duration, "Duration: 2:50");
    assert_eq!(info.plays, "Plays: 12345");
    assert_eq!(info.comments, "Comments: 0");
    assert_eq!(info.shares, "Shares: 7");
    assert_eq!(info.likes, "Likes: 89");
}

#[test]
fn duration_text_pads_seconds_on_the_right() {
    for (d, text) in [(0, "0:00"), (5, "0:50"), (59, "0:59"), (60, "1:00"), (61, "1:10"), (3671, "61:11")] {
        assert_eq!(TrackInfo::of(&track(d)).duration, format!("Duration: {}", text));
        assert_eq!(text, format!("{}:{:0<2}", d / 60, d % 60));
    }
}

#[test]
fn event_loop_sleeps_out_the_frame() {
    let e = EventLoop::new(1_000);
    assert_eq!(e.sleep_before_poll(1_000), FRAME_NANOS);
    assert_eq!(e.sleep_before_poll(1_000 + 5_000_000), 11_000_000);
    assert_eq!(e.sleep_before_poll(1_000 + FRAME_NANOS), 0);
    assert_eq!(e.sleep_before_poll(1_000 + 40_000_000), 0);
    assert_eq!(e.sleep_before_poll(0), FRAME_NANOS);
}

#[test]
fn event_loop_waits_only_when_idle() {
    let mut e = EventLoop::new(0);
    assert!(!e.waits(true));
    e.finish(20_000_000);
    assert!(e.waits(true));
    assert!(!e.waits(false));
    assert_eq!(e.sleep_before_poll(30_000_000), 6_000_000);
    e.needs_update();
    assert!(!e.waits(true));
}

#[test]
fn button_labels_and_empty_texts() {
    let empty = TrackInfo::empty();
    assert_eq!(empty.id_label(), "Track id: ");
    assert_eq!(empty.album_title_label(), "Album: ");
    assert_eq!(empty.album_id_label(), "Album id: ");
    assert!(empty.title_src.is_empty() && empty.duration.is_empty() && empty.likes.is_empty());
    let info = TrackInfo::of(&track(1));
    assert_eq!(info.id_label(), "Track id: 147135825");
    assert_eq!(info.album_title_label(), "Album: Morning News");
    assert_eq!(info.album_id_label(), "Album id: 4308484");
}

#[test]
fn cover_reloads_only_for_another_address() {
    let t = track(1);
    assert!(!cover_changed("http://img/c.jpg", &t));
    assert!(cover_changed("", &t));
    assert!(cover_changed("http://img/d.jpg", &t));
}
