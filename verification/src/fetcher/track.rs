//! A track of an album, built from the site's JSON answers.
use vstd::prelude::*;

use crate::json::JsonValue;
use crate::text::{decimal, parsed_u64, push_decimal};

verus! {

/// Where the detail record of track `id` is served: the site's address, then
/// `/tracks/`, the id and `.json`.
pub open spec fn track_url_spec(id: Seq<char>) -> Seq<char> {
    "http://www.ximalaya.com/tracks/"@ + id + ".json"@
}

/// An entry of an album listing holds everything `Track::from_json` reads.
pub open spec fn is_listing_entry(entry: JsonValue) -> bool {
    &&& entry.at("trackId"@).u64_value() is Some
    &&& entry.at("duration"@).u64_value() is Some
    &&& entry.at("trackName"@).str_value() is Some
    &&& entry.at("trackCoverPath"@).str_value() is Some
    &&& entry.at("src"@).str_value() is Some
}

/// A detail record holds everything `Track::update` reads: the album, the
/// counters, the album title, the nickname and the category.
pub open spec fn is_update_record(detail: JsonValue) -> bool {
    &&& detail.at("album_id"@).u64_value() is Some
    &&& detail.at("play_count"@).u64_value() is Some
    &&& detail.at("comments_count"@).u64_value() is Some
    &&& detail.at("shares_count"@).u64_value() is Some
    &&& detail.at("favorites_count"@).u64_value() is Some
    &&& detail.at("album_title"@).str_value() is Some
    &&& detail.at("nickname"@).str_value() is Some
    &&& detail.at("category_name"@).str_value() is Some
}

/// A detail record holds everything `Track::fetch` reads.
pub open spec fn is_detail_record(detail: JsonValue) -> bool {
    &&& detail.at("album_id"@).u64_value() is Some
    &&& detail.at("duration"@).u64_value() is Some
    &&& detail.at("play_count"@).u64_value() is Some
    &&& detail.at("comments_count"@).u64_value() is Some
    &&& detail.at("shares_count"@).u64_value() is Some
    &&& detail.at("favorites_count"@).u64_value() is Some
    &&& detail.at("title"@).str_value() is Some
    &&& detail.at("album_title"@).str_value() is Some
    &&& detail.at("nickname"@).str_value() is Some
    &&& detail.at("category_name"@).str_value() is Some
    &&& detail.at("cover_url"@).str_value() is Some
    &&& detail.at("play_path"@).str_value() is Some
}

/// Whether `json[key]` is a number that fits in a `u64`.
fn has_u64(json: &JsonValue, key: &str) -> (r: bool)
    ensures
        r == (json.at(key@).u64_value() is Some),
{
    match json.get(key) {
        Some(v) => v.as_u64().is_some(),
        None => false,
    }
}

/// Whether `json[key]` is a string.
fn has_str(json: &JsonValue, key: &str) -> (r: bool)
    ensures
        r == (json.at(key@).str_value() is Some),
{
    match json.get(key) {
        Some(v) => v.as_str().is_some(),
        None => false,
    }
}

/// Whether `entry` can be handed to `Track::from_json`.
pub fn listing_entry_ok(entry: &JsonValue) -> (r: bool)
    ensures
        r == is_listing_entry(*entry),
{
    has_u64(entry, "trackId") && has_u64(entry, "duration") && has_str(entry, "trackName")
        && has_str(entry, "trackCoverPath") && has_str(entry, "src")
}

/// Whether `detail` can be handed to `Track::update`.
pub fn update_record_ok(detail: &JsonValue) -> (r: bool)
    ensures
        r == is_update_record(*detail),
{
    has_u64(detail, "album_id") && has_u64(detail, "play_count") && has_u64(
        detail,
        "comments_count",
    ) && has_u64(detail, "shares_count") && has_u64(detail, "favorites_count") && has_str(
        detail,
        "album_title",
    ) && has_str(detail, "nickname") && has_str(detail, "category_name")
}

/// Whether `detail` can be handed to `Track::fetch`.
pub fn detail_record_ok(detail: &JsonValue) -> (r: bool)
    ensures
        r == is_detail_record(*detail),
{
    has_u64(detail, "album_id") && has_u64(detail, "duration") && has_u64(detail, "play_count")
        && has_u64(detail, "comments_count") && has_u64(detail, "shares_count") && has_u64(
        detail,
        "favorites_count",
    ) && has_str(detail, "title") && has_str(detail, "album_title") && has_str(detail, "nickname")
        && has_str(detail, "category_name") && has_str(detail, "cover_url") && has_str(
        detail,
        "play_path",
    )
}

#[derive(Debug)]
pub struct Track {
    pub id: u64,
    pub album_id: u64,
    pub duration: u64,
    pub plays: u64,
    pub comments: u64,
    pub shares: u64,
    pub likes: u64,
    pub title: String,
    pub album_title: String,
    pub nickname: String,
    pub category: String,
    pub cover: String,
    pub src: String,
}

impl Track {
    /// `self` is the track that the album listing entry `entry` describes: what
    /// the listing gives is copied, the cover address gets `http://` in front,
    /// and what only the detail record gives is zero or empty.
    pub open spec fn listed_as(self, entry: JsonValue) -> bool {
        &&& Some(self.id) == entry.at("trackId"@).u64_value()
        &&& Some(self.duration) == entry.at("duration"@).u64_value()
        &&& Some(self.title@) == entry.at("trackName"@).str_value()
        &&& Some(self.src@) == entry.at("src"@).str_value()
        &&& self.cover@ == "http://"@ + entry.at("trackCoverPath"@).str_value().unwrap()
        &&& self.album_id == 0
        &&& self.plays == 0
        &&& self.comments == 0
        &&& self.shares == 0
        &&& self.likes == 0
        &&& self.album_title@ == Seq::<char>::empty()
        &&& self.nickname@ == Seq::<char>::empty()
        &&& self.category@ == Seq::<char>::empty()
    }

    /// The fields that a detail record gives hold its values.
    pub open spec fn detailed_as(self, detail: JsonValue) -> bool {
        &&& Some(self.album_id) == detail.at("album_id"@).u64_value()
        &&& Some(self.plays) == detail.at("play_count"@).u64_value()
        &&& Some(self.comments) == detail.at("comments_count"@).u64_value()
        &&& Some(self.shares) == detail.at("shares_count"@).u64_value()
        &&& Some(self.likes) == detail.at("favorites_count"@).u64_value()
        &&& Some(self.album_title@) == detail.at("album_title"@).str_value()
        &&& Some(self.nickname@) == detail.at("nickname"@).str_value()
        &&& Some(self.category@) == detail.at("category_name"@).str_value()
    }

    /// `self` is the track with the given id that the detail record describes.
    pub open spec fn fetched_as(self, id: Seq<char>, detail: JsonValue) -> bool {
        &&& Some(self.id) == parsed_u64(id)
        &&& self.detailed_as(detail)
        &&& Some(self.duration) == detail.at("duration"@).u64_value()
        &&& Some(self.title@) == detail.at("title"@).str_value()
        &&& Some(self.cover@) == detail.at("cover_url"@).str_value()
        &&& Some(self.src@) == detail.at("play_path"@).str_value()
    }

    /// `after` is `before` once `update` has read `detail`: a track that knows its
    /// album already is left as it is; any other takes the album, the counters,
    /// the album title, the nickname and the category from the record and keeps
    /// its id, title, duration, cover and source.
    pub open spec fn updated_from(after: Track, before: Track, detail: JsonValue) -> bool {
        if before.album_id != 0 {
            after == before
        } else {
            &&& after.detailed_as(detail)
            &&& after.id == before.id
            &&& after.duration == before.duration
            &&& after.title == before.title
            &&& after.cover == before.cover
            &&& after.src == before.src
        }
    }

    /// Builds the track that an entry of an album listing describes.
    pub fn from_json(json: &JsonValue) -> (t: Track)
        requires
            is_listing_entry(*json),
        ensures
            t.listed_as(*json),
    {
        let mut cover = String::from_str("http://");
        let path = json.string_at("trackCoverPath");
        cover.append(path.as_str());
        Track {
            id: json.u64_at("trackId"),
            album_id: 0,
            duration: json.u64_at("duration"),
            plays: 0,
            comments: 0,
            shares: 0,
            likes: 0,
            title: json.string_at("trackName"),
            album_title: String::new(),
            nickname: String::new(),
            category: String::new(),
            cover,
            src: json.string_at("src"),
        }
    }

    /// The address of the detail record of the track with the given id.
    pub fn track_url(id: &str) -> (r: String)
        ensures
            r@ == track_url_spec(id@),
    {
        let mut url = String::from_str("http://www.ximalaya.com/tracks/");
        url.append(id);
        url.append(".json");
        url
    }

    /// Builds track `id` from its detail record (fetched from `track_url(id)`).
    pub fn fetch(id: &str, detail: &JsonValue) -> (t: Track)
        requires
            parsed_u64(id@) is Some,
            is_detail_record(*detail),
        ensures
            t.fetched_as(id@, *detail),
    {
        let number = match crate::text::parse_u64(id) {
            Some(n) => n,
            None => 0,
        };
        Track {
            id: number,
            album_id: detail.u64_at("album_id"),
            duration: detail.u64_at("duration"),
            plays: detail.u64_at("play_count"),
            comments: detail.u64_at("comments_count"),
            shares: detail.u64_at("shares_count"),
            likes: detail.u64_at("favorites_count"),
            title: detail.string_at("title"),
            album_title: detail.string_at("album_title"),
            nickname: detail.string_at("nickname"),
            category: detail.string_at("category_name"),
            cover: detail.string_at("cover_url"),
            src: detail.string_at("play_path"),
        }
    }

    /// The address of the detail record that `update` needs, or `None` when the
    /// track already knows its album and `update` reads nothing.
    pub fn update_url(&self) -> (r: Option<String>)
        ensures
            self.album_id != 0 ==> r is None,
            self.album_id == 0 ==> r is Some && r.unwrap()@ == track_url_spec(
                decimal(self.id as nat),
            ),
    {
        if self.album_id != 0 {
            return None;
        }
        let mut url = String::from_str("http://www.ximalaya.com/tracks/");
        push_decimal(&mut url, self.id);
        url.append(".json");
        Some(url)
    }

    /// Completes a track from its detail record (fetched from `update_url`):
    /// a track that knows its album already stays as it is.
    pub fn update(&mut self, detail: &JsonValue)
        requires
            old(self).album_id == 0 ==> is_update_record(*detail),
        ensures
            Track::updated_from(*final(self), *old(self), *detail),
    {
        if self.album_id != 0 {
            return;
        }
        self.album_id = detail.u64_at("album_id");
        self.plays = detail.u64_at("play_count");
        self.comments = detail.u64_at("comments_count");
        self.shares = detail.u64_at("shares_count");
        self.likes = detail.u64_at("favorites_count");
        self.album_title = detail.string_at("album_title");
        self.nickname = detail.string_at("nickname");
        self.category = detail.string_at("category_name");
    }
}

/// Law: `update` settles a track. Once a record with an album has been read,
/// a second `update`, with any record, changes nothing.
pub proof fn lemma_update_settles(
    first: Track,
    second: Track,
    third: Track,
    detail: JsonValue,
    later: JsonValue,
)
    requires
        Track::updated_from(second, first, detail),
        Track::updated_from(third, second, later),
        first.album_id == 0 ==> detail.at("album_id"@).u64_value() != Some(0u64),
    ensures
        third == second,
{
}

} // verus!
