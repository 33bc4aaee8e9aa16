//! An album: its listing address, its name and the tracks read so far.
use vstd::prelude::*;

use super::track::{is_listing_entry, listing_entry_ok, Track};
use crate::json::JsonValue;
use crate::text::{decimal, last_field, last_field_of, push_decimal};

verus! {

/// Where the listing of an album is served; the album id follows.
pub const ALBUM_URL: &'static str = "https://www.ximalaya.com/revision/play/album?albumId=";

/// The number of the first page of a listing.
pub const FIRST_PAGE: u32 = 1;

/// The number of the page after `page_num`, or `None` when the numbers run out.
pub fn following_page(page_num: u32) -> (r: Option<u32>)
    ensures
        r == (if page_num < u32::MAX {
            Some((page_num + 1) as u32)
        } else {
            None
        }),
{
    if page_num < u32::MAX {
        Some(page_num + 1)
    } else {
        None
    }
}

/// The tracks of a listing page: `page["data"]["tracksAudioPlay"]` as an array.
pub open spec fn page_tracks(page: JsonValue) -> Option<Seq<JsonValue>> {
    page.at("data"@).at("tracksAudioPlay"@).items()
}

/// Whether more pages follow: `page["data"]["hasMore"]` as a boolean.
pub open spec fn page_has_more(page: JsonValue) -> Option<bool> {
    page.at("data"@).at("hasMore"@).bool_value()
}

/// The album name that a listing page gives with its first track:
/// `page["data"]["tracksAudioPlay"][0]["albumName"]` as a string.
pub open spec fn page_album_name(page: JsonValue) -> Option<Seq<char>> {
    page.at("data"@).at("tracksAudioPlay"@).nth(0).at("albumName"@).str_value()
}

/// A listing page holds everything `next_page` reads: an array of tracks, each
/// a complete listing entry, and, when the array is not empty, whether more
/// pages follow.
pub open spec fn is_album_page(page: JsonValue) -> bool {
    &&& page_tracks(page) is Some
    &&& forall|i: int|
        0 <= i < page_tracks(page).unwrap().len() ==> is_listing_entry(
            #[trigger] page_tracks(page).unwrap()[i],
        )
    &&& page_tracks(page).unwrap().len() > 0 ==> page_has_more(page) is Some
}

/// The entry that aria2 reads for one track: the download address, then the
/// file name (the title with the extension of the address) and the directory
/// (the album name), each on an indented line of its own.
pub open spec fn aria2_entry(src: Seq<char>, title: Seq<char>, dir: Seq<char>) -> Seq<char> {
    src + "\n\tout="@ + title + "."@ + last_field(src, '.') + "\n\tdir="@ + dir + "\n"@
}

/// The aria2 input file for the given tracks stored under `dir`: their entries,
/// in order.
pub open spec fn aria2_input_spec(tracks: Seq<Track>, dir: Seq<char>) -> Seq<char>
    decreases tracks.len(),
{
    if tracks.len() == 0 {
        Seq::empty()
    } else {
        aria2_input_spec(tracks.drop_last(), dir) + aria2_entry(
            tracks.last().src@,
            tracks.last().title@,
            dir,
        )
    }
}

/// `page["data"]["tracksAudioPlay"]`, when it is present.
fn page_track_list(page: &JsonValue) -> (r: Option<&JsonValue>)
    ensures
        match r {
            Some(list) => page.at("data"@).at("tracksAudioPlay"@) == *list,
            None => page.at("data"@).at("tracksAudioPlay"@) == JsonValue::Null,
        },
{
    match page.get("data") {
        Some(data) => data.get("tracksAudioPlay"),
        None => None,
    }
}

/// Whether `page` can be handed to `Album::next_page`.
pub fn album_page_ok(page: &JsonValue) -> (r: bool)
    ensures
        r == is_album_page(*page),
{
    let items = match page_track_list(page) {
        Some(list) => match list.as_array() {
            Some(items) => items,
            None => {
                return false;
            },
        },
        None => {
            return false;
        },
    };
    let n = items.len();
    let mut i: usize = 0;
    while i < n
        invariant
            0 <= i <= n,
            n == items@.len(),
            Some(items@) == page_tracks(*page),
            forall|j: int| 0 <= j < i ==> is_listing_entry(#[trigger] items@[j]),
        decreases n - i,
    {
        if !listing_entry_ok(&items[i]) {
            return false;
        }
        i = i + 1;
    }
    if n == 0 {
        return true;
    }
    match page.get("data") {
        Some(data) => match data.get("hasMore") {
            Some(more) => more.as_bool().is_some(),
            None => false,
        },
        None => false,
    }
}

/// Whether `page` can be handed to `Album::set_name_from`.
pub fn name_page_ok(page: &JsonValue) -> (r: bool)
    ensures
        r == (page_album_name(*page) is Some),
{
    match page_track_list(page) {
        Some(list) => match list.as_array() {
            Some(items) => items.len() > 0 && match items[0].get("albumName") {
                Some(name) => name.as_str().is_some(),
                None => false,
            },
            None => false,
        },
        None => false,
    }
}

/// What `next_page` asks of its caller.
#[derive(Debug, PartialEq, Eq, Clone, Copy)]
pub enum PageStep {
    /// Fetch the next page and hand it to `next_page`.
    Next,
    /// The listing is complete.
    Done,
    /// The listing is complete once the album name is known: fetch the page at
    /// `name_url` and hand it to `set_name_from`.
    NameThenDone,
}

#[derive(Debug)]
pub struct Album {
    url: String,
    name: String,
    pub tracks: Vec<Track>,
}

impl Album {
    /// The listing address, without the page parameters.
    pub closed spec fn url_spec(self) -> Seq<char> {
        self.url@
    }

    /// The tracks read so far, in listing order.
    pub closed spec fn track_list(self) -> Seq<Track> {
        self.tracks@
    }

    /// The album name; empty until the last page has been read.
    pub closed spec fn name_spec(self) -> Seq<char> {
        self.name@
    }

    /// An album with no id, no name and no tracks.
    pub fn new() -> (a: Album)
        ensures
            a.url_spec() == Seq::<char>::empty(),
            a.name_spec() == Seq::<char>::empty(),
            a.track_list() == Seq::<Track>::empty(),
    {
        Album { url: String::new(), name: String::new(), tracks: vec![] }
    }

    /// Points the album at the listing of album `id`; name and tracks stay.
    pub fn set_id(&mut self, id: &str) -> (r: &mut Self)
        ensures
            r.url_spec() == ALBUM_URL@ + id@,
            r.name_spec() == old(self).name_spec(),
            r.track_list() == old(self).track_list(),
            *final(self) == *final(r),
    {
        let mut url = String::from_str(ALBUM_URL);
        url.append(id);
        self.url = url;
        self
    }

    /// Points the album at album `id` and drops the tracks read so far (what
    /// the Fetch button does first); the name stays.
    pub fn start_over(&mut self, id: &str)
        ensures
            final(self).url_spec() == ALBUM_URL@ + id@,
            final(self).name_spec() == old(self).name_spec(),
            final(self).track_list() == Seq::<Track>::empty(),
    {
        self.set_id(id).tracks.clear();
    }

    /// Makes `track` the only track of the album (a fetched track address);
    /// the address and the name stay.
    pub fn keep_only(&mut self, track: Track)
        ensures
            final(self).url_spec() == old(self).url_spec(),
            final(self).name_spec() == old(self).name_spec(),
            final(self).track_list() == seq![track],
    {
        self.tracks = vec![track];
    }

    /// The address of listing page `page_num`.
    pub fn page_url(&self, page_num: u32) -> (r: String)
        ensures
            r@ == self.url_spec() + "&pageNum="@ + decimal(page_num as nat),
    {
        let mut url = self.url.clone();
        url.append("&pageNum=");
        push_decimal(&mut url, page_num as u64);
        url
    }

    /// The address of the page that gives the album name: the first page,
    /// with one track per page.
    pub fn name_url(&self) -> (r: String)
        ensures
            r@ == self.url_spec() + "&pageNum=1&pageSize=1"@,
    {
        let mut url = self.url.clone();
        url.append("&pageNum=1&pageSize=1");
        url
    }

    /// Reads a listing page; `None` stands for an answer that is no JSON.
    /// An empty page, or no page, ends the listing and changes nothing.
    /// Otherwise its tracks are appended in order, and the listing goes on
    /// while the page says that more follow; after the last page the album
    /// name is still to be read.
    pub fn next_page(&mut self, page: Option<&JsonValue>) -> (step: PageStep)
        requires
            page matches Some(p) ==> is_album_page(*p),
        ensures
            match page {
                None => step == PageStep::Done && *final(self) == *old(self),
                Some(p) => {
                    let items = page_tracks(*p).unwrap();
                    if items.len() == 0 {
                        step == PageStep::Done && *final(self) == *old(self)
                    } else {
                        &&& final(self).url_spec() == old(self).url_spec()
                        &&& final(self).name_spec() == old(self).name_spec()
                        &&& final(self).track_list().len() == old(self).track_list().len() + items.len()
                        &&& final(self).track_list().take(old(self).track_list().len() as int)
                            == old(self).track_list()
                        &&& forall|k: int|
                            0 <= k < items.len() ==> (#[trigger] final(self).track_list()[old(
                                self,
                            ).track_list().len() + k]).listed_as(items[k])
                        &&& step == (if page_has_more(*p).unwrap() {
                            PageStep::Next
                        } else {
                            PageStep::NameThenDone
                        })
                    }
                },
            },
    {
        let p = match page {
            Some(p) => p,
            None => {
                return PageStep::Done;
            },
        };
        let data = match p.get("data") {
            Some(d) => d,
            None => {
                return PageStep::Done;
            },
        };
        let list = match data.get("tracksAudioPlay") {
            Some(l) => l,
            None => {
                return PageStep::Done;
            },
        };
        let items = match list.as_array() {
            Some(items) => items,
            None => {
                return PageStep::Done;
            },
        };
        if items.len() == 0 {
            return PageStep::Done;
        }
        let n = items.len();
        let ghost old_tracks = self.tracks@;
        let mut k: usize = 0;
        while k < n
            invariant
                0 <= k <= n,
                n == items@.len(),
                Some(items@) == page_tracks(*p),
                is_album_page(*p),
                self.url == old(self).url,
                self.name == old(self).name,
                old_tracks == old(self).track_list(),
                self.tracks@.len() == old_tracks.len() + k,
                self.tracks@.take(old_tracks.len() as int) == old_tracks,
                forall|j: int|
                    0 <= j < k ==> (#[trigger] self.tracks@[old_tracks.len() + j]).listed_as(
                        items@[j],
                    ),
            decreases n - k,
        {
            assert(is_listing_entry(page_tracks(*p).unwrap()[k as int]));
            let t = Track::from_json(&items[k]);
            let ghost before = self.tracks@;
            self.tracks.push(t);
            assert(self.tracks@.take(old_tracks.len() as int) =~= before.take(
                old_tracks.len() as int,
            ));
            assert forall|j: int| 0 <= j < k + 1 implies (#[trigger] self.tracks@[old_tracks.len()
                + j]).listed_as(items@[j]) by {
                if j < k {
                    assert(self.tracks@[old_tracks.len() + j] == before[old_tracks.len() + j]);
                }
            }
            k = k + 1;
        }
        let more = match data.get("hasMore") {
            Some(h) => match h.as_bool() {
                Some(b) => b,
                None => false,
            },
            None => false,
        };
        if more {
            PageStep::Next
        } else {
            PageStep::NameThenDone
        }
    }

    /// Takes the album name from the page served at `name_url`.
    pub fn set_name_from(&mut self, name_page: &JsonValue)
        requires
            page_album_name(*name_page) is Some,
        ensures
            final(self).name_spec() == page_album_name(*name_page).unwrap(),
            final(self).url_spec() == old(self).url_spec(),
            final(self).track_list() == old(self).track_list(),
    {
        let name = match name_page.get("data") {
            Some(data) => match data.get("tracksAudioPlay") {
                Some(list) => match list.as_array() {
                    Some(items) => if items.len() > 0 {
                        items[0].string_at("albumName")
                    } else {
                        String::new()
                    },
                    None => String::new(),
                },
                None => String::new(),
            },
            None => String::new(),
        };
        self.name = name;
    }

    /// The name of the aria2 input file: the album name and `.ax`.
    pub fn aria2_file_name(&self) -> (r: String)
        ensures
            r@ == self.name_spec() + ".ax"@,
    {
        let mut file = self.name.clone();
        file.append(".ax");
        file
    }

    /// The aria2 input file (for its `-i` option) that downloads every track
    /// into a directory named after the album.
    pub fn aria2_input(&self) -> (r: String)
        ensures
            r@ == aria2_input_spec(self.track_list(), self.name_spec()),
    {
        let mut out = String::new();
        let n = self.tracks.len();
        let mut i: usize = 0;
        assert(self.tracks@.take(0) =~= Seq::<Track>::empty());
        while i < n
            invariant
                0 <= i <= n,
                n == self.tracks@.len(),
                out@ == aria2_input_spec(self.tracks@.take(i as int), self.name@),
            decreases n - i,
        {
            let track = &self.tracks[i];
            let ext = last_field_of(track.src.as_str(), '.');
            out.append(track.src.as_str());
            out.append("\n\tout=");
            out.append(track.title.as_str());
            out.append(".");
            out.append(ext.as_str());
            out.append("\n\tdir=");
            out.append(self.name.as_str());
            out.append("\n");
            let ghost prefix = self.tracks@.take(i as int + 1);
            assert(prefix.drop_last() =~= self.tracks@.take(i as int));
            assert(prefix.last() == self.tracks@[i as int]);
            assert(out@ =~= aria2_input_spec(prefix, self.name@));
            i = i + 1;
        }
        assert(self.tracks@.take(n as int) =~= self.tracks@);
        out
    }
}

/// Law: a listing page is accepted exactly when its data holds an array of
/// complete listing entries and, when that array is not empty, a boolean
/// `hasMore`: the last page (`false`) is accepted as much as any other.
pub proof fn lemma_album_page_accepted(page: JsonValue)
    ensures
        is_album_page(page) <==> (page.at("data"@).at("tracksAudioPlay"@).items() matches Some(
            items,
        ) && (forall|i: int| 0 <= i < items.len() ==> is_listing_entry(#[trigger] items[i])) && (
        items.len() > 0 ==> (page.at("data"@).at("hasMore"@).bool_value() == Some(true)
            || page.at("data"@).at("hasMore"@).bool_value() == Some(false)))),
{
}

/// Law: the album name is read from the first track of the page, and a page
/// with at least one track whose first track names its album gives that name.
pub proof fn lemma_album_name_of_first_track(page: JsonValue, items: Seq<JsonValue>, name: Seq<char>)
    requires
        page.at("data"@).at("tracksAudioPlay"@).items() == Some(items),
        items.len() >= 1,
        items[0].at("albumName"@).str_value() == Some(name),
    ensures
        page_album_name(page) == Some(name),
{
}

/// Law: a page gives an album name only when it holds an array of tracks whose
/// first track carries that name.
pub proof fn lemma_album_name_needs_first_track(page: JsonValue)
    ensures
        page_album_name(page) matches Some(name) ==> (page.at("data"@).at(
            "tracksAudioPlay"@,
        ).items() matches Some(items) && items.len() >= 1 && items[0].at("albumName"@).str_value()
            == Some(name)),
{
}

/// Law: in the entry of a track, the stored file is named by the title, a dot,
/// and the extension of the download address: everything after its last dot,
/// or the whole address when it holds no dot. The extension holds no dot.
pub proof fn lemma_aria2_entry_extension(src: Seq<char>, title: Seq<char>, dir: Seq<char>)
    ensures
        exists|k: int|
            0 <= k <= src.len() && (k == 0 || src[k - 1] == '.') && (forall|j: int|
                k <= j < src.len() ==> src[j] != '.') && aria2_entry(src, title, dir) == src
                + "\n\tout="@ + title + "."@ + src.skip(k) + "\n\tdir="@ + dir + "\n"@,
{
    crate::text::lemma_last_field_after_last_separator(src, '.');
    let ext = last_field(src, '.');
    let k = src.len() - ext.len();
    assert forall|j: int| k <= j < src.len() implies src[j] != '.' by {
        assert(src[j] == src.skip(k)[j - k]);
        assert(ext[j - k] != '.');
    }
    assert(0 <= k <= src.len() && (k == 0 || src[k - 1] == '.') && (forall|j: int|
        k <= j < src.len() ==> src[j] != '.') && aria2_entry(src, title, dir) == src
        + "\n\tout="@ + title + "."@ + src.skip(k) + "\n\tdir="@ + dir + "\n"@);
}

/// Law: the aria2 input file of an album with one track is that track's entry.
pub proof fn lemma_aria2_input_one_track(t: Track, dir: Seq<char>)
    ensures
        aria2_input_spec(seq![t], dir) == aria2_entry(t.src@, t.title@, dir),
{
    assert(seq![t].drop_last() =~= Seq::<Track>::empty());
    assert(aria2_input_spec(Seq::<Track>::empty(), dir) == Seq::<char>::empty());
    assert(seq![t].last() == t);
    assert(Seq::<char>::empty() + aria2_entry(t.src@, t.title@, dir) =~= aria2_entry(
        t.src@,
        t.title@,
        dir,
    ));
}

/// Law: the aria2 input file of two runs of tracks is the file of the first run
/// followed by the file of the second, so reading another page only appends
/// the entries of its tracks.
pub proof fn lemma_aria2_input_append(first: Seq<Track>, second: Seq<Track>, dir: Seq<char>)
    ensures
        aria2_input_spec(first + second, dir) == aria2_input_spec(first, dir) + aria2_input_spec(
            second,
            dir,
        ),
    decreases second.len(),
{
    if second.len() == 0 {
        assert(first + second =~= first);
        assert(aria2_input_spec(first, dir) + aria2_input_spec(second, dir) =~= aria2_input_spec(
            first,
            dir,
        ));
    } else {
        lemma_aria2_input_append(first, second.drop_last(), dir);
        assert((first + second).drop_last() =~= first + second.drop_last());
        assert((first + second).last() == second.last());
        let e = aria2_entry(second.last().src@, second.last().title@, dir);
        assert(aria2_input_spec(first, dir) + aria2_input_spec(second.drop_last(), dir) + e
            =~= aria2_input_spec(first, dir) + (aria2_input_spec(second.drop_last(), dir) + e));
    }
}

} // verus!
