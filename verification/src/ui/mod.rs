//! What the window decides: which album or track an address points at, when
//! exporting is offered, and the texts shown for a selected track.
use vstd::prelude::*;

use crate::fetcher::track::Track;
use crate::text::{all_digits, decimal, is_digit, push_decimal, split_fields};

pub mod event_loop;

verus! {

/// The text that the address line shows before anything was pasted.
pub const URL_PLACEHOLDER: &'static str = "Album or Track url";

/// A field of an address that is an id: a non-empty run of ASCII digits.
pub open spec fn is_id_field(f: Seq<char>) -> bool {
    f.len() > 0 && all_digits(f)
}

/// The fields that are ids, in order.
pub open spec fn id_fields(fields: Seq<Seq<char>>) -> Seq<Seq<char>>
    decreases fields.len(),
{
    if fields.len() == 0 {
        Seq::empty()
    } else if is_id_field(fields.last()) {
        id_fields(fields.drop_last()).push(fields.last())
    } else {
        id_fields(fields.drop_last())
    }
}

/// The ids in an address: the parts between `/` that are all digits. An album
/// address holds the album id; a track address the album id, then the track id.
pub open spec fn url_ids_spec(url: Seq<char>) -> Seq<Seq<char>> {
    id_fields(split_fields(url, '/'))
}

/// The ids among some fields are fields among them that are ids.
proof fn lemma_id_fields(fields: Seq<Seq<char>>)
    ensures
        forall|i: int|
            0 <= i < id_fields(fields).len() ==> is_id_field(#[trigger] id_fields(fields)[i])
                && fields.contains(id_fields(fields)[i]),
    decreases fields.len(),
{
    if fields.len() > 0 {
        let init = fields.drop_last();
        lemma_id_fields(init);
        assert forall|i: int| 0 <= i < id_fields(fields).len() implies is_id_field(
            #[trigger] id_fields(fields)[i],
        ) && fields.contains(id_fields(fields)[i]) by {
            if i < id_fields(init).len() {
                assert(id_fields(fields)[i] == id_fields(init)[i]);
                let k = choose|k: int| 0 <= k < init.len() && init[k] == id_fields(init)[i];
                assert(fields[k] == init[k]);
            } else {
                assert(fields[fields.len() - 1] == fields.last());
            }
        }
    }
}

/// Law: every id that an address yields is a non-empty run of ASCII digits and
/// one of the `/`-separated parts of the address.
pub proof fn lemma_ids_are_numeric_fields(url: Seq<char>)
    ensures
        forall|i: int|
            0 <= i < url_ids_spec(url).len() ==> is_id_field(#[trigger] url_ids_spec(url)[i])
                && split_fields(url, '/').contains(url_ids_spec(url)[i]),
{
    lemma_id_fields(split_fields(url, '/'));
}

/// `s` starts with `http`.
pub open spec fn starts_with_http(s: Seq<char>) -> bool {
    s.len() >= 4 && s[0] == 'h' && s[1] == 't' && s[2] == 't' && s[3] == 'p'
}

/// The address line after `paste` was read from the clipboard: a different
/// text that starts with `http` replaces it; anything else leaves it.
pub open spec fn pasted_url(current: Seq<char>, paste: Seq<char>) -> Seq<char> {
    if current != paste && starts_with_http(paste) {
        paste
    } else {
        current
    }
}

/// What the Fetch button fetches.
#[derive(Debug, PartialEq, Eq)]
pub enum FetchTarget {
    /// Nothing at all.
    Nothing,
    /// Every page of the listing of the album.
    Album { album_id: String },
    /// The one track of the album.
    Track { album_id: String, track_id: String },
    /// An address with more than two ids, neither an album nor a track: the
    /// album is pointed at the first id and emptied, and then the window stops.
    Unsupported { album_id: String },
}

/// The texts shown for the selected track, and copied by its buttons.
#[derive(Debug)]
pub struct TrackInfo {
    pub id: String,
    pub title_src: String,
    pub album_title: String,
    pub album_id: String,
    pub category: String,
    pub nickname: String,
    pub duration: String,
    pub plays: String,
    pub comments: String,
    pub shares: String,
    pub likes: String,
}

/// `s` filled up with `fill` on the right to at least `width` characters, as
/// `format!` does for `{:<width$}` with that fill.
pub open spec fn pad_right(s: Seq<char>, fill: char, width: nat) -> Seq<char>
    decreases width - s.len(),
{
    if s.len() >= width {
        s
    } else {
        pad_right(s.push(fill), fill, width)
    }
}

/// The duration text: minutes, a colon, and the seconds as `{:0<2}` writes
/// them, left-aligned and filled with `0` to two characters.
pub open spec fn duration_text(duration: u64) -> Seq<char> {
    "Duration: "@ + decimal((duration / 60) as nat) + ":"@ + pad_right(
        decimal((duration % 60) as nat),
        '0',
        2,
    )
}

impl TrackInfo {
    /// The texts before any track was selected: all empty.
    pub fn empty() -> (info: TrackInfo)
        ensures
            info.id@ == Seq::<char>::empty(),
            info.title_src@ == Seq::<char>::empty(),
            info.album_title@ == Seq::<char>::empty(),
            info.album_id@ == Seq::<char>::empty(),
            info.category@ == Seq::<char>::empty(),
            info.nickname@ == Seq::<char>::empty(),
            info.duration@ == Seq::<char>::empty(),
            info.plays@ == Seq::<char>::empty(),
            info.comments@ == Seq::<char>::empty(),
            info.shares@ == Seq::<char>::empty(),
            info.likes@ == Seq::<char>::empty(),
    {
        TrackInfo {
            id: String::new(),
            title_src: String::new(),
            album_title: String::new(),
            album_id: String::new(),
            category: String::new(),
            nickname: String::new(),
            duration: String::new(),
            plays: String::new(),
            comments: String::new(),
            shares: String::new(),
            likes: String::new(),
        }
    }

    /// The label of the button that copies the track id.
    pub fn id_label(&self) -> (r: String)
        ensures
            r@ == "Track id: "@ + self.id@,
    {
        let mut label = String::from_str("Track id: ");
        label.append(self.id.as_str());
        label
    }

    /// The label of the button that copies the album title.
    pub fn album_title_label(&self) -> (r: String)
        ensures
            r@ == "Album: "@ + self.album_title@,
    {
        let mut label = String::from_str("Album: ");
        label.append(self.album_title.as_str());
        label
    }

    /// The label of the button that copies the album id.
    pub fn album_id_label(&self) -> (r: String)
        ensures
            r@ == "Album id: "@ + self.album_id@,
    {
        let mut label = String::from_str("Album id: ");
        label.append(self.album_id.as_str());
        label
    }

    /// `self` holds the texts of `t`.
    pub open spec fn shows(self, t: Track) -> bool {
        &&& self.id@ == decimal(t.id as nat)
        &&& self.title_src@ == t.title@ + " "@ + t.src@
        &&& self.album_title@ == t.album_title@
        &&& self.album_id@ == decimal(t.album_id as nat)
        &&& self.category@ == "Category: "@ + t.category@
        &&& self.nickname@ == "Nickname: "@ + t.nickname@
        &&& self.duration@ == duration_text(t.duration)
        &&& self.plays@ == "Plays: "@ + decimal(t.plays as nat)
        &&& self.comments@ == "Comments: "@ + decimal(t.comments as nat)
        &&& self.shares@ == "Shares: "@ + decimal(t.shares as nat)
        &&& self.likes@ == "Likes: "@ + decimal(t.likes as nat)
    }

    /// The texts of track `t`.
    pub fn of(t: &Track) -> (info: TrackInfo)
        ensures
            info.shows(*t),
    {
        let mut title_src = t.title.clone();
        title_src.append(" ");
        title_src.append(t.src.as_str());
        let mut category = String::from_str("Category: ");
        category.append(t.category.as_str());
        let mut nickname = String::from_str("Nickname: ");
        nickname.append(t.nickname.as_str());
        let mut plays = String::from_str("Plays: ");
        push_decimal(&mut plays, t.plays);
        let mut comments = String::from_str("Comments: ");
        push_decimal(&mut comments, t.comments);
        let mut shares = String::from_str("Shares: ");
        push_decimal(&mut shares, t.shares);
        let mut likes = String::from_str("Likes: ");
        push_decimal(&mut likes, t.likes);
        TrackInfo {
            id: crate::text::decimal_string(t.id),
            title_src,
            album_title: t.album_title.clone(),
            album_id: crate::text::decimal_string(t.album_id),
            category,
            nickname,
            duration: duration_label(t.duration),
            plays,
            comments,
            shares,
            likes,
        }
    }
}

/// Whether the cover shown, loaded from `shown`, must be loaded again for
/// track `t`: only when `t` has another cover address.
pub fn cover_changed(shown: &str, t: &Track) -> (r: bool)
    ensures
        r == (shown@ != t.cover@),
{
    String::from_str(shown) != t.cover
}

/// Appends `fill` to `s` until it is at least `width` characters long.
fn pad_right_in_place(s: &mut String, fill: &str, width: usize)
    requires
        fill@.len() == 1,
    ensures
        final(s)@ == pad_right(old(s)@, fill@[0], width as nat),
{
    let mut len = s.as_str().unicode_len();
    while len < width
        invariant
            fill@.len() == 1,
            len == s@.len(),
            pad_right(s@, fill@[0], width as nat) == pad_right(old(s)@, fill@[0], width as nat),
        decreases width - len,
    {
        let ghost before = s@;
        s.append(fill);
        assert(s@ =~= before.push(fill@[0]));
        len = len + 1;
    }
}

/// The duration text of a track `duration` seconds long.
fn duration_label(duration: u64) -> (r: String)
    ensures
        r@ == duration_text(duration),
{
    let mut label = String::from_str("Duration: ");
    push_decimal(&mut label, duration / 60);
    label.append(":");
    let mut seconds = String::new();
    push_decimal(&mut seconds, duration % 60);
    proof {
        reveal_strlit("0");
    }
    pad_right_in_place(&mut seconds, "0", 2);
    assert(seconds@ == pad_right(decimal((duration % 60) as nat), '0', 2)) by {
        assert(Seq::<char>::empty() + decimal((duration % 60) as nat) =~= decimal(
            (duration % 60) as nat,
        ));
    }
    label.append(seconds.as_str());
    label
}

/// `target` is what the Fetch button fetches when the address line reads
/// `current` and the clipboard holds `paste`: nothing when the clipboard holds
/// the same text or the address holds no id; the album when it holds one id;
/// the track when it holds two (the album id, then the track id); and when it
/// holds more, nothing it can fetch, with the first id.
pub open spec fn fetch_target_spec(target: FetchTarget, current: Seq<char>, paste: Seq<char>) -> bool {
    let ids = url_ids_spec(pasted_url(current, paste));
    if current == paste || ids.len() == 0 {
        target == FetchTarget::Nothing
    } else if ids.len() == 1 {
        target matches FetchTarget::Album { album_id } && album_id@ == ids[0]
    } else if ids.len() == 2 {
        target matches FetchTarget::Track { album_id, track_id } && album_id@ == ids[0]
            && track_id@ == ids[1]
    } else {
        target matches FetchTarget::Unsupported { album_id } && album_id@ == ids[0]
    }
}

/// Law: a pasted text that starts with `http` always ends up on the address
/// line, whatever the line held before; any other text leaves the line as it
/// was. So the address line is always one of the two texts.
pub proof fn lemma_pasted_address(current: Seq<char>, paste: Seq<char>)
    ensures
        paste.len() >= 4 && paste.take(4) == seq!['h', 't', 't', 'p'] ==> pasted_url(
            current,
            paste,
        ) == paste,
        !(paste.len() >= 4 && paste.take(4) == seq!['h', 't', 't', 'p']) ==> pasted_url(
            current,
            paste,
        ) == current,
{
    if paste.len() >= 4 && paste.take(4) == seq!['h', 't', 't', 'p'] {
        assert(paste[0] == paste.take(4)[0]);
        assert(paste[1] == paste.take(4)[1]);
        assert(paste[2] == paste.take(4)[2]);
        assert(paste[3] == paste.take(4)[3]);
    }
    if starts_with_http(paste) {
        assert(paste.take(4) =~= seq!['h', 't', 't', 'p']);
    }
}

/// Whether `s` starts with `http`.
fn starts_with_http_exec(s: &str) -> (r: bool)
    ensures
        r == starts_with_http(s@),
{
    s.unicode_len() >= 4 && s.get_char(0) == 'h' && s.get_char(1) == 't' && s.get_char(2) == 't'
        && s.get_char(3) == 'p'
}

/// The address line after `paste` was read from the clipboard.
pub fn pasted(current: &str, paste: &str) -> (r: String)
    ensures
        r@ == pasted_url(current@, paste@),
{
    let cur = String::from_str(current);
    let new = String::from_str(paste);
    if cur != new && starts_with_http_exec(paste) {
        new
    } else {
        cur
    }
}

/// What the Fetch button does with the clipboard text `paste` while the address
/// line reads `current`: the new address line, and what to fetch.
pub fn on_paste(current: &str, paste: &str) -> (r: (String, FetchTarget))
    ensures
        r.0@ == pasted_url(current@, paste@),
        fetch_target_spec(r.1, current@, paste@),
{
    let url = pasted(current, paste);
    let cur = String::from_str(current);
    let new = String::from_str(paste);
    if cur == new {
        return (url, FetchTarget::Nothing);
    }
    let mut ids = url_ids(url.as_str());
    let ghost views = ids@.map_values(|s: String| s@);
    assert(views.len() == ids@.len());
    if ids.len() == 0 {
        return (url, FetchTarget::Nothing);
    }
    if ids.len() == 1 {
        assert(views[0] == ids@[0]@);
        let album_id = ids.remove(0);
        return (url, FetchTarget::Album { album_id });
    }
    assert(views[0] == ids@[0]@);
    assert(views[1] == ids@[1]@);
    if ids.len() > 2 {
        let album_id = ids.remove(0);
        return (url, FetchTarget::Unsupported { album_id });
    }
    let track_id = ids.remove(1);
    let album_id = ids.remove(0);
    (url, FetchTarget::Track { album_id, track_id })
}

/// Whether the Export All button writes the aria2 file: only once the address
/// line no longer starts with `A`, as the placeholder text does.
pub fn export_allowed(url: &str) -> (r: bool)
    ensures
        r == !(url@.len() > 0 && url@[0] == 'A'),
{
    !(url.unicode_len() > 0 && url.get_char(0) == 'A')
}

/// The ids in `url`, in order (the numeric parts between `/`).
pub fn url_ids(url: &str) -> (ids: Vec<String>)
    ensures
        ids@.map_values(|s: String| s@) == url_ids_spec(url@),
{
    let n = url.unicode_len();
    let mut ids: Vec<String> = Vec::new();
    let mut start: usize = 0;
    let mut numeric = true;
    let mut i: usize = 0;
    let ghost mut done: Seq<Seq<char>> = Seq::empty();
    assert(url@.take(0) =~= Seq::<char>::empty());
    assert(url@.subrange(0, 0) =~= Seq::<char>::empty());
    assert(done.push(url@.subrange(0, 0)) =~= seq![Seq::<char>::empty()]);
    while i < n
        invariant
            0 <= start <= i <= n,
            n == url@.len(),
            split_fields(url@.take(i as int), '/') == done.push(url@.subrange(start as int, i as int)),
            ids@.map_values(|s: String| s@) == id_fields(done),
            numeric == all_digits(url@.subrange(start as int, i as int)),
        decreases n - i,
    {
        let c = url.get_char(i);
        let ghost cur = url@.subrange(start as int, i as int);
        assert(url@.take(i + 1).drop_last() =~= url@.take(i as int));
        assert(url@.take(i + 1).last() == c);
        if c == '/' {
            if start < i && numeric {
                let ghost before = ids@;
                ids.push(String::from_str(url.substring_char(start, i)));
                assert(ids@.map_values(|s: String| s@) =~= before.map_values(|s: String| s@).push(
                    cur,
                ));
            }
            proof {
                assert(done.push(cur).drop_last() =~= done);
                done = done.push(cur);
            }
            start = i + 1;
            assert(url@.subrange(start as int, i + 1) =~= Seq::<char>::empty());
            numeric = true;
        } else {
            let ghost next = url@.subrange(start as int, i + 1);
            assert(next =~= cur.push(c));
            assert(done.push(cur).update(done.len() as int, cur.push(c)) =~= done.push(next));
            numeric = numeric && '0' <= c && c <= '9';
            assert(numeric == all_digits(next)) by {
                if all_digits(next) {
                    assert(is_digit(next[next.len() - 1]));
                    assert forall|j: int| 0 <= j < cur.len() implies is_digit(#[trigger] cur[j]) by {
                        assert(cur[j] == next[j]);
                    }
                }
                if numeric {
                    assert forall|j: int| 0 <= j < next.len() implies is_digit(#[trigger] next[j]) by {
                        if j < cur.len() {
                            assert(cur[j] == next[j]);
                        }
                    }
                }
            }
        }
        i = i + 1;
    }
    let ghost last = url@.subrange(start as int, n as int);
    assert(url@.take(n as int) =~= url@);
    if start < n && numeric {
        let ghost before = ids@;
        ids.push(String::from_str(url.substring_char(start, n)));
        assert(ids@.map_values(|s: String| s@) =~= before.map_values(|s: String| s@).push(last));
    }
    assert(done.push(last).drop_last() =~= done);
    ids
}

} // verus!
