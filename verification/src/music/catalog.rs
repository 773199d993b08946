//! The catalogue rules of the providers: which entries of a search or listing
//! reply are kept, and how each becomes a track, an album or an artist. The
//! replies are read into the plain records below outside this library; every
//! field holds what the reply had at that place, `None` where it had nothing
//! of the expected type.

use vstd::prelude::*;
use crate::textops;
use crate::music::error::MusicError;
use crate::music::model::{MusicAlbum, MusicArtist, MusicQuality, MusicService, MusicTrack};
use crate::music::providers::{
    file_qualities, item_qualities, nm_qualities, qualities_from_file, qualities_from_item,
    qualities_from_song, parse_nm_info_to_qualities, song_qualities, is_mp3_128, is_mp3_320,
    is_flac,
};

verus! {

/// The view of an optional string.
pub open spec fn ov(o: Option<String>) -> Option<Seq<char>> {
    match o {
        Some(s) => Some(s@),
        None => None,
    }
}

/// An optional string, or the empty string.
pub open spec fn or_empty(o: Option<String>) -> Seq<char> {
    match o {
        Some(s) => s@,
        None => Seq::empty(),
    }
}

/// The decimal notation of an optional number.
pub open spec fn od(o: Option<i64>) -> Option<Seq<char>> {
    match o {
        Some(n) => Some(textops::signed_decimal(n as int)),
        None => None,
    }
}

/// The names that are present and not blank, in order.
pub open spec fn kept_names(v: Seq<Option<String>>) -> Seq<Seq<char>>
    decreases v.len(),
{
    if v.len() == 0 {
        Seq::empty()
    } else {
        kept_names(v.drop_last()) + match v.last() {
            Some(s) => if textops::all_ws(s@) {
                Seq::empty()
            } else {
                seq![s@]
            },
            None => Seq::empty(),
        }
    }
}

/// The decimal notation of each number present, in order.
pub open spec fn numbered(v: Seq<Option<i64>>) -> Seq<Seq<char>>
    decreases v.len(),
{
    if v.len() == 0 {
        Seq::empty()
    } else {
        numbered(v.drop_last()) + match v.last() {
            Some(n) => seq![textops::signed_decimal(n as int)],
            None => Seq::empty(),
        }
    }
}

/// A copy of an optional string.
fn copy_opt(o: &Option<String>) -> (r: Option<String>)
    ensures
        ov(r) == ov(*o),
{
    match o {
        Some(s) => Some(s.clone()),
        None => None,
    }
}

/// An optional string, or the empty string.
fn string_or_empty(o: &Option<String>) -> (r: String)
    ensures
        r@ == or_empty(*o),
{
    match o {
        Some(s) => s.clone(),
        None => String::new(),
    }
}

/// An optional string, or the empty string.
pub fn string_or_empty_pub(o: &Option<String>) -> (r: String)
    ensures
        r@ == or_empty(*o),
{
    string_or_empty(o)
}

/// The decimal notation of a number.
fn decimal_string(n: i64) -> (r: String)
    ensures
        r@ == textops::signed_decimal(n as int),
{
    let mut v: Vec<char> = Vec::new();
    textops::push_signed_decimal(&mut v, n);
    assert(v@ =~= textops::signed_decimal(n as int));
    textops::string_of(v.as_slice())
}

/// The decimal notation of an optional number.
fn decimal_opt(o: Option<i64>) -> (r: Option<String>)
    ensures
        ov(r) == od(o),
{
    match o {
        Some(n) => Some(decimal_string(n)),
        None => None,
    }
}

/// The names that are present and not blank.
pub fn keep_names(v: &Vec<Option<String>>) -> (r: Vec<String>)
    ensures
        r.deep_view() == kept_names(v@),
{
    let mut out: Vec<String> = Vec::new();
    let mut i: usize = 0;
    while i < v.len()
        invariant
            i <= v.len(),
            out.deep_view() == kept_names(v@.take(i as int)),
        decreases v.len() - i,
    {
        assert(v@.take(i + 1).drop_last() =~= v@.take(i as int));
        assert(v@.take(i + 1).last() == v@[i as int]);
        match &v[i] {
            Some(s) => {
                if !textops::is_blank(&textops::chars_of(s.as_str())) {
                    let ghost before = out.deep_view();
                    out.push(s.clone());
                    assert(out.deep_view() =~= before.push(s@));
                }
            },
            None => {},
        }
        i = i + 1;
    }
    assert(v@.take(v.len() as int) =~= v@);
    out
}

/// The decimal notation of each number present.
pub fn number_strings(v: &Vec<Option<i64>>) -> (r: Vec<String>)
    ensures
        r.deep_view() == numbered(v@),
{
    let mut out: Vec<String> = Vec::new();
    let mut i: usize = 0;
    while i < v.len()
        invariant
            i <= v.len(),
            out.deep_view() == numbered(v@.take(i as int)),
        decreases v.len() - i,
    {
        assert(v@.take(i + 1).drop_last() =~= v@.take(i as int));
        assert(v@.take(i + 1).last() == v@[i as int]);
        match v[i] {
            Some(n) => {
                let ghost before = out.deep_view();
                out.push(decimal_string(n));
                assert(out.deep_view() =~= before.push(textops::signed_decimal(n as int)));
            },
            None => {},
        }
        i = i + 1;
    }
    assert(v@.take(v.len() as int) =~= v@);
    out
}

/// `s` with every `{size}` replaced by `size`.
pub open spec fn sized(s: Seq<char>, size: Seq<char>) -> Seq<char> {
    textops::replace_all(s, "{size}"@, size)
}

/// `sized` on an optional string.
pub open spec fn sized_opt(o: Option<String>, size: Seq<char>) -> Option<Seq<char>> {
    match o {
        Some(s) => Some(sized(s@, size)),
        None => None,
    }
}

fn with_size(o: &Option<String>, size: &str) -> (r: Option<String>)
    ensures
        ov(r) == sized_opt(*o, size@),
{
    match o {
        Some(s) => {
            let p = textops::chars_of("{size}");
            proof {
                reveal_strlit("{size}");
            }
            let v = textops::replace_vec(&textops::chars_of(s.as_str()), &p, &textops::chars_of(size));
            Some(textops::string_of(v.as_slice()))
        },
        None => None,
    }
}

/// A duration in whole seconds, in milliseconds; negative counts as zero.
pub open spec fn secs_to_ms(o: Option<i64>) -> Option<u64> {
    match o {
        Some(s) => Some((if s < 0 { 0 } else { s as int } * 1000) as u64),
        None => None,
    }
}

/// Whether `secs_to_ms` stays within 64 bits.
pub open spec fn secs_fit(o: Option<i64>) -> bool {
    match o {
        Some(s) => s * 1000 <= u64::MAX,
        None => true,
    }
}

fn secs_ms(o: Option<i64>) -> (r: Option<u64>)
    requires
        secs_fit(o),
    ensures
        r == secs_to_ms(o),
{
    match o {
        Some(s) => {
            let v: u64 = if s < 0 {
                0
            } else {
                s as u64
            };
            Some(v * 1000)
        },
        None => None,
    }
}

/// Artist names and numeric ids as listed with a song.
#[derive(Debug, Clone)]
pub struct NumberedArtists {
    pub names: Vec<Option<String>>,
    pub ids: Vec<Option<i64>>,
}

/// A Kugou song search hit.
#[derive(Debug, Clone)]
pub struct KugouSongHit {
    /// `FileHash`.
    pub file_hash: Option<String>,
    /// `OriSongName`, else `SongName`.
    pub title: Option<String>,
    pub album_name: Option<String>,
    pub album_id: Option<i64>,
    /// `Duration`, in seconds.
    pub duration_s: Option<i64>,
    /// The `Singers` array, when there is one.
    pub singers: Option<NumberedArtists>,
    /// `SingerName`.
    pub singer_name: Option<String>,
    /// `Image`, with a `{size}` placeholder.
    pub image: Option<String>,
    /// File sizes of the 128 kbps, HQ and SQ files (0 when absent).
    pub size_128: i64,
    pub size_hq: i64,
    pub size_sq: i64,
}

/// The artists of a Kugou hit: the non-blank names of its singer list, or
/// its singer name when it has no list.
pub open spec fn kugou_hit_artists(hit: KugouSongHit) -> Seq<Seq<char>> {
    match hit.singers {
        Some(a) => kept_names(a.names@),
        None => match hit.singer_name {
            Some(n) => if textops::all_ws(n@) {
                Seq::empty()
            } else {
                seq![n@]
            },
            None => Seq::empty(),
        },
    }
}

/// The track a kept Kugou search hit becomes.
pub open spec fn is_kugou_hit_track(t: MusicTrack, hit: KugouSongHit) -> bool {
    &&& t.service == MusicService::Kugou
    &&& t.id@ == or_empty(hit.file_hash)
    &&& t.title@ == or_empty(hit.title)
    &&& t.artists.deep_view() == kugou_hit_artists(hit)
    &&& t.artist_ids.deep_view() == match hit.singers {
        Some(a) => numbered(a.ids@),
        None => Seq::empty(),
    }
    &&& ov(t.album) == ov(hit.album_name)
    &&& ov(t.album_id) == od(hit.album_id)
    &&& t.duration_ms == secs_to_ms(hit.duration_s)
    &&& ov(t.cover_url) == sized_opt(hit.image, "480"@)
    &&& item_qualities(t.qualities@, hit.size_128, hit.size_hq, hit.size_sq)
}

/// A Kugou song search hit as a track; `None` when it has no file hash.
pub fn kugou_search_track(hit: &KugouSongHit) -> (r: Option<MusicTrack>)
    requires
        secs_fit(hit.duration_s),
    ensures
        r is None <==> or_empty(hit.file_hash).len() == 0,
        r matches Some(t) ==> is_kugou_hit_track(t, *hit),
{
    let id = string_or_empty(&hit.file_hash);
    if id.as_str().is_empty() {
        return None;
    }
    let (artists, artist_ids) = match &hit.singers {
        Some(a) => (keep_names(&a.names), number_strings(&a.ids)),
        None => {
            let mut names: Vec<String> = Vec::new();
            match &hit.singer_name {
                Some(n) => {
                    if !textops::is_blank(&textops::chars_of(n.as_str())) {
                        names.push(n.clone());
                    }
                },
                None => {},
            }
            proof {
                assert(names.deep_view() =~= kugou_hit_artists(*hit));
            }
            (names, Vec::new())
        },
    };
    proof {
        assert(artist_ids.deep_view() =~= match hit.singers {
            Some(a) => numbered(a.ids@),
            None => Seq::<Seq<char>>::empty(),
        });
    }
    Some(
        MusicTrack {
            service: MusicService::Kugou,
            id,
            title: string_or_empty(&hit.title),
            artists,
            artist_ids,
            album: copy_opt(&hit.album_name),
            album_id: decimal_opt(hit.album_id),
            duration_ms: secs_ms(hit.duration_s),
            cover_url: with_size(&hit.image, "480"),
            qualities: qualities_from_item(hit.size_128, hit.size_hq, hit.size_sq),
        },
    )
}

/// `u32::try_from` on an optional 64-bit number; `None` when out of range.
pub open spec fn to_u32(o: Option<i64>) -> Option<u32> {
    match o {
        Some(n) => if 0 <= n && n <= u32::MAX {
            Some(n as u32)
        } else {
            None
        },
        None => None,
    }
}

fn to_u32_exec(o: Option<i64>) -> (r: Option<u32>)
    ensures
        r == to_u32(o),
{
    match o {
        Some(n) => if 0 <= n && n <= 0xFFFF_FFFF {
            Some(n as u32)
        } else {
            None
        },
        None => None,
    }
}

/// `a + b + c`.
fn concat3(a: &str, b: &str, c: &str) -> (r: String)
    ensures
        r@ == a@ + b@ + c@,
{
    let mut v = textops::chars_of(a);
    textops::push_all(&mut v, &textops::chars_of(b));
    textops::push_all(&mut v, &textops::chars_of(c));
    textops::string_of(v.as_slice())
}

/// The error for an id that is blank: `InvalidInput("empty <field>")`.
pub open spec fn is_empty_id_error(e: MusicError, field: Seq<char>) -> bool {
    e matches MusicError::InvalidInput(m) && m@ == "empty "@ + field
}

/// A required id: `raw` trimmed, or an error when that is empty.
pub fn required_id(raw: &str, field: &str) -> (r: Result<String, MusicError>)
    ensures
        textops::trim(raw@).len() == 0 ==> (r matches Err(e) && is_empty_id_error(e, field@)),
        textops::trim(raw@).len() > 0 ==> (r matches Ok(id) && id@ == textops::trim(raw@)),
{
    let t = textops::trim_vec(&textops::chars_of(raw));
    if t.len() == 0 {
        let m = concat3("empty ", field, "");
        proof {
            reveal_strlit("");
            assert(m@ =~= "empty "@ + field@);
        }
        return Err(MusicError::InvalidInput(m));
    }
    Ok(textops::string_of(t.as_slice()))
}

/// A Kugou artist search hit.
#[derive(Debug, Clone)]
pub struct KugouArtistHit {
    pub author_id: Option<i64>,
    pub author_name: Option<String>,
    /// `Avatar`, with a `{size}` placeholder.
    pub avatar: Option<String>,
    pub album_count: Option<i64>,
}

/// The artist a kept Kugou artist hit becomes.
pub open spec fn is_kugou_artist(a: MusicArtist, hit: KugouArtistHit) -> bool {
    &&& a.service == MusicService::Kugou
    &&& Some(a.id@) == od(hit.author_id)
    &&& a.name@ == or_empty(hit.author_name)
    &&& ov(a.cover_url) == sized_opt(hit.avatar, "480"@)
    &&& a.album_count == to_u32(hit.album_count)
}

/// A Kugou artist search hit as an artist; `None` when it has no id.
pub fn kugou_search_artist(hit: &KugouArtistHit) -> (r: Option<MusicArtist>)
    ensures
        r is None <==> hit.author_id is None,
        r matches Some(a) ==> is_kugou_artist(a, *hit),
{
    match hit.author_id {
        Some(n) => Some(
            MusicArtist {
                service: MusicService::Kugou,
                id: decimal_string(n),
                name: string_or_empty(&hit.author_name),
                cover_url: with_size(&hit.avatar, "480"),
                album_count: to_u32_exec(hit.album_count),
            },
        ),
        None => None,
    }
}

/// A Kugou album search hit.
#[derive(Debug, Clone)]
pub struct KugouAlbumHit {
    pub album_id: Option<i64>,
    pub album_name: Option<String>,
    pub author_name: Option<String>,
    pub author_id: Option<i64>,
    /// `SizableCover`, else `Cover`, with a `{size}` placeholder.
    pub cover: Option<String>,
    pub publish_date: Option<String>,
    pub song_count: Option<i64>,
}

/// The album a kept Kugou album hit becomes.
pub open spec fn is_kugou_album(a: MusicAlbum, hit: KugouAlbumHit) -> bool {
    &&& a.service == MusicService::Kugou
    &&& Some(a.id@) == od(hit.album_id)
    &&& a.title@ == or_empty(hit.album_name)
    &&& ov(a.artist) == ov(hit.author_name)
    &&& ov(a.artist_id) == od(hit.author_id)
    &&& ov(a.cover_url) == sized_opt(hit.cover, "480"@)
    &&& ov(a.publish_time) == ov(hit.publish_date)
    &&& a.track_count == to_u32(hit.song_count)
}

/// A Kugou album search hit as an album; `None` when it has no id.
pub fn kugou_search_album(hit: &KugouAlbumHit) -> (r: Option<MusicAlbum>)
    ensures
        r is None <==> hit.album_id is None,
        r matches Some(a) ==> is_kugou_album(a, *hit),
{
    match hit.album_id {
        Some(n) => Some(
            MusicAlbum {
                service: MusicService::Kugou,
                id: decimal_string(n),
                title: string_or_empty(&hit.album_name),
                artist: copy_opt(&hit.author_name),
                artist_id: decimal_opt(hit.author_id),
                cover_url: with_size(&hit.cover, "480"),
                publish_time: copy_opt(&hit.publish_date),
                track_count: to_u32_exec(hit.song_count),
            },
        ),
        None => None,
    }
}

/// An album of a Kugou artist listing.
#[derive(Debug, Clone)]
pub struct KugouArtistAlbumItem {
    /// `album_id` (or `albumId`) when it is a string.
    pub album_id_text: Option<String>,
    /// `album_id` when it is a number.
    pub album_id_number: Option<i64>,
    pub album_name: Option<String>,
    /// `sizable_cover`, with a `{size}` placeholder.
    pub sizable_cover: Option<String>,
    pub publish_date: Option<String>,
}

/// The id of a Kugou artist album: its text id, else its numeric id.
pub open spec fn kugou_artist_album_id(it: KugouArtistAlbumItem) -> Seq<char> {
    match it.album_id_text {
        Some(s) => s@,
        None => match it.album_id_number {
            Some(n) => textops::signed_decimal(n as int),
            None => Seq::empty(),
        },
    }
}

/// The album a kept Kugou artist album becomes; it belongs to the artist.
pub open spec fn is_kugou_artist_album(a: MusicAlbum, it: KugouArtistAlbumItem, artist_id: Seq<char>) -> bool {
    &&& a.service == MusicService::Kugou
    &&& a.id@ == kugou_artist_album_id(it)
    &&& a.title@ == or_empty(it.album_name)
    &&& a.artist is None
    &&& ov(a.artist_id) == Some(artist_id)
    &&& ov(a.cover_url) == sized_opt(it.sizable_cover, "480"@)
    &&& ov(a.publish_time) == ov(it.publish_date)
    &&& a.track_count is None
}

/// An album of a Kugou artist listing; `None` when its id is empty.
pub fn kugou_artist_album(it: &KugouArtistAlbumItem, artist_id: &str) -> (r: Option<MusicAlbum>)
    ensures
        r is None <==> kugou_artist_album_id(*it).len() == 0,
        r matches Some(a) ==> is_kugou_artist_album(a, *it, artist_id@),
{
    let id: String = match &it.album_id_text {
        Some(s) => s.clone(),
        None => match it.album_id_number {
            Some(n) => decimal_string(n),
            None => String::new(),
        },
    };
    if id.as_str().is_empty() {
        return None;
    }
    Some(
        MusicAlbum {
            service: MusicService::Kugou,
            id,
            title: string_or_empty(&it.album_name),
            artist: None,
            artist_id: Some(artist_id.to_owned()),
            cover_url: with_size(&it.sizable_cover, "480"),
            publish_time: copy_opt(&it.publish_date),
            track_count: None,
        },
    )
}

/// A song of a Kugou album listing.
#[derive(Debug, Clone)]
pub struct KugouAlbumSong {
    /// `audio_info.hash`.
    pub hash: Option<String>,
    /// `base.audio_name`.
    pub title: Option<String>,
    /// `audio_info.duration`, in seconds.
    pub duration_s: Option<i64>,
    /// `album_info.album_name`.
    pub album_name: Option<String>,
    /// `base.album_id`.
    pub album_id: Option<i64>,
    /// `trans_param.union_cover`, with a `{size}` placeholder.
    pub cover: Option<String>,
    /// The `authors` array (empty when there is none).
    pub authors: NumberedArtists,
    /// `audio_info.hash320`.
    pub hash_320: Option<String>,
    /// `audio_info.hash_flac`.
    pub hash_flac: Option<String>,
}

/// 1 when `o` holds a non-blank string, else 0.
pub open spec fn present_flag(o: Option<String>) -> i64 {
    if textops::all_ws(or_empty(o)) {
        0
    } else {
        1
    }
}

fn present_flag_exec(o: &Option<String>) -> (r: i64)
    ensures
        r == present_flag(*o),
{
    match o {
        Some(s) => if textops::is_blank(&textops::chars_of(s.as_str())) {
            0
        } else {
            1
        },
        None => {
            assert(textops::all_ws(Seq::<char>::empty()));
            0
        },
    }
}

/// The track a kept song of a Kugou album becomes: MP3 128 always, MP3 320
/// and FLAC when their hashes are not blank.
pub open spec fn is_kugou_album_track(t: MusicTrack, s: KugouAlbumSong) -> bool {
    &&& t.service == MusicService::Kugou
    &&& t.id@ == or_empty(s.hash)
    &&& t.title@ == or_empty(s.title)
    &&& t.artists.deep_view() == kept_names(s.authors.names@)
    &&& t.artist_ids.deep_view() == numbered(s.authors.ids@)
    &&& ov(t.album) == ov(s.album_name)
    &&& ov(t.album_id) == od(s.album_id)
    &&& t.duration_ms == secs_to_ms(s.duration_s)
    &&& ov(t.cover_url) == sized_opt(s.cover, "400"@)
    &&& item_qualities(t.qualities@, 1, present_flag(s.hash_320), present_flag(s.hash_flac))
}

/// A song of a Kugou album as a track; `None` when it has no hash.
pub fn kugou_album_track(s: &KugouAlbumSong) -> (r: Option<MusicTrack>)
    requires
        secs_fit(s.duration_s),
    ensures
        r is None <==> or_empty(s.hash).len() == 0,
        r matches Some(t) ==> is_kugou_album_track(t, *s),
{
    let id = string_or_empty(&s.hash);
    if id.as_str().is_empty() {
        return None;
    }
    Some(
        MusicTrack {
            service: MusicService::Kugou,
            id,
            title: string_or_empty(&s.title),
            artists: keep_names(&s.authors.names),
            artist_ids: number_strings(&s.authors.ids),
            album: copy_opt(&s.album_name),
            album_id: decimal_opt(s.album_id),
            duration_ms: secs_ms(s.duration_s),
            cover_url: with_size(&s.cover, "400"),
            qualities: qualities_from_item(1, present_flag_exec(&s.hash_320), present_flag_exec(&s.hash_flac)),
        },
    )
}

/// Whether a page of a Kugou album listing is read: the reply succeeded
/// (`status` 1) and holds songs.
pub fn kugou_album_page_usable(status: i64, songs: usize) -> (b: bool)
    ensures
        b == (status == 1 && songs > 0),
{
    status == 1 && songs > 0
}

/// The next page of a Kugou album listing after `page`, with `fetched` tracks
/// collected so far out of `total` (0 when unknown): none once all are
/// collected, or after page 200.
pub fn kugou_album_next_page(total: i64, fetched: usize, page: u32) -> (r: Option<u32>)
    requires
        page <= 200,
    ensures
        total > 0 && fetched >= total ==> r is None,
        !(total > 0 && fetched >= total) && page < 200 ==> r == Some((page + 1) as u32),
        page == 200 ==> r is None,
{
    if total > 0 && (fetched as u128) >= (total as u128) {
        return None;
    }
    let next = page + 1;
    if next > 200 {
        None
    } else {
        Some(next)
    }
}

/// A QQ Music song, as listed by a search or an album.
#[derive(Debug, Clone)]
pub struct QqSong {
    pub mid: Option<String>,
    pub name: Option<String>,
    /// Names and mids of the `singer` array (empty when there is none).
    pub singer_names: Vec<Option<String>>,
    pub singer_mids: Vec<Option<String>>,
    pub album_name: Option<String>,
    pub album_mid: Option<String>,
    pub album_pmid: Option<String>,
    /// `interval`, in seconds.
    pub interval_s: Option<u64>,
    /// Sizes of the FLAC, MP3 320 and MP3 128 files (0 when absent).
    pub size_flac: i64,
    pub size_320: i64,
    pub size_128: i64,
}

/// The cover of a QQ Music album picture id, when it is not blank.
pub open spec fn qq_cover(pmid: Option<String>) -> Option<Seq<char>> {
    if textops::all_ws(or_empty(pmid)) {
        None
    } else {
        Some("https://y.qq.com/music/photo_new/T002R800x800M000"@ + or_empty(pmid) + ".jpg"@)
    }
}

/// Whether the song's duration in milliseconds fits in 64 bits.
pub open spec fn interval_fits(o: Option<u64>) -> bool {
    match o {
        Some(s) => s * 1000 <= u64::MAX,
        None => true,
    }
}

/// The duration in milliseconds of a duration in seconds.
pub open spec fn interval_ms(o: Option<u64>) -> Option<u64> {
    match o {
        Some(s) => Some((s * 1000) as u64),
        None => None,
    }
}

/// The track a kept QQ Music song becomes.
pub open spec fn is_qq_track(t: MusicTrack, s: QqSong) -> bool {
    &&& t.service == MusicService::Qq
    &&& t.id@ == or_empty(s.mid)
    &&& t.title@ == or_empty(s.name)
    &&& t.artists.deep_view() == kept_names(s.singer_names@)
    &&& t.artist_ids.deep_view() == kept_names(s.singer_mids@)
    &&& ov(t.album) == ov(s.album_name)
    &&& ov(t.album_id) == ov(s.album_mid)
    &&& t.duration_ms == interval_ms(s.interval_s)
    &&& ov(t.cover_url) == qq_cover(s.album_pmid)
    &&& file_qualities(t.qualities@, s.size_flac, s.size_320, s.size_128)
}

/// A QQ Music song as a track; `None` when it has no mid.
pub fn qq_track(s: &QqSong) -> (r: Option<MusicTrack>)
    requires
        interval_fits(s.interval_s),
    ensures
        r is None <==> or_empty(s.mid).len() == 0,
        r matches Some(t) ==> is_qq_track(t, *s),
{
    let id = string_or_empty(&s.mid);
    if id.as_str().is_empty() {
        return None;
    }
    let pmid = string_or_empty(&s.album_pmid);
    let cover = if textops::is_blank(&textops::chars_of(pmid.as_str())) {
        None
    } else {
        Some(concat3("https://y.qq.com/music/photo_new/T002R800x800M000", pmid.as_str(), ".jpg"))
    };
    let duration_ms = match s.interval_s {
        Some(v) => Some(v * 1000),
        None => None,
    };
    Some(
        MusicTrack {
            service: MusicService::Qq,
            id,
            title: string_or_empty(&s.name),
            artists: keep_names(&s.singer_names),
            artist_ids: keep_names(&s.singer_mids),
            album: copy_opt(&s.album_name),
            album_id: copy_opt(&s.album_mid),
            duration_ms,
            cover_url: cover,
            qualities: qualities_from_file(s.size_flac, s.size_320, s.size_128),
        },
    )
}

/// A QQ Music artist search hit.
#[derive(Debug, Clone)]
pub struct QqArtistHit {
    pub singer_mid: Option<String>,
    pub singer_name: Option<String>,
    pub singer_pic: Option<String>,
    /// `albumNum`, as text.
    pub album_num: Option<String>,
}

/// `str::parse::<u32>` on an optional string.
pub open spec fn parse_count(o: Option<String>) -> Option<u32> {
    match o {
        Some(s) => crate::lyrics::util::parse_u32_radix(s@, 10),
        None => None,
    }
}

/// The artist a kept QQ Music artist hit becomes.
pub open spec fn is_qq_artist(a: MusicArtist, hit: QqArtistHit) -> bool {
    &&& a.service == MusicService::Qq
    &&& a.id@ == or_empty(hit.singer_mid)
    &&& a.name@ == or_empty(hit.singer_name)
    &&& ov(a.cover_url) == ov(hit.singer_pic)
    &&& a.album_count == parse_count(hit.album_num)
}

fn parse_count_exec(o: &Option<String>) -> (r: Option<u32>)
    ensures
        r == parse_count(*o),
{
    match o {
        Some(s) => crate::lyrics::util::parse_u32_radix_exec(&textops::chars_of(s.as_str()), 10),
        None => None,
    }
}

/// A QQ Music artist search hit as an artist; `None` when it has no mid.
pub fn qq_search_artist(hit: &QqArtistHit) -> (r: Option<MusicArtist>)
    ensures
        r is None <==> or_empty(hit.singer_mid).len() == 0,
        r matches Some(a) ==> is_qq_artist(a, *hit),
{
    let id = string_or_empty(&hit.singer_mid);
    if id.as_str().is_empty() {
        return None;
    }
    Some(
        MusicArtist {
            service: MusicService::Qq,
            id,
            name: string_or_empty(&hit.singer_name),
            cover_url: copy_opt(&hit.singer_pic),
            album_count: parse_count_exec(&hit.album_num),
        },
    )
}

/// A QQ Music album search hit.
#[derive(Debug, Clone)]
pub struct QqAlbumHit {
    pub album_mid: Option<String>,
    pub album_name: Option<String>,
    pub singer_name: Option<String>,
    pub singer_id: Option<String>,
    pub album_pic: Option<String>,
}

/// The album a kept QQ Music album hit becomes.
pub open spec fn is_qq_album(a: MusicAlbum, hit: QqAlbumHit) -> bool {
    &&& a.service == MusicService::Qq
    &&& a.id@ == or_empty(hit.album_mid)
    &&& a.title@ == or_empty(hit.album_name)
    &&& ov(a.artist) == ov(hit.singer_name)
    &&& ov(a.artist_id) == ov(hit.singer_id)
    &&& ov(a.cover_url) == ov(hit.album_pic)
    &&& a.publish_time is None
    &&& a.track_count is None
}

/// A QQ Music album search hit as an album; `None` when it has no mid.
pub fn qq_search_album(hit: &QqAlbumHit) -> (r: Option<MusicAlbum>)
    ensures
        r is None <==> or_empty(hit.album_mid).len() == 0,
        r matches Some(a) ==> is_qq_album(a, *hit),
{
    let id = string_or_empty(&hit.album_mid);
    if id.as_str().is_empty() {
        return None;
    }
    Some(
        MusicAlbum {
            service: MusicService::Qq,
            id,
            title: string_or_empty(&hit.album_name),
            artist: copy_opt(&hit.singer_name),
            artist_id: copy_opt(&hit.singer_id),
            cover_url: copy_opt(&hit.album_pic),
            publish_time: None,
            track_count: None,
        },
    )
}

/// An album of a QQ Music artist listing.
#[derive(Debug, Clone)]
pub struct QqArtistAlbumItem {
    pub album_mid: Option<String>,
    pub album_name: Option<String>,
    pub singer_name: Option<String>,
    pub singer_mid: Option<String>,
    pub pub_time: Option<String>,
}

/// The album a kept QQ Music artist album becomes; its cover is derived from
/// its mid.
pub open spec fn is_qq_artist_album(a: MusicAlbum, it: QqArtistAlbumItem) -> bool {
    &&& a.service == MusicService::Qq
    &&& a.id@ == or_empty(it.album_mid)
    &&& a.title@ == or_empty(it.album_name)
    &&& ov(a.artist) == ov(it.singer_name)
    &&& ov(a.artist_id) == ov(it.singer_mid)
    &&& ov(a.cover_url) == Some("https://y.qq.com/music/photo_new/T002R800x800M000"@ + or_empty(it.album_mid) + ".jpg"@)
    &&& ov(a.publish_time) == ov(it.pub_time)
    &&& a.track_count is None
}

/// An album of a QQ Music artist listing; `None` when it has no mid.
pub fn qq_artist_album(it: &QqArtistAlbumItem) -> (r: Option<MusicAlbum>)
    ensures
        r is None <==> or_empty(it.album_mid).len() == 0,
        r matches Some(a) ==> is_qq_artist_album(a, *it),
{
    let id = string_or_empty(&it.album_mid);
    if id.as_str().is_empty() {
        return None;
    }
    let cover = concat3("https://y.qq.com/music/photo_new/T002R800x800M000", id.as_str(), ".jpg");
    Some(
        MusicAlbum {
            service: MusicService::Qq,
            id,
            title: string_or_empty(&it.album_name),
            artist: copy_opt(&it.singer_name),
            artist_id: copy_opt(&it.singer_mid),
            cover_url: Some(cover),
            publish_time: copy_opt(&it.pub_time),
            track_count: None,
        },
    )
}

/// A NetEase song, as listed by a search or an album.
#[derive(Debug, Clone)]
pub struct NeteaseSong {
    pub id: Option<i64>,
    pub name: Option<String>,
    /// `dt`, the duration in milliseconds.
    pub dt: Option<i64>,
    /// `al.name`, `al.id` and `al.picUrl`.
    pub album_name: Option<String>,
    pub album_id: Option<i64>,
    pub pic_url: Option<String>,
    /// Names and ids of the `ar` array (empty when there is none).
    pub artists: NumberedArtists,
    /// Which of the `hr`, `sq`, `h`, `m`, `l` entries are present.
    pub has_hr: bool,
    pub has_sq: bool,
    pub has_h: bool,
    pub has_m: bool,
    pub has_l: bool,
}

/// A duration in milliseconds; negative counts as zero.
pub open spec fn non_negative(o: Option<i64>) -> Option<u64> {
    match o {
        Some(n) => Some(if n < 0 { 0 } else { n as u64 }),
        None => None,
    }
}

/// The track a kept NetEase song becomes.
pub open spec fn is_netease_track(t: MusicTrack, s: NeteaseSong) -> bool {
    &&& t.service == MusicService::Netease
    &&& Some(t.id@) == od(s.id)
    &&& t.title@ == or_empty(s.name)
    &&& t.artists.deep_view() == kept_names(s.artists.names@)
    &&& t.artist_ids.deep_view() == numbered(s.artists.ids@)
    &&& ov(t.album) == ov(s.album_name)
    &&& ov(t.album_id) == od(s.album_id)
    &&& t.duration_ms == non_negative(s.dt)
    &&& ov(t.cover_url) == ov(s.pic_url)
    &&& song_qualities(t.qualities@, s.has_hr, s.has_sq, s.has_h, s.has_m, s.has_l)
}

/// A NetEase song as a track; `None` when it has no id.
pub fn netease_track(s: &NeteaseSong) -> (r: Option<MusicTrack>)
    ensures
        r is None <==> s.id is None,
        r matches Some(t) ==> is_netease_track(t, *s),
{
    match s.id {
        Some(n) => {
            let duration_ms: Option<u64> = match s.dt {
                Some(d) => Some(if d < 0 { 0 } else { d as u64 }),
                None => None,
            };
            Some(
                MusicTrack {
                    service: MusicService::Netease,
                    id: decimal_string(n),
                    title: string_or_empty(&s.name),
                    artists: keep_names(&s.artists.names),
                    artist_ids: number_strings(&s.artists.ids),
                    album: copy_opt(&s.album_name),
                    album_id: decimal_opt(s.album_id),
                    duration_ms,
                    cover_url: copy_opt(&s.pic_url),
                    qualities: qualities_from_song(s.has_hr, s.has_sq, s.has_h, s.has_m, s.has_l),
                },
            )
        },
        None => None,
    }
}

/// A NetEase album, as listed by a search or an artist.
#[derive(Debug, Clone)]
pub struct NeteaseAlbumHit {
    pub id: Option<i64>,
    pub name: Option<String>,
    /// `artist.name` and `artist.id`.
    pub artist_name: Option<String>,
    pub artist_id: Option<i64>,
    pub pic_url: Option<String>,
    pub publish_time: Option<i64>,
}

/// The album a kept NetEase album search hit becomes.
pub open spec fn is_netease_album(a: MusicAlbum, hit: NeteaseAlbumHit) -> bool {
    &&& a.service == MusicService::Netease
    &&& Some(a.id@) == od(hit.id)
    &&& a.title@ == or_empty(hit.name)
    &&& ov(a.artist) == ov(hit.artist_name)
    &&& ov(a.artist_id) == od(hit.artist_id)
    &&& ov(a.cover_url) == ov(hit.pic_url)
    &&& ov(a.publish_time) == od(hit.publish_time)
    &&& a.track_count is None
}

/// A NetEase album search hit as an album; `None` when it has no id.
pub fn netease_search_album(hit: &NeteaseAlbumHit) -> (r: Option<MusicAlbum>)
    ensures
        r is None <==> hit.id is None,
        r matches Some(a) ==> is_netease_album(a, *hit),
{
    match hit.id {
        Some(n) => Some(
            MusicAlbum {
                service: MusicService::Netease,
                id: decimal_string(n),
                title: string_or_empty(&hit.name),
                artist: copy_opt(&hit.artist_name),
                artist_id: decimal_opt(hit.artist_id),
                cover_url: copy_opt(&hit.pic_url),
                publish_time: decimal_opt(hit.publish_time),
                track_count: None,
            },
        ),
        None => None,
    }
}

/// The album a kept album of a NetEase artist listing becomes; it belongs to
/// the artist.
pub open spec fn is_netease_artist_album(a: MusicAlbum, hit: NeteaseAlbumHit, artist_id: Seq<char>) -> bool {
    &&& a.service == MusicService::Netease
    &&& Some(a.id@) == od(hit.id)
    &&& a.title@ == or_empty(hit.name)
    &&& a.artist is None
    &&& ov(a.artist_id) == Some(artist_id)
    &&& ov(a.cover_url) == ov(hit.pic_url)
    &&& ov(a.publish_time) == od(hit.publish_time)
    &&& a.track_count is None
}

/// An album of a NetEase artist listing; `None` when it has no id.
pub fn netease_artist_album(hit: &NeteaseAlbumHit, artist_id: &str) -> (r: Option<MusicAlbum>)
    ensures
        r is None <==> hit.id is None,
        r matches Some(a) ==> is_netease_artist_album(a, *hit, artist_id@),
{
    match hit.id {
        Some(n) => Some(
            MusicAlbum {
                service: MusicService::Netease,
                id: decimal_string(n),
                title: string_or_empty(&hit.name),
                artist: None,
                artist_id: Some(artist_id.to_owned()),
                cover_url: copy_opt(&hit.pic_url),
                publish_time: decimal_opt(hit.publish_time),
                track_count: None,
            },
        ),
        None => None,
    }
}

/// A NetEase artist search hit.
#[derive(Debug, Clone)]
pub struct NeteaseArtistHit {
    pub id: Option<i64>,
    pub name: Option<String>,
    pub pic_url: Option<String>,
    pub album_size: Option<i64>,
}

/// The artist a kept NetEase artist hit becomes.
pub open spec fn is_netease_artist(a: MusicArtist, hit: NeteaseArtistHit) -> bool {
    &&& a.service == MusicService::Netease
    &&& Some(a.id@) == od(hit.id)
    &&& a.name@ == or_empty(hit.name)
    &&& ov(a.cover_url) == ov(hit.pic_url)
    &&& a.album_count == to_u32(hit.album_size)
}

/// A NetEase artist search hit as an artist; `None` when it has no id.
pub fn netease_search_artist(hit: &NeteaseArtistHit) -> (r: Option<MusicArtist>)
    ensures
        r is None <==> hit.id is None,
        r matches Some(a) ==> is_netease_artist(a, *hit),
{
    match hit.id {
        Some(n) => Some(
            MusicArtist {
                service: MusicService::Netease,
                id: decimal_string(n),
                name: string_or_empty(&hit.name),
                cover_url: copy_opt(&hit.pic_url),
                album_count: to_u32_exec(hit.album_size),
            },
        ),
        None => None,
    }
}

/// The pieces of `cur + s` between `&` signs.
pub open spec fn split_amp(s: Seq<char>, cur: Seq<char>) -> Seq<Seq<char>>
    decreases s.len(),
{
    if s.len() == 0 {
        seq![cur]
    } else if s[0] == '&' {
        seq![cur] + split_amp(s.drop_first(), Seq::empty())
    } else {
        split_amp(s.drop_first(), cur.push(s[0]))
    }
}

/// Each piece trimmed, the empty ones dropped.
pub open spec fn trimmed_pieces(segs: Seq<Seq<char>>) -> Seq<Seq<char>>
    decreases segs.len(),
{
    if segs.len() == 0 {
        Seq::empty()
    } else {
        let t = textops::trim(segs[0]);
        (if t.len() == 0 {
            Seq::empty()
        } else {
            seq![t]
        }) + trimmed_pieces(segs.drop_first())
    }
}

/// The `&`-separated list in an optional string: pieces trimmed, empty ones
/// dropped.
pub open spec fn amp_list(o: Option<String>) -> Seq<Seq<char>> {
    trimmed_pieces(split_amp(or_empty(o), Seq::empty()))
}

proof fn lemma_trimmed_one(x: Seq<char>, tail: Seq<Seq<char>>)
    ensures
        trimmed_pieces(seq![x] + tail) == (if textops::trim(x).len() == 0 {
            Seq::<Seq<char>>::empty()
        } else {
            seq![textops::trim(x)]
        }) + trimmed_pieces(tail),
{
    assert((seq![x] + tail).drop_first() =~= tail);
    assert((seq![x] + tail)[0] == x);
}

/// The `&`-separated list in a string.
fn split_amp_list(o: &Option<String>) -> (r: Vec<String>)
    ensures
        r.deep_view() == amp_list(*o),
{
    let s = textops::chars_of(string_or_empty(o).as_str());
    let n = s.len();
    let mut out: Vec<String> = Vec::new();
    let mut cur: Vec<char> = Vec::new();
    let mut i: usize = 0;
    assert(s@.subrange(0, n as int) =~= s@);
    while i < n
        invariant
            i <= n,
            n == s@.len(),
            s@ == or_empty(*o),
            amp_list(*o) == out.deep_view() + trimmed_pieces(
                split_amp(s@.subrange(i as int, n as int), cur@),
            ),
        decreases n - i,
    {
        let c = s[i];
        let ghost rest = s@.subrange(i as int, n as int);
        assert(rest.drop_first() =~= s@.subrange(i + 1, n as int));
        assert(rest[0] == c);
        if c == '&' {
            let ghost tail = split_amp(rest.drop_first(), Seq::empty());
            proof {
                lemma_trimmed_one(cur@, tail);
            }
            let t = textops::trim_vec(&cur);
            if t.len() > 0 {
                let ghost before = out.deep_view();
                out.push(textops::string_of(t.as_slice()));
                assert(out.deep_view() =~= before.push(t@));
            }
            cur = Vec::new();
        } else {
            cur.push(c);
        }
        i = i + 1;
    }
    assert(s@.subrange(n as int, n as int) =~= Seq::<char>::empty());
    proof {
        lemma_trimmed_one(cur@, Seq::empty());
        assert(seq![cur@] + Seq::<Seq<char>>::empty() =~= seq![cur@]);
    }
    let t = textops::trim_vec(&cur);
    if t.len() > 0 {
        let ghost before = out.deep_view();
        out.push(textops::string_of(t.as_slice()));
        assert(out.deep_view() =~= before.push(t@));
    }
    out
}

/// `s` without every leading copy of `p`.
pub open spec fn strip_all_prefix(s: Seq<char>, p: Seq<char>) -> Seq<char>
    decreases s.len(),
{
    if p.len() > 0 && p.len() <= s.len() && textops::starts_with(s, p) {
        strip_all_prefix(s.subrange(p.len() as int, s.len() as int), p)
    } else {
        s
    }
}

fn strip_all_prefix_vec(s: &Vec<char>, p: &Vec<char>) -> (r: Vec<char>)
    requires
        p@.len() > 0,
    ensures
        r@ == strip_all_prefix(s@, p@),
{
    let mut cur = textops::slice_vec(s, 0, s.len());
    assert(cur@ =~= s@);
    while p.len() <= cur.len() && textops::starts_with_exec(&cur, p)
        invariant
            p@.len() > 0,
            strip_all_prefix(cur@, p@) == strip_all_prefix(s@, p@),
        decreases cur@.len(),
    {
        cur = textops::slice_vec(&cur, p.len(), cur.len());
    }
    cur
}

/// `str::parse::<u64>`: an optional `+`, then at least one decimal digit, and
/// a value that fits in 64 bits.
pub open spec fn parse_u64(s: Seq<char>) -> Option<u64> {
    let d = crate::lyrics::util::sign_stripped(s);
    if d.len() > 0 && (forall|i: int|
        0 <= i < d.len() ==> crate::lyrics::util::is_radix_digit(#[trigger] d[i], 10))
        && crate::lyrics::util::digits_value(d, 10) <= u64::MAX {
        Some(crate::lyrics::util::digits_value(d, 10) as u64)
    } else {
        None
    }
}

fn parse_u64_exec(s: &Vec<char>) -> (r: Option<u64>)
    ensures
        r == parse_u64(s@),
{
    let start: usize = if s.len() > 0 && s[0] == '+' {
        1
    } else {
        0
    };
    let ghost d = crate::lyrics::util::sign_stripped(s@);
    assert(d =~= s@.subrange(start as int, s.len() as int));
    if start == s.len() {
        return None;
    }
    let mut acc: u128 = 0;
    let mut i: usize = start;
    while i < s.len()
        invariant
            start <= i <= s.len(),
            d == s@.subrange(start as int, s.len() as int),
            d == crate::lyrics::util::sign_stripped(s@),
            forall|j: int|
                0 <= j < i - start ==> crate::lyrics::util::is_radix_digit(#[trigger] d[j], 10),
            acc == crate::lyrics::util::digits_value(d.take(i - start), 10),
            acc <= u64::MAX,
        decreases s.len() - i,
    {
        let dv = crate::lyrics::util::hex_digit_value_exec(s[i]);
        assert(s@[i as int] == d[i - start]);
        if dv < 0 || dv >= 10 {
            assert(!crate::lyrics::util::is_radix_digit(d[i - start], 10));
            return None;
        }
        let next: u128 = acc * 10 + (dv as u128);
        proof {
            let t = d.take(i - start + 1);
            assert(t.drop_last() =~= d.take(i - start));
            assert(t.last() == d[i - start]);
        }
        if next > 0xFFFF_FFFF_FFFF_FFFF {
            proof {
                if forall|j: int|
                    0 <= j < d.len() ==> crate::lyrics::util::is_radix_digit(#[trigger] d[j], 10) {
                    crate::lyrics::util::lemma_digits_value_prefix(d, 10, i - start + 1);
                }
            }
            return None;
        }
        acc = next;
        i = i + 1;
    }
    assert(d.take(i - start) =~= d);
    Some(acc as u64)
}

/// A duration in whole seconds written as text, in milliseconds.
pub open spec fn text_secs_ms(o: Option<String>) -> Option<u64> {
    match o {
        Some(s) => match parse_u64(s@) {
            Some(v) => Some((v * 1000) as u64),
            None => None,
        },
        None => None,
    }
}

/// Whether `text_secs_ms` stays within 64 bits.
pub open spec fn text_secs_fit(o: Option<String>) -> bool {
    match o {
        Some(s) => match parse_u64(s@) {
            Some(v) => v * 1000 <= u64::MAX,
            None => true,
        },
        None => true,
    }
}

fn text_secs_ms_exec(o: &Option<String>) -> (r: Option<u64>)
    requires
        text_secs_fit(*o),
    ensures
        r == text_secs_ms(*o),
{
    match o {
        Some(s) => match parse_u64_exec(&textops::chars_of(s.as_str())) {
            Some(v) => Some(v * 1000),
            None => None,
        },
        None => None,
    }
}

/// A Kuwo cover from a picture path: the album cover prefix, the path, and
/// the 120-pixel size turned into 500.
pub open spec fn kuwo_cover(o: Option<String>) -> Option<Seq<char>> {
    match o {
        Some(s) => Some(textops::replace_all(
            "https://img3.kuwo.cn/star/albumcover/"@ + s@,
            "/120"@,
            "/500"@,
        )),
        None => None,
    }
}

fn kuwo_cover_exec(o: &Option<String>) -> (r: Option<String>)
    ensures
        ov(r) == kuwo_cover(*o),
{
    match o {
        Some(s) => {
            let full = concat3("https://img3.kuwo.cn/star/albumcover/", s.as_str(), "");
            proof {
                reveal_strlit("");
                reveal_strlit("/120");
                assert(full@ =~= "https://img3.kuwo.cn/star/albumcover/"@ + s@);
            }
            let v = textops::replace_vec(
                &textops::chars_of(full.as_str()),
                &textops::chars_of("/120"),
                &textops::chars_of("/500"),
            );
            Some(textops::string_of(v.as_slice()))
        },
        None => None,
    }
}

/// A Kuwo song search hit.
#[derive(Debug, Clone)]
pub struct KuwoSongHit {
    /// `MUSICRID`, such as `MUSIC_12345`.
    pub rid: Option<String>,
    pub name: Option<String>,
    /// `ARTIST`: names separated by `&`.
    pub artist: Option<String>,
    /// `ALLARTISTID`: ids separated by `&`.
    pub all_artist_id: Option<String>,
    pub album: Option<String>,
    pub album_id: Option<String>,
    /// `DURATION`, in seconds, as text.
    pub duration: Option<String>,
    /// `NMINFO`: the available bitrates.
    pub nm_info: Option<String>,
    /// `web_albumpic_short`: the cover path.
    pub pic_short: Option<String>,
}

/// The id of a Kuwo hit: its rid trimmed, without the `MUSIC_` prefix.
pub open spec fn kuwo_hit_id(hit: KuwoSongHit) -> Seq<char> {
    strip_all_prefix(textops::trim(or_empty(hit.rid)), "MUSIC_"@)
}

/// The track a kept Kuwo search hit becomes.
pub open spec fn is_kuwo_hit_track(t: MusicTrack, hit: KuwoSongHit) -> bool {
    &&& t.service == MusicService::Kuwo
    &&& t.id@ == kuwo_hit_id(hit)
    &&& t.title@ == or_empty(hit.name)
    &&& t.artists.deep_view() == amp_list(hit.artist)
    &&& t.artist_ids.deep_view() == amp_list(hit.all_artist_id)
    &&& ov(t.album) == ov(hit.album)
    &&& ov(t.album_id) == ov(hit.album_id)
    &&& t.duration_ms == text_secs_ms(hit.duration)
    &&& ov(t.cover_url) == kuwo_cover(hit.pic_short)
    &&& nm_qualities(t.qualities@, or_empty(hit.nm_info))
}

/// A Kuwo song search hit as a track; `None` when its id is empty.
pub fn kuwo_search_track(hit: &KuwoSongHit) -> (r: Option<MusicTrack>)
    requires
        text_secs_fit(hit.duration),
    ensures
        r is None <==> kuwo_hit_id(*hit).len() == 0,
        r matches Some(t) ==> is_kuwo_hit_track(t, *hit),
{
    let rid = textops::trim_vec(&textops::chars_of(string_or_empty(&hit.rid).as_str()));
    let prefix = textops::chars_of("MUSIC_");
    proof {
        reveal_strlit("MUSIC_");
    }
    let id = strip_all_prefix_vec(&rid, &prefix);
    if id.len() == 0 {
        return None;
    }
    let nm = string_or_empty(&hit.nm_info);
    Some(
        MusicTrack {
            service: MusicService::Kuwo,
            id: textops::string_of(id.as_slice()),
            title: string_or_empty(&hit.name),
            artists: split_amp_list(&hit.artist),
            artist_ids: split_amp_list(&hit.all_artist_id),
            album: copy_opt(&hit.album),
            album_id: copy_opt(&hit.album_id),
            duration_ms: text_secs_ms_exec(&hit.duration),
            cover_url: kuwo_cover_exec(&hit.pic_short),
            qualities: parse_nm_info_to_qualities(nm.as_str()),
        },
    )
}

/// A song of a Kuwo album listing.
#[derive(Debug, Clone)]
pub struct KuwoAlbumSong {
    pub id: Option<String>,
    pub name: Option<String>,
    /// `artist`: names separated by `&`.
    pub artist: Option<String>,
    /// `allartistid`: ids separated by `&`.
    pub all_artist_id: Option<String>,
    /// `duration`, in seconds, as text.
    pub duration: Option<String>,
    /// `N_MINFO`: the available bitrates.
    pub nm_info: Option<String>,
    /// `web_albumpic_short`: the cover path.
    pub pic_short: Option<String>,
}

/// The track a kept song of a Kuwo album becomes, with the album's name and
/// id.
pub open spec fn is_kuwo_album_track(
    t: MusicTrack,
    s: KuwoAlbumSong,
    album: Option<String>,
    album_id: Option<String>,
) -> bool {
    &&& t.service == MusicService::Kuwo
    &&& t.id@ == or_empty(s.id)
    &&& t.title@ == or_empty(s.name)
    &&& t.artists.deep_view() == amp_list(s.artist)
    &&& t.artist_ids.deep_view() == amp_list(s.all_artist_id)
    &&& ov(t.album) == ov(album)
    &&& ov(t.album_id) == ov(album_id)
    &&& t.duration_ms == text_secs_ms(s.duration)
    &&& ov(t.cover_url) == kuwo_cover(s.pic_short)
    &&& nm_qualities(t.qualities@, or_empty(s.nm_info))
}

/// A song of a Kuwo album as a track; `None` when it has no id.
pub fn kuwo_album_track(s: &KuwoAlbumSong, album: &Option<String>, album_id: &Option<String>) -> (r:
    Option<MusicTrack>)
    requires
        text_secs_fit(s.duration),
    ensures
        r is None <==> or_empty(s.id).len() == 0,
        r matches Some(t) ==> is_kuwo_album_track(t, *s, *album, *album_id),
{
    let id = string_or_empty(&s.id);
    if id.as_str().is_empty() {
        return None;
    }
    let nm = string_or_empty(&s.nm_info);
    Some(
        MusicTrack {
            service: MusicService::Kuwo,
            id,
            title: string_or_empty(&s.name),
            artists: split_amp_list(&s.artist),
            artist_ids: split_amp_list(&s.all_artist_id),
            album: copy_opt(album),
            album_id: copy_opt(album_id),
            duration_ms: text_secs_ms_exec(&s.duration),
            cover_url: kuwo_cover_exec(&s.pic_short),
            qualities: parse_nm_info_to_qualities(nm.as_str()),
        },
    )
}

/// A Kuwo artist search hit.
#[derive(Debug, Clone)]
pub struct KuwoArtistHit {
    pub artist_id: Option<String>,
    pub artist: Option<String>,
    /// `hts_picpath`.
    pub pic_path: Option<String>,
}

/// The cover of a Kuwo artist: its picture with the 120-pixel size turned
/// into 500, else the star-head picture of its id.
pub open spec fn kuwo_artist_cover(hit: KuwoArtistHit) -> Seq<char> {
    match hit.pic_path {
        Some(p) => textops::replace_all(p@, "/120"@, "/500"@),
        None => "https://star.kuwo.cn/star/starheads/"@ + or_empty(hit.artist_id),
    }
}

/// The artist a kept Kuwo artist hit becomes.
pub open spec fn is_kuwo_artist(a: MusicArtist, hit: KuwoArtistHit) -> bool {
    &&& a.service == MusicService::Kuwo
    &&& a.id@ == or_empty(hit.artist_id)
    &&& a.name@ == or_empty(hit.artist)
    &&& ov(a.cover_url) == Some(kuwo_artist_cover(hit))
    &&& a.album_count is None
}

/// A Kuwo artist search hit as an artist; `None` when it has no id.
pub fn kuwo_search_artist(hit: &KuwoArtistHit) -> (r: Option<MusicArtist>)
    ensures
        r is None <==> or_empty(hit.artist_id).len() == 0,
        r matches Some(a) ==> is_kuwo_artist(a, *hit),
{
    let id = string_or_empty(&hit.artist_id);
    if id.as_str().is_empty() {
        return None;
    }
    let cover = match &hit.pic_path {
        Some(p) => {
            proof {
                reveal_strlit("/120");
            }
            let v = textops::replace_vec(
                &textops::chars_of(p.as_str()),
                &textops::chars_of("/120"),
                &textops::chars_of("/500"),
            );
            textops::string_of(v.as_slice())
        },
        None => {
            let c = concat3("https://star.kuwo.cn/star/starheads/", id.as_str(), "");
            proof {
                reveal_strlit("");
                assert(c@ =~= "https://star.kuwo.cn/star/starheads/"@ + id@);
            }
            c
        },
    };
    Some(
        MusicArtist {
            service: MusicService::Kuwo,
            id,
            name: string_or_empty(&hit.artist),
            cover_url: Some(cover),
            album_count: None,
        },
    )
}

/// A Kuwo album, as listed by a search or an artist.
#[derive(Debug, Clone)]
pub struct KuwoAlbumHit {
    pub album_id: Option<String>,
    pub name: Option<String>,
    pub artist: Option<String>,
    pub artist_id: Option<String>,
    /// `pic`: the cover path.
    pub pic: Option<String>,
    /// `pub`: the publish date.
    pub publish: Option<String>,
    /// `musiccnt`, as text.
    pub music_count: Option<String>,
}

/// The album a kept Kuwo album hit becomes.
pub open spec fn is_kuwo_album(a: MusicAlbum, hit: KuwoAlbumHit) -> bool {
    &&& a.service == MusicService::Kuwo
    &&& a.id@ == or_empty(hit.album_id)
    &&& a.title@ == or_empty(hit.name)
    &&& ov(a.artist) == ov(hit.artist)
    &&& ov(a.artist_id) == ov(hit.artist_id)
    &&& ov(a.cover_url) == kuwo_cover(hit.pic)
    &&& ov(a.publish_time) == ov(hit.publish)
    &&& a.track_count == parse_count(hit.music_count)
}

/// A Kuwo album hit as an album; `None` when it has no id.
pub fn kuwo_album(hit: &KuwoAlbumHit) -> (r: Option<MusicAlbum>)
    ensures
        r is None <==> or_empty(hit.album_id).len() == 0,
        r matches Some(a) ==> is_kuwo_album(a, *hit),
{
    let id = string_or_empty(&hit.album_id);
    if id.as_str().is_empty() {
        return None;
    }
    Some(
        MusicAlbum {
            service: MusicService::Kuwo,
            id,
            title: string_or_empty(&hit.name),
            artist: copy_opt(&hit.artist),
            artist_id: copy_opt(&hit.artist_id),
            cover_url: kuwo_cover_exec(&hit.pic),
            publish_time: copy_opt(&hit.publish),
            track_count: parse_count_exec(&hit.music_count),
        },
    )
}

/// No artist name a track keeps is blank.
pub proof fn lemma_kept_names_not_blank(v: Seq<Option<String>>)
    ensures
        forall|i: int| 0 <= i < kept_names(v).len() ==> !textops::all_ws(#[trigger] kept_names(v)[i]),
    decreases v.len(),
{
    if v.len() > 0 {
        lemma_kept_names_not_blank(v.drop_last());
        let rest = kept_names(v.drop_last());
        assert forall|i: int| 0 <= i < kept_names(v).len() implies !textops::all_ws(
            #[trigger] kept_names(v)[i],
        ) by {
            if i < rest.len() {
                assert(kept_names(v)[i] == rest[i]);
            }
        }
    }
}

/// No piece of an `&`-separated list is empty.
pub proof fn lemma_amp_list_not_empty(segs: Seq<Seq<char>>)
    ensures
        forall|i: int| 0 <= i < trimmed_pieces(segs).len() ==> (#[trigger] trimmed_pieces(segs)[i]).len() > 0,
    decreases segs.len(),
{
    if segs.len() > 0 {
        lemma_amp_list_not_empty(segs.drop_first());
        let t = textops::trim(segs[0]);
        let head: Seq<Seq<char>> = if t.len() == 0 {
            Seq::empty()
        } else {
            seq![t]
        };
        let rest = trimmed_pieces(segs.drop_first());
        assert(trimmed_pieces(segs) == head + rest);
        assert forall|i: int| 0 <= i < trimmed_pieces(segs).len() implies (
        #[trigger] trimmed_pieces(segs)[i]).len() > 0 by {
            if i >= head.len() {
                assert(trimmed_pieces(segs)[i] == rest[i - head.len()]);
            }
        }
    }
}

/// A NetEase track is titled by the song's name, empty without one, whatever
/// the album is called.
pub proof fn lemma_netease_track_title(t: MusicTrack, s: NeteaseSong)
    requires
        is_netease_track(t, s),
    ensures
        t.title@ == (match s.name {
            Some(n) => n@,
            None => Seq::empty(),
        }),
{
}

} // verus!
