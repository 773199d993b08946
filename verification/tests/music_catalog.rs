use chaos_core::music::catalog::{
    keep_names, kugou_album_next_page, kugou_album_page_usable, kugou_album_track,
    kugou_artist_album, kugou_search_album, kugou_search_artist, kugou_search_track, kuwo_album,
    kuwo_album_track, kuwo_search_artist, kuwo_search_track, netease_artist_album,
    netease_search_album, netease_search_artist, netease_track, number_strings, qq_artist_album,
    qq_search_album, qq_search_artist, qq_track, required_id, KugouAlbumHit, KugouAlbumSong,
    KugouArtistAlbumItem, KugouArtistHit, KugouSongHit, KuwoAlbumHit, KuwoAlbumSong,
    KuwoArtistHit, KuwoSongHit, NeteaseAlbumHit, NeteaseArtistHit, NeteaseSong, NumberedArtists,
    QqAlbumHit, QqArtistAlbumItem, QqArtistHit, QqSong,
};
use chaos_core::music::error::MusicError;
use chaos_core::music::model::MusicService;

fn s(x: &str) -> Option<String> {
    Some(x.to_string())
}

fn ids(t: &[chaos_core::music::model::MusicQuality]) -> Vec<String> {
    t.iter().map(|q| q.id.clone()).collect()
}

#[test]
fn keep_names_drops_blank_and_missing() {
    let v = vec![s("A"), None, s("  "), s("B")];
    assert_eq!(keep_names(&v), vec!["A".to_string(), "B".to_string()]);
    assert_eq!(number_strings(&vec![Some(12), None, Some(-3)]), vec!["12", "-3"]);
}

#[test]
fn required_id_trims_or_fails() {
    assert_eq!(required_id("  abc ", "album_id").unwrap(), "abc");
    match required_id("   ", "album_id") {
        Err(MusicError::InvalidInput(m)) => assert_eq!(m, "empty album_id"),
        other => panic!("unexpected {other:?}"),
    }
}

fn kugou_hit() -> KugouSongHit {
    KugouSongHit {
        file_hash: s("HASH1"),
        title: s("Song"),
        album_name: s("Album"),
        album_id: Some(42),
        duration_s: Some(215),
        singers: Some(NumberedArtists { names: vec![s("A"), s(" ")], ids: vec![Some(7), Some(8)] }),
        singer_name: s("ignored"),
        image: s("http://img/{size}/x.jpg"),
        size_128: 10,
        size_hq: 0,
        size_sq: 5,
    }
}

#[test]
fn kugou_search_track_maps_fields() {
    let t = kugou_search_track(&kugou_hit()).unwrap();
    assert_eq!(t.service, MusicService::Kugou);
    assert_eq!(t.id, "HASH1");
    assert_eq!(t.title, "Song");
    assert_eq!(t.artists, vec!["A"]);
    assert_eq!(t.artist_ids, vec!["7", "8"]);
    assert_eq!(t.album.as_deref(), Some("Album"));
    assert_eq!(t.album_id.as_deref(), Some("42"));
    assert_eq!(t.duration_ms, Some(215_000));
    assert_eq!(t.cover_url.as_deref(), Some("http://img/480/x.jpg"));
    assert_eq!(ids(&t.qualities), vec!["mp3_128", "flac"]);
}

#[test]
fn kugou_search_track_singer_name_fallback_and_skip() {
    let mut h = kugou_hit();
    h.singers = None;
    h.duration_s = Some(-5);
    let t = kugou_search_track(&h).unwrap();
    assert_eq!(t.artists, vec!["ignored"]);
    assert!(t.artist_ids.is_empty());
    assert_eq!(t.duration_ms, Some(0));
    h.file_hash = s("");
    assert!(kugou_search_track(&h).is_none());
}

#[test]
fn kugou_artist_and_album_hits() {
    let a = kugou_search_artist(&KugouArtistHit {
        author_id: Some(99),
        author_name: s("Singer"),
        avatar: s("http://a/{size}.jpg"),
        album_count: Some(-1),
    })
    .unwrap();
    assert_eq!((a.id.as_str(), a.name.as_str()), ("99", "Singer"));
    assert_eq!(a.cover_url.as_deref(), Some("http://a/480.jpg"));
    assert_eq!(a.album_count, None);
    assert!(kugou_search_artist(&KugouArtistHit { author_id: None, author_name: None, avatar: None, album_count: None }).is_none());

    let al = kugou_search_album(&KugouAlbumHit {
        album_id: Some(5),
        album_name: s("LP"),
        author_name: s("X"),
        author_id: Some(6),
        cover: None,
        publish_date: s("2020-01-01"),
        song_count: Some(12),
    })
    .unwrap();
    assert_eq!(al.id, "5");
    assert_eq!(al.artist_id.as_deref(), Some("6"));
    assert_eq!(al.track_count, Some(12));
    assert_eq!(al.publish_time.as_deref(), Some("2020-01-01"));
}

#[test]
fn kugou_artist_album_ids() {
    let item = KugouArtistAlbumItem {
        album_id_text: None,
        album_id_number: Some(77),
        album_name: s("N"),
        sizable_cover: s("c/{size}"),
        publish_date: None,
    };
    let a = kugou_artist_album(&item, "123").unwrap();
    assert_eq!(a.id, "77");
    assert_eq!(a.artist_id.as_deref(), Some("123"));
    assert_eq!(a.cover_url.as_deref(), Some("c/480"));
    let mut blank = item.clone();
    blank.album_id_text = s("");
    assert!(kugou_artist_album(&blank, "123").is_none());
}

#[test]
fn kugou_album_song_and_paging() {
    let song = KugouAlbumSong {
        hash: s("H"),
        title: s("T"),
        duration_s: Some(3),
        album_name: s("Al"),
        album_id: Some(1),
        cover: s("u/{size}"),
        authors: NumberedArtists { names: vec![s("P")], ids: vec![Some(2)] },
        hash_320: s(" "),
        hash_flac: s("F"),
    };
    let t = kugou_album_track(&song).unwrap();
    assert_eq!(t.cover_url.as_deref(), Some("u/400"));
    assert_eq!(ids(&t.qualities), vec!["mp3_128", "flac"]);
    assert_eq!(t.duration_ms, Some(3000));
    assert!(kugou_album_page_usable(1, 3));
    assert!(!kugou_album_page_usable(0, 3));
    assert!(!kugou_album_page_usable(1, 0));
    assert_eq!(kugou_album_next_page(10, 10, 1), None);
    assert_eq!(kugou_album_next_page(0, 100, 1), Some(2));
    assert_eq!(kugou_album_next_page(500, 100, 200), None);
}

fn qq_song() -> QqSong {
    QqSong {
        mid: s("M1"),
        name: s("Q"),
        singer_names: vec![s("S1"), s("")],
        singer_mids: vec![s(" "), s("sm2")],
        album_name: s("QA"),
        album_mid: s("am"),
        album_pmid: s("PM"),
        interval_s: Some(200),
        size_flac: 1,
        size_320: 1,
        size_128: 0,
    }
}

#[test]
fn qq_track_maps_fields() {
    let t = qq_track(&qq_song()).unwrap();
    assert_eq!(t.artists, vec!["S1"]);
    assert_eq!(t.artist_ids, vec!["sm2"]);
    assert_eq!(t.cover_url.as_deref(), Some("https://y.qq.com/music/photo_new/T002R800x800M000PM.jpg"));
    assert_eq!(t.duration_ms, Some(200_000));
    assert_eq!(ids(&t.qualities), vec!["flac", "mp3_320"]);
    let mut no_cover = qq_song();
    no_cover.album_pmid = s("  ");
    assert_eq!(qq_track(&no_cover).unwrap().cover_url, None);
}

#[test]
fn qq_artist_album_hits() {
    let a = qq_search_artist(&QqArtistHit { singer_mid: s("X"), singer_name: s("N"), singer_pic: None, album_num: s("+12") }).unwrap();
    assert_eq!(a.album_count, Some(12));
    let b = qq_search_artist(&QqArtistHit { singer_mid: s("X"), singer_name: None, singer_pic: None, album_num: s("1x") }).unwrap();
    assert_eq!(b.album_count, None);
    let al = qq_search_album(&QqAlbumHit { album_mid: s("A"), album_name: s("B"), singer_name: None, singer_id: s("9"), album_pic: s("p") }).unwrap();
    assert_eq!(al.cover_url.as_deref(), Some("p"));
    let aa = qq_artist_album(&QqArtistAlbumItem { album_mid: s("mid"), album_name: None, singer_name: None, singer_mid: None, pub_time: s("2001") }).unwrap();
    assert_eq!(aa.cover_url.as_deref(), Some("https://y.qq.com/music/photo_new/T002R800x800M000mid.jpg"));
    assert_eq!(aa.title, "");
}

#[test]
fn netease_mappings() {
    let song = NeteaseSong {
        id: Some(1001),
        name: s("N"),
        dt: Some(-1),
        album_name: None,
        album_id: Some(3),
        pic_url: s("pic"),
        artists: NumberedArtists { names: vec![s("Z")], ids: vec![Some(4)] },
        has_hr: true,
        has_sq: true,
        has_h: true,
        has_m: false,
        has_l: true,
    };
    let t = netease_track(&song).unwrap();
    assert_eq!(t.id, "1001");
    assert_eq!(t.duration_ms, Some(0));
    assert_eq!(ids(&t.qualities), vec!["mp3_128", "mp3_320", "flac"]);
    assert_eq!(t.qualities[2].label, "Hi-Res");
    let hit = NeteaseAlbumHit { id: Some(8), name: s("A"), artist_name: s("R"), artist_id: Some(9), pic_url: None, publish_time: Some(1600000000000) };
    let a = netease_search_album(&hit).unwrap();
    assert_eq!(a.publish_time.as_deref(), Some("1600000000000"));
    let b = netease_artist_album(&hit, "55").unwrap();
    assert_eq!(b.artist, None);
    assert_eq!(b.artist_id.as_deref(), Some("55"));
    let ar = netease_search_artist(&NeteaseArtistHit { id: Some(2), name: s("W"), pic_url: None, album_size: Some(5_000_000_000) }).unwrap();
    assert_eq!(ar.album_count, None);
}

#[test]
fn kuwo_mappings() {
    let hit = KuwoSongHit {
        rid: s(" MUSIC_MUSIC_123 "),
        name: s("K"),
        artist: s("A& B &&"),
        all_artist_id: s("1&2"),
        album: s("Al"),
        album_id: s("9"),
        duration: s("245"),
        nm_info: s("level:ff,bitrate:2000,format:flac;level:h,bitrate:320,format:mp3"),
        pic_short: s("120/x/120/y.jpg"),
    };
    let t = kuwo_search_track(&hit).unwrap();
    assert_eq!(t.id, "123");
    assert_eq!(t.artists, vec!["A", "B"]);
    assert_eq!(t.artist_ids, vec!["1", "2"]);
    assert_eq!(t.duration_ms, Some(245_000));
    assert_eq!(t.cover_url.as_deref(), Some("https://img3.kuwo.cn/star/albumcover/500/x/500/y.jpg"));
    assert_eq!(ids(&t.qualities), vec!["flac", "mp3_320"]);
    let mut bad = hit.clone();
    bad.rid = s("MUSIC_");
    assert!(kuwo_search_track(&bad).is_none());
    bad.rid = s("12");
    bad.duration = s("x");
    assert_eq!(kuwo_search_track(&bad).unwrap().duration_ms, None);

    let song = KuwoAlbumSong { id: s("5"), name: None, artist: None, all_artist_id: None, duration: None, nm_info: None, pic_short: None };
    let t = kuwo_album_track(&song, &s("AlbumT"), &None).unwrap();
    assert_eq!(t.album.as_deref(), Some("AlbumT"));
    assert!(t.artists.is_empty());

    let a = kuwo_search_artist(&KuwoArtistHit { artist_id: s("77"), artist: s("N"), pic_path: None }).unwrap();
    assert_eq!(a.cover_url.as_deref(), Some("https://star.kuwo.cn/star/starheads/77"));
    let b = kuwo_search_artist(&KuwoArtistHit { artist_id: s("77"), artist: s("N"), pic_path: s("p/120/q") }).unwrap();
    assert_eq!(b.cover_url.as_deref(), Some("p/500/q"));

    let al = kuwo_album(&KuwoAlbumHit { album_id: s("3"), name: s("X"), artist: None, artist_id: None, pic: s("a/120.jpg"), publish: s("2010"), music_count: s("10") }).unwrap();
    assert_eq!(al.cover_url.as_deref(), Some("https://img3.kuwo.cn/star/albumcover/a/500.jpg"));
    assert_eq!(al.track_count, Some(10));
}
