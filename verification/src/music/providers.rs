//! The rules of the music providers that do not need the network: quality
//! tables, request signatures, endpoint configuration.

use vstd::prelude::*;
use std::collections::BTreeMap;
use vstd::utf8::encode_utf8;
use crate::textops;
use crate::music::error::MusicError;
use crate::music::model::{AuthState, KugouUserInfo, MusicLoginQrState, MusicQuality, ProviderConfig};
use crate::music::util;

verus! {

/// A quality entry: id, label, format, bitrate and whether it is lossless.
pub open spec fn is_quality(
    q: MusicQuality,
    id: Seq<char>,
    label: Seq<char>,
    format: Seq<char>,
    kbps: u32,
    lossless: bool,
) -> bool {
    q.id@ == id && q.label@ == label && q.format@ == format && q.bitrate_kbps == Some(kbps)
        && q.lossless == lossless
}

/// The FLAC quality (2000 kbps).
pub open spec fn is_flac(q: MusicQuality) -> bool {
    is_quality(q, "flac"@, "FLAC"@, "flac"@, 2000, true)
}

/// The Hi-Res lossless quality, exposed as `flac` (3000 kbps).
pub open spec fn is_hires(q: MusicQuality) -> bool {
    is_quality(q, "flac"@, "Hi-Res"@, "flac"@, 3000, true)
}

/// The MP3 320 kbps quality.
pub open spec fn is_mp3_320(q: MusicQuality) -> bool {
    is_quality(q, "mp3_320"@, "MP3 320"@, "mp3"@, 320, false)
}

/// The MP3 192 kbps quality.
pub open spec fn is_mp3_192(q: MusicQuality) -> bool {
    is_quality(q, "mp3_192"@, "MP3 192"@, "mp3"@, 192, false)
}

/// The MP3 128 kbps quality.
pub open spec fn is_mp3_128(q: MusicQuality) -> bool {
    is_quality(q, "mp3_128"@, "MP3 128"@, "mp3"@, 128, false)
}

fn flac() -> (q: MusicQuality)
    ensures
        is_flac(q),
{
    MusicQuality {
        id: "flac".to_owned(),
        label: "FLAC".to_owned(),
        format: "flac".to_owned(),
        bitrate_kbps: Some(2000),
        lossless: true,
    }
}

fn hires() -> (q: MusicQuality)
    ensures
        is_hires(q),
{
    MusicQuality {
        id: "flac".to_owned(),
        label: "Hi-Res".to_owned(),
        format: "flac".to_owned(),
        bitrate_kbps: Some(3000),
        lossless: true,
    }
}

fn mp3_320() -> (q: MusicQuality)
    ensures
        is_mp3_320(q),
{
    MusicQuality {
        id: "mp3_320".to_owned(),
        label: "MP3 320".to_owned(),
        format: "mp3".to_owned(),
        bitrate_kbps: Some(320),
        lossless: false,
    }
}

fn mp3_192() -> (q: MusicQuality)
    ensures
        is_mp3_192(q),
{
    MusicQuality {
        id: "mp3_192".to_owned(),
        label: "MP3 192".to_owned(),
        format: "mp3".to_owned(),
        bitrate_kbps: Some(192),
        lossless: false,
    }
}

fn mp3_128() -> (q: MusicQuality)
    ensures
        is_mp3_128(q),
{
    MusicQuality {
        id: "mp3_128".to_owned(),
        label: "MP3 128".to_owned(),
        format: "mp3".to_owned(),
        bitrate_kbps: Some(128),
        lossless: false,
    }
}

/// `r` lists MP3 128, MP3 320 and FLAC, in this order, each exactly when the
/// 128 kbps, HQ or SQ file size is positive.
pub open spec fn item_qualities(r: Seq<MusicQuality>, size_128: i64, size_hq: i64, size_sq: i64) -> bool {
    &&& r.len() == (if size_128 > 0 { 1int } else { 0 }) + (if size_hq > 0 { 1int } else { 0 }) + (
    if size_sq > 0 { 1int } else { 0 })
    &&& size_128 > 0 ==> is_mp3_128(r[0])
    &&& size_hq > 0 ==> is_mp3_320(r[if size_128 > 0 { 1int } else { 0 }])
    &&& size_sq > 0 ==> is_flac(r[r.len() - 1])
}

/// The qualities Kugou lists for a song, from the file sizes of its 128 kbps,
/// HQ and SQ files: MP3 128, MP3 320, FLAC, each when its file is not empty.
pub fn qualities_from_item(size_128: i64, size_hq: i64, size_sq: i64) -> (r: Vec<MusicQuality>)
    ensures
        item_qualities(r@, size_128, size_hq, size_sq),
{
    let mut out: Vec<MusicQuality> = Vec::new();
    if size_128 > 0 {
        out.push(mp3_128());
    }
    if size_hq > 0 {
        out.push(mp3_320());
    }
    if size_sq > 0 {
        out.push(flac());
    }
    out
}

/// `r` lists, by increasing bitrate, MP3 128, 192 and 320 when the `l`, `m`
/// and `h` entries are present, then Hi-Res when `hr` is, else FLAC when `sq` is.
pub open spec fn song_qualities(r: Seq<MusicQuality>, has_hr: bool, has_sq: bool, has_h: bool, has_m: bool, has_l: bool) -> bool {
    &&& r.len() == (if has_l { 1int } else { 0 }) + (if has_m { 1int } else { 0 }) + (if has_h {
        1int
    } else {
        0
    }) + (if has_hr || has_sq { 1int } else { 0 })
    &&& has_l ==> is_mp3_128(r[0])
    &&& has_m ==> is_mp3_192(r[if has_l { 1int } else { 0 }])
    &&& has_h ==> is_mp3_320(r[(if has_l { 1int } else { 0 }) + (if has_m { 1int } else { 0 })])
    &&& has_hr ==> is_hires(r[r.len() - 1])
    &&& !has_hr && has_sq ==> is_flac(r[r.len() - 1])
}

/// The qualities NetEase lists for a song, from which of its `hr`, `sq`, `h`,
/// `m`, `l` entries are present, by increasing bitrate: MP3 128, 192, 320, and
/// the best lossless tier (Hi-Res over FLAC) exposed as `flac`.
pub fn qualities_from_song(has_hr: bool, has_sq: bool, has_h: bool, has_m: bool, has_l: bool) -> (r:
    Vec<MusicQuality>)
    ensures
        song_qualities(r@, has_hr, has_sq, has_h, has_m, has_l),
{
    let mut out: Vec<MusicQuality> = Vec::new();
    if has_l {
        out.push(mp3_128());
    }
    if has_m {
        out.push(mp3_192());
    }
    if has_h {
        out.push(mp3_320());
    }
    if has_hr {
        out.push(hires());
    } else if has_sq {
        out.push(flac());
    }
    out
}

/// `r` lists FLAC, MP3 320 and MP3 128, in this order, each exactly when its
/// file size is positive.
pub open spec fn file_qualities(r: Seq<MusicQuality>, size_flac: i64, size_320: i64, size_128: i64) -> bool {
    &&& r.len() == (if size_flac > 0 { 1int } else { 0 }) + (if size_320 > 0 { 1int } else { 0 })
        + (if size_128 > 0 { 1int } else { 0 })
    &&& size_flac > 0 ==> is_flac(r[0])
    &&& size_320 > 0 ==> is_mp3_320(r[if size_flac > 0 { 1int } else { 0 }])
    &&& size_128 > 0 ==> is_mp3_128(r[r.len() - 1])
}

/// The qualities QQ Music lists for a song, from its file sizes: FLAC, MP3
/// 320, MP3 128, each when its file is not empty.
pub fn qualities_from_file(size_flac: i64, size_320: i64, size_128: i64) -> (r: Vec<MusicQuality>)
    ensures
        file_qualities(r@, size_flac, size_320, size_128),
{
    let mut out: Vec<MusicQuality> = Vec::new();
    if size_flac > 0 {
        out.push(flac());
    }
    if size_320 > 0 {
        out.push(mp3_320());
    }
    if size_128 > 0 {
        out.push(mp3_128());
    }
    out
}

/// The Kuwo bitrate code of a quality id (`320kmp3` for unknown ids).
pub open spec fn kuwo_br(quality_id: Seq<char>) -> Seq<char> {
    if quality_id == "mp3_128"@ {
        "128kmp3"@
    } else if quality_id == "flac"@ {
        "2000kflac"@
    } else {
        "320kmp3"@
    }
}

/// The Kuwo bitrate code of a quality id.
pub fn map_br(quality_id: &str) -> (r: &'static str)
    ensures
        r@ == kuwo_br(quality_id@),
{
    let q = textops::chars_of(quality_id);
    let is_128 = textops::eq_vec(&q, &textops::chars_of("mp3_128"));
    let is_flac = textops::eq_vec(&q, &textops::chars_of("flac"));
    if is_128 {
        "128kmp3"
    } else if is_flac {
        "2000kflac"
    } else {
        "320kmp3"
    }
}

/// The QQ Music file prefix and extension of a quality id (`M800`/`mp3` for
/// unknown ids).
pub open spec fn qq_songtype(quality_id: Seq<char>) -> (Seq<char>, Seq<char>) {
    if quality_id == "mp3_128"@ {
        ("M500"@, "mp3"@)
    } else if quality_id == "flac"@ {
        ("F000"@, "flac"@)
    } else {
        ("M800"@, "mp3"@)
    }
}

/// The QQ Music file prefix and extension of a quality id.
pub fn map_quality_to_songtype(quality_id: &str) -> (r: (&'static str, &'static str))
    ensures
        (r.0@, r.1@) == qq_songtype(quality_id@),
{
    let q = textops::chars_of(quality_id);
    let is_128 = textops::eq_vec(&q, &textops::chars_of("mp3_128"));
    let is_flac = textops::eq_vec(&q, &textops::chars_of("flac"));
    if is_128 {
        ("M500", "mp3")
    } else if is_flac {
        ("F000", "flac")
    } else {
        ("M800", "mp3")
    }
}

/// The order in which qualities are tried when the wanted one is missing.
pub open spec fn fallback_order() -> Seq<Seq<char>> {
    seq!["flac"@, "mp3_320"@, "mp3_192"@, "mp3_128"@]
}

/// Whether some quality has the id `id`.
pub open spec fn offers(available: Seq<MusicQuality>, id: Seq<char>) -> bool {
    exists|i: int| 0 <= i < available.len() && (#[trigger] available[i]).id@ == id
}

/// The quality to download: the wanted one (trimmed) when offered, else the
/// first offered of `flac`, `mp3_320`, `mp3_192`, `mp3_128`, else the first
/// offered at all.
pub open spec fn picked_quality(available: Seq<MusicQuality>, desired: Seq<char>) -> Option<Seq<char>> {
    let d = textops::trim(desired);
    if d.len() > 0 && offers(available, d) {
        Some(d)
    } else if offers(available, "flac"@) {
        Some("flac"@)
    } else if offers(available, "mp3_320"@) {
        Some("mp3_320"@)
    } else if offers(available, "mp3_192"@) {
        Some("mp3_192"@)
    } else if offers(available, "mp3_128"@) {
        Some("mp3_128"@)
    } else if available.len() > 0 {
        Some(available[0].id@)
    } else {
        None
    }
}

/// Whether some quality has the id `id`.
fn offers_exec(available: &[MusicQuality], id: &Vec<char>) -> (b: bool)
    ensures
        b == offers(available@, id@),
{
    let mut i: usize = 0;
    while i < available.len()
        invariant
            i <= available@.len(),
            forall|j: int| 0 <= j < i ==> (#[trigger] available@[j]).id@ != id@,
        decreases available.len() - i,
    {
        if textops::eq_vec(&textops::chars_of(available[i].id.as_str()), id) {
            return true;
        }
        i = i + 1;
    }
    false
}

/// The quality to download (see `picked_quality`).
pub fn pick_quality_id(available: &[MusicQuality], desired: &str) -> (r: Option<String>)
    ensures
        match picked_quality(available@, desired@) {
            Some(id) => r matches Some(s) && s@ == id,
            None => r is None,
        },
{
    let d = textops::trim_vec(&textops::chars_of(desired));
    if d.len() > 0 && offers_exec(available, &d) {
        return Some(textops::string_of(d.as_slice()));
    }
    let order = util::quality_fallback_order();
    let mut k: usize = 0;
    while k < 4
        invariant
            k <= 4,
            d@ == textops::trim(desired@),
            !(d@.len() > 0 && offers(available@, d@)),
            order@.len() == 4,
            forall|j: int| 0 <= j < 4 ==> (#[trigger] order@[j])@ == fallback_order()[j],
            forall|j: int| 0 <= j < k ==> !offers(available@, #[trigger] fallback_order()[j]),
        decreases 4 - k,
    {
        let id = textops::chars_of(order[k]);
        if offers_exec(available, &id) {
            proof {
                assert(fallback_order()[0] == "flac"@);
                assert(fallback_order()[1] == "mp3_320"@);
                assert(fallback_order()[2] == "mp3_192"@);
                assert(fallback_order()[3] == "mp3_128"@);
                if k >= 1 {
                    assert(!offers(available@, fallback_order()[0]));
                }
                if k >= 2 {
                    assert(!offers(available@, fallback_order()[1]));
                }
                if k >= 3 {
                    assert(!offers(available@, fallback_order()[2]));
                }
            }
            return Some(order[k].to_owned());
        }
        k = k + 1;
    }
    assert(!offers(available@, fallback_order()[0]));
    assert(!offers(available@, fallback_order()[1]));
    assert(!offers(available@, fallback_order()[2]));
    assert(!offers(available@, fallback_order()[3]));
    if available.len() > 0 {
        Some(available[0].id.clone())
    } else {
        None
    }
}

/// The QQ login hash of `input`: `h = h * 33 + c` over its characters from
/// `seed`, kept to the low 31 bits.
pub open spec fn sig_hash_value(input: Seq<char>, seed: int) -> int
    decreases input.len(),
{
    if input.len() == 0 {
        seed
    } else {
        sig_hash_value(input.drop_last(), seed) * 33 + (input.last() as u32) as int
    }
}

proof fn lemma_mod_step(a: int, c: int, m: int)
    requires
        m > 0,
    ensures
        (a * 33 + c) % m == ((a % m) * 33 + c) % m,
{
    assert(a == (a / m) * m + a % m) by (nonlinear_arith)
        requires
            m > 0,
    ;
    assert(a * 33 + c == m * ((a / m) * 33) + ((a % m) * 33 + c)) by (nonlinear_arith)
        requires
            a == (a / m) * m + a % m,
    ;
    vstd::arithmetic::div_mod::lemma_mod_multiples_vanish((a / m) * 33, (a % m) * 33 + c, m);
}

/// The QQ login hash (`hash33` kept to 31 bits) of `input` from `seed`.
pub fn sig_hash(input: &str, seed: i64) -> (r: i64)
    ensures
        r == sig_hash_value(input@, seed as int) % 0x8000_0000,
{
    let v = textops::chars_of(input);
    let m: i64 = 0x8000_0000;
    let mut s0: i64 = seed % m;
    if s0 < 0 {
        s0 = s0 + m;
    }
    assert(s0 == (seed as int) % 0x8000_0000);
    let mut h: u64 = s0 as u64;
    let mut i: usize = 0;
    while i < v.len()
        invariant
            i <= v.len(),
            0 <= h < 0x8000_0000,
            h == sig_hash_value(v@.take(i as int), seed as int) % 0x8000_0000,
        decreases v.len() - i,
    {
        let ch: char = v[i];
        let cu: u32 = ch as u32;
        let c: u64 = cu as u64;
        proof {
            assert(c as int == (v@[i as int] as u32) as int);
            let t = v@.take(i + 1);
            assert(t.drop_last() =~= v@.take(i as int));
            assert(t.last() == v@[i as int]);
            lemma_mod_step(sig_hash_value(v@.take(i as int), seed as int), c as int, 0x8000_0000);
        }
        let ghost hv = sig_hash_value(v@.take(i + 1), seed as int);
        assert(hv == sig_hash_value(v@.take(i as int), seed as int) * 33 + c);
        h = (h * 33 + c) % 0x8000_0000;
        assert(h == hv % 0x8000_0000);
        i = i + 1;
    }
    assert(v@.take(v.len() as int) =~= input@);
    h as i64
}

/// The NetEase API bases: each configured URL trimmed and without trailing
/// slashes, blank ones and repeats dropped, in order.
pub open spec fn netease_bases_spec(urls: Seq<String>) -> Seq<Seq<char>>
    decreases urls.len(),
{
    if urls.len() == 0 {
        Seq::empty()
    } else {
        let prev = netease_bases_spec(urls.drop_last());
        let b = textops::rstrip_char(textops::trim(urls.last()@), '/');
        if b.len() == 0 || prev.contains(b) {
            prev
        } else {
            prev.push(b)
        }
    }
}

/// Whether some string of `v` is `s`.
fn contains_string(v: &Vec<String>, s: &Vec<char>) -> (b: bool)
    ensures
        b == v.deep_view().contains(s@),
{
    let mut i: usize = 0;
    while i < v.len()
        invariant
            i <= v@.len(),
            forall|j: int| 0 <= j < i ==> (#[trigger] v@[j])@ != s@,
        decreases v.len() - i,
    {
        if textops::eq_vec(&textops::chars_of(v[i].as_str()), s) {
            assert(v.deep_view()[i as int] == s@);
            return true;
        }
        i = i + 1;
    }
    assert(!v.deep_view().contains(s@)) by {
        if v.deep_view().contains(s@) {
            let j = choose|j: int| 0 <= j < v.deep_view().len() && v.deep_view()[j] == s@;
            assert(v@[j]@ == s@);
        }
    }
    false
}

/// The NetEase API bases of a configuration; none configured is an error.
pub fn bases(cfg: &ProviderConfig) -> (r: Result<Vec<String>, MusicError>)
    ensures
        netease_bases_spec(cfg.netease_base_urls@).len() == 0 ==> r matches Err(
            MusicError::NotConfigured(_),
        ),
        netease_bases_spec(cfg.netease_base_urls@).len() > 0 ==> (r matches Ok(v) && v.deep_view()
            == netease_bases_spec(cfg.netease_base_urls@)),
{
    let urls = &cfg.netease_base_urls;
    let mut out: Vec<String> = Vec::new();
    let mut i: usize = 0;
    while i < urls.len()
        invariant
            i <= urls@.len(),
            out.deep_view() == netease_bases_spec(urls@.take(i as int)),
        decreases urls.len() - i,
    {
        let b = textops::rstrip_char_vec(&textops::trim_vec(&textops::chars_of(urls[i].as_str())), '/');
        proof {
            let t = urls@.take(i + 1);
            assert(t.drop_last() =~= urls@.take(i as int));
            assert(t.last() == urls@[i as int]);
        }
        if b.len() > 0 && !contains_string(&out, &b) {
            out.push(textops::string_of(b.as_slice()));
            assert(out.deep_view() =~= netease_bases_spec(urls@.take(i + 1)));
        }
        i = i + 1;
    }
    assert(urls@.take(urls@.len() as int) =~= urls@);
    if out.len() == 0 {
        return Err(MusicError::NotConfigured("neteaseBaseUrls is empty".to_owned()));
    }
    Ok(out)
}

/// The NetEase anonymous login path: the configured one or
/// `/register/anonimous`, trimmed.
pub fn anonymous_cookie_path(cfg: &ProviderConfig) -> (r: String)
    ensures
        r@ == textops::trim(
            match cfg.netease_anonymous_cookie_url {
                Some(u) => u@,
                None => "/register/anonimous"@,
            },
        ),
{
    let raw: Vec<char> = match &cfg.netease_anonymous_cookie_url {
        Some(u) => textops::chars_of(u.as_str()),
        None => textops::chars_of("/register/anonimous"),
    };
    textops::string_of(textops::trim_vec(&raw).as_slice())
}

/// The user agent QQ Music requests are sent with.
pub fn ua() -> (r: &'static str)
    ensures
        r@ == "QQ%E9%9F%B3%E4%B9%90/73222 CFNetwork/1406.0.3 Darwin/22.4.0"@,
{
    "QQ%E9%9F%B3%E4%B9%90/73222 CFNetwork/1406.0.3 Darwin/22.4.0"
}

/// What `md5` gives for the bytes, as 32 lower-case hexadecimal digits.
pub uninterp spec fn md5_digest_hex(bytes: Seq<u8>) -> Seq<char>;

/// A lower-case hexadecimal digit.
pub open spec fn is_lower_hex(c: char) -> bool {
    ('0' <= c && c <= '9') || ('a' <= c && c <= 'f')
}

/// The MD5 digest of the bytes with `md5::compute`, written with `{:x}`: 32
/// lower-case hexadecimal digits.
#[verifier::external_body]
fn md5_hex(bytes: &[u8]) -> (r: String)
    ensures
        r@ == md5_digest_hex(bytes@),
        r@.len() == 32,
        forall|i: int| 0 <= i < 32 ==> is_lower_hex(#[trigger] r@[i]),
{
    format!("{:x}", md5::compute(bytes))
}

/// The MD5 digest of the UTF-8 text, in lower-case hexadecimal.
pub fn md5_hex_lower(s: &str) -> (r: String)
    ensures
        r@ == md5_digest_hex(encode_utf8(s@)),
        r@.len() == 32,
        forall|i: int| 0 <= i < 32 ==> is_lower_hex(#[trigger] r@[i]),
{
    md5_hex(s.as_bytes())
}

/// MD5 of the characters of a vector.
fn md5_of_chars(v: &Vec<char>) -> (r: String)
    ensures
        r@ == md5_digest_hex(encode_utf8(v@)),
{
    md5_hex_lower(textops::string_of(v.as_slice()).as_str())
}

/// `16^n`.
pub open spec fn pow16(n: nat) -> int
    decreases n,
{
    if n == 0 {
        1
    } else {
        16 * pow16((n - 1) as nat)
    }
}

proof fn lemma_pow16_mono(a: nat, b: nat)
    requires
        a <= b,
    ensures
        1 <= pow16(a) <= pow16(b),
    decreases b,
{
    if b > a {
        lemma_pow16_mono(a, (b - 1) as nat);
    } else if a > 0 {
        lemma_pow16_mono((a - 1) as nat, (a - 1) as nat);
    }
}

/// The Kugou device id derived from `input`: its MD5 digest read as one
/// hexadecimal number, written in decimal.
pub open spec fn mid_of(input: Seq<char>) -> Seq<char> {
    textops::decimal(crate::lyrics::util::digits_value(md5_digest_hex(encode_utf8(input)), 16) as nat)
}

/// Appends the decimal notation of a 128-bit number to `out`.
fn push_decimal_u128(out: &mut Vec<char>, n: u128)
    ensures
        final(out)@ == old(out)@ + textops::decimal(n as nat),
    decreases n,
{
    if n >= 10 {
        push_decimal_u128(out, n / 10);
    }
    let d: u8 = (n % 10) as u8;
    out.push((48u8 + d) as char);
}

/// The Kugou device id derived from `input` (see `mid_of`).
pub fn calculate_mid(input: &str) -> (r: String)
    ensures
        r@ == mid_of(input@),
{
    let hex = textops::chars_of(md5_hex_lower(input).as_str());
    let ghost h = hex@;
    let mut acc: u128 = 0;
    let mut i: usize = 0;
    assert(pow16(32) == 0x1_0000_0000_0000_0000_0000_0000_0000_0000) by {
        reveal_with_fuel(pow16, 33);
    }
    while i < 32
        invariant
            i <= 32,
            hex@ == h,
            h.len() == 32,
            forall|j: int| 0 <= j < 32 ==> is_lower_hex(#[trigger] h[j]),
            acc == crate::lyrics::util::digits_value(h.take(i as int), 16),
            acc < pow16(i as nat),
            pow16(32) == 0x1_0000_0000_0000_0000_0000_0000_0000_0000,
        decreases 32 - i,
    {
        let c = hex[i];
        assert(is_lower_hex(h[i as int]));
        let d: u128 = if c <= '9' {
            (c as u32 - '0' as u32) as u128
        } else {
            (c as u32 - 'a' as u32 + 10) as u128
        };
        proof {
            lemma_pow16_mono((i + 1) as nat, 32);
            assert(acc * 16 + d < pow16((i + 1) as nat)) by (nonlinear_arith)
                requires
                    acc < pow16(i as nat),
                    d < 16,
                    pow16((i + 1) as nat) == 16 * pow16(i as nat),
            ;
            let t = h.take(i + 1);
            assert(t.drop_last() =~= h.take(i as int));
            assert(t.last() == h[i as int]);
        }
        acc = acc * 16 + d;
        i = i + 1;
    }
    assert(h.take(32) =~= h);
    let mut out: Vec<char> = Vec::new();
    push_decimal_u128(&mut out, acc);
    textops::string_of(out.as_slice())
}

/// The text of `parts` concatenated.
fn concat_parts(parts: &[&str]) -> (r: Vec<char>)
    ensures
        r@ == concat_views(parts@),
{
    let mut out: Vec<char> = Vec::new();
    let mut i: usize = 0;
    while i < parts.len()
        invariant
            i <= parts@.len(),
            out@ == concat_views(parts@.take(i as int)),
        decreases parts.len() - i,
    {
        textops::push_all(&mut out, &textops::chars_of(parts[i]));
        proof {
            let t = parts@.take(i + 1);
            assert(t.drop_last() =~= parts@.take(i as int));
        }
        i = i + 1;
    }
    assert(parts@.take(parts@.len() as int) =~= parts@);
    out
}

/// The texts of a sequence of strings, concatenated.
pub open spec fn concat_views(parts: Seq<&str>) -> Seq<char>
    decreases parts.len(),
{
    if parts.len() == 0 {
        Seq::empty()
    } else {
        concat_views(parts.drop_last()) + parts.last()@
    }
}

/// Kugou's track key: MD5 of `hash`, a salt, `appid`, `mid` and `userid`.
pub open spec fn sign_key_spec(
    salt: Seq<char>,
    hash: Seq<char>,
    mid: Seq<char>,
    userid: Seq<char>,
    appid: Seq<char>,
) -> Seq<char> {
    md5_digest_hex(encode_utf8(hash + salt + appid + mid + userid))
}

/// The key Kugou signs a track request with.
pub fn sign_key(hash: &str, mid: &str, userid: &str, appid: &str) -> (r: String)
    ensures
        r@ == sign_key_spec("57ae12eb6890223e355ccfcb74edf70d"@, hash@, mid@, userid@, appid@),
{
    let parts = [hash, "57ae12eb6890223e355ccfcb74edf70d", appid, mid, userid];
    let v = concat_parts(&parts);
    proof {
        reveal_with_fuel(concat_views, 6);
        assert(parts@.drop_last().drop_last().drop_last().drop_last().drop_last() =~= Seq::<&str>::empty());
    }
    assert(v@ =~= hash@ + "57ae12eb6890223e355ccfcb74edf70d"@ + appid@ + mid@ + userid@);
    md5_of_chars(&v)
}

/// The key Kugou signs a track request of the lite client with.
pub fn sign_key_lite(hash: &str, mid: &str, userid: &str, appid: &str) -> (r: String)
    ensures
        r@ == sign_key_spec("185672dd44712f60bb1736df5a377e82"@, hash@, mid@, userid@, appid@),
{
    let parts = [hash, "185672dd44712f60bb1736df5a377e82", appid, mid, userid];
    let v = concat_parts(&parts);
    proof {
        reveal_with_fuel(concat_views, 6);
        assert(parts@.drop_last().drop_last().drop_last().drop_last().drop_last() =~= Seq::<&str>::empty());
    }
    assert(v@ =~= hash@ + "185672dd44712f60bb1736df5a377e82"@ + appid@ + mid@ + userid@);
    md5_of_chars(&v)
}

/// `a` sorts before `b` as strings do: lexicographically by code point.
pub open spec fn str_lt(a: Seq<char>, b: Seq<char>) -> bool
    decreases a.len(),
{
    if a.len() == 0 {
        b.len() > 0
    } else if b.len() == 0 {
        false
    } else if a[0] != b[0] {
        a[0] < b[0]
    } else {
        str_lt(a.drop_first(), b.drop_first())
    }
}

proof fn lemma_str_lt_asym(a: Seq<char>, b: Seq<char>)
    ensures
        !(str_lt(a, b) && str_lt(b, a)),
        !str_lt(a, a),
    decreases a.len(),
{
    if a.len() > 0 && b.len() > 0 {
        lemma_str_lt_asym(a.drop_first(), b.drop_first());
    }
    if a.len() > 0 {
        lemma_str_lt_asym(a.drop_first(), a.drop_first());
    }
}

proof fn lemma_str_lt_trans(a: Seq<char>, b: Seq<char>, c: Seq<char>)
    requires
        str_lt(a, b),
        str_lt(b, c),
    ensures
        str_lt(a, c),
    decreases a.len(),
{
    if a.len() > 0 && b.len() > 0 && c.len() > 0 {
        if a[0] == b[0] && b[0] == c[0] {
            lemma_str_lt_trans(a.drop_first(), b.drop_first(), c.drop_first());
        }
    }
}

proof fn lemma_str_lt_total(a: Seq<char>, b: Seq<char>)
    ensures
        str_lt(a, b) || a == b || str_lt(b, a),
    decreases a.len(),
{
    if a.len() > 0 && b.len() > 0 {
        if a[0] == b[0] {
            lemma_str_lt_total(a.drop_first(), b.drop_first());
            if a.drop_first() == b.drop_first() {
                assert(a =~= seq![a[0]] + a.drop_first());
                assert(b =~= seq![b[0]] + b.drop_first());
            }
        }
    } else if a.len() == 0 && b.len() == 0 {
        assert(a =~= b);
    }
}

/// The sorted order of a multiset of strings is unique: two sorted lists of
/// the same strings, counted with multiplicity, are the same list.
pub proof fn lemma_sorted_unique(a: Seq<Seq<char>>, b: Seq<Seq<char>>)
    requires
        sorted_strs(a),
        sorted_strs(b),
        a.to_multiset() == b.to_multiset(),
    ensures
        a == b,
    decreases a.len(),
{
    broadcast use vstd::seq_lib::group_to_multiset_ensures;

    assert(a.len() == a.to_multiset().len());
    assert(b.len() == b.to_multiset().len());
    if a.len() == 0 {
        assert(a =~= b);
    } else {
        assert(a.to_multiset().count(a[0]) > 0);
        assert(b.contains(a[0]));
        let j = choose|j: int| 0 <= j < b.len() && b[j] == a[0];
        assert(b.to_multiset().count(b[0]) > 0);
        assert(a.contains(b[0]));
        let i = choose|i: int| 0 <= i < a.len() && a[i] == b[0];
        if j > 0 {
            assert(!str_lt(b[j], b[0]));
        }
        if i > 0 {
            assert(!str_lt(a[i], a[0]));
        }
        lemma_str_lt_total(a[0], b[0]);
        assert(a[0] == b[0]);
        vstd::seq_lib::to_multiset_remove(a, 0);
        vstd::seq_lib::to_multiset_remove(b, 0);
        assert(a.remove(0) =~= a.drop_first());
        assert(b.remove(0) =~= b.drop_first());
        assert(sorted_strs(a.drop_first())) by {
            assert forall|x: int, y: int| 0 <= x < y < a.drop_first().len() implies !str_lt(
                #[trigger] a.drop_first()[y],
                #[trigger] a.drop_first()[x],
            ) by {
                assert(a.drop_first()[y] == a[y + 1] && a.drop_first()[x] == a[x + 1]);
            }
        }
        assert(sorted_strs(b.drop_first())) by {
            assert forall|x: int, y: int| 0 <= x < y < b.drop_first().len() implies !str_lt(
                #[trigger] b.drop_first()[y],
                #[trigger] b.drop_first()[x],
            ) by {
                assert(b.drop_first()[y] == b[y + 1] && b.drop_first()[x] == b[x + 1]);
            }
        }
        lemma_sorted_unique(a.drop_first(), b.drop_first());
        assert(a =~= seq![a[0]] + a.drop_first());
        assert(b =~= seq![b[0]] + b.drop_first());
    }
}

/// The keys of a listing of entries.
pub open spec fn listed_keys(e: Seq<(Seq<char>, Seq<char>)>) -> Seq<Seq<char>> {
    e.map_values(|p: (Seq<char>, Seq<char>)| p.0)
}

/// The values of a listing of entries.
pub open spec fn listed_values(e: Seq<(Seq<char>, Seq<char>)>) -> Seq<Seq<char>> {
    e.map_values(|p: (Seq<char>, Seq<char>)| p.1)
}

/// The keys of a listing of a finite map in key order are exactly its keys,
/// each once.
proof fn lemma_listing_keys(e: Seq<(Seq<char>, Seq<char>)>, m: Map<Seq<char>, Seq<char>>)
    requires
        m.dom().finite(),
        lists_in_key_order(e, m),
    ensures
        listed_keys(e).no_duplicates(),
        forall|k: Seq<char>| #[trigger] listed_keys(e).contains(k) <==> m.dom().contains(k),
        sorted_strs(listed_keys(e)),
{
    let ks = listed_keys(e);
    assert forall|i: int, j: int| 0 <= i < ks.len() && 0 <= j < ks.len() && i != j implies ks[i]
        != ks[j] by {
        if i < j {
            assert(str_lt(e[i].0, e[j].0));
        } else {
            assert(str_lt(e[j].0, e[i].0));
        }
        lemma_str_lt_asym(ks[i], ks[i]);
    }
    assert forall|x: int, y: int| 0 <= x < y < ks.len() implies !str_lt(#[trigger] ks[y], #[trigger] ks[x]) by {
        assert(str_lt(e[x].0, e[y].0));
        lemma_str_lt_asym(ks[x], ks[y]);
    }
    ks.unique_seq_to_set();
    assert(ks.to_set().subset_of(m.dom())) by {
        assert forall|k: Seq<char>| ks.to_set().contains(k) implies m.dom().contains(k) by {
            let i = choose|i: int| 0 <= i < ks.len() && ks[i] == k;
            assert(m.contains_key(e[i].0));
        }
    }
    vstd::seq_lib::seq_to_set_is_finite(ks);
    vstd::set_lib::lemma_subset_equality(ks.to_set(), m.dom());
    assert forall|k: Seq<char>| #[trigger] ks.contains(k) <==> m.dom().contains(k) by {
        assert(ks.to_set().contains(k) == ks.contains(k));
    }
}

/// A finite map has one listing in key order.
proof fn lemma_listing_unique(
    e1: Seq<(Seq<char>, Seq<char>)>,
    e2: Seq<(Seq<char>, Seq<char>)>,
    m: Map<Seq<char>, Seq<char>>,
)
    requires
        m.dom().finite(),
        lists_in_key_order(e1, m),
        lists_in_key_order(e2, m),
    ensures
        e1 == e2,
{
    broadcast use vstd::seq_lib::group_to_multiset_ensures;

    lemma_listing_keys(e1, m);
    lemma_listing_keys(e2, m);
    let k1 = listed_keys(e1);
    let k2 = listed_keys(e2);
    k1.lemma_multiset_has_no_duplicates();
    k2.lemma_multiset_has_no_duplicates();
    assert(k1.to_multiset() =~= k2.to_multiset()) by {
        assert forall|k: Seq<char>| k1.to_multiset().count(k) == k2.to_multiset().count(k) by {
            assert(k1.contains(k) == k2.contains(k));
        }
    }
    lemma_sorted_unique(k1, k2);
    assert forall|i: int| 0 <= i < e1.len() implies e1[i] == e2[i] by {
        assert(k1[i] == k2[i]);
    }
    assert(e1 =~= e2);
}

/// The values of a map of strings, counted with multiplicity.
pub open spec fn value_bag(m: Map<Seq<char>, Seq<char>>) -> vstd::multiset::Multiset<Seq<char>> {
    listed_values(choose|e: Seq<(Seq<char>, Seq<char>)>| lists_in_key_order(e, m)).to_multiset()
}

/// Lexicographic comparison of two character vectors.
fn str_lt_exec(a: &Vec<char>, b: &Vec<char>) -> (r: bool)
    ensures
        r == str_lt(a@, b@),
{
    let mut i: usize = 0;
    assert(a@.subrange(0, a@.len() as int) =~= a@);
    assert(b@.subrange(0, b@.len() as int) =~= b@);
    while i < a.len() && i < b.len() && a[i] == b[i]
        invariant
            i <= a.len(),
            i <= b.len(),
            str_lt(a@, b@) == str_lt(a@.subrange(i as int, a@.len() as int), b@.subrange(
                i as int,
                b@.len() as int,
            )),
        decreases a.len() - i,
    {
        assert(a@.subrange(i as int, a@.len() as int).drop_first() =~= a@.subrange(
            i + 1,
            a@.len() as int,
        ));
        assert(b@.subrange(i as int, b@.len() as int).drop_first() =~= b@.subrange(
            i + 1,
            b@.len() as int,
        ));
        i = i + 1;
    }
    if i == a.len() {
        i < b.len()
    } else if i == b.len() {
        false
    } else {
        a[i] < b[i]
    }
}

/// `v` is in non-decreasing string order.
pub open spec fn sorted_strs(v: Seq<Seq<char>>) -> bool {
    forall|i: int, j: int| 0 <= i < j < v.len() ==> !str_lt(#[trigger] v[j], #[trigger] v[i])
}

/// The texts of character vectors.
pub open spec fn views(v: Seq<Vec<char>>) -> Seq<Seq<char>> {
    v.map_values(|x: Vec<char>| x@)
}

/// The strings of `vals` sorted, as `[String]::sort` orders them.
pub(crate) fn sort_strings(vals: Vec<Vec<char>>) -> (r: Vec<Vec<char>>)
    ensures
        sorted_strs(views(r@)),
        views(r@).to_multiset() == views(vals@).to_multiset(),
{
    broadcast use vstd::seq_lib::to_multiset_build, vstd::seq_lib::to_multiset_insert;

    let mut out: Vec<Vec<char>> = Vec::new();
    let mut i: usize = 0;
    let ghost dv = views(vals@);
    assert(dv.take(0) =~= Seq::<Seq<char>>::empty());
    assert(views(out@) =~= Seq::<Seq<char>>::empty());
    while i < vals.len()
        invariant
            i <= vals@.len(),
            dv == views(vals@),
            dv.len() == vals@.len(),
            sorted_strs(views(out@)),
            views(out@).to_multiset() == dv.take(i as int).to_multiset(),
        decreases vals.len() - i,
    {
        let x = textops::slice_vec(&vals[i], 0, vals[i].len());
        assert(x@ =~= dv[i as int]);
        let mut p: usize = 0;
        loop
            invariant_except_break
                p <= out@.len(),
                forall|j: int| 0 <= j < p ==> !str_lt(x@, #[trigger] views(out@)[j]),
            ensures
                p <= out@.len(),
                forall|j: int| 0 <= j < p ==> !str_lt(x@, #[trigger] views(out@)[j]),
                p == out@.len() || str_lt(x@, views(out@)[p as int]),
            decreases out.len() - p,
        {
            if p >= out.len() {
                break;
            }
            let lt = str_lt_exec(&x, &out[p]);
            assert(out@[p as int]@ == views(out@)[p as int]);
            if lt {
                break;
            }
            p = p + 1;
        }
        let ghost old_dv = views(out@);
        proof {
            assert forall|j: int| p <= j < old_dv.len() implies !str_lt(#[trigger] old_dv[j], x@) by {
                assert(str_lt(x@, old_dv[p as int]));
                if j > p {
                    assert(!str_lt(old_dv[j], old_dv[p as int]));
                    lemma_str_lt_total(old_dv[p as int], old_dv[j]);
                    if str_lt(old_dv[p as int], old_dv[j]) {
                        lemma_str_lt_trans(x@, old_dv[p as int], old_dv[j]);
                    }
                }
                lemma_str_lt_asym(x@, old_dv[j]);
            }
            assert forall|j: int| 0 <= j < p implies !str_lt(x@, #[trigger] old_dv[j]) by {}
        }
        out.insert(p, x);
        proof {
            let nd = views(out@);
            assert(nd =~= old_dv.insert(p as int, dv[i as int]));
            assert forall|a: int, b: int| 0 <= a < b < nd.len() implies !str_lt(
                #[trigger] nd[b],
                #[trigger] nd[a],
            ) by {
                if a < p && b < p {
                    assert(nd[a] == old_dv[a] && nd[b] == old_dv[b]);
                } else if a < p && b == p {
                    assert(nd[a] == old_dv[a]);
                    lemma_str_lt_total(x@, old_dv[a]);
                    lemma_str_lt_asym(x@, old_dv[a]);
                } else if a < p {
                    assert(nd[a] == old_dv[a] && nd[b] == old_dv[b - 1]);
                } else if a == p {
                    assert(nd[b] == old_dv[b - 1]);
                } else {
                    assert(nd[a] == old_dv[a - 1] && nd[b] == old_dv[b - 1]);
                }
            }
            assert(dv.take(i + 1) =~= dv.take(i as int).push(dv[i as int]));
            vstd::seq_lib::to_multiset_insert(old_dv, p as int, dv[i as int]);
            vstd::seq_lib::to_multiset_build(dv.take(i as int), dv[i as int]);
        }
        i = i + 1;
    }
    assert(dv.take(vals@.len() as int) =~= dv);
    out
}

/// `e` lists the entries of `m` in increasing key order.
pub open spec fn lists_in_key_order(e: Seq<(Seq<char>, Seq<char>)>, m: Map<Seq<char>, Seq<char>>) -> bool {
    &&& e.len() == m.dom().len()
    &&& forall|i: int| 0 <= i < e.len() ==> m.contains_key(#[trigger] e[i].0) && m[e[i].0] == e[i].1
    &&& forall|i: int, j: int| 0 <= i < j < e.len() ==> str_lt(#[trigger] e[i].0, #[trigger] e[j].0)
}

/// The views of a list of string pairs.
pub open spec fn pair_views(v: Seq<(String, String)>) -> Seq<(Seq<char>, Seq<char>)> {
    v.map_values(|p: (String, String)| (p.0@, p.1@))
}

/// The entries of a map of strings, in key order (`BTreeMap::iter`).
#[verifier::external_body]
fn btree_entries(m: &BTreeMap<String, String>) -> (r: Vec<(String, String)>)
    ensures
        lists_in_key_order(pair_views(r@), m.deep_view()),
{
    m.iter().map(|(k, v)| (k.clone(), v.clone())).collect()
}

/// `key=value` for every entry, concatenated.
pub open spec fn kv_concat(e: Seq<(Seq<char>, Seq<char>)>) -> Seq<char>
    decreases e.len(),
{
    if e.len() == 0 {
        Seq::empty()
    } else {
        kv_concat(e.drop_last()) + e.last().0 + seq!['='] + e.last().1
    }
}

/// `key=value` for every entry, concatenated.
fn kv_concat_exec(entries: &Vec<(String, String)>) -> (r: Vec<char>)
    ensures
        r@ == kv_concat(pair_views(entries@)),
{
    let mut out: Vec<char> = Vec::new();
    let mut i: usize = 0;
    let ghost pv = pair_views(entries@);
    while i < entries.len()
        invariant
            i <= entries@.len(),
            pv == pair_views(entries@),
            out@ == kv_concat(pv.take(i as int)),
        decreases entries.len() - i,
    {
        textops::push_all(&mut out, &textops::chars_of(entries[i].0.as_str()));
        out.push('=');
        textops::push_all(&mut out, &textops::chars_of(entries[i].1.as_str()));
        proof {
            let t = pv.take(i + 1);
            assert(t.drop_last() =~= pv.take(i as int));
            assert(t.last() == pv[i as int]);
        }
        i = i + 1;
    }
    assert(pv.take(entries@.len() as int) =~= pv);
    out
}

/// `sig` is the web signature of the parameters.
pub open spec fn is_web_signature(sig: Seq<char>, params: Map<Seq<char>, Seq<char>>) -> bool {
    exists|e: Seq<(Seq<char>, Seq<char>)>|
        lists_in_key_order(e, params) && sig == md5_digest_hex(
            encode_utf8(
                "NVPh5oo715z5DIWAeQlhMDsWXXQV4hwt"@ + kv_concat(e) + "NVPh5oo715z5DIWAeQlhMDsWXXQV4hwt"@,
            ),
        )
}

/// The Kugou web signature: MD5 of a salt, the `key=value` entries in key
/// order, and the salt again.
pub fn signature_web_params(params: &BTreeMap<String, String>) -> (r: String)
    ensures
        is_web_signature(r@, params.deep_view()),
{
    let entries = btree_entries(params);
    let body = kv_concat_exec(&entries);
    let salt = textops::chars_of("NVPh5oo715z5DIWAeQlhMDsWXXQV4hwt");
    let mut v = salt.clone();
    textops::push_all(&mut v, &body);
    textops::push_all(&mut v, &salt);
    let r = md5_of_chars(&v);
    assert(lists_in_key_order(pair_views(entries@), params.deep_view()));
    r
}

/// `sig` is the Android signature of the parameters and the body.
pub open spec fn is_android_signature(sig: Seq<char>, params: Map<Seq<char>, Seq<char>>, data: Seq<char>) -> bool {
    exists|e: Seq<(Seq<char>, Seq<char>)>|
        lists_in_key_order(e, params) && sig == md5_digest_hex(
            encode_utf8("OIlwieks28dk2k092lksi2UIkp"@ + kv_concat(e) + data + "OIlwieks28dk2k092lksi2UIkp"@),
        )
}

/// The Kugou Android signature: MD5 of a salt, the `key=value` entries in key
/// order, the request body (if any), and the salt again.
pub fn signature_android_params(params: &BTreeMap<String, String>, data: Option<&str>) -> (r: String)
    ensures
        is_android_signature(
            r@,
            params.deep_view(),
            match data {
                Some(d) => d@,
                None => Seq::empty(),
            },
        ),
{
    let entries = btree_entries(params);
    let body = kv_concat_exec(&entries);
    let salt = textops::chars_of("OIlwieks28dk2k092lksi2UIkp");
    let mut v = salt.clone();
    textops::push_all(&mut v, &body);
    match data {
        Some(d) => textops::push_all(&mut v, &textops::chars_of(d)),
        None => {},
    }
    textops::push_all(&mut v, &salt);
    let r = md5_of_chars(&v);
    assert(lists_in_key_order(pair_views(entries@), params.deep_view()));
    r
}

/// The strings of a sequence, concatenated.
pub open spec fn concat_strs(v: Seq<Seq<char>>) -> Seq<char>
    decreases v.len(),
{
    if v.len() == 0 {
        Seq::empty()
    } else {
        concat_strs(v.drop_last()) + v.last()
    }
}

/// `sig` is the registration signature of the parameters.
pub open spec fn is_register_signature(sig: Seq<char>, params: Map<Seq<char>, Seq<char>>) -> bool {
    exists|e: Seq<(Seq<char>, Seq<char>)>, vals: Seq<Seq<char>>|
        lists_in_key_order(e, params) && sorted_strs(vals) && vals.to_multiset() == e.map_values(
            |p: (Seq<char>, Seq<char>)| p.1,
        ).to_multiset() && sig == md5_digest_hex(encode_utf8("1014"@ + concat_strs(vals) + "1014"@))
}

/// The Kugou registration signature: MD5 of `1014`, the values sorted as
/// strings and concatenated, and `1014` again.
pub fn signature_register_params(params: &BTreeMap<String, String>) -> (r: String)
    ensures
        is_register_signature(r@, params.deep_view()),
{
    let entries = btree_entries(params);
    let ghost pv = pair_views(entries@);
    let mut values: Vec<Vec<char>> = Vec::new();
    let mut i: usize = 0;
    while i < entries.len()
        invariant
            i <= entries@.len(),
            pv == pair_views(entries@),
            values@.len() == i,
            forall|k: int| 0 <= k < i ==> (#[trigger] values@[k])@ == entries@[k].1@,
        decreases entries.len() - i,
    {
        values.push(textops::chars_of(entries[i].1.as_str()));
        i = i + 1;
    }
    assert(views(values@) =~= pv.map_values(|p: (Seq<char>, Seq<char>)| p.1));
    let sorted = sort_strings(values);
    let mut v = textops::chars_of("1014");
    let mut k: usize = 0;
    let ghost sd = views(sorted@);
    while k < sorted.len()
        invariant
            k <= sorted@.len(),
            sd == views(sorted@),
            v@ == "1014"@ + concat_strs(sd.take(k as int)),
        decreases sorted.len() - k,
    {
        textops::push_all(&mut v, &sorted[k]);
        proof {
            let t = sd.take(k + 1);
            assert(t.drop_last() =~= sd.take(k as int));
            assert(t.last() == sd[k as int]);
        }
        k = k + 1;
    }
    assert(sd.take(sorted@.len() as int) =~= sd);
    textops::push_all(&mut v, &textops::chars_of("1014"));
    let r = md5_of_chars(&v);
    assert(lists_in_key_order(pv, params.deep_view()));
    r
}

/// What `base64` writes for the bytes with the standard alphabet and padding.
pub uninterp spec fn base64_encoded(bytes: Seq<u8>) -> Seq<char>;

/// A character of the standard base64 alphabet or its padding.
pub open spec fn is_base64_char(c: char) -> bool {
    ('A' <= c && c <= 'Z') || ('a' <= c && c <= 'z') || ('0' <= c && c <= '9') || c == '+' || c
        == '/' || c == '='
}

/// Encodes bytes with `base64::engine::general_purpose::STANDARD`; the output
/// is made of the standard alphabet and `=` padding, and the same engine
/// decodes it back to the bytes (RFC 4648 base64).
#[verifier::external_body]
pub(crate) fn base64_encode(bytes: &[u8]) -> (r: String)
    ensures
        r@ == base64_encoded(bytes@),
        forall|i: int| 0 <= i < r@.len() ==> is_base64_char(#[trigger] r@[i]),
        crate::lyrics::providers::base64_decoded(r@) == Some(bytes@),
{
    base64::Engine::encode(&base64::engine::general_purpose::STANDARD, bytes)
}

/// `char::to_ascii_uppercase`.
pub open spec fn upper_char(c: char) -> char {
    if 'a' <= c && c <= 'z' {
        ((c as u32) - 32) as char
    } else {
        c
    }
}

/// The table the middle of the QQ Music signature is XORed with.
pub open spec fn qq_sign_table() -> Seq<u8> {
    seq![212u8, 45, 80, 68, 195, 163, 163, 203, 157, 220, 254, 91, 204, 79, 104, 6]
}

/// The QQ Music request signature of a JSON payload, from the upper-case MD5
/// hex `h` of its bytes: `zzb`, eight picked digits, the base64 of the digest
/// bytes XORed with a table, eight other picked digits; lower-cased, without
/// `/`, `+` and `=`.
pub open spec fn qq_sign_spec(json: Seq<char>) -> Seq<char> {
    let h = md5_digest_hex(encode_utf8(json)).map_values(|c: char| upper_char(c));
    let head = seq![h[21], h[4], h[9], h[26], h[16], h[20], h[27], h[30]];
    let tail = seq![h[18], h[11], h[3], h[2], h[1], h[7], h[6], h[25]];
    let mid = Seq::new(
        16,
        |j: int|
            ((crate::lyrics::util::hex_digit_value(h[2 * j]) * 16
                + crate::lyrics::util::hex_digit_value(h[2 * j + 1])) as u8) ^ qq_sign_table()[j],
    );
    let res = "zzb"@ + head + base64_encoded(mid) + tail;
    textops::remove_char(
        textops::remove_char(textops::remove_char(textops::lower(res), '/'), '+'),
        '=',
    )
}

/// `char::to_ascii_uppercase`.
fn upper_char_exec(c: char) -> (r: char)
    ensures
        r == upper_char(c),
{
    if 'a' <= c && c <= 'z' {
        let b: u8 = (c as u32 - 32) as u8;
        b as char
    } else {
        c
    }
}

/// Value of an upper-case hexadecimal digit.
fn upper_hex_value(c: char) -> (r: u8)
    requires
        ('0' <= c && c <= '9') || ('A' <= c && c <= 'F'),
    ensures
        r == crate::lyrics::util::hex_digit_value(c),
{
    if c <= '9' {
        (c as u32 - '0' as u32) as u8
    } else {
        (c as u32 - 'A' as u32 + 10) as u8
    }
}

/// The QQ Music request signature of a JSON payload (see `qq_sign_spec`).
pub fn sign_request_payload(json_text: &str) -> (r: Result<String, MusicError>)
    ensures
        r matches Ok(s) && s@ == qq_sign_spec(json_text@),
{
    let lower_hex = textops::chars_of(md5_hex_lower(json_text).as_str());
    let ghost hl = md5_digest_hex(encode_utf8(json_text@));
    let ghost h = hl.map_values(|c: char| upper_char(c));
    let mut hu: Vec<char> = Vec::new();
    let mut i: usize = 0;
    while i < 32
        invariant
            i <= 32,
            lower_hex@ == hl,
            hl.len() == 32,
            forall|j: int| 0 <= j < 32 ==> is_lower_hex(#[trigger] hl[j]),
            hu@ == h.take(i as int),
            h == hl.map_values(|c: char| upper_char(c)),
        decreases 32 - i,
    {
        hu.push(upper_char_exec(lower_hex[i]));
        i = i + 1;
        assert(hu@ =~= h.take(i as int));
    }
    assert(hu@ =~= h);
    assert forall|j: int| 0 <= j < 32 implies ('0' <= #[trigger] h[j] && h[j] <= '9') || ('A' <= h[j]
        && h[j] <= 'F') by {
        assert(is_lower_hex(hl[j]));
    }
    let head = vec![hu[21], hu[4], hu[9], hu[26], hu[16], hu[20], hu[27], hu[30]];
    let tail = vec![hu[18], hu[11], hu[3], hu[2], hu[1], hu[7], hu[6], hu[25]];
    let ol: [u8; 16] = [212, 45, 80, 68, 195, 163, 163, 203, 157, 220, 254, 91, 204, 79, 104, 6];
    let ghost mid_spec = Seq::new(
        16,
        |j: int|
            ((crate::lyrics::util::hex_digit_value(h[2 * j]) * 16
                + crate::lyrics::util::hex_digit_value(h[2 * j + 1])) as u8) ^ qq_sign_table()[j],
    );
    let mut mid: Vec<u8> = Vec::new();
    let mut j: usize = 0;
    while j < 16
        invariant
            j <= 16,
            hu@ == h,
            h.len() == 32,
            forall|k: int| 0 <= k < 32 ==> ('0' <= #[trigger] h[k] && h[k] <= '9') || ('A' <= h[k]
                && h[k] <= 'F'),
            ol@ == qq_sign_table(),
            mid_spec == Seq::new(
                16,
                |j: int|
                    ((crate::lyrics::util::hex_digit_value(h[2 * j]) * 16
                        + crate::lyrics::util::hex_digit_value(h[2 * j + 1])) as u8)
                        ^ qq_sign_table()[j],
            ),
            mid@ == mid_spec.take(j as int),
        decreases 16 - j,
    {
        let hi = upper_hex_value(hu[2 * j]);
        let lo = upper_hex_value(hu[2 * j + 1]);
        let v: u8 = hi * 16 + lo;
        assert(v as int == crate::lyrics::util::hex_digit_value(h[2 * j as int]) * 16
            + crate::lyrics::util::hex_digit_value(h[2 * j + 1]));
        let byte: u8 = v ^ ol[j];
        assert(byte == mid_spec[j as int]);
        mid.push(byte);
        j = j + 1;
        assert(mid@ =~= mid_spec.take(j as int));
    }
    assert(mid@ =~= mid_spec);
    let m = textops::chars_of(base64_encode(mid.as_slice()).as_str());
    let mut res = textops::chars_of("zzb");
    textops::push_all(&mut res, &head);
    textops::push_all(&mut res, &m);
    textops::push_all(&mut res, &tail);
    assert(head@ =~= seq![h[21], h[4], h[9], h[26], h[16], h[20], h[27], h[30]]);
    assert(tail@ =~= seq![h[18], h[11], h[3], h[2], h[1], h[7], h[6], h[25]]);
    let low = textops::lower_vec(&res);
    let a = textops::remove_char_vec(&low, '/');
    let b = textops::remove_char_vec(&a, '+');
    let c = textops::remove_char_vec(&b, '=');
    Ok(textops::string_of(c.as_slice()))
}

/// The pieces of `cur + s` between `;` and `,` separators.
pub open spec fn nm_items(s: Seq<char>, cur: Seq<char>) -> Seq<Seq<char>>
    decreases s.len(),
{
    if s.len() == 0 {
        seq![cur]
    } else if s[0] == ';' || s[0] == ',' {
        seq![cur] + nm_items(s.drop_first(), Seq::empty())
    } else {
        nm_items(s.drop_first(), cur.push(s[0]))
    }
}

/// The text before the first `:` of an item (all of it without one).
pub open spec fn item_key(item: Seq<char>) -> Seq<char> {
    match textops::first_index_of(item, ':') {
        None => item,
        Some(i) => item.take(i),
    }
}

/// The text between the first and the second `:` of an item (empty without one).
pub open spec fn item_value(item: Seq<char>) -> Seq<char> {
    match textops::first_index_of(item, ':') {
        None => Seq::empty(),
        Some(i) => {
            let rest = item.subrange(i + 1, item.len() as int);
            match textops::first_index_of(rest, ':') {
                None => rest,
                Some(j) => rest.take(j),
            }
        },
    }
}

/// The item is `bitrate:<v>` (both parts trimmed).
pub open spec fn item_is_bitrate(item: Seq<char>, v: Seq<char>) -> bool {
    textops::trim(item_key(item)) == "bitrate"@ && textops::trim(item_value(item)) == v
}

/// Whether some item of the list is `bitrate:<v>`.
pub open spec fn some_bitrate(items: Seq<Seq<char>>, v: Seq<char>) -> bool {
    exists|i: int| 0 <= i < items.len() && item_is_bitrate(#[trigger] items[i], v)
}

/// Whether some `bitrate:<v>` item of a Kuwo `NMINFO` field has the value `v`.
pub open spec fn has_bitrate(nm_info: Seq<char>, v: Seq<char>) -> bool {
    some_bitrate(nm_items(nm_info, Seq::empty()), v)
}

/// The trimmed key and value of an item.
fn item_key_value(item: &Vec<char>) -> (r: (Vec<char>, Vec<char>))
    ensures
        r.0@ == textops::trim(item_key(item@)),
        r.1@ == textops::trim(item_value(item@)),
{
    match textops::find_char(item, ':') {
        None => (textops::trim_vec(item), Vec::new()),
        Some(i) => {
            let key = textops::slice_vec(item, 0, i);
            let rest = textops::slice_vec(item, i + 1, item.len());
            let value = match textops::find_char(&rest, ':') {
                None => rest,
                Some(j) => textops::slice_vec(&rest, 0, j),
            };
            (textops::trim_vec(&key), textops::trim_vec(&value))
        },
    }
}

/// Adding one item to a list: some item is `bitrate:<v>` exactly when one
/// before was or the new one is.
proof fn lemma_some_bitrate_push(items: Seq<Seq<char>>, x: Seq<char>, v: Seq<char>)
    ensures
        some_bitrate(items.push(x), v) == (some_bitrate(items, v) || item_is_bitrate(x, v)),
{
    let p = items.push(x);
    if some_bitrate(items, v) {
        let k = choose|k: int| 0 <= k < items.len() && item_is_bitrate(#[trigger] items[k], v);
        assert(p[k] == items[k]);
    }
    if item_is_bitrate(x, v) {
        assert(p[items.len() as int] == x);
    }
    if some_bitrate(p, v) {
        let k = choose|k: int| 0 <= k < p.len() && item_is_bitrate(#[trigger] p[k], v);
        if k < items.len() {
            assert(p[k] == items[k]);
        }
    }
}

/// `r` lists FLAC, MP3 128 and MP3 320, in this order, each exactly when the
/// info string advertises bitrate 2000, 128 or 320.
pub open spec fn nm_qualities(r: Seq<MusicQuality>, nm_info: Seq<char>) -> bool {
    &&& r.len() == (if has_bitrate(nm_info, "2000"@) { 1int } else { 0 }) + (if has_bitrate(
        nm_info,
        "128"@,
    ) {
        1int
    } else {
        0
    }) + (if has_bitrate(nm_info, "320"@) { 1int } else { 0 })
    &&& has_bitrate(nm_info, "2000"@) ==> is_flac(r[0])
    &&& has_bitrate(nm_info, "128"@) ==> is_mp3_128(r[if has_bitrate(nm_info, "2000"@) { 1int } else { 0 }])
    &&& has_bitrate(nm_info, "320"@) ==> is_mp3_320(r[r.len() - 1])
}

/// The qualities listed by a Kuwo `NMINFO` field (`bitrate:128`,
/// `bitrate:320`, `bitrate:2000` items separated by `;` and `,`), ordered by
/// id and each listed once: FLAC, MP3 128, MP3 320.
pub fn parse_nm_info_to_qualities(nm_info: &str) -> (r: Vec<MusicQuality>)
    ensures
        nm_qualities(r@, nm_info@),
{
    let s = textops::chars_of(nm_info);
    let n = s.len();
    let bitrate = textops::chars_of("bitrate");
    let v128 = textops::chars_of("128");
    let v320 = textops::chars_of("320");
    let v2000 = textops::chars_of("2000");
    let mut has128 = false;
    let mut has320 = false;
    let mut has2000 = false;
    let mut cur: Vec<char> = Vec::new();
    let ghost mut done: Seq<Seq<char>> = Seq::empty();
    let mut i: usize = 0;
    assert(s@.subrange(0, n as int) =~= s@);
    while i < n
        invariant
            i <= n,
            n == s@.len(),
            bitrate@ == "bitrate"@,
            v128@ == "128"@,
            v320@ == "320"@,
            v2000@ == "2000"@,
            nm_items(s@, Seq::empty()) == done + nm_items(s@.subrange(i as int, n as int), cur@),
            has128 == some_bitrate(done, "128"@),
            has320 == some_bitrate(done, "320"@),
            has2000 == some_bitrate(done, "2000"@),
        decreases n - i,
    {
        let ghost rest = s@.subrange(i as int, n as int);
        assert(rest.drop_first() =~= s@.subrange(i + 1, n as int));
        if s[i] == ';' || s[i] == ',' {
            let (k, v) = item_key_value(&cur);
            let is_bitrate = textops::eq_vec(&k, &bitrate);
            let b128 = is_bitrate && textops::eq_vec(&v, &v128);
            let b320 = is_bitrate && textops::eq_vec(&v, &v320);
            let b2000 = is_bitrate && textops::eq_vec(&v, &v2000);
            proof {
                lemma_some_bitrate_push(done, cur@, "128"@);
                lemma_some_bitrate_push(done, cur@, "320"@);
                lemma_some_bitrate_push(done, cur@, "2000"@);
                let tail = nm_items(rest.drop_first(), Seq::empty());
                assert(done + (seq![cur@] + tail) =~= done.push(cur@) + tail);
                done = done.push(cur@);
            }
            has128 = has128 || b128;
            has320 = has320 || b320;
            has2000 = has2000 || b2000;
            cur = Vec::new();
        } else {
            cur.push(s[i]);
        }
        i = i + 1;
    }
    let (k, v) = item_key_value(&cur);
    let is_bitrate = textops::eq_vec(&k, &bitrate);
    let b128 = is_bitrate && textops::eq_vec(&v, &v128);
    let b320 = is_bitrate && textops::eq_vec(&v, &v320);
    let b2000 = is_bitrate && textops::eq_vec(&v, &v2000);
    proof {
        assert(s@.subrange(n as int, n as int) =~= Seq::<char>::empty());
        lemma_some_bitrate_push(done, cur@, "128"@);
        lemma_some_bitrate_push(done, cur@, "320"@);
        lemma_some_bitrate_push(done, cur@, "2000"@);
        assert(done + seq![cur@] =~= done.push(cur@));
    }
    has128 = has128 || b128;
    has320 = has320 || b320;
    has2000 = has2000 || b2000;
    let mut out: Vec<MusicQuality> = Vec::new();
    if has2000 {
        out.push(flac());
    }
    if has128 {
        out.push(mp3_128());
    }
    if has320 {
        out.push(mp3_320());
    }
    out
}

/// The Kugou service endpoints.
#[derive(Debug, Clone)]
pub struct KugouEndpoints {
    pub gateway_base: String,
    pub login_base: String,
    pub tracker_base: String,
}

impl Default for KugouEndpoints {
    fn default() -> (r: Self)
        ensures
            r.gateway_base@ == "https://gateway.kugou.com"@,
            r.login_base@ == "https://login-user.kugou.com"@,
            r.tracker_base@ == "http://tracker.kugou.com"@,
    {
        KugouEndpoints {
            gateway_base: "https://gateway.kugou.com".to_owned(),
            login_base: "https://login-user.kugou.com".to_owned(),
            tracker_base: "http://tracker.kugou.com".to_owned(),
        }
    }
}

/// How a Kugou request is signed.
#[derive(Debug, Clone, Copy, PartialEq, Eq, Structural)]
pub enum EncryptType {
    Android,
    Web,
    Register,
}

/// A Kugou login QR code: its key and its PNG image in base64.
#[derive(Debug, Clone)]
pub struct KugouQr {
    pub key: String,
    pub image_base64: String,
}

/// The trimmed text, none when blank.
pub open spec fn trimmed_or_none(s: Seq<char>) -> Option<Seq<char>> {
    if textops::trim(s).len() == 0 {
        None
    } else {
        Some(textops::trim(s))
    }
}

/// The trimmed text of an optional string, none when blank.
fn trimmed_opt(s: &str) -> (r: Option<String>)
    ensures
        match trimmed_or_none(s@) {
            Some(t) => r matches Some(x) && x@ == t,
            None => r is None,
        },
{
    let t = textops::trim_vec(&textops::chars_of(s));
    if t.len() == 0 {
        None
    } else {
        Some(textops::string_of(t.as_slice()))
    }
}

/// The Kugou token and user id of the saved login, each trimmed and absent
/// when blank.
pub fn auth_token_userid(auth: Option<&AuthState>) -> (r: (Option<String>, Option<String>))
    ensures
        match auth {
            Some(a) => match a.kugou {
                Some(u) => (match trimmed_or_none(u.token@) {
                    Some(t) => r.0 matches Some(x) && x@ == t,
                    None => r.0 is None,
                }) && (match trimmed_or_none(u.userid@) {
                    Some(t) => r.1 matches Some(x) && x@ == t,
                    None => r.1 is None,
                }),
                None => r.0 is None && r.1 is None,
            },
            None => r.0 is None && r.1 is None,
        },
{
    match auth {
        None => (None, None),
        Some(a) => match &a.kugou {
            None => (None, None),
            Some(u) => (trimmed_opt(u.token.as_str()), trimmed_opt(u.userid.as_str())),
        },
    }
}

/// `url` with the query parameter `timestamp=<ms>` appended.
pub open spec fn with_timestamp(url: Seq<char>, ms: u128) -> Seq<char> {
    url + (if textops::contains_sub(url, "?"@) {
        "&"@
    } else {
        "?"@
    }) + "timestamp="@ + textops::decimal(ms as nat)
}

/// `url` with the query parameter `timestamp=<ms>` appended, `ms` the time
/// the request is made at.
pub fn add_timestamp(url: &str, ms: u128) -> (r: String)
    ensures
        r@ == with_timestamp(url@, ms),
{
    let mut v = textops::chars_of(url);
    let q = textops::chars_of("?");
    if textops::contains_sub_exec(&v, &q) {
        v.push('&');
    } else {
        v.push('?');
    }
    textops::push_all(&mut v, &textops::chars_of("timestamp="));
    push_decimal_u128(&mut v, ms);
    proof {
        reveal_strlit("&");
        reveal_strlit("?");
    }
    assert(v@ =~= with_timestamp(url@, ms));
    textops::string_of(v.as_slice())
}

/// `url` with the current time appended as `timestamp=<ms>`.
pub fn append_timestamp(url: &str) -> (r: String)
    ensures
        exists|ms: u128| r@ == with_timestamp(url@, ms),
{
    let ms = crate::clock::unix_time_ms();
    add_timestamp(url, ms)
}

/// The login state a QQ `ptuiCB` reply code stands for.
pub open spec fn qq_qr_state_spec(code: i32) -> MusicLoginQrState {
    if code == 66 {
        MusicLoginQrState::Scan
    } else if code == 67 {
        MusicLoginQrState::Confirm
    } else if code == 65 {
        MusicLoginQrState::Timeout
    } else if code == 68 {
        MusicLoginQrState::Refuse
    } else if code == 0 {
        MusicLoginQrState::Done
    } else {
        MusicLoginQrState::Other
    }
}

/// The login state a QQ `ptuiCB` reply code stands for.
pub fn qq_qr_state(code: i32) -> (r: MusicLoginQrState)
    ensures
        r == qq_qr_state_spec(code),
{
    if code == 66 {
        MusicLoginQrState::Scan
    } else if code == 67 {
        MusicLoginQrState::Confirm
    } else if code == 65 {
        MusicLoginQrState::Timeout
    } else if code == 68 {
        MusicLoginQrState::Refuse
    } else if code == 0 {
        MusicLoginQrState::Done
    } else {
        MusicLoginQrState::Other
    }
}

/// The login state a WeChat `wx_errcode` stands for.
pub open spec fn wechat_qr_state_spec(err: i32) -> MusicLoginQrState {
    if err == 408 {
        MusicLoginQrState::Scan
    } else if err == 404 {
        MusicLoginQrState::Confirm
    } else if err == 405 {
        MusicLoginQrState::Done
    } else if err == 403 {
        MusicLoginQrState::Refuse
    } else {
        MusicLoginQrState::Other
    }
}

/// The login state of a WeChat poll, and the authorization code once done
/// (when not blank).
pub fn wechat_qr_result(err: i32, code: &str) -> (r: (MusicLoginQrState, Option<String>))
    ensures
        r.0 == wechat_qr_state_spec(err),
        (r.0 == MusicLoginQrState::Done && textops::trim(code@).len() > 0) ==> (r.1 matches Some(
            c,
        ) && c@ == code@),
        !(r.0 == MusicLoginQrState::Done && textops::trim(code@).len() > 0) ==> r.1 is None,
{
    let state = if err == 408 {
        MusicLoginQrState::Scan
    } else if err == 404 {
        MusicLoginQrState::Confirm
    } else if err == 405 {
        MusicLoginQrState::Done
    } else if err == 403 {
        MusicLoginQrState::Refuse
    } else {
        MusicLoginQrState::Other
    };
    let blank = textops::trim_vec(&textops::chars_of(code)).len() == 0;
    let sig = if state == MusicLoginQrState::Done && !blank {
        Some(code.to_owned())
    } else {
        None
    };
    (state, sig)
}

/// The Kugou account a QR poll reply confirms: only a reply with status 1 and
/// QR status 4 carrying a token and a user id (trimmed, not blank).
pub fn kugou_qr_user(status: i64, qr_status: i64, token: &str, userid: &str) -> (r: Option<
    KugouUserInfo,
>)
    ensures
        (status == 1 && qr_status == 4 && trimmed_or_none(token@) is Some && trimmed_or_none(
            userid@,
        ) is Some) ==> (r matches Some(u) && Some(u.token@) == trimmed_or_none(token@) && Some(
            u.userid@,
        ) == trimmed_or_none(userid@)),
        !(status == 1 && qr_status == 4 && trimmed_or_none(token@) is Some && trimmed_or_none(
            userid@,
        ) is Some) ==> r is None,
{
    if status != 1 || qr_status != 4 {
        return None;
    }
    match (trimmed_opt(token), trimmed_opt(userid)) {
        (Some(t), Some(u)) => Some(KugouUserInfo { token: t, userid: u }),
        _ => None,
    }
}

/// The picked quality is one that is offered, and one is picked whenever any
/// is offered.
pub proof fn lemma_picked_quality_offered(available: Seq<MusicQuality>, desired: Seq<char>)
    ensures
        picked_quality(available, desired) is None <==> available.len() == 0,
        picked_quality(available, desired) matches Some(id) ==> offers(available, id),
{
    if available.len() == 0 {
        assert(!offers(available, textops::trim(desired)));
        assert(!offers(available, "flac"@));
        assert(!offers(available, "mp3_320"@));
        assert(!offers(available, "mp3_192"@));
        assert(!offers(available, "mp3_128"@));
    } else {
        assert(available[0].id@ == available[0].id@);
    }
}

/// The QQ login hash fits in 31 bits.
pub proof fn lemma_sig_hash_range(input: Seq<char>, seed: int)
    ensures
        0 <= sig_hash_value(input, seed) % 0x8000_0000 < 0x8000_0000,
{
}

/// The registration signature ignores the keys: two maps whose values are
/// the same strings, counted with multiplicity, get the same signature.
pub proof fn lemma_register_signature_ignores_keys(
    sig1: Seq<char>,
    p1: Map<Seq<char>, Seq<char>>,
    sig2: Seq<char>,
    p2: Map<Seq<char>, Seq<char>>,
)
    requires
        p1.dom().finite(),
        p2.dom().finite(),
        is_register_signature(sig1, p1),
        is_register_signature(sig2, p2),
        value_bag(p1) == value_bag(p2),
    ensures
        sig1 == sig2,
{
    let (e1, v1) = choose|e: Seq<(Seq<char>, Seq<char>)>, vals: Seq<Seq<char>>|
        lists_in_key_order(e, p1) && sorted_strs(vals) && vals.to_multiset() == e.map_values(
            |p: (Seq<char>, Seq<char>)| p.1,
        ).to_multiset() && sig1 == md5_digest_hex(encode_utf8("1014"@ + concat_strs(vals) + "1014"@));
    let (e2, v2) = choose|e: Seq<(Seq<char>, Seq<char>)>, vals: Seq<Seq<char>>|
        lists_in_key_order(e, p2) && sorted_strs(vals) && vals.to_multiset() == e.map_values(
            |p: (Seq<char>, Seq<char>)| p.1,
        ).to_multiset() && sig2 == md5_digest_hex(encode_utf8("1014"@ + concat_strs(vals) + "1014"@));
    let c1 = choose|e: Seq<(Seq<char>, Seq<char>)>| lists_in_key_order(e, p1);
    let c2 = choose|e: Seq<(Seq<char>, Seq<char>)>| lists_in_key_order(e, p2);
    lemma_listing_unique(c1, e1, p1);
    lemma_listing_unique(c2, e2, p2);
    assert(listed_values(e1) == e1.map_values(|p: (Seq<char>, Seq<char>)| p.1));
    assert(listed_values(e2) == e2.map_values(|p: (Seq<char>, Seq<char>)| p.1));
    lemma_sorted_unique(v1, v2);
}

/// The registration signature is fixed by the sorted values alone: for any
/// list of the map's values in sorted order, it is the MD5 of `1014`, those
/// values concatenated, and `1014`.
pub proof fn lemma_register_signature_of_sorted_values(
    sig: Seq<char>,
    p: Map<Seq<char>, Seq<char>>,
    vals: Seq<Seq<char>>,
)
    requires
        p.dom().finite(),
        is_register_signature(sig, p),
        sorted_strs(vals),
        vals.to_multiset() == value_bag(p),
    ensures
        sig == md5_digest_hex(encode_utf8("1014"@ + concat_strs(vals) + "1014"@)),
{
    let (e, v) = choose|e: Seq<(Seq<char>, Seq<char>)>, vs: Seq<Seq<char>>|
        lists_in_key_order(e, p) && sorted_strs(vs) && vs.to_multiset() == e.map_values(
            |q: (Seq<char>, Seq<char>)| q.1,
        ).to_multiset() && sig == md5_digest_hex(encode_utf8("1014"@ + concat_strs(vs) + "1014"@));
    let c = choose|e: Seq<(Seq<char>, Seq<char>)>| lists_in_key_order(e, p);
    lemma_listing_unique(c, e, p);
    assert(listed_values(e) == e.map_values(|q: (Seq<char>, Seq<char>)| q.1));
    lemma_sorted_unique(v, vals);
}

} // verus!
