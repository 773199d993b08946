//! Lyrics search request / result model.

use vstd::prelude::*;
use crate::textops;

verus! {

/// A lyrics backend.
#[derive(Debug, Clone, Copy, PartialEq, Eq, Hash, Structural)]
pub enum LyricsService {
    Netease,
    QQMusic,
    Kugou,
    Gecimi,
    Syair,
    LrcLib,
}

/// Canonical name of a service.
pub open spec fn service_name(s: LyricsService) -> Seq<char> {
    match s {
        LyricsService::Netease => "netease"@,
        LyricsService::QQMusic => "qq"@,
        LyricsService::Kugou => "kugou"@,
        LyricsService::Gecimi => "gecimi"@,
        LyricsService::Syair => "syair"@,
        LyricsService::LrcLib => "lrclib"@,
    }
}

/// The service a (trimmed, lower-cased) name or alias denotes.
pub open spec fn service_from_alias(v: Seq<char>) -> Option<LyricsService> {
    if v == "netease"@ || v == "163"@ || v == "ne"@ {
        Some(LyricsService::Netease)
    } else if v == "qq"@ || v == "qqmusic"@ || v == "qq_music"@ {
        Some(LyricsService::QQMusic)
    } else if v == "kugou"@ || v == "kg"@ {
        Some(LyricsService::Kugou)
    } else if v == "gecimi"@ || v == "gc"@ {
        Some(LyricsService::Gecimi)
    } else if v == "syair"@ || v == "sy"@ {
        Some(LyricsService::Syair)
    } else {
        None
    }
}

/// What parsing `s` as a service name gives.
pub open spec fn parse_service_spec(s: Seq<char>) -> Option<LyricsService> {
    service_from_alias(textops::lower(textops::trim(s)))
}

impl LyricsService {
    pub fn as_str(self) -> (r: &'static str)
        ensures
            r@ == service_name(self),
    {
        match self {
            LyricsService::Netease => "netease",
            LyricsService::QQMusic => "qq",
            LyricsService::Kugou => "kugou",
            LyricsService::Gecimi => "gecimi",
            LyricsService::Syair => "syair",
            LyricsService::LrcLib => "lrclib",
        }
    }

    /// Parses a service name or alias (`"163"`, `"kg"`, ...), ignoring surrounding
    /// whitespace and ASCII case.
    pub fn parse(s: &str) -> (r: Result<LyricsService, String>)
        ensures
            match r {
                Ok(v) => parse_service_spec(s@) == Some(v),
                Err(e) => parse_service_spec(s@) is None && e@ == "unknown lyrics service: "@
                    + s@,
            },
    {
        let raw = textops::chars_of(s);
        let t = textops::trim_vec(&raw);
        let v = textops::lower_vec(&t);
        if textops::eq_vec(&v, &textops::chars_of("netease")) || textops::eq_vec(&v, &textops::chars_of("163")) || textops::eq_vec(
            &v,
            &textops::chars_of("ne"),
        ) {
            Ok(LyricsService::Netease)
        } else if textops::eq_vec(&v, &textops::chars_of("qq")) || textops::eq_vec(&v, &textops::chars_of("qqmusic")) || textops::eq_vec(
            &v,
            &textops::chars_of("qq_music"),
        ) {
            Ok(LyricsService::QQMusic)
        } else if textops::eq_vec(&v, &textops::chars_of("kugou")) || textops::eq_vec(&v, &textops::chars_of("kg")) {
            Ok(LyricsService::Kugou)
        } else if textops::eq_vec(&v, &textops::chars_of("gecimi")) || textops::eq_vec(&v, &textops::chars_of("gc")) {
            Ok(LyricsService::Gecimi)
        } else if textops::eq_vec(&v, &textops::chars_of("syair")) || textops::eq_vec(&v, &textops::chars_of("sy")) {
            Ok(LyricsService::Syair)
        } else {
            let mut msg = textops::chars_of("unknown lyrics service: ");
            textops::push_all(&mut msg, &raw);
            Err(textops::string_of(msg.as_slice()))
        }
    }
}

impl std::str::FromStr for LyricsService {
    type Err = String;

    fn from_str(s: &str) -> (r: Result<LyricsService, String>)
        ensures
            match r {
                Ok(v) => parse_service_spec(s@) == Some(v),
                Err(e) => parse_service_spec(s@) is None && e@ == "unknown lyrics service: "@
                    + s@,
            },
    {
        LyricsService::parse(s)
    }
}

/// What to search for: structured metadata or a free keyword.
#[derive(Debug, Clone, PartialEq, Eq)]
pub enum LyricsSearchTerm {
    Info { title: String, artist: String, album: Option<String> },
    Keyword { keyword: String },
}

/// Human-readable query: the keyword, or the trimmed title and artist joined by a space
/// (either alone when the other is blank).
pub open spec fn description_spec(term: LyricsSearchTerm) -> Seq<char> {
    match term {
        LyricsSearchTerm::Keyword { keyword } => keyword@,
        LyricsSearchTerm::Info { title, artist, .. } => {
            let t = textops::trim(title@);
            let a = textops::trim(artist@);
            if t.len() > 0 && a.len() > 0 {
                t + " "@ + a
            } else if t.len() > 0 {
                t
            } else {
                a
            }
        },
    }
}

impl LyricsSearchTerm {
    pub fn description(&self) -> (r: String)
        ensures
            r@ == description_spec(*self),
    {
        match self {
            LyricsSearchTerm::Keyword { keyword } => {
                let v = textops::chars_of(keyword.as_str());
                textops::string_of(v.as_slice())
            },
            LyricsSearchTerm::Info { title, artist, .. } => {
                let t = textops::trim_vec(&textops::chars_of(title.as_str()));
                let a = textops::trim_vec(&textops::chars_of(artist.as_str()));
                if t.len() > 0 && a.len() > 0 {
                    let mut out = t;
                    out.push(' ');
                    textops::push_all(&mut out, &a);
                    proof {
                        reveal_strlit(" ");
                        assert(out@ =~= textops::trim(title@) + " "@ + textops::trim(artist@));
                    }
                    textops::string_of(out.as_slice())
                } else if t.len() > 0 {
                    textops::string_of(t.as_slice())
                } else {
                    textops::string_of(a.as_slice())
                }
            },
        }
    }

    /// The title and artist of a structured term; `(None, None)` for a keyword.
    pub fn title_artist(&self) -> (r: (Option<&str>, Option<&str>))
        ensures
            match *self {
                LyricsSearchTerm::Info { title, artist, .. } => r.0 is Some && r.0.unwrap()@
                    == title@ && r.1 is Some && r.1.unwrap()@ == artist@,
                LyricsSearchTerm::Keyword { .. } => r.0 is None && r.1 is None,
            },
    {
        match self {
            LyricsSearchTerm::Info { title, artist, .. } => (
                Some(title.as_str()),
                Some(artist.as_str()),
            ),
            LyricsSearchTerm::Keyword { .. } => (None, None),
        }
    }
}

/// A lyrics search request.
#[derive(Debug, Clone, PartialEq, Eq)]
pub struct LyricsSearchRequest {
    pub term: LyricsSearchTerm,
    pub duration_ms: Option<u64>,
    pub limit: usize,
}

impl LyricsSearchRequest {
    pub fn new(term: LyricsSearchTerm) -> (r: Self)
        ensures
            r.term == term,
            r.duration_ms is None,
            r.limit == 6,
    {
        LyricsSearchRequest { term, duration_ms: None, limit: 6 }
    }
}

/// Options of a multi-provider search.
#[derive(Debug, Clone, PartialEq, Eq)]
pub struct LyricsSearchOptions {
    pub timeout_ms: u64,
    pub strict_match: bool,
    pub services: Vec<LyricsService>,
}

/// The services searched by default, in preference order.
pub open spec fn default_services() -> Seq<LyricsService> {
    seq![
        LyricsService::Netease,
        LyricsService::QQMusic,
        LyricsService::Kugou,
        LyricsService::Gecimi,
        LyricsService::Syair,
    ]
}

impl Default for LyricsSearchOptions {
    fn default() -> (r: Self)
        ensures
            r.timeout_ms == 10_000,
            !r.strict_match,
            r.services@ == default_services(),
    {
        let services = vec![
            LyricsService::Netease,
            LyricsService::QQMusic,
            LyricsService::Kugou,
            LyricsService::Gecimi,
            LyricsService::Syair,
        ];
        assert(services@ =~= default_services());
        LyricsSearchOptions { timeout_ms: 10_000, strict_match: false, services }
    }
}

/// One fetched lyrics candidate, with the match verdict computed for a request.
///
/// The floating-point quality score and the optional debug payload travel beside it
/// in the application layer.
#[derive(Debug, Clone)]
pub struct LyricsSearchResult {
    pub service: LyricsService,
    pub service_token: String,
    pub title: Option<String>,
    pub artist: Option<String>,
    pub album: Option<String>,
    pub duration_ms: Option<u64>,
    pub match_percentage: u8,
    pub matched: bool,
    pub has_translation: bool,
    pub has_inline_timetags: bool,
    pub lyrics_original: String,
    pub lyrics_translation: Option<String>,
}

/// Parsing the canonical name of a service gives the service back; the
/// canonical name of `LrcLib` is not among the accepted names.
pub proof fn lemma_service_name_parses_back(s: LyricsService)
    requires
        s != LyricsService::LrcLib,
    ensures
        parse_service_spec(service_name(s)) == Some(s),
{
    reveal_strlit("netease");
    reveal_strlit("163");
    reveal_strlit("ne");
    reveal_strlit("qq");
    reveal_strlit("qqmusic");
    reveal_strlit("qq_music");
    reveal_strlit("kugou");
    reveal_strlit("kg");
    reveal_strlit("gecimi");
    reveal_strlit("gc");
    reveal_strlit("syair");
    reveal_strlit("sy");
    let n = service_name(s);
    textops::lemma_trim_noop(n);
    textops::lemma_lower_noop(n);
}

} // verus!
