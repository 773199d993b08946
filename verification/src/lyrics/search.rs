//! Planning and filtering of a multi-provider lyrics search. The concurrent
//! HTTP exchanges and the floating-point ranking happen in the application
//! layer.

use vstd::prelude::*;
use crate::lyrics::model::{LyricsSearchRequest, LyricsSearchResult, LyricsService};
use crate::lyrics::providers::{
    GecimiProvider, KugouProvider, LrcLibProvider, NeteaseProvider, Provider, QqMusicProvider,
    SyairProvider, provider_service,
};
use crate::lyrics::quality;

verus! {

/// The provider queried for a service, with its default endpoints.
pub fn provider_for(s: LyricsService) -> (p: Provider)
    ensures
        provider_service(p) == s,
{
    match s {
        LyricsService::Netease => Provider::Netease(NeteaseProvider::default()),
        LyricsService::QQMusic => Provider::QQ(QqMusicProvider::default()),
        LyricsService::Kugou => Provider::Kugou(KugouProvider::default()),
        LyricsService::Gecimi => Provider::Gecimi(GecimiProvider::default()),
        LyricsService::Syair => Provider::Syair(SyairProvider::default()),
        LyricsService::LrcLib => Provider::LrcLib(LrcLibProvider::default()),
    }
}

/// One provider per requested service, in the same order.
pub fn build_providers(services: &[LyricsService]) -> (r: Vec<Provider>)
    ensures
        r@.len() == services@.len(),
        forall|i: int| 0 <= i < services@.len() ==> provider_service(#[trigger] r@[i]) == services@[i],
{
    let mut out: Vec<Provider> = Vec::new();
    let mut i: usize = 0;
    while i < services.len()
        invariant
            i <= services@.len(),
            out@.len() == i,
            forall|j: int| 0 <= j < i ==> provider_service(#[trigger] out@[j]) == services@[j],
        decreases services.len() - i,
    {
        out.push(provider_for(services[i]));
        i = i + 1;
    }
    out
}

/// The rank of a service in the requested order: its last position in the
/// list, or `usize::MAX` when it was not requested.
pub open spec fn service_rank(services: Seq<LyricsService>, s: LyricsService) -> int {
    if exists|i: int| 0 <= i < services.len() && services[i] == s {
        choose|i: int| 0 <= i < services.len() && services[i] == s && forall|j: int|
            i < j < services.len() ==> services[j] != s
    } else {
        usize::MAX as int
    }
}

/// The rank that breaks ties between equally good results (see `service_rank`).
pub fn service_order_index(services: &[LyricsService], s: LyricsService) -> (r: usize)
    ensures
        r == service_rank(services@, s),
{
    let mut k: usize = services.len();
    while k > 0
        invariant
            k <= services@.len(),
            forall|j: int| k <= j < services@.len() ==> services@[j] != s,
        decreases k,
    {
        if services[k - 1] == s {
            proof {
                let i = (k - 1) as int;
                let c = choose|c: int| 0 <= c < services@.len() && services@[c] == s && forall|j: int|
                    c < j < services@.len() ==> services@[j] != s;
                assert(0 <= c < services@.len() && services@[c] == s && forall|j: int|
                    c < j < services@.len() ==> services@[j] != s);
                if c < i {
                    assert(services@[i] != s);
                }
                if i < c {
                    assert(services@[c] != s);
                }
            }
            return k - 1;
        }
        k = k - 1;
    }
    usize::MAX
}

/// How many results are kept, and how many hits of each provider fetched:
/// the request's limit, at least one.
pub fn result_limit(req: &LyricsSearchRequest) -> (r: usize)
    ensures
        r == if req.limit == 0 {
            1
        } else {
            req.limit
        },
{
    if req.limit == 0 {
        1
    } else {
        req.limit
    }
}

/// A result with its match verdict set.
pub open spec fn with_matched(r: LyricsSearchResult, m: bool) -> LyricsSearchResult {
    LyricsSearchResult { matched: m, ..r }
}

/// Sets the match verdict of every result for the request.
pub fn mark_matched(results: Vec<LyricsSearchResult>, req: &LyricsSearchRequest) -> (r: Vec<
    LyricsSearchResult,
>)
    ensures
        r@.len() == results@.len(),
        forall|i: int|
            0 <= i < results@.len() ==> #[trigger] r@[i] == with_matched(
                results@[i],
                quality::is_matched_spec(results@[i], *req),
            ),
{
    let mut rest = results;
    let mut out: Vec<LyricsSearchResult> = Vec::new();
    let ghost orig = rest@;
    while rest.len() > 0
        invariant
            out@.len() + rest@.len() == orig.len(),
            rest@ == orig.subrange(out@.len() as int, orig.len() as int),
            forall|i: int|
                0 <= i < out@.len() ==> #[trigger] out@[i] == with_matched(
                    orig[i],
                    quality::is_matched_spec(orig[i], *req),
                ),
        decreases rest@.len(),
    {
        let mut item = rest.remove(0);
        let m = quality::is_matched(&item, req);
        item.matched = m;
        out.push(item);
    }
    out
}

/// The results whose match verdict is set, in order.
pub open spec fn matched_only(s: Seq<LyricsSearchResult>) -> Seq<LyricsSearchResult>
    decreases s.len(),
{
    if s.len() == 0 {
        s
    } else if s.last().matched {
        matched_only(s.drop_last()).push(s.last())
    } else {
        matched_only(s.drop_last())
    }
}

/// Keeps the matched results only (the strict mode), in order.
pub fn keep_matched(results: Vec<LyricsSearchResult>) -> (r: Vec<LyricsSearchResult>)
    ensures
        r@ == matched_only(results@),
{
    let mut rest = results;
    let ghost orig = rest@;
    let mut out: Vec<LyricsSearchResult> = Vec::new();
    let n: usize = rest.len();
    let mut taken: usize = 0;
    while rest.len() > 0
        invariant
            taken + rest@.len() == orig.len(),
            orig.len() == n,
            rest@ == orig.subrange(taken as int, orig.len() as int),
            out@ == matched_only(orig.take(taken as int)),
        decreases rest@.len(),
    {
        let item = rest.remove(0);
        assert(orig.take(taken + 1).drop_last() =~= orig.take(taken as int));
        assert(orig.take(taken + 1).last() == item);
        if item.matched {
            out.push(item);
        }
        taken = taken + 1;
    }
    assert(orig.take(taken as int) =~= orig);
    out
}

/// Strict mode keeps matched results only, none of them added.
pub proof fn lemma_matched_only_matched(s: Seq<LyricsSearchResult>)
    ensures
        forall|i: int| 0 <= i < matched_only(s).len() ==> (#[trigger] matched_only(s)[i]).matched,
        forall|i: int| 0 <= i < matched_only(s).len() ==> s.contains(#[trigger] matched_only(s)[i]),
        matched_only(s).len() <= s.len(),
    decreases s.len(),
{
    if s.len() > 0 {
        lemma_matched_only_matched(s.drop_last());
        let p = matched_only(s.drop_last());
        assert forall|i: int| 0 <= i < matched_only(s).len() implies s.contains(
            #[trigger] matched_only(s)[i],
        ) by {
            if i < p.len() {
                let x = p[i];
                let k = choose|k: int| 0 <= k < s.drop_last().len() && s.drop_last()[k] == x;
                assert(s[k] == x);
            } else {
                assert(s[s.len() - 1] == s.last());
            }
        }
    }
}

/// A requested service ranks at a position holding it; an unrequested one
/// ranks last, at `usize::MAX`.
pub proof fn lemma_service_rank(services: Seq<LyricsService>, s: LyricsService)
    ensures
        services.contains(s) ==> 0 <= service_rank(services, s) < services.len() && services[service_rank(
            services,
            s,
        )] == s,
        !services.contains(s) ==> service_rank(services, s) == usize::MAX,
{
    if services.contains(s) {
        let k = choose|k: int| 0 <= k < services.len() && services[k] == s;
        lemma_last_rank_exists(services, s, k);
    }
}

proof fn lemma_last_rank_exists(services: Seq<LyricsService>, s: LyricsService, k: int)
    requires
        0 <= k < services.len(),
        services[k] == s,
    ensures
        exists|i: int|
            0 <= i < services.len() && #[trigger] services[i] == s && forall|j: int|
                i < j < services.len() ==> services[j] != s,
    decreases services.len() - k,
{
    let later = services.subrange(k + 1, services.len() as int);
    if later.contains(s) {
        let j = choose|j: int| 0 <= j < later.len() && later[j] == s;
        assert(services[k + 1 + j] == s);
        lemma_last_rank_exists(services, s, k + 1 + j);
    } else {
        assert forall|j: int| k < j < services.len() implies services[j] != s by {
            assert(later[j - k - 1] == services[j]);
        }
    }
}

} // verus!
