//! Recognising supported links: platform detection, normalisation, cache key.
use vstd::prelude::*;

use vstd::string::StringSliceAdditionalSpecFns;

use crate::error::Error;
use crate::text::{
    chars_of, ends_with_str, eq_str, lowercase, lowercase_of, slice_of, starts_with_str,
    string_of, trim, trimmed,
};

verus! {

/// A supported platform.
#[derive(Debug, Clone, Copy, PartialEq, Eq, Structural)]
pub enum Platform {
    Youtube,
    Tiktok,
    Instagram,
    Twitter,
}

impl Platform {
    /// Display name of the platform.
    #[verifier::allow_in_spec]
    pub fn as_str(self) -> &'static str
        returns
            (match self {
                Platform::Youtube => "YouTube",
                Platform::Tiktok => "TikTok",
                Platform::Instagram => "Instagram",
                Platform::Twitter => "X",
            }),
    {
        match self {
            Platform::Youtube => "YouTube",
            Platform::Tiktok => "TikTok",
            Platform::Instagram => "Instagram",
            Platform::Twitter => "X",
        }
    }
}

/// A recognised link: its platform and normalised URL.
#[derive(Debug, Clone)]
pub struct MediaUrl {
    pub platform: Platform,
    pub url: String,
}

/// `h` without a leading `www.`.
pub open spec fn strip_www(h: Seq<char>) -> Seq<char> {
    if "www."@.is_prefix_of(h) {
        h.subrange(4, h.len() as int)
    } else {
        h
    }
}

/// The platform that serves host `host` (already lowercase), if supported.
pub open spec fn platform_of_host(host: Seq<char>) -> Option<Platform> {
    let h = strip_www(host);
    if h == "youtube.com"@ || h == "youtu.be"@ || h == "music.youtube.com"@ || h
        == "m.youtube.com"@ || h == "youtube-nocookie.com"@ {
        Some(Platform::Youtube)
    } else if h == "tiktok.com"@ || ".tiktok.com"@.is_suffix_of(h) || h == "vm.tiktok.com"@
        || h == "vt.tiktok.com"@ {
        Some(Platform::Tiktok)
    } else if h == "instagram.com"@ || ".instagram.com"@.is_suffix_of(h) {
        Some(Platform::Instagram)
    } else if h == "x.com"@ || ".x.com"@.is_suffix_of(h) || h == "twitter.com"@
        || ".twitter.com"@.is_suffix_of(h) || h == "vxtwitter.com"@ || h == "fixvx.com"@ {
        Some(Platform::Twitter)
    } else {
        None
    }
}

/// A suffix of a suffix of `g` is a suffix of `g`.
proof fn lemma_suffix_trans(a: Seq<char>, b: Seq<char>, g: Seq<char>)
    requires
        a.is_suffix_of(b),
        b.is_suffix_of(g),
    ensures
        a.is_suffix_of(g),
{
    assert forall|k: int| 0 <= k < a.len() implies g[g.len() - a.len() + k] == a[k] by {
        assert(a[k] == b.subrange(b.len() - a.len(), b.len() as int)[k]);
        assert(b[b.len() - a.len() + k] == g.subrange(g.len() - b.len(), g.len() as int)[b.len() - a.len() + k]);
    }
    assert(g.subrange(g.len() - a.len(), g.len() as int) =~= a);
}

/// A host that ends with `a` is not `c` when the two differ at the `k`-th
/// character from the end.
proof fn lemma_suffix_excludes(g: Seq<char>, a: Seq<char>, c: Seq<char>, k: int)
    requires
        a.is_suffix_of(g),
        0 <= k < a.len(),
        k < c.len(),
        a[a.len() - 1 - k] != c[c.len() - 1 - k],
    ensures
        g != c,
        !c.is_suffix_of(g),
{
    assert(g[g.len() - 1 - k] == g.subrange(g.len() - a.len(), g.len() as int)[a.len() - 1 - k]);
    if c.is_suffix_of(g) {
        assert(g[g.len() - 1 - k] == g.subrange(g.len() - c.len(), g.len() as int)[c.len() - 1 - k]);
    }
    if g == c {
        assert(c.subrange(0, c.len() as int) =~= c);
    }
}

/// `g` ends with itself.
proof fn lemma_suffix_self(g: Seq<char>)
    ensures
        g.is_suffix_of(g),
{
    assert(g.subrange(0, g.len() as int) =~= g);
}

/// The platforms own their domains and every subdomain of them: a host
/// (after one leading `www.`) that is `tiktok.com` or ends with `.tiktok.com`
/// is TikTok; `instagram.com` and its subdomains are Instagram; `x.com`,
/// `twitter.com` and their subdomains are X; and the YouTube hosts
/// `youtube.com`, `youtu.be`, `music.youtube.com`, `m.youtube.com`,
/// `youtube-nocookie.com` are YouTube.
pub proof fn lemma_platform_domains(host: Seq<char>)
    ensures
        ({
            let g = if "www."@.is_prefix_of(host) {
                host.subrange(4, host.len() as int)
            } else {
                host
            };
            &&& (g == "tiktok.com"@ || ".tiktok.com"@.is_suffix_of(g)) ==> platform_of_host(host) == Some(Platform::Tiktok)
            &&& (g == "instagram.com"@ || ".instagram.com"@.is_suffix_of(g)) ==> platform_of_host(host) == Some(Platform::Instagram)
            &&& (g == "x.com"@ || ".x.com"@.is_suffix_of(g) || g == "twitter.com"@ || ".twitter.com"@.is_suffix_of(g))
                ==> platform_of_host(host) == Some(Platform::Twitter)
            &&& (g == "youtube.com"@ || g == "youtu.be"@ || g == "music.youtube.com"@ || g == "m.youtube.com"@
                || g == "youtube-nocookie.com"@) ==> platform_of_host(host) == Some(Platform::Youtube)
        }),
{
    reveal_strlit("www.");
    reveal_strlit("tiktok.com");
    reveal_strlit(".tiktok.com");
    reveal_strlit("vm.tiktok.com");
    reveal_strlit("vt.tiktok.com");
    reveal_strlit("instagram.com");
    reveal_strlit(".instagram.com");
    reveal_strlit("x.com");
    reveal_strlit(".x.com");
    reveal_strlit("twitter.com");
    reveal_strlit(".twitter.com");
    reveal_strlit("vxtwitter.com");
    reveal_strlit("fixvx.com");
    reveal_strlit("youtube.com");
    reveal_strlit("youtu.be");
    reveal_strlit("music.youtube.com");
    reveal_strlit("m.youtube.com");
    reveal_strlit("youtube-nocookie.com");
    let g = strip_www(host);
    // The hosts that come earlier in the detection order.
    let yt = seq!["youtube.com"@, "youtu.be"@, "music.youtube.com"@, "m.youtube.com"@, "youtube-nocookie.com"@];
    if g == "tiktok.com"@ || ".tiktok.com"@.is_suffix_of(g) {
        let a = "tiktok.com"@;
        if g == a {
            lemma_suffix_self(g);
        } else {
            assert(a.is_suffix_of(".tiktok.com"@)) by {
                assert(".tiktok.com"@.subrange(1, 11) =~= a);
            }
            lemma_suffix_trans(a, ".tiktok.com"@, g);
        }
        lemma_suffix_excludes(g, a, "youtube.com"@, 4);
        lemma_suffix_excludes(g, a, "youtu.be"@, 0);
        lemma_suffix_excludes(g, a, "music.youtube.com"@, 4);
        lemma_suffix_excludes(g, a, "m.youtube.com"@, 4);
        lemma_suffix_excludes(g, a, "youtube-nocookie.com"@, 4);
    }
    if g == "instagram.com"@ || ".instagram.com"@.is_suffix_of(g) {
        let a = "instagram.com"@;
        if g == a {
            lemma_suffix_self(g);
        } else {
            assert(a.is_suffix_of(".instagram.com"@)) by {
                assert(".instagram.com"@.subrange(1, 14) =~= a);
            }
            lemma_suffix_trans(a, ".instagram.com"@, g);
        }
        lemma_suffix_excludes(g, a, "youtube.com"@, 4);
        lemma_suffix_excludes(g, a, "youtu.be"@, 0);
        lemma_suffix_excludes(g, a, "music.youtube.com"@, 4);
        lemma_suffix_excludes(g, a, "m.youtube.com"@, 4);
        lemma_suffix_excludes(g, a, "youtube-nocookie.com"@, 4);
        lemma_suffix_excludes(g, a, "tiktok.com"@, 4);
        lemma_suffix_excludes(g, a, ".tiktok.com"@, 4);
        lemma_suffix_excludes(g, a, "vm.tiktok.com"@, 4);
        lemma_suffix_excludes(g, a, "vt.tiktok.com"@, 4);
    }
    if g == "x.com"@ || ".x.com"@.is_suffix_of(g) || g == "twitter.com"@ || ".twitter.com"@.is_suffix_of(g) {
        let a = if g == "x.com"@ || ".x.com"@.is_suffix_of(g) {
            "x.com"@
        } else {
            "twitter.com"@
        };
        if g == "x.com"@ {
            lemma_suffix_self(g);
        } else if ".x.com"@.is_suffix_of(g) {
            assert("x.com"@.is_suffix_of(".x.com"@)) by {
                assert(".x.com"@.subrange(1, 6) =~= "x.com"@);
            }
            lemma_suffix_trans("x.com"@, ".x.com"@, g);
        } else if g == "twitter.com"@ {
            lemma_suffix_self(g);
        } else {
            assert("twitter.com"@.is_suffix_of(".twitter.com"@)) by {
                assert(".twitter.com"@.subrange(1, 12) =~= "twitter.com"@);
            }
            lemma_suffix_trans("twitter.com"@, ".twitter.com"@, g);
        }
        assert(a.is_suffix_of(g));
        lemma_suffix_excludes(g, a, "youtube.com"@, 4);
        lemma_suffix_excludes(g, a, "youtu.be"@, 0);
        lemma_suffix_excludes(g, a, "music.youtube.com"@, 4);
        lemma_suffix_excludes(g, a, "m.youtube.com"@, 4);
        lemma_suffix_excludes(g, a, "youtube-nocookie.com"@, 4);
        lemma_suffix_excludes(g, a, "tiktok.com"@, 4);
        lemma_suffix_excludes(g, a, ".tiktok.com"@, 4);
        lemma_suffix_excludes(g, a, "vm.tiktok.com"@, 4);
        lemma_suffix_excludes(g, a, "vt.tiktok.com"@, 4);
        lemma_suffix_excludes(g, a, "instagram.com"@, 4);
        lemma_suffix_excludes(g, a, ".instagram.com"@, 4);
    }
}

/// Every http(s) link whose host is one of the domains of
/// [`lemma_platform_domains`] is recognised, with that platform.
pub proof fn lemma_parse_platform_domains(input: Seq<char>)
    ensures
        ({
            let t = trim(input);
            url_parts_of(t) matches Some((scheme, host, query)) ==> (web_scheme(scheme) && host is Some) ==> {
                let lh = lowercase_of(host->0);
                let g = if "www."@.is_prefix_of(lh) {
                    lh.subrange(4, lh.len() as int)
                } else {
                    lh
                };
                &&& (g == "tiktok.com"@ || ".tiktok.com"@.is_suffix_of(g)) ==> (parse_outcome(input) is Some && (parse_outcome(input)->0).0 == Platform::Tiktok)
                &&& (g == "instagram.com"@ || ".instagram.com"@.is_suffix_of(g)) ==> (parse_outcome(input) is Some && (parse_outcome(input)->0).0 == Platform::Instagram)
                &&& (g == "x.com"@ || ".x.com"@.is_suffix_of(g) || g == "twitter.com"@ || ".twitter.com"@.is_suffix_of(g))
                    ==> (parse_outcome(input) is Some && (parse_outcome(input)->0).0 == Platform::Twitter)
            }
        }),
{
    let t = trim(input);
    if url_parts_of(t) is Some {
        let (scheme, host, query) = url_parts_of(t)->0;
        if host is Some {
            lemma_platform_domains(lowercase_of(host->0));
        }
    }
}

/// Platform detection from a lowercase host name.
pub fn detect_platform(host: &Vec<char>) -> (r: Option<Platform>)
    ensures
        r == platform_of_host(host@),
{
    proof {
        reveal_strlit("www.");
    }
    let h = if starts_with_str(host, "www.") {
        slice_of(host, 4, host.len())
    } else {
        slice_of(host, 0, host.len())
    };
    proof {
        assert(host@.subrange(0, host@.len() as int) =~= host@);
    }
    if eq_str(&h, "youtube.com") || eq_str(&h, "youtu.be") || eq_str(&h, "music.youtube.com")
        || eq_str(&h, "m.youtube.com") || eq_str(&h, "youtube-nocookie.com") {
        Some(Platform::Youtube)
    } else if eq_str(&h, "tiktok.com") || ends_with_str(&h, ".tiktok.com") || eq_str(
        &h,
        "vm.tiktok.com",
    ) || eq_str(&h, "vt.tiktok.com") {
        Some(Platform::Tiktok)
    } else if eq_str(&h, "instagram.com") || ends_with_str(&h, ".instagram.com") {
        Some(Platform::Instagram)
    } else if eq_str(&h, "x.com") || ends_with_str(&h, ".x.com") || eq_str(&h, "twitter.com")
        || ends_with_str(&h, ".twitter.com") || eq_str(&h, "vxtwitter.com") || eq_str(
        &h,
        "fixvx.com",
    ) {
        Some(Platform::Twitter)
    } else {
        None
    }
}

// ---------------------------------------------------------------------------
// The `url` crate
// ---------------------------------------------------------------------------

/// What the parser reads from a URL: scheme, host, decoded query pairs.
pub struct UrlParts {
    pub scheme: String,
    pub host: Option<String>,
    pub query: Vec<(String, String)>,
}

/// The view of an optional string.
pub open spec fn opt_view(o: Option<String>) -> Option<Seq<char>> {
    match o {
        Some(s) => Some(s@),
        None => None,
    }
}

/// The view of a list of string pairs.
pub open spec fn pairs_view(q: Seq<(String, String)>) -> Seq<(Seq<char>, Seq<char>)> {
    q.map_values(|kv: (String, String)| (kv.0@, kv.1@))
}

/// What `url::Url::parse` yields for `input`, read through `scheme`,
/// `host_str` and `query_pairs`; `None` when parsing fails.
pub uninterp spec fn url_parts_of(input: Seq<char>) -> Option<(Seq<char>, Option<Seq<char>>, Seq<(Seq<char>, Seq<char>)>)>;

/// The serialization of `input` after `set_host(Some(host))`.
pub uninterp spec fn url_reserialized(input: Seq<char>, host: Seq<char>) -> Seq<char>;

/// The serialization of `input` after `set_host(Some(host))` and replacing the
/// query with `pairs` through `query_pairs_mut`.
pub uninterp spec fn url_query_replaced(input: Seq<char>, host: Seq<char>, pairs: Seq<(Seq<char>, Seq<char>)>) -> Seq<char>;

/// `url::Url::parse`, then `scheme`, `host_str` and `query_pairs`. The
/// contract names the parse and claims nothing of the WHATWG algorithm.
#[verifier::external_body]
fn url_parts(input: &str) -> (r: Option<UrlParts>)
    ensures
        (match r {
            Some(p) => url_parts_of(input@) == Some((p.scheme@, opt_view(p.host), pairs_view(p.query@))),
            None => url_parts_of(input@) is None,
        }),
{
    match ::url::Url::parse(input) {
        Ok(u) => Some(UrlParts {
            scheme: u.scheme().to_owned(),
            host: u.host_str().map(str::to_owned),
            query: u.query_pairs().map(|(k, v)| (k.into_owned(), v.into_owned())).collect(),
        }),
        Err(_) => None,
    }
}

/// `url::Url::parse`, `set_host(Some(host))` (its result ignored), then the
/// serialization.
#[verifier::external_body]
fn url_with_host(input: &str, host: &str) -> (r: String)
    requires
        url_parts_of(input@) is Some,
    ensures
        r@ == url_reserialized(input@, host@),
{
    let mut u = ::url::Url::parse(input).unwrap();
    let _ = u.set_host(Some(host));
    u.to_string()
}

/// `url::Url::parse`, `set_host(Some(host))` (its result ignored), the query
/// cleared and refilled with `pairs` through `query_pairs_mut`, then the
/// serialization.
#[verifier::external_body]
fn url_with_query(input: &str, host: &str, pairs: &Vec<(String, String)>) -> (r: String)
    requires
        url_parts_of(input@) is Some,
    ensures
        r@ == url_query_replaced(input@, host@, pairs_view(pairs@)),
{
    let mut u = ::url::Url::parse(input).unwrap();
    let _ = u.set_host(Some(host));
    u.query_pairs_mut().clear();
    u.query_pairs_mut().extend_pairs(pairs.iter().map(|(k, v)| (k.as_str(), v.as_str())));
    u.to_string()
}

// ---------------------------------------------------------------------------
// Normalisation
// ---------------------------------------------------------------------------

/// Query keys that only track the sharer and never change the content.
pub open spec fn is_tracking_key(k: Seq<char>) -> bool {
    k == "si"@ || k == "igsh"@ || k == "igshid"@ || k == "fbclid"@ || k == "gclid"@
        || "utm_"@.is_prefix_of(k)
}

/// Some query key is a tracking key.
pub open spec fn has_tracking(q: Seq<(Seq<char>, Seq<char>)>) -> bool {
    exists|i: int| 0 <= i < q.len() && is_tracking_key(#[trigger] q[i].0)
}

/// The query pairs whose key is not a tracking key, in order.
pub open spec fn without_tracking(q: Seq<(Seq<char>, Seq<char>)>) -> Seq<(Seq<char>, Seq<char>)>
    decreases q.len(),
{
    if q.len() == 0 {
        q
    } else if is_tracking_key(q.last().0) {
        without_tracking(q.drop_last())
    } else {
        without_tracking(q.drop_last()).push(q.last())
    }
}

/// What [`parse`] makes of `input`: the platform and the normalised URL, or
/// `None` when the link is not supported.
pub open spec fn parse_outcome(input: Seq<char>) -> Option<(Platform, Seq<char>)> {
    let t = trim(input);
    match url_parts_of(t) {
        None => None,
        Some((scheme, host, query)) => if !web_scheme(scheme) {
            None
        } else {
            match host {
                None => None,
                Some(h) => {
                    let lh = lowercase_of(h);
                    match platform_of_host(lh) {
                        None => None,
                        Some(p) => Some(
                            (
                                p,
                                if has_tracking(query) {
                                    url_query_replaced(t, lh, without_tracking(query))
                                } else {
                                    url_reserialized(t, lh)
                                },
                            ),
                        ),
                    }
                },
            }
        },
    }
}

/// No tracking key survives the stripping, every pair it keeps comes from
/// the query, and a query without tracking keys is kept whole.
pub proof fn lemma_without_tracking(q: Seq<(Seq<char>, Seq<char>)>)
    ensures
        forall|i: int| 0 <= i < without_tracking(q).len() ==> !is_tracking_key(#[trigger] without_tracking(q)[i].0),
        forall|i: int| 0 <= i < without_tracking(q).len() ==> q.contains(#[trigger] without_tracking(q)[i]),
        without_tracking(q).len() <= q.len(),
        !has_tracking(q) ==> without_tracking(q) == q,
    decreases q.len(),
{
    if q.len() > 0 {
        let p = q.drop_last();
        lemma_without_tracking(p);
        let w = without_tracking(q);
        let wp = without_tracking(p);
        assert forall|i: int| 0 <= i < w.len() implies q.contains(#[trigger] w[i]) by {
            if i < wp.len() {
                assert(w[i] == wp[i]);
                let j = choose|j: int| 0 <= j < p.len() && p[j] == wp[i];
                assert(q[j] == p[j]);
            } else {
                assert(w[i] == q.last());
                assert(q[q.len() - 1] == q.last());
            }
        }
        assert forall|i: int| 0 <= i < w.len() implies !is_tracking_key(#[trigger] w[i].0) by {
            if i < wp.len() {
                assert(w[i] == wp[i]);
            }
        }
        if !has_tracking(q) {
            assert(!has_tracking(p)) by {
                if has_tracking(p) {
                    let j = choose|j: int| 0 <= j < p.len() && is_tracking_key(#[trigger] p[j].0);
                    assert(q[j] == p[j]);
                }
            }
            assert(!is_tracking_key(q[q.len() - 1].0));
            assert(w =~= q);
        }
    }
}

/// Is `k` a tracking key?
pub fn tracking_key(k: &String) -> (r: bool)
    ensures
        r == is_tracking_key(k@),
{
    let v = chars_of(k.as_str());
    eq_str(&v, "si") || eq_str(&v, "igsh") || eq_str(&v, "igshid") || eq_str(&v, "fbclid")
        || eq_str(&v, "gclid") || starts_with_str(&v, "utm_")
}

/// The pairs without tracking keys, and whether any were dropped.
pub fn split_tracking(q: &Vec<(String, String)>) -> (r: (Vec<(String, String)>, bool))
    ensures
        pairs_view(r.0@) == without_tracking(pairs_view(q@)),
        r.1 == has_tracking(pairs_view(q@)),
{
    let mut keep: Vec<(String, String)> = Vec::new();
    let mut dropped = false;
    let mut i: usize = 0;
    while i < q.len()
        invariant
            i <= q.len(),
            pairs_view(keep@) == without_tracking(pairs_view(q@.subrange(0, i as int))),
            dropped == has_tracking(pairs_view(q@.subrange(0, i as int))),
        decreases q.len() - i,
    {
        let ghost pre = pairs_view(q@.subrange(0, i as int));
        let ghost nxt = pairs_view(q@.subrange(0, i + 1));
        proof {
            assert(nxt.drop_last() =~= pre);
            assert(nxt.last() == (q@[i as int].0@, q@[i as int].1@));
        }
        if tracking_key(&q[i].0) {
            dropped = true;
            proof {
                assert(is_tracking_key(nxt[i as int].0));
            }
        } else {
            keep.push((q[i].0.clone(), q[i].1.clone()));
            proof {
                assert(pairs_view(keep@) =~= without_tracking(pre).push(nxt.last()));
                if !has_tracking(pre) {
                    assert forall|j: int| 0 <= j < nxt.len() implies !is_tracking_key(
                        #[trigger] nxt[j].0,
                    ) by {
                        if j < pre.len() {
                            assert(nxt[j] == pre[j]);
                        }
                    }
                }
            }
        }
        proof {
            if has_tracking(pre) {
                let j = choose|j: int| 0 <= j < pre.len() && is_tracking_key(#[trigger] pre[j].0);
                assert(nxt[j] == pre[j]);
            }
        }
        i = i + 1;
    }
    proof {
        assert(q@.subrange(0, q@.len() as int) =~= q@);
    }
    (keep, dropped)
}

/// The scheme is one the bot fetches.
pub open spec fn web_scheme(scheme: Seq<char>) -> bool {
    scheme == "http"@ || scheme == "https"@
}

/// How a parsed link is normalised, given its scheme, its host in lowercase
/// and its query pairs: the platform, and the pairs to rebuild the query
/// with when tracking parameters were dropped (`None` there: only the host
/// is rewritten). `None` when the link is not supported.
pub fn normalisation(scheme: &str, lower_host: &str, query: &Vec<(String, String)>) -> (r: Option<(Platform, Option<Vec<(String, String)>>)>)
    ensures
        (match r {
            None => !web_scheme(scheme@) || platform_of_host(lower_host@) is None,
            Some((p, kept)) => web_scheme(scheme@) && platform_of_host(lower_host@) == Some(p) && (match kept {
                Some(k) => has_tracking(pairs_view(query@)) && pairs_view(k@) == without_tracking(pairs_view(query@)),
                None => !has_tracking(pairs_view(query@)),
            }),
        }),
{
    let sv = chars_of(scheme);
    if !eq_str(&sv, "http") && !eq_str(&sv, "https") {
        return None;
    }
    let hv = chars_of(lower_host);
    let platform = match detect_platform(&hv) {
        Some(p) => p,
        None => return None,
    };
    let (keep, dropped) = split_tracking(query);
    if dropped {
        Some((platform, Some(keep)))
    } else {
        Some((platform, None))
    }
}

/// Recognise a supported link and normalise it. Tracking parameters are
/// stripped so the same content maps to the same cache key.
pub fn parse(input: &str) -> (r: Result<MediaUrl, Error>)
    ensures
        (match r {
            Ok(m) => parse_outcome(input@) == Some((m.platform, m.url@)),
            Err(e) => parse_outcome(input@) is None && e is UnsupportedUrl,
        }),
{
    let iv = chars_of(input);
    let tv = trimmed(&iv);
    let t = string_of(&tv);
    let parts = match url_parts(t.as_str()) {
        Some(p) => p,
        None => return Err(Error::UnsupportedUrl),
    };
    let host = match &parts.host {
        Some(h) => lowercase(h.as_str()),
        None => return Err(Error::UnsupportedUrl),
    };
    match normalisation(parts.scheme.as_str(), host.as_str(), &parts.query) {
        None => Err(Error::UnsupportedUrl),
        Some((platform, Some(keep))) => Ok(MediaUrl { platform, url: url_with_query(t.as_str(), host.as_str(), &keep) }),
        Some((platform, None)) => Ok(MediaUrl { platform, url: url_with_host(t.as_str(), host.as_str()) }),
    }
}

// ---------------------------------------------------------------------------
// Cache key
// ---------------------------------------------------------------------------

/// SHA-256 digest of `data` (`sha2::Sha256::digest`).
pub uninterp spec fn sha256_of(data: Seq<u8>) -> Seq<u8>;

/// `sha2::Sha256::digest`: the contract names the digest and states its
/// documented 32-byte length, nothing more of the hash function.
#[verifier::external_body]
fn sha256(data: &[u8]) -> (r: Vec<u8>)
    ensures
        r@ == sha256_of(data@),
        r@.len() == 32,
{
    <sha2::Sha256 as sha2::Digest>::digest(data).to_vec()
}

/// Lowercase hex digit for a nibble.
pub open spec fn hex_digit(n: nat) -> char {
    if n < 10 {
        (n + 48) as char
    } else {
        (n + 87) as char
    }
}

/// Lowercase hex encoding: two digits per byte, high nibble first.
pub open spec fn hex_lower(data: Seq<u8>) -> Seq<char>
    decreases data.len(),
{
    if data.len() == 0 {
        Seq::empty()
    } else {
        hex_lower(data.drop_last()).push(hex_digit((data.last() / 16) as nat)).push(
            hex_digit((data.last() % 16) as nat),
        )
    }
}

/// Hex encoding is two characters per byte.
pub proof fn lemma_hex_lower_len(data: Seq<u8>)
    ensures
        hex_lower(data).len() == 2 * data.len(),
    decreases data.len(),
{
    if data.len() > 0 {
        lemma_hex_lower_len(data.drop_last());
    }
}

/// `hex::encode`: lowercase hex, two digits per byte, high nibble first.
#[verifier::external_body]
fn hex_encode(data: &[u8]) -> (r: String)
    ensures
        r@ == hex_lower(data@),
{
    hex::encode(data)
}

/// Cache key of a normalised URL: lowercase hex SHA-256 of its UTF-8 bytes.
pub fn url_hash(url: &str) -> (r: String)
    ensures
        r@ == hex_lower(sha256_of(url.spec_bytes())),
        r@.len() == 64,
{
    let digest = sha256(url.as_bytes());
    proof {
        lemma_hex_lower_len(digest@);
    }
    hex_encode(digest.as_slice())
}

} // verus!
