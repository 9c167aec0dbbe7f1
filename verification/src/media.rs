use vstd::prelude::*;

use crate::text::{
    chars_of, has_prefix, push_str, split_chars, split_on, starts_with_chars, str_eq, string_of,
    lemma_split_on_len,
};

verus! {

/// Whether the url crate parses a text as an absolute URL.
pub uninterp spec fn url_parse_ok(text: Seq<char>) -> bool;

/// The host that the url crate reads from a text (`Url::host_str`).
pub uninterp spec fn url_host_str(text: Seq<char>) -> Option<Seq<char>>;

/// The domain that the url crate reads from a text (`Url::domain`).
pub uninterp spec fn url_domain(text: Seq<char>) -> Option<Seq<char>>;

/// The percent-encoded path that the url crate reads from a text (`Url::path`).
pub uninterp spec fn url_path(text: Seq<char>) -> Seq<char>;

/// The decoded query pairs that the url crate reads from a text (`Url::query_pairs`).
pub uninterp spec fn url_query_pairs(text: Seq<char>) -> Seq<(Seq<char>, Seq<char>)>;

/// The ASCII serialization of the origin that the url crate derives from a text
/// (`Url::origin().ascii_serialization()`).
pub uninterp spec fn url_origin(text: Seq<char>) -> Seq<char>;

/// The parts of a parsed URL that the media logic reads.
#[derive(Debug)]
pub struct UrlParts {
    pub host: Option<String>,
    pub domain: Option<String>,
    pub path: String,
    pub query_pairs: Vec<(String, String)>,
    pub origin: String,
}

/// The characters of an optional string.
pub open spec fn opt_view(s: Option<String>) -> Option<Seq<char>> {
    match s {
        Some(s) => Some(s@),
        None => None,
    }
}

/// The characters of each query pair.
pub open spec fn query_view(v: Seq<(String, String)>) -> Seq<(Seq<char>, Seq<char>)> {
    v.map_values(|p: (String, String)| (p.0@, p.1@))
}

/// url's `Url::parse`, with the host, domain, path, query pairs and origin of the parsed
/// URL read out (`host_str`, `domain`, `path`, `query_pairs`, `origin().ascii_serialization()`).
/// Whether a text parses and what the parts are is left to the url crate and only named here.
#[verifier::external_body]
pub(crate) fn parse_url(text: &str) -> (r: Option<UrlParts>)
    ensures
        r is Some <==> url_parse_ok(text@),
        r matches Some(p) ==> opt_view(p.host) == url_host_str(text@),
        r matches Some(p) ==> opt_view(p.domain) == url_domain(text@),
        r matches Some(p) ==> p.path@ == url_path(text@),
        r matches Some(p) ==> query_view(p.query_pairs@) == url_query_pairs(text@),
        r matches Some(p) ==> p.origin@ == url_origin(text@),
{
    let url = url::Url::parse(text).ok()?;
    Some(UrlParts {
        host: url.host_str().map(str::to_owned),
        domain: url.domain().map(str::to_owned),
        path: url.path().to_owned(),
        query_pairs: url.query_pairs().map(|(k, v)| (k.into_owned(), v.into_owned())).collect(),
        origin: url.origin().ascii_serialization(),
    })
}

/// Whether a character is an ASCII letter or digit.
pub open spec fn is_ascii_alnum(c: char) -> bool {
    ('0' <= c && c <= '9') || ('a' <= c && c <= 'z') || ('A' <= c && c <= 'Z')
}

/// A Spotify track id: 22 ASCII letters and digits.
pub open spec fn valid_track_id(id: Seq<char>) -> bool {
    id.len() == 22 && forall|i: int| 0 <= i < id.len() ==> is_ascii_alnum(id[i])
}

/// The path segments of a URL path: `None` unless it starts with `/`, otherwise the rest
/// split at `/` (url's `Url::path_segments`).
pub open spec fn path_segments(path: Seq<char>) -> Option<Seq<Seq<char>>> {
    if path.len() > 0 && path[0] == '/' {
        Some(split_on(path.drop_first(), '/'))
    } else {
        None
    }
}

/// The track id that a Spotify URI or `open.spotify.com/track/...` link names, before it
/// is checked.
pub open spec fn spotify_track_candidate(u: Seq<char>) -> Option<Seq<char>> {
    if has_prefix(u, "spotify:track:"@) {
        Some(u.skip(14))
    } else if !url_parse_ok(u) {
        None
    } else {
        spotify_link_candidate(url_host_str(u), url_path(u))
    }
}

/// The Spotify track that a player's URL names, if it names one with a valid id.
pub open spec fn spotify_track_id_spec(url: Option<Seq<char>>) -> Option<Seq<char>> {
    match url {
        Some(u) => match spotify_track_candidate(u) {
            Some(id) => if valid_track_id(id) { Some(id) } else { None },
            None => None,
        },
        None => None,
    }
}

fn is_alnum(c: char) -> (r: bool)
    ensures
        r == is_ascii_alnum(c),
{
    ('0' <= c && c <= '9') || ('a' <= c && c <= 'z') || ('A' <= c && c <= 'Z')
}

fn check_track_id(id: &[char]) -> (r: bool)
    ensures
        r == valid_track_id(id@),
{
    if id.len() != 22 {
        return false;
    }
    let mut i: usize = 0;
    while i < id.len()
        invariant
            i <= id@.len(),
            forall|j: int| 0 <= j < i ==> is_ascii_alnum(id@[j]),
        decreases id@.len() - i,
    {
        if !is_alnum(id[i]) {
            return false;
        }
        i = i + 1;
    }
    true
}

fn segments_of_path(path: &str) -> (r: Option<Vec<Vec<char>>>)
    ensures
        match (r, path_segments(path@)) {
            (Some(v), Some(s)) => v@.map_values(|p: Vec<char>| p@) == s,
            (None, None) => true,
            _ => false,
        },
{
    let p = chars_of(path);
    if p.len() > 0 && p[0] == '/' {
        let rest = &p.as_slice()[1..p.len()];
        assert(rest@ == path@.drop_first());
        Some(split_chars(rest, '/'))
    } else {
        None
    }
}

/// The track id that an `open.spotify.com/track/...` link names, from the host and path
/// of the parsed URL, before it is checked.
pub open spec fn spotify_link_candidate(host: Option<Seq<char>>, path: Seq<char>) -> Option<Seq<char>> {
    if host != Some("open.spotify.com"@) {
        None
    } else {
        match path_segments(path) {
            Some(segs) => if segs[0] == "track"@ && segs.len() >= 2 { Some(segs[1]) } else { None },
            None => None,
        }
    }
}

/// The Spotify track that a parsed `open.spotify.com/track/` link names, with an id of 22
/// ASCII letters and digits.
pub fn spotify_link_track_id(parts: &UrlParts) -> (r: Option<String>)
    ensures
        opt_view(r) == match spotify_link_candidate(opt_view(parts.host), parts.path@) {
            Some(id) => if valid_track_id(id) { Some(id) } else { None },
            None => None,
        },
{
    let host_ok = match &parts.host {
        Some(h) => str_eq(h.as_str(), "open.spotify.com"),
        None => false,
    };
    if !host_ok {
        return None;
    }
    let segs = match segments_of_path(parts.path.as_str()) {
        Some(s) => s,
        None => return None,
    };
    proof {
        lemma_split_on_len(parts.path@.drop_first(), '/');
    }
    let track = chars_of("track");
    if !crate::text::chars_eq(segs[0].as_slice(), track.as_slice()) {
        return None;
    }
    if segs.len() < 2 {
        return None;
    }
    let candidate = crate::text::copy_chars(segs[1].as_slice());
    if check_track_id(candidate.as_slice()) {
        Some(string_of(candidate.as_slice()))
    } else {
        None
    }
}

/// The Spotify track that a player's URL names: a `spotify:track:` URI or an
/// `open.spotify.com/track/` link, with an id of 22 ASCII letters and digits.
pub fn spotify_track_id(url: Option<&str>) -> (r: Option<String>)
    ensures
        opt_view(r) == spotify_track_id_spec(match url { Some(u) => Some(u@), None => None }),
{
    let u = match url {
        Some(u) => u,
        None => return None,
    };
    let chars = chars_of(u);
    let prefix = chars_of("spotify:track:");
    proof { reveal_strlit("spotify:track:"); }
    if starts_with_chars(chars.as_slice(), prefix.as_slice()) {
        let rest = &chars.as_slice()[14..chars.len()];
        assert(rest@ == u@.skip(14));
        let candidate = crate::text::copy_chars(rest);
        if check_track_id(candidate.as_slice()) {
            Some(string_of(candidate.as_slice()))
        } else {
            None
        }
    } else {
        match parse_url(u) {
            Some(p) => spotify_link_track_id(&p),
            None => None,
        }
    }
}

/// The value of the first query pair with the given key.
pub open spec fn first_query_value(pairs: Seq<(Seq<char>, Seq<char>)>, key: Seq<char>) -> Option<Seq<char>>
    decreases pairs.len(),
{
    if pairs.len() == 0 {
        None
    } else {
        match first_query_value(pairs.drop_last(), key) {
            Some(v) => Some(v),
            None => if pairs.last().0 == key { Some(pairs.last().1) } else { None },
        }
    }
}

/// The text without its leading `/` characters.
pub open spec fn trim_leading_slashes(s: Seq<char>) -> Seq<char>
    decreases s.len(),
{
    if s.len() > 0 && s[0] == '/' {
        trim_leading_slashes(s.drop_first())
    } else {
        s
    }
}

/// The YouTube video that a URL names: the `v` query parameter, the first path segment
/// of a `youtu.be` link, or the id after `/shorts/` or `/embed/`.
pub open spec fn youtube_video_id_spec(
    domain: Option<Seq<char>>,
    path: Seq<char>,
    pairs: Seq<(Seq<char>, Seq<char>)>,
) -> Option<Seq<char>> {
    match first_query_value(pairs, "v"@) {
        Some(v) => Some(v),
        None => if domain == Some("youtu.be"@) {
            Some(split_on(trim_leading_slashes(path), '/')[0])
        } else if has_prefix(path, "/shorts/"@) {
            Some(split_on(path.skip(8), '/')[0])
        } else if has_prefix(path, "/embed/"@) {
            Some(split_on(path.skip(7), '/')[0])
        } else {
            None
        },
    }
}

fn first_piece(s: &[char]) -> (r: String)
    ensures
        r@ == split_on(s@, '/')[0],
{
    proof {
        lemma_split_on_len(s@, '/');
    }
    let pieces = split_chars(s, '/');
    string_of(pieces[0].as_slice())
}

/// The YouTube video that a parsed URL names.
pub fn youtube_video_id(url: &UrlParts) -> (r: Option<String>)
    ensures
        opt_view(r) == youtube_video_id_spec(opt_view(url.domain), url.path@, query_view(url.query_pairs@)),
{
    let ghost q = query_view(url.query_pairs@);
    let mut i: usize = 0;
    while i < url.query_pairs.len()
        invariant
            i <= url.query_pairs@.len(),
            q == query_view(url.query_pairs@),
            first_query_value(q.take(i as int), "v"@) is None,
        decreases url.query_pairs@.len() - i,
    {
        assert(q.take(i + 1).drop_last() == q.take(i as int));
        if str_eq(url.query_pairs[i].0.as_str(), "v") {
            proof {
                lemma_first_query_value_prefix(q, "v"@, i as int + 1);
            }
            return Some(url.query_pairs[i].1.clone());
        }
        i = i + 1;
    }
    assert(q.take(q.len() as int) == q);
    let path = chars_of(url.path.as_str());
    let is_short_domain = match &url.domain {
        Some(d) => str_eq(d.as_str(), "youtu.be"),
        None => false,
    };
    if is_short_domain {
        let mut k: usize = 0;
        proof {
            lemma_trim_skip(path@, 0);
        }
        while k < path.len() && path[k] == '/'
            invariant
                k <= path@.len(),
                trim_leading_slashes(path@.skip(k as int)) == trim_leading_slashes(path@),
            decreases path@.len() - k,
        {
            assert(path@.skip(k as int).drop_first() == path@.skip(k + 1));
            k = k + 1;
        }
        let rest = &path.as_slice()[k..path.len()];
        assert(rest@ == path@.skip(k as int));
        return Some(first_piece(rest));
    }
    let shorts = chars_of("/shorts/");
    let embed = chars_of("/embed/");
    proof {
        reveal_strlit("/shorts/");
        reveal_strlit("/embed/");
    }
    if starts_with_chars(path.as_slice(), shorts.as_slice()) {
        let rest = &path.as_slice()[8..path.len()];
        assert(rest@ == path@.skip(8));
        return Some(first_piece(rest));
    }
    if starts_with_chars(path.as_slice(), embed.as_slice()) {
        let rest = &path.as_slice()[7..path.len()];
        assert(rest@ == path@.skip(7));
        return Some(first_piece(rest));
    }
    None
}

proof fn lemma_trim_skip(s: Seq<char>, k: int)
    requires
        k == 0,
    ensures
        trim_leading_slashes(s.skip(k)) == trim_leading_slashes(s),
{
    assert(s.skip(0) == s);
}

proof fn lemma_first_query_value_prefix(q: Seq<(Seq<char>, Seq<char>)>, key: Seq<char>, i: int)
    requires
        0 <= i <= q.len(),
        first_query_value(q.take(i), key) is Some,
    ensures
        first_query_value(q, key) == first_query_value(q.take(i), key),
    decreases q.len() - i,
{
    if i < q.len() {
        assert(q.take(i + 1).drop_last() == q.take(i));
        lemma_first_query_value_prefix(q, key, i + 1);
    } else {
        assert(q.take(i) == q);
    }
}

/// Where a player's cover art comes from.
#[derive(Debug)]
pub enum ThumbnailPlan {
    /// A local file, by path.
    LocalFile(String),
    /// The player's art URL, downloaded.
    Fetch(String),
    /// Candidate image URLs derived from the player's URL, tried in order.
    Probe(Vec<String>),
    /// The player gives neither an art URL nor a URL.
    NoSource,
    /// The player's URL does not parse.
    InvalidUrl,
}

/// The thumbnail URLs that YouTube serves for a video, best first.
pub open spec fn youtube_thumbnails(id: Seq<char>) -> Seq<Seq<char>> {
    seq![
        "https://i.ytimg.com/vi/"@ + id + "/hqdefault.jpg"@,
        "https://i.ytimg.com/vi/"@ + id + "/mqdefault.jpg"@,
        "https://i.ytimg.com/vi/"@ + id + "/sddefault.jpg"@,
        "https://i.ytimg.com/vi/"@ + id + "/maxresdefault.jpg"@,
        "https://i.ytimg.com/vi/"@ + id + "/default.jpg"@,
    ]
}

/// The site icons that a web origin may serve.
pub open spec fn site_icons(base: Seq<char>) -> Seq<Seq<char>> {
    seq![
        base + "/favicon.svg"@,
        base + "/favicon.png"@,
        base + "/apple-touch-icon.png"@,
        base + "/apple-touch-icon-precomposed.png"@,
        base + "/favicon.ico"@,
    ]
}

/// Where cover art is taken from: a `file://` art URL is read from disk, any other art
/// URL is downloaded; without one, the player's URL gives YouTube thumbnails (for a video
/// link) and then the site's icons.
pub open spec fn thumbnail_plan_spec(art_url: Option<Seq<char>>, url: Option<Seq<char>>, plan: ThumbnailPlan) -> bool {
    match art_url {
        Some(a) => if has_prefix(a, "file://"@) {
            plan matches ThumbnailPlan::LocalFile(p) && p@ == a.skip(7)
        } else {
            plan matches ThumbnailPlan::Fetch(f) && f@ == a
        },
        None => match url {
            None => plan is NoSource,
            Some(u) => if !url_parse_ok(u) {
                plan is InvalidUrl
            } else {
                plan matches ThumbnailPlan::Probe(v) && v@.map_values(|s: String| s@) == (match youtube_video_id_spec(url_domain(u), url_path(u), url_query_pairs(u)) {
                    Some(id) => youtube_thumbnails(id),
                    None => Seq::empty(),
                }) + site_icons(url_origin(u))
            },
        },
    }
}

fn joined(a: &str, b: &str, c: &str) -> (s: String)
    ensures
        s@ == a@ + b@ + c@,
{
    let mut s = String::new();
    push_str(&mut s, a);
    push_str(&mut s, b);
    push_str(&mut s, c);
    assert(s@ =~= a@ + b@ + c@);
    s
}

/// Where a player's cover art is taken from.
pub fn thumbnail_plan(art_url: Option<&str>, url: Option<&str>) -> (plan: ThumbnailPlan)
    ensures
        thumbnail_plan_spec(
            match art_url { Some(a) => Some(a@), None => None },
            match url { Some(u) => Some(u@), None => None },
            plan,
        ),
{
    if let Some(a) = art_url {
        let chars = chars_of(a);
        let prefix = chars_of("file://");
        proof { reveal_strlit("file://"); }
        if starts_with_chars(chars.as_slice(), prefix.as_slice()) {
            let rest = &chars.as_slice()[7..chars.len()];
            assert(rest@ == a@.skip(7));
            return ThumbnailPlan::LocalFile(string_of(rest));
        }
        return ThumbnailPlan::Fetch(a.to_owned());
    }
    let u = match url {
        Some(u) => u,
        None => return ThumbnailPlan::NoSource,
    };
    let parts = match parse_url(u) {
        Some(p) => p,
        None => return ThumbnailPlan::InvalidUrl,
    };
    let mut urls: Vec<String> = Vec::new();
    if let Some(id) = youtube_video_id(&parts) {
        urls.push(joined("https://i.ytimg.com/vi/", id.as_str(), "/hqdefault.jpg"));
        urls.push(joined("https://i.ytimg.com/vi/", id.as_str(), "/mqdefault.jpg"));
        urls.push(joined("https://i.ytimg.com/vi/", id.as_str(), "/sddefault.jpg"));
        urls.push(joined("https://i.ytimg.com/vi/", id.as_str(), "/maxresdefault.jpg"));
        urls.push(joined("https://i.ytimg.com/vi/", id.as_str(), "/default.jpg"));
    }
    let base = parts.origin.as_str();
    urls.push(joined(base, "/favicon.svg", ""));
    urls.push(joined(base, "/favicon.png", ""));
    urls.push(joined(base, "/apple-touch-icon.png", ""));
    urls.push(joined(base, "/apple-touch-icon-precomposed.png", ""));
    urls.push(joined(base, "/favicon.ico", ""));
    proof {
        reveal_strlit("");
        let yt = youtube_video_id_spec(url_domain(u@), url_path(u@), url_query_pairs(u@));
        let expected = (match yt {
            Some(id) => youtube_thumbnails(id),
            None => Seq::empty(),
        }) + site_icons(url_origin(u@));
        assert forall|k: int| 0 <= k < urls@.len() implies #[trigger] urls@[k]@ == expected[k] by {
            assert(""@ == Seq::<char>::empty());
        }
        assert(urls@.map_values(|s: String| s@) =~= expected);
    }
    ThumbnailPlan::Probe(urls)
}

} // verus!
