use subniri::media::{spotify_link_track_id, spotify_track_id, thumbnail_plan, youtube_video_id, ThumbnailPlan, UrlParts};

#[test]
fn extracts_spotify_track_ids() {
    let id = "4iV5W9uYEdYUVa79Axb7Rh";
    assert_eq!(spotify_track_id(Some(&format!("spotify:track:{id}"))).as_deref(), Some(id));
    assert_eq!(
        spotify_track_id(Some(&format!("https://open.spotify.com/track/{id}?si=test"))).as_deref(),
        Some(id)
    );
}

#[test]
fn rejects_non_track_spotify_urls() {
    assert_eq!(spotify_track_id(Some("https://open.spotify.com/episode/4iV5W9uYEdYUVa79Axb7Rh")), None);
    assert_eq!(spotify_track_id(Some("spotify:local:artist:album:track")), None);
}

#[test]
fn spotify_ids_must_have_the_right_shape() {
    assert_eq!(spotify_track_id(Some("spotify:track:short")), None);
    assert_eq!(spotify_track_id(Some("spotify:track:4iV5W9uYEdYUVa79Axb7R!")), None);
    assert_eq!(spotify_track_id(Some("https://example.com/track/4iV5W9uYEdYUVa79Axb7Rh")), None);
    assert_eq!(spotify_track_id(None), None);
}

fn parts(domain: Option<&str>, path: &str, query: &[(&str, &str)]) -> UrlParts {
    UrlParts {
        host: domain.map(str::to_string),
        domain: domain.map(str::to_string),
        path: path.to_string(),
        query_pairs: query.iter().map(|(k, v)| (k.to_string(), v.to_string())).collect(),
        origin: String::new(),
    }
}

#[test]
fn youtube_video_ids_come_from_query_short_links_shorts_and_embeds() {
    assert_eq!(
        youtube_video_id(&parts(Some("www.youtube.com"), "/watch", &[("t", "1"), ("v", "abc"), ("v", "def")])),
        Some("abc".to_string())
    );
    assert_eq!(youtube_video_id(&parts(Some("youtu.be"), "//xyz/extra", &[])), Some("xyz".to_string()));
    assert_eq!(youtube_video_id(&parts(Some("youtube.com"), "/shorts/s1/more", &[])), Some("s1".to_string()));
    assert_eq!(youtube_video_id(&parts(Some("youtube.com"), "/embed/e1", &[])), Some("e1".to_string()));
    assert_eq!(youtube_video_id(&parts(Some("youtube.com"), "/feed", &[])), None);
}

#[test]
fn thumbnails_come_from_art_urls_or_the_player_url() {
    match thumbnail_plan(Some("file:///tmp/cover.png"), None) {
        ThumbnailPlan::LocalFile(p) => assert_eq!(p, "/tmp/cover.png"),
        other => panic!("unexpected {other:?}"),
    }
    match thumbnail_plan(Some("https://img/x.jpg"), Some("https://ignored")) {
        ThumbnailPlan::Fetch(u) => assert_eq!(u, "https://img/x.jpg"),
        other => panic!("unexpected {other:?}"),
    }
    assert!(matches!(thumbnail_plan(None, None), ThumbnailPlan::NoSource));
    assert!(matches!(thumbnail_plan(None, Some("not a url")), ThumbnailPlan::InvalidUrl));
    match thumbnail_plan(None, Some("https://www.youtube.com/watch?v=abc")) {
        ThumbnailPlan::Probe(v) => {
            assert_eq!(v.len(), 10);
            assert_eq!(v[0], "https://i.ytimg.com/vi/abc/hqdefault.jpg");
            assert_eq!(v[4], "https://i.ytimg.com/vi/abc/default.jpg");
            assert_eq!(v[5], "https://www.youtube.com/favicon.svg");
            assert_eq!(v[9], "https://www.youtube.com/favicon.ico");
        }
        other => panic!("unexpected {other:?}"),
    }
    match thumbnail_plan(None, Some("https://example.org/page")) {
        ThumbnailPlan::Probe(v) => {
            assert_eq!(v.len(), 5);
            assert_eq!(v[2], "https://example.org/apple-touch-icon.png");
        }
        other => panic!("unexpected {other:?}"),
    }
}

#[test]
fn parsed_spotify_links_name_their_track() {
    let parts = |host: Option<&str>, path: &str| UrlParts {
        host: host.map(str::to_string),
        domain: host.map(str::to_string),
        path: path.to_string(),
        query_pairs: vec![],
        origin: String::new(),
    };
    let id = "4iV5W9uYEdYUVa79Axb7Rh";
    assert_eq!(spotify_link_track_id(&parts(Some("open.spotify.com"), &format!("/track/{id}"))), Some(id.to_string()));
    assert_eq!(spotify_link_track_id(&parts(Some("open.spotify.com"), &format!("/episode/{id}"))), None);
    assert_eq!(spotify_link_track_id(&parts(Some("example.com"), &format!("/track/{id}"))), None);
    assert_eq!(spotify_link_track_id(&parts(Some("open.spotify.com"), "/track/short")), None);
}
