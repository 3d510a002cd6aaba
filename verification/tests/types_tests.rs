use songdex::api::BoolResult;
use songdex::extractors::{Auth0Config, Claims};
use songdex::fuzzy::SearchType;
use songdex::types::ErrorMessage;
use songdex::types::{
    default_host, default_max_retries, default_yt_timeout_sec, parse_search_type, Config,
    DownloadCache, Playlist, PlaylistEditable, SearchOutcome, Song, SongSearch, User,
    MAX_LAST_PLAYED, MAX_SEARCH_RESULTS,
};

fn mk_song(id: &str, title: &str) -> Song {
    Song {
        id: id.to_string(),
        title: title.to_string(),
        uploader: "up".to_string(),
        artist: "art".to_string(),
        genre: "Blues".to_string(),
        album: "alb".to_string(),
        url: "https://example.test/watch?v=x".to_string(),
        duration_ms: 1000,
        age_limit: 0,
        webpage_url: "https://example.test/watch?v=x".to_string(),
        was_live: false,
        upload_date: "20200101".to_string(),
        filesize: 42,
        added_by: "user".to_string(),
        default_search: format!("{} art alb", title),
    }
}

fn mk_user() -> User {
    User {
        id: "u1".to_string(),
        username: "name".to_string(),
        serverside: false,
        thumbnails: false,
        autoplay: false,
        allow_followers: true,
        public_account: true,
        activity: true,
        last_played: Vec::new(),
        display_name: "Name".to_string(),
        followers: Vec::new(),
        following: Vec::new(),
        likes: Vec::new(),
        liked_playlist: Vec::new(),
        analytics: false,
        admin: false,
        lastupdate: "0".to_string(),
    }
}

fn mk_playlist() -> Playlist {
    Playlist {
        name: "p".to_string(),
        public_playlist: false,
        songs: Vec::new(),
        author: "a".to_string(),
        author_id: "aid".to_string(),
        edit_list: Vec::new(),
        description: "d".to_string(),
        likes: Vec::new(),
        cover: "c".to_string(),
        duration: 0,
        lastupdate: "0".to_string(),
    }
}

#[test]
fn config_defaults() {
    let c = Config::default();
    assert_eq!(c.host, "127.0.0.1");
    assert_eq!(c.port, 6000);
    assert_eq!(c.client_origin_url, "http://localhost:6000");
    assert_eq!(c.max_last_played, 20);
    assert_eq!(c.max_search_results, 30);
    assert_eq!(c.max_songs, 10000);
    assert_eq!(c.max_song_folder_size_gb, 10);
    assert_eq!(c.retries, 3);
    assert_eq!(c.yt_timeout_sec, "3");
    assert_eq!(default_host(), "127.0.0.1");
    assert_eq!(default_max_retries(), 3);
    assert_eq!(default_yt_timeout_sec(), "3");
}

#[test]
fn now_playing_caps_history() {
    let mut u = mk_user();
    for i in 0..=MAX_LAST_PLAYED {
        u.now_playing(format!("song{}", i));
    }
    assert_eq!(u.last_played.len(), MAX_LAST_PLAYED + 1);
    assert_eq!(u.last_played[0], "song0");
    u.now_playing("newest".to_string());
    // the history was over the cap, so the oldest entry fell out
    assert_eq!(u.last_played.len(), MAX_LAST_PLAYED + 1);
    assert_eq!(u.last_played[0], "song1");
    assert_eq!(u.last_played.last().unwrap(), "newest");
}

#[test]
fn follow_and_unfollow() {
    let mut u = mk_user();
    u.follow("f1".to_string());
    u.follow("f2".to_string());
    u.follow("f1".to_string());
    assert_eq!(u.followers, vec!["f1", "f2", "f1"]);
    u.unfollow("f1");
    assert_eq!(u.followers, vec!["f2"]);
    u.unfollow("missing");
    assert_eq!(u.followers, vec!["f2"]);
}

#[test]
fn like_and_dislike() {
    let mut u = mk_user();
    u.like("s1".to_string());
    u.like("s2".to_string());
    u.dislike("s1");
    assert_eq!(u.likes, vec!["s2"]);
}

#[test]
fn queue_is_first_in_first_out() {
    let mut q = DownloadCache::default();
    q.append("url1".to_string(), "user1".to_string());
    q.append("url2".to_string(), "user2".to_string());
    let listed = q.list();
    // newest first, as enqueued at the front
    assert_eq!(listed, vec![("url2".to_string(), "user2".to_string()), (
        "url1".to_string(),
        "user1".to_string(),
    )]);
    let first = q.cycle().unwrap();
    assert_eq!(first, ("url1".to_string(), "user1".to_string()));
    let second = q.cycle().unwrap();
    assert_eq!(second, ("url2".to_string(), "user2".to_string()));
    assert_eq!(q.cycle(), None);
}

#[test]
fn queue_clear_discards_everything() {
    let mut q = DownloadCache::default();
    q.append("url1".to_string(), "user1".to_string());
    q.append("url2".to_string(), "user2".to_string());
    q.clear();
    assert!(q.list().is_empty());
    assert_eq!(q.cycle(), None);
}

#[test]
fn playlist_likes() {
    let mut p = mk_playlist();
    p.like("u1".to_string());
    p.like("u2".to_string());
    p.dislike("u1");
    assert_eq!(p.likes, vec!["u2"]);
}

#[test]
fn playlist_update_replaces_editable_fields_only() {
    let mut p = mk_playlist();
    Playlist::update(&mut p, PlaylistEditable {
        name: "new".to_string(),
        public_playlist: true,
        songs: vec!["s1".to_string()],
        description: "nd".to_string(),
        cover: "nc".to_string(),
    });
    assert_eq!(p.name, "new");
    assert!(p.public_playlist);
    assert_eq!(p.songs, vec!["s1"]);
    assert_eq!(p.description, "nd");
    assert_eq!(p.cover, "nc");
    // authorship stays
    assert_eq!(p.author, "a");
    assert_eq!(p.author_id, "aid");
}

#[test]
fn search_type_tags() {
    assert!(matches!(parse_search_type("uploader"), SearchType::Uploader));
    assert!(matches!(parse_search_type("title"), SearchType::Title));
    assert!(matches!(parse_search_type("user"), SearchType::User));
    assert!(matches!(parse_search_type("id"), SearchType::Id));
    assert!(matches!(parse_search_type("default"), SearchType::Default));
    assert!(matches!(parse_search_type("anything else"), SearchType::Default));
    assert!(matches!(parse_search_type(""), SearchType::Default));
}

#[test]
fn get_by_id_finds_first_exact_match() {
    let index = SongSearch::load(vec![
        mk_song("a", "first a"),
        mk_song("b", "b title"),
        mk_song("a", "second a"),
    ]);
    let hit = index.get_by_id("a").unwrap();
    assert_eq!(hit.title, "first a");
    let other = index.get_by_id("b").unwrap();
    assert_eq!(other.title, "b title");
    assert!(index.get_by_id("missing").is_none());
}

#[test]
fn search_respects_limit() {
    let index = SongSearch::load(vec![
        mk_song("a", "one"),
        mk_song("b", "two"),
        mk_song("c", "three"),
    ]);
    assert_eq!(index.search("one", SearchType::Title, 2).len(), 2);
    assert_eq!(index.search("one", SearchType::Title, 9).len(), 3);
}

#[test]
fn failed_refresh_keeps_prior_snapshot() {
    let mut index = SongSearch::load(vec![mk_song("a", "kept")]);
    index.update(None);
    let hit = index.get_by_id("a").unwrap();
    assert_eq!(hit.title, "kept");
    index.update(Some(vec![mk_song("b", "fresh")]));
    assert!(index.get_by_id("a").is_none());
    assert_eq!(index.get_by_id("b").unwrap().title, "fresh");
}

#[test]
fn handle_search_routes_id_lookups_around_scoring() {
    let index = SongSearch::load(vec![mk_song("a", "one"), mk_song("b", "two")]);
    match index.handle_search("a", Some("id"), None) {
        SearchOutcome::Single(Some(song)) => assert_eq!(song.id, "a"),
        _ => panic!("id search did not return the single matching track"),
    }
    match index.handle_search("missing", Some("id"), None) {
        SearchOutcome::Single(None) => {},
        _ => panic!("id search of an absent id did not come back empty"),
    }
}

#[test]
fn handle_search_falls_back_leniently() {
    let index = SongSearch::load(vec![mk_song("a", "one"), mk_song("b", "two")]);
    // unknown type tag and unparsable count: Default field, default limit
    match index.handle_search("one", Some("no such type"), Some("not a number")) {
        SearchOutcome::Ranked(v) => {
            assert_eq!(v.len(), 2.min(MAX_SEARCH_RESULTS));
        },
        _ => panic!("lenient fallback did not rank"),
    }
    match index.handle_search("one", None, Some("1")) {
        SearchOutcome::Ranked(v) => assert_eq!(v.len(), 1),
        _ => panic!("explicit count was not honoured"),
    }
}

#[test]
fn plain_shapes_construct_and_carry_their_values() {
    let b = BoolResult { admin: true };
    assert!(b.admin);
    let e = ErrorMessage {
        error: Some("invalid_token".to_string()),
        error_description: None,
        message: "Bad credentials".to_string(),
    };
    assert_eq!(e.error.as_deref(), Some("invalid_token"));
    assert_eq!(e.message, "Bad credentials");
    let a = Auth0Config {
        audience: "aud".to_string(),
        domain: "example.test".to_string(),
    };
    assert_eq!(a.domain, "example.test");
    let c = Claims::new("user1".to_string(), None);
    assert_eq!(c.sub, "user1");
}

#[test]
fn cloning_a_song_keeps_every_field() {
    let s = mk_song("a", "title");
    let c = s.clone();
    assert_eq!(c.id, s.id);
    assert_eq!(c.title, s.title);
    assert_eq!(c.artist, s.artist);
    assert_eq!(c.duration_ms, s.duration_ms);
    assert_eq!(c.default_search, s.default_search);
}
