use songdex::types::{Playlist, User};
use songdex::fuzzy::{fuzzy_compare, fuzzy_search_best_n, fuzzy_search_sorted, trigrams, Score, SearchType};
use songdex::types::Song;

fn ratio(s: Score) -> f32 {
    s.hits as f32 / s.total as f32
}

fn mk_song(id: &str, title: &str, uploader: &str) -> Song {
    Song {
        id: id.to_string(),
        title: title.to_string(),
        uploader: uploader.to_string(),
        artist: String::new(),
        genre: String::new(),
        album: String::new(),
        url: String::new(),
        duration_ms: 0,
        age_limit: 0,
        webpage_url: String::new(),
        was_live: false,
        upload_date: String::new(),
        filesize: 0,
        added_by: String::new(),
        default_search: format!("{} {} {}", title, "", ""),
    }
}

#[test]
fn exact_match_scores_one() {
    let s = fuzzy_compare("Yellow Submarine", "Yellow Submarine");
    assert_eq!(s.hits, s.total);
    assert_eq!(ratio(s), 1.0);
}

#[test]
fn empty_against_empty_scores_one() {
    let s = fuzzy_compare("", "");
    assert_eq!(ratio(s), 1.0);
}

#[test]
fn empty_candidate_scores_zero_for_nonempty_query() {
    let s = fuzzy_compare("a", "");
    assert_eq!(s.hits, 0);
    assert_eq!(ratio(s), 0.0);
}

#[test]
fn score_stays_in_unit_interval() {
    for (a, b) in [
        ("abc", "xyz"),
        ("", "abc"),
        ("abc", ""),
        ("", ""),
        ("a", "a"),
        ("Yellow Submarine", "Red Sub"),
        ("Red Sub", "Yellow Submarine"),
    ] {
        let s = fuzzy_compare(a, b);
        let r = ratio(s);
        assert!(s.hits <= s.total);
        assert!((0.0..=1.0).contains(&r), "score {r} out of range for {a:?} vs {b:?}");
    }
}

#[test]
fn score_is_not_symmetric() {
    // normalised by the first argument's length only
    let ab = fuzzy_compare("ab", "abcd");
    let ba = fuzzy_compare("abcd", "ab");
    assert_eq!((ab.hits, ab.total), (2, 3));
    assert_eq!((ba.hits, ba.total), (2, 5));
    assert_ne!(ratio(ab), ratio(ba));
}

#[test]
fn trigram_count_is_length_plus_one() {
    assert_eq!(trigrams("abc").len(), 4);
    assert_eq!(trigrams("").len(), 1);
    assert_eq!(
        trigrams("ab"),
        vec![(' ', ' ', 'a'), (' ', 'a', 'b'), ('a', 'b', ' ')]
    );
}

#[test]
fn ranking_is_stable_for_equal_scores() {
    // two identical titles keep their snapshot order
    let songs = vec![
        mk_song("a", "Same Title", "u1"),
        mk_song("b", "Same Title", "u2"),
        mk_song("c", "Other", "u3"),
    ];
    let ranked = fuzzy_search_sorted("Same Title", songs.as_slice(), &SearchType::Title);
    assert_eq!(ranked.len(), 3);
    assert_eq!(ranked[0].0, 0);
    assert_eq!(ranked[1].0, 1);
    assert_eq!(ranked[2].0, 2);
    assert_eq!(ranked[0].1, ranked[1].1);
}

#[test]
fn best_n_never_exceeds_limit() {
    let songs = vec![
        mk_song("a", "one", "u"),
        mk_song("b", "two", "u"),
        mk_song("c", "three", "u"),
    ];
    let two = fuzzy_search_best_n("one", songs.as_slice(), 2, &SearchType::Title);
    assert_eq!(two.len(), 2);
    let all = fuzzy_search_best_n("one", songs.as_slice(), 10, &SearchType::Title);
    assert_eq!(all.len(), 3);
    let none = fuzzy_search_best_n("one", songs.as_slice(), 0, &SearchType::Title);
    assert!(none.is_empty());
}

#[test]
fn yellow_submarine_ranking() {
    let songs = vec![
        mk_song("a", "Yellow Submarine", "u"),
        mk_song("b", "Yellow Su bmarine", "u"),
        mk_song("c", "Red Sub", "u"),
    ];
    let ranked = fuzzy_search_best_n("Yellow Submarine", songs.as_slice(), 2, &SearchType::Title);
    assert_eq!(ranked.len(), 2);
    assert_eq!(ranked[0].0, 0);
    assert_eq!(ratio(ranked[0].1), 1.0);
    assert_eq!(ranked[1].0, 1);
    assert!(ratio(ranked[1].1) < 1.0);
    let red = fuzzy_compare("Yellow Submarine", "Red Sub");
    assert!(ratio(ranked[1].1) > ratio(red));
}

#[test]
fn users_and_playlists_are_searched_by_their_single_field() {
    let mk_user = |name: &str| User {
        id: name.to_string(),
        username: name.to_string(),
        serverside: false,
        thumbnails: false,
        autoplay: false,
        allow_followers: true,
        public_account: true,
        activity: true,
        last_played: Vec::new(),
        display_name: name.to_string(),
        followers: Vec::new(),
        following: Vec::new(),
        likes: Vec::new(),
        liked_playlist: Vec::new(),
        analytics: false,
        admin: false,
        lastupdate: "0".to_string(),
    };
    let users = vec![mk_user("alice"), mk_user("bob")];
    // the search type plays no part for users: the username is compared
    let ranked = fuzzy_search_sorted("bob", users.as_slice(), &SearchType::Default);
    assert_eq!(ranked[0].0, 1);
    assert_eq!(ratio(ranked[0].1), 1.0);

    let mk_playlist = |name: &str| Playlist {
        name: name.to_string(),
        public_playlist: true,
        songs: Vec::new(),
        author: "a".to_string(),
        author_id: "aid".to_string(),
        edit_list: Vec::new(),
        description: String::new(),
        likes: Vec::new(),
        cover: String::new(),
        duration: 0,
        lastupdate: "0".to_string(),
    };
    let lists = vec![mk_playlist("road trip"), mk_playlist("focus")];
    let ranked = fuzzy_search_sorted("focus", lists.as_slice(), &SearchType::Title);
    assert_eq!(ranked[0].0, 1);
    assert_eq!(ratio(ranked[0].1), 1.0);
}
