//! Core catalog types: configuration, users, the ingestion queue, tracks,
//! the search index with its router, and playlists.

use crate::fuzzy::{fuzzy_search_best_n, hits_list, hits_of, lemma_rank_of_properties, rank_of,
    FuzzyComparable, Score, SearchType};
use crate::strutil::{parse_count, parse_usize_or, str_eq};
use vstd::prelude::*;
use vstd::seq_lib::group_seq_properties;
use vstd::string::StringExecFns;

verus! {

broadcast use group_seq_properties;

/// How many recently played tracks a user's history keeps at most.
pub const MAX_LAST_PLAYED: usize = 30;

/// How many results a search returns when the caller names no limit.
pub const MAX_SEARCH_RESULTS: usize = 30;

/// Service configuration, assembled once at process start.  Every field has
/// a documented default, so a caller can start from `Config::default()` and
/// override single fields.
pub struct Config {
    pub host: String,
    pub port: u16,
    pub client_origin_url: String,
    pub max_last_played: usize,
    pub max_search_results: usize,
    pub max_songs: usize,
    pub max_song_folder_size_gb: usize,
    pub retries: usize,
    pub yt_timeout_sec: String,
}

pub fn default_host() -> (r: String)
    ensures
        r@ == "127.0.0.1"@,
{
    String::from_str("127.0.0.1")
}

pub fn default_port() -> (r: u16)
    ensures
        r == 6000,
{
    6000
}

pub fn default_client_origin_url() -> (r: String)
    ensures
        r@ == "http://localhost:6000"@,
{
    String::from_str("http://localhost:6000")
}

pub fn default_max_last_played() -> (r: usize)
    ensures
        r == 20,
{
    20
}

pub fn default_max_search_results() -> (r: usize)
    ensures
        r == 30,
{
    30
}

pub fn default_max_songs() -> (r: usize)
    ensures
        r == 10000,
{
    10000
}

pub fn default_max_song_folder_size_gb() -> (r: usize)
    ensures
        r == 10,
{
    10
}

pub fn default_max_retries() -> (r: usize)
    ensures
        r == 3,
{
    3
}

pub fn default_yt_timeout_sec() -> (r: String)
    ensures
        r@ == "3"@,
{
    String::from_str("3")
}

impl Default for Config {
    /// The documented defaults for every field.
    fn default() -> (r: Self)
        ensures
            r.host@ == "127.0.0.1"@,
            r.port == 6000,
            r.client_origin_url@ == "http://localhost:6000"@,
            r.max_last_played == 20,
            r.max_search_results == 30,
            r.max_songs == 10000,
            r.max_song_folder_size_gb == 10,
            r.retries == 3,
            r.yt_timeout_sec@ == "3"@,
    {
        Config {
            host: default_host(),
            port: default_port(),
            client_origin_url: default_client_origin_url(),
            max_last_played: default_max_last_played(),
            max_search_results: default_max_search_results(),
            max_songs: default_max_songs(),
            max_song_folder_size_gb: default_max_song_folder_size_gb(),
            retries: default_max_retries(),
            yt_timeout_sec: default_yt_timeout_sec(),
        }
    }
}

/// The error shape the service reports to callers.
pub struct ErrorMessage {
    pub error: Option<String>,
    pub error_description: Option<String>,
    pub message: String,
}

/// The mathematical image of a [`User`].
pub struct UserV {
    pub id: Seq<char>,
    pub username: Seq<char>,
    pub serverside: bool,
    pub thumbnails: bool,
    pub autoplay: bool,
    pub allow_followers: bool,
    pub public_account: bool,
    pub activity: bool,
    pub last_played: Seq<Seq<char>>,
    pub display_name: Seq<char>,
    pub followers: Seq<Seq<char>>,
    pub following: Seq<Seq<char>>,
    pub likes: Seq<Seq<char>>,
    pub liked_playlist: Seq<Seq<char>>,
    pub analytics: bool,
    pub admin: bool,
    pub lastupdate: Seq<char>,
}

/// An account: identity, preferences, and the id lists the service keeps
/// for it.
pub struct User {
    pub id: String,
    pub username: String,
    pub serverside: bool,
    pub thumbnails: bool,
    pub autoplay: bool,
    pub allow_followers: bool,
    pub public_account: bool,
    pub activity: bool,
    pub last_played: Vec<String>,
    pub display_name: String,
    pub followers: Vec<String>,
    pub following: Vec<String>,
    pub likes: Vec<String>,
    pub liked_playlist: Vec<String>,
    pub analytics: bool,
    pub admin: bool,
    pub lastupdate: String,
}

impl View for User {
    type V = UserV;

    open spec fn view(&self) -> UserV {
        UserV {
            id: self.id@,
            username: self.username@,
            serverside: self.serverside,
            thumbnails: self.thumbnails,
            autoplay: self.autoplay,
            allow_followers: self.allow_followers,
            public_account: self.public_account,
            activity: self.activity,
            last_played: self.last_played.deep_view(),
            display_name: self.display_name@,
            followers: self.followers.deep_view(),
            following: self.following.deep_view(),
            likes: self.likes.deep_view(),
            liked_playlist: self.liked_playlist.deep_view(),
            analytics: self.analytics,
            admin: self.admin,
            lastupdate: self.lastupdate@,
        }
    }
}

/// Removes from `v` every string that reads `gone`, keeping the order of
/// the rest.
fn retain_except(v: &mut Vec<String>, gone: &str)
    ensures
        final(v).deep_view() == old(v).deep_view().filter(|s: Seq<char>| s != gone@),
{
    let ghost all = old(v).deep_view();
    let ghost p = |s: Seq<char>| s != gone@;
    let mut kept: Vec<String> = Vec::new();
    let n: usize = v.len();
    let mut i: usize = 0;
    while i < n
        invariant
            n == v@.len(),
            v.deep_view() == all,
            i <= n,
            p == (|s: Seq<char>| s != gone@),
            kept.deep_view() == all.take(i as int).filter(p),
        decreases n - i,
    {
        proof {
            reveal_with_fuel(Seq::<_>::filter, 2);
            assert(all.take(i as int + 1) =~= all.take(i as int) + seq![all[i as int]]);
            Seq::<Seq<char>>::filter_distributes_over_add(
                all.take(i as int),
                seq![all[i as int]],
                p,
            );
            assert(seq![all[i as int]].drop_last() =~= Seq::<Seq<char>>::empty());
            if p(all[i as int]) {
                assert(seq![all[i as int]].filter(p) =~= seq![all[i as int]]);
            } else {
                assert(seq![all[i as int]].filter(p) =~= Seq::<Seq<char>>::empty());
            }
        }
        if !str_eq(v[i].as_str(), gone) {
            kept.push(v[i].clone());
            proof {
                assert(kept.deep_view() =~= all.take(i as int).filter(p) + seq![all[i as int]]);
            }
        } else {
            proof {
                assert(kept.deep_view() =~= all.take(i as int + 1).filter(p));
            }
        }
        i = i + 1;
    }
    proof {
        assert(all.take(n as int) =~= all);
    }
    *v = kept;
}

impl User {
    /// Records a newly playing track: the oldest history entry falls out
    /// once the history is over `MAX_LAST_PLAYED` entries long.
    pub fn now_playing(&mut self, new_song: String)
        ensures
            final(self)@ == (UserV {
                last_played: if old(self)@.last_played.len() > MAX_LAST_PLAYED {
                    old(self)@.last_played.drop_first().push(new_song@)
                } else {
                    old(self)@.last_played.push(new_song@)
                },
                ..old(self)@
            }),
    {
        if self.last_played.len() > MAX_LAST_PLAYED {
            self.last_played.remove(0);
            proof {
                assert(self.last_played.deep_view() =~= old(
                    self,
                )@.last_played.drop_first());
            }
        }
        self.last_played.push(new_song);
        proof {
            assert(self.last_played.deep_view() =~= if old(self)@.last_played.len()
                > MAX_LAST_PLAYED {
                old(self)@.last_played.drop_first().push(new_song@)
            } else {
                old(self)@.last_played.push(new_song@)
            });
        }
    }

    /// Adds a follower's id.
    pub fn follow(&mut self, follower: String)
        ensures
            final(self)@ == (UserV { followers: old(self)@.followers.push(follower@), ..old(self)@ }),
    {
        self.followers.push(follower);
        proof {
            assert(self.followers.deep_view() =~= old(self)@.followers.push(follower@));
        }
    }

    /// Drops every entry of the follower list that reads `unfollower`.
    pub fn unfollow(&mut self, unfollower: &str)
        ensures
            final(self)@ == (UserV {
                followers: old(self)@.followers.filter(|s: Seq<char>| s != unfollower@),
                ..old(self)@
            }),
    {
        retain_except(&mut self.followers, unfollower);
    }

    /// Adds a track id to the liked list.
    pub fn like(&mut self, id: String)
        ensures
            final(self)@ == (UserV { likes: old(self)@.likes.push(id@), ..old(self)@ }),
    {
        self.likes.push(id);
        proof {
            assert(self.likes.deep_view() =~= old(self)@.likes.push(id@));
        }
    }

    /// Drops every entry of the liked list that reads `id`.
    pub fn dislike(&mut self, id: &str)
        ensures
            final(self)@ == (UserV {
                likes: old(self)@.likes.filter(|s: Seq<char>| s != id@),
                ..old(self)@
            }),
    {
        retain_except(&mut self.likes, id);
    }
}

/// The ingestion queue: pending (url, requester) pairs, oldest last.
/// `append` adds at the front, `cycle` hands out the oldest from the back,
/// so entries leave in arrival order.
pub struct DownloadCache(std::collections::VecDeque<(String, String)>);

impl View for DownloadCache {
    type V = Seq<(String, String)>;

    closed spec fn view(&self) -> Seq<(String, String)> {
        self.0@
    }
}

impl Default for DownloadCache {
    /// An empty queue.
    fn default() -> (r: Self)
        ensures
            r@ == Seq::<(String, String)>::empty(),
    {
        DownloadCache(std::collections::VecDeque::new())
    }
}

impl DownloadCache {
    /// Enqueues a pending download at the front (the newest end).
    pub fn append(&mut self, url: String, user: String)
        ensures
            final(self)@ == seq![(url, user)] + old(self)@,
    {
        self.0.push_front((url, user));
    }

    /// Removes and returns the oldest pending entry, or `None` on an empty
    /// queue.  The entry leaves the queue whatever its processing later
    /// comes to.
    pub fn cycle(&mut self) -> (r: Option<(String, String)>)
        ensures
            match r {
                Some(e) => old(self)@.len() > 0 && e == old(self)@.last() && final(self)@ == old(
                    self,
                )@.drop_last(),
                None => old(self)@.len() == 0 && final(self)@ == old(self)@,
            },
    {
        self.0.pop_back()
    }

    /// Discards every pending entry.
    pub fn clear(&mut self)
        ensures
            final(self)@ == Seq::<(String, String)>::empty(),
    {
        self.0.clear();
    }

    /// A snapshot of the pending entries, newest first, for observers to
    /// serialise.
    pub fn list(&self) -> (r: Vec<(String, String)>)
        ensures
            r@.len() == self@.len(),
            forall|i: int|
                0 <= i < r@.len() ==> (#[trigger] r@[i]).0@ == self@[i].0@ && r@[i].1@
                    == self@[i].1@,
    {
        let mut r: Vec<(String, String)> = Vec::new();
        let n: usize = self.0.len();
        let mut i: usize = 0;
        while i < n
            invariant
                n == self@.len(),
                i <= n,
                r@.len() == i,
                forall|k: int|
                    0 <= k < i ==> (#[trigger] r@[k]).0@ == self@[k].0@ && r@[k].1@
                        == self@[k].1@,
        decreases n - i,
        {
            let entry = &self.0[i];
            r.push((entry.0.clone(), entry.1.clone()));
            i = i + 1;
        }
        r
    }
}

/// The mathematical image of a [`Song`].
pub struct SongV {
    pub id: Seq<char>,
    pub title: Seq<char>,
    pub uploader: Seq<char>,
    pub artist: Seq<char>,
    pub genre: Seq<char>,
    pub album: Seq<char>,
    pub url: Seq<char>,
    pub duration_ms: u64,
    pub age_limit: i32,
    pub webpage_url: Seq<char>,
    pub was_live: bool,
    pub upload_date: Seq<char>,
    pub filesize: i64,
    pub added_by: Seq<char>,
    pub default_search: Seq<char>,
}

/// A catalogued track.  `id` is derived from the source url and never
/// changes; `default_search` is the space-joined title, artist and album,
/// the field a search without a named field runs over.  The duration is
/// kept in whole milliseconds.
#[derive(Debug)]
pub struct Song {
    pub id: String,
    pub title: String,
    pub uploader: String,
    pub artist: String,
    pub genre: String,
    pub album: String,
    pub url: String,
    pub duration_ms: u64,
    pub age_limit: i32,
    pub webpage_url: String,
    pub was_live: bool,
    pub upload_date: String,
    pub filesize: i64,
    pub added_by: String,
    pub default_search: String,
}

impl View for Song {
    type V = SongV;

    open spec fn view(&self) -> SongV {
        SongV {
            id: self.id@,
            title: self.title@,
            uploader: self.uploader@,
            artist: self.artist@,
            genre: self.genre@,
            album: self.album@,
            url: self.url@,
            duration_ms: self.duration_ms,
            age_limit: self.age_limit,
            webpage_url: self.webpage_url@,
            was_live: self.was_live,
            upload_date: self.upload_date@,
            filesize: self.filesize,
            added_by: self.added_by@,
            default_search: self.default_search@,
        }
    }
}

impl Clone for Song {
    /// A copy that keeps every field's value.
    fn clone(&self) -> (r: Self)
        ensures
            r@ == self@,
    {
        Song {
            id: self.id.clone(),
            title: self.title.clone(),
            uploader: self.uploader.clone(),
            artist: self.artist.clone(),
            genre: self.genre.clone(),
            album: self.album.clone(),
            url: self.url.clone(),
            duration_ms: self.duration_ms,
            age_limit: self.age_limit,
            webpage_url: self.webpage_url.clone(),
            was_live: self.was_live,
            upload_date: self.upload_date.clone(),
            filesize: self.filesize,
            added_by: self.added_by.clone(),
            default_search: self.default_search.clone(),
        }
    }
}

fn empty_str() -> (r: &'static str)
    ensures
        r@ == Seq::<char>::empty(),
{
    proof {
        reveal_strlit("");
        assert(""@ =~= Seq::<char>::empty());
    }
    ""
}

impl FuzzyComparable for Song {
    open spec fn term_view(&self, st: SearchType) -> Seq<char> {
        match st {
            SearchType::Uploader => self.uploader@,
            SearchType::Title => self.title@,
            SearchType::Default => self.default_search@,
            SearchType::User => Seq::empty(),
            SearchType::Id => Seq::empty(),
        }
    }

    fn search_term(&self, st: &SearchType) -> (r: &str) {
        match st {
            SearchType::Uploader => self.uploader.as_str(),
            SearchType::Title => self.title.as_str(),
            SearchType::Default => self.default_search.as_str(),
            SearchType::User => empty_str(),
            SearchType::Id => empty_str(),
        }
    }
}

impl FuzzyComparable for User {
    open spec fn term_view(&self, st: SearchType) -> Seq<char> {
        self.username@
    }

    fn search_term(&self, _st: &SearchType) -> (r: &str) {
        self.username.as_str()
    }
}

impl FuzzyComparable for Playlist {
    open spec fn term_view(&self, st: SearchType) -> Seq<char> {
        self.name@
    }

    fn search_term(&self, _st: &SearchType) -> (r: &str) {
        self.name.as_str()
    }
}

/// The search type a caller's tag names; anything unknown falls back to
/// `Default`, never an error.
pub open spec fn search_type_of(s: Seq<char>) -> SearchType {
    if s == "uploader"@ {
        SearchType::Uploader
    } else if s == "title"@ {
        SearchType::Title
    } else if s == "user"@ {
        SearchType::User
    } else if s == "id"@ {
        SearchType::Id
    } else {
        SearchType::Default
    }
}

/// Maps a caller's search-type tag to a [`SearchType`]; an unknown tag
/// falls back to `Default`.
pub fn parse_search_type(tag: &str) -> (r: SearchType)
    ensures
        r == search_type_of(tag@),
{
    if str_eq(tag, "uploader") {
        SearchType::Uploader
    } else if str_eq(tag, "title") {
        SearchType::Title
    } else if str_eq(tag, "user") {
        SearchType::User
    } else if str_eq(tag, "id") {
        SearchType::Id
    } else {
        SearchType::Default
    }
}

/// What a routed search returns: a single unscored record for an exact id
/// lookup, a ranked scored list for everything else.
pub enum SearchOutcome {
    Single(Option<Song>),
    Ranked(Vec<(Song, Score)>),
}

/// The in-memory search index: a snapshot of the catalog, replaced
/// wholesale on refresh and never partially.
pub struct SongSearch {
    songs: Vec<Song>,
}

impl View for SongSearch {
    type V = Seq<Song>;

    closed spec fn view(&self) -> Seq<Song> {
        self.songs@
    }
}

impl SongSearch {
    /// An index serving exactly the given catalog rows.
    pub fn load(songs: Vec<Song>) -> (r: Self)
        ensures
            r@ == songs@,
    {
        SongSearch { songs }
    }

    /// Replaces the snapshot wholesale with a freshly fetched catalog; a
    /// failed fetch (`None`) leaves the prior snapshot untouched, so reads
    /// keep answering from consistent data.
    pub fn update(&mut self, fetched: Option<Vec<Song>>)
        ensures
            match fetched {
                Some(songs) => final(self)@ == songs@,
                None => final(self)@ == old(self)@,
            },
    {
        match fetched {
            Some(songs) => {
                self.songs = songs;
            },
            None => {},
        }
    }

    /// The `amount` best-scoring tracks for `term` under `search_type`,
    /// best first, ties in snapshot order, each with its exact score.  The
    /// result holds `min(amount, snapshot size)` entries: fewer than
    /// `amount` only when the snapshot has fewer.
    pub fn search(&self, term: &str, search_type: SearchType, amount: usize) -> (r:
        Vec<(Song, Score)>)
        ensures
            r@.len() == if amount <= self@.len() {
                amount as int
            } else {
                self@.len() as int
            },
            forall|k: int|
                0 <= k < r@.len() ==> {
                    let ri = rank_of(
                        hits_list(term@, self@, search_type),
                    )[k];
                    &&& 0 <= ri < self@.len()
                    &&& (#[trigger] r@[k]).0@ == self@[ri]@
                    &&& r@[k].1.hits == hits_of(
                        term@,
                        self@[ri].term_view(search_type),
                    )
                    &&& r@[k].1.total == term@.len() + 1
                },
    {
        let ranked = fuzzy_search_best_n(
            term,
            self.songs.as_slice(),
            amount,
            &search_type,
        );
        let ghost hs = hits_list(term@, self@, search_type);
        proof {
            lemma_rank_of_properties(hs);
        }
        let n: usize = ranked.len();
        let mut out: Vec<(Song, Score)> = Vec::new();
        let mut i: usize = 0;
        while i < n
            invariant
                n == ranked@.len(),
                hs == hits_list(term@, self@, search_type),
                ranked@.map_values(|p: (usize, Score)| p.0 as int)
                    == rank_of(hs).take(n as int),
                n <= self@.len(),
                forall|k: int|
                    0 <= k < n ==> (#[trigger] ranked@[k]).0 < self@.len() && ranked@[k].1.hits
                        == hs[ranked@[k].0 as int] && ranked@[k].1.total == term@.len() + 1,
                i <= n,
                out@.len() == i,
                forall|k: int|
                    0 <= k < i ==> {
                        let ri = rank_of(hs)[k];
                        &&& 0 <= ri < self@.len()
                        &&& (#[trigger] out@[k]).0@ == self@[ri]@
                        &&& out@[k].1.hits == hits_of(
                            term@,
                            self@[ri].term_view(search_type),
                        )
                        &&& out@[k].1.total == term@.len() + 1
                    },
            decreases n - i,
        {
            let idx: usize = ranked[i].0;
            let sc = ranked[i].1;
            proof {
                lemma_rank_of_properties(hs);
                assert(ranked@.map_values(|p: (usize, Score)| p.0 as int)[i as int]
                    == rank_of(hs).take(n as int)[i as int]);
                assert(idx as int == rank_of(hs)[i as int]);
            }
            out.push((self.songs[idx].clone(), sc));
            i = i + 1;
        }
        out
    }

    /// The track whose id reads exactly `id`: the first such track of the
    /// snapshot, or `None` when no id matches.  No scoring takes part.
    pub fn get_by_id(&self, id: &str) -> (r: Option<Song>)
        ensures
            match r {
                Some(t) => exists|i: int|
                    0 <= i < self@.len() && (#[trigger] self@[i]).id@ == id@ && t@ == self@[i]@ && (
                    forall|k: int| 0 <= k < i ==> (#[trigger] self@[k]).id@ != id@),
                None => forall|k: int| 0 <= k < self@.len() ==> (#[trigger] self@[k]).id@ != id@,
            },
    {
        let n: usize = self.songs.len();
        let mut i: usize = 0;
        while i < n
            invariant
                n == self@.len(),
                i <= n,
                forall|k: int| 0 <= k < i ==> (#[trigger] self@[k]).id@ != id@,
            decreases n - i,
        {
            if str_eq(self.songs[i].id.as_str(), id) {
                let found = self.songs[i].clone();
                proof {
                    assert((#[trigger] self@[i as int]).id@ == id@ && found@ == self@[i as int]@
                        && (forall|k: int| 0 <= k < i ==> (#[trigger] self@[k]).id@ != id@));
                }
                return Some(found);
            }
            i = i + 1;
        }
        None
    }

    /// The full routed read path: resolves the caller's optional
    /// search-type tag (unknown tags fall back to `Default`) and optional
    /// result count (anything unparsable falls back to
    /// `MAX_SEARCH_RESULTS`), then answers an `Id` query by exact lookup,
    /// bypassing scoring, and every other query by ranked search.
    pub fn handle_search(&self, term: &str, type_tag: Option<&str>, count_tag: Option<&str>) -> (r:
        SearchOutcome)
        ensures
            ({
                let st = match type_tag {
                    Some(t) => search_type_of(t@),
                    None => SearchType::Default,
                };
                let amount = match count_tag {
                    Some(c) => parse_count(c@, MAX_SEARCH_RESULTS),
                    None => MAX_SEARCH_RESULTS,
                };
                match r {
                    SearchOutcome::Single(o) => st == SearchType::Id && (match o {
                        Some(t) => exists|i: int|
                            0 <= i < self@.len() && (#[trigger] self@[i]).id@ == term@ && t@
                                == self@[i]@ && (forall|k: int|
                                0 <= k < i ==> (#[trigger] self@[k]).id@ != term@),
                        None => forall|k: int|
                            0 <= k < self@.len() ==> (#[trigger] self@[k]).id@ != term@,
                    }),
                    SearchOutcome::Ranked(v) => st != SearchType::Id && v@.len() == (
                    if amount <= self@.len() {
                        amount as int
                    } else {
                        self@.len() as int
                    }) && (forall|k: int|
                        0 <= k < v@.len() ==> {
                            let ri = rank_of(
                                hits_list(term@, self@, st),
                            )[k];
                            &&& 0 <= ri < self@.len()
                            &&& (#[trigger] v@[k]).0@ == self@[ri]@
                            &&& v@[k].1.hits == hits_of(
                                term@,
                                self@[ri].term_view(st),
                            )
                            &&& v@[k].1.total == term@.len() + 1
                        }),
                }
            }),
    {
        let st = match type_tag {
            Some(t) => parse_search_type(t),
            None => SearchType::Default,
        };
        let amount: usize = match count_tag {
            Some(c) => parse_usize_or(c, MAX_SEARCH_RESULTS),
            None => MAX_SEARCH_RESULTS,
        };
        if matches!(st, SearchType::Id) {
            SearchOutcome::Single(self.get_by_id(term))
        } else {
            let v = self.search(term, st, amount);
            proof {
                lemma_rank_of_properties(
                    hits_list(term@, self@, st),
                );
            }
            SearchOutcome::Ranked(v)
        }
    }
}

/// The caller-editable part of a playlist.
pub struct PlaylistEditable {
    pub name: String,
    pub public_playlist: bool,
    pub songs: Vec<String>,
    pub description: String,
    pub cover: String,
}

/// The mathematical image of a [`Playlist`].
pub struct PlaylistV {
    pub name: Seq<char>,
    pub public_playlist: bool,
    pub songs: Seq<Seq<char>>,
    pub author: Seq<char>,
    pub author_id: Seq<char>,
    pub edit_list: Seq<Seq<char>>,
    pub description: Seq<char>,
    pub likes: Seq<Seq<char>>,
    pub cover: Seq<char>,
    pub duration: i64,
    pub lastupdate: Seq<char>,
}

/// A named, ordered collection of track ids with its metadata.
pub struct Playlist {
    pub name: String,
    pub public_playlist: bool,
    pub songs: Vec<String>,
    pub author: String,
    pub author_id: String,
    pub edit_list: Vec<String>,
    pub description: String,
    pub likes: Vec<String>,
    pub cover: String,
    pub duration: i64,
    pub lastupdate: String,
}

impl View for Playlist {
    type V = PlaylistV;

    open spec fn view(&self) -> PlaylistV {
        PlaylistV {
            name: self.name@,
            public_playlist: self.public_playlist,
            songs: self.songs.deep_view(),
            author: self.author@,
            author_id: self.author_id@,
            edit_list: self.edit_list.deep_view(),
            description: self.description@,
            likes: self.likes.deep_view(),
            cover: self.cover@,
            duration: self.duration,
            lastupdate: self.lastupdate@,
        }
    }
}

impl Playlist {
    /// Adds a liking user's id.
    pub fn like(&mut self, like: String)
        ensures
            final(self)@ == (PlaylistV { likes: old(self)@.likes.push(like@), ..old(self)@ }),
    {
        self.likes.push(like);
        proof {
            assert(self.likes.deep_view() =~= old(self)@.likes.push(like@));
        }
    }

    /// Drops every entry of the like list that reads `disliker`.
    pub fn dislike(&mut self, disliker: &str)
        ensures
            final(self)@ == (PlaylistV {
                likes: old(self)@.likes.filter(|s: Seq<char>| s != disliker@),
                ..old(self)@
            }),
    {
        retain_except(&mut self.likes, disliker);
    }

    /// Replaces the caller-editable fields with the submitted data and
    /// leaves everything else, authorship above all, as it was.
    pub fn update(playlist: &mut Self, data: PlaylistEditable)
        ensures
            final(playlist)@ == (PlaylistV {
                name: data.name@,
                public_playlist: data.public_playlist,
                songs: data.songs.deep_view(),
                description: data.description@,
                cover: data.cover@,
                ..old(playlist)@
            }),
    {
        playlist.name = data.name;
        playlist.public_playlist = data.public_playlist;
        playlist.songs = data.songs;
        playlist.description = data.description;
        playlist.cover = data.cover;
    }
}

/// Why a playlist operation was refused.
#[derive(Clone, Copy, PartialEq, Eq, Structural, Debug)]
pub enum PlaylistError {
    NotExist,
    InvalidData,
    InvalidSong,
}

} // verus!
