//! The verified compute of the extraction pipeline: parsing the stable
//! identifier out of a source url, the download tool's argument list and
//! output paths, tag parsing of the fetched audio bytes, and assembly of
//! the catalog row.  Running the tool, reading files and persisting rows
//! happen outside; every decision between those steps is made here.

use crate::strutil::{dec_str, join3, usize_to_string};
use crate::types::{Config, Song, SongV};
use crate::youtube::VideoData;
use vstd::prelude::*;
use vstd::string::StrSliceExecFns;
use vstd::string::StringExecFns;

verus! {

/// Why an ingestion failed.
#[derive(Clone, Copy, PartialEq, Eq, Structural, Debug)]
pub enum SongError {
    /// The url holds no parseable identifier.
    MalformedUrl,
    /// The external download tool did not succeed.
    ExternalToolFailure,
    /// The fetched audio carries no readable tags.
    MetadataExtractionFailure,
    /// The catalog store refused the new row.
    PersistenceFailure,
}

/// Whether the marker `?v=` starts at position `i`.
pub open spec fn marker_at(s: Seq<char>, i: int) -> bool {
    0 <= i && i + 3 <= s.len() && s[i] == '?' && s[i + 1] == 'v' && s[i + 2] == '='
}

/// The position of the first `?v=` marker at or after `i`, if any.
pub open spec fn find_marker_from(s: Seq<char>, i: int) -> Option<int>
    decreases s.len() - i,
{
    if i < 0 || i + 3 > s.len() {
        None
    } else if marker_at(s, i) {
        Some(i)
    } else {
        find_marker_from(s, i + 1)
    }
}

/// The position of the first `&` at or after `i`, or the string's end.
pub open spec fn find_amp_from(s: Seq<char>, i: int) -> int
    decreases s.len() - i,
{
    if i < 0 || i >= s.len() {
        s.len() as int
    } else if s[i] == '&' {
        i
    } else {
        find_amp_from(s, i + 1)
    }
}

/// The stable identifier of a source url: the value of its `v` query
/// parameter, read from the first `?v=` marker up to the next parameter
/// separator.  A url without the marker, or with an empty value, has none.
pub open spec fn video_id_of(s: Seq<char>) -> Option<Seq<char>> {
    match find_marker_from(s, 0) {
        None => None,
        Some(m) => {
            let e = find_amp_from(s, m + 3);
            if e > m + 3 {
                Some(s.subrange(m + 3, e))
            } else {
                None
            }
        },
    }
}

proof fn lemma_find_marker_skip(s: Seq<char>, i: int)
    requires
        0 <= i,
        forall|k: int| 0 <= k < i ==> !marker_at(s, k),
    ensures
        find_marker_from(s, 0) == find_marker_from(s, i),
    decreases i,
{
    if i > 0 {
        lemma_find_marker_skip(s, i - 1);
        assert(!marker_at(s, i - 1));
    }
}

proof fn lemma_find_amp(s: Seq<char>, start: int, j: int)
    requires
        0 <= start <= j <= s.len(),
        forall|k: int| start <= k < j ==> s[k] != '&',
        j == s.len() || s[j] == '&',
    ensures
        find_amp_from(s, start) == j,
    decreases j - start,
{
    if start < j {
        lemma_find_amp(s, start + 1, j);
    }
}

impl Song {
    /// Parses the stable identifier out of a source url, or nothing when
    /// the url is malformed.
    pub fn get_id(url: &str) -> (r: Option<String>)
        ensures
            match r {
                Some(id) => video_id_of(url@) == Some(id@),
                None => video_id_of(url@) is None,
            },
    {
        let n: usize = url.unicode_len();
        if n < 3 {
            proof {
                assert(find_marker_from(url@, 0) is None);
            }
            return None;
        }
        let mut i: usize = 0;
        while i <= n - 3
            invariant
                n == url@.len(),
                3 <= n,
                i <= n - 2,
                forall|k: int| 0 <= k < i ==> !marker_at(url@, k),
            ensures
                n == url@.len(),
                forall|k: int| 0 <= k < i ==> !marker_at(url@, k),
                i > n - 3 || marker_at(url@, i as int),
            decreases n - i,
        {
            if url.get_char(i) == '?' && url.get_char(i + 1) == 'v' && url.get_char(i + 2)
                == '=' {
                break ;
            }
            proof {
                assert(!marker_at(url@, i as int));
            }
            i = i + 1;
        }
        if i > n - 3 {
            // no marker anywhere: every later start would run off the end
            proof {
                lemma_find_marker_skip(url@, i as int);
                assert(find_marker_from(url@, i as int) is None);
            }
            return None;
        }
        proof {
            lemma_find_marker_skip(url@, i as int);
            assert(find_marker_from(url@, i as int) == Some(i as int));
        }
        let start: usize = i + 3;
        let mut j: usize = start;
        while j < n
            invariant
                n == url@.len(),
                start <= j <= n,
                forall|k: int| start <= k < j ==> url@[k] != '&',
            ensures
                start <= j <= n,
                forall|k: int| start <= k < j ==> url@[k] != '&',
                j == n || url@[j as int] == '&',
            decreases n - j,
        {
            if url.get_char(j) == '&' {
                break ;
            }
            j = j + 1;
        }
        proof {
            lemma_find_amp(url@, start as int, j as int);
        }
        if j > start {
            Some(url.substring_char(start, j).to_owned())
        } else {
            None
        }
    }
}

/// The tool's output template: `songs/<id>.%(ext)s`.
pub fn output_template(id: &str) -> (r: String)
    ensures
        r@ == "songs/"@ + id@ + ".%(ext)s"@,
{
    let mut s = String::from_str("songs/");
    s.append(id);
    s.append(".%(ext)s");
    s
}

/// Where the tool leaves the audio: `songs/<id>.mp3`.
pub fn song_path(id: &str) -> (r: String)
    ensures
        r@ == "songs/"@ + id@ + ".mp3"@,
{
    let mut s = String::from_str("songs/");
    s.append(id);
    s.append(".mp3");
    s
}

/// Where the tool leaves the sidecar metadata: `songs/<id>.info.json`.
pub fn info_path(id: &str) -> (r: String)
    ensures
        r@ == "songs/"@ + id@ + ".info.json"@,
{
    let mut s = String::from_str("songs/");
    s.append(id);
    s.append(".info.json");
    s
}

/// The argument list for the external download tool: socket timeout and
/// retry count from the configuration, mp3 extraction with embedded
/// thumbnail and tags, output under `songs/` named by the identifier, and
/// the sidecar metadata file beside it.
pub fn yt_args(cfg: &Config, id: &str, url: &str) -> (r: Vec<String>)
    ensures
        r@.len() == 13,
        r@[0]@ == "--socket-timeout"@,
        r@[1]@ == cfg.yt_timeout_sec@,
        r@[2]@ == "--embed-thumbnail"@,
        r@[3]@ == "--audio-format"@,
        r@[4]@ == "mp3"@,
        r@[5]@ == "--retries"@,
        r@[6]@ == dec_str(cfg.retries as int),
        r@[7]@ == "--extract-audio"@,
        r@[8]@ == "--add-metadata"@,
        r@[9]@ == "--output"@,
        r@[10]@ == "songs/"@ + id@ + ".%(ext)s"@,
        r@[11]@ == "--write-info-json"@,
        r@[12]@ == url@,
{
    let mut r: Vec<String> = Vec::new();
    r.push(String::from_str("--socket-timeout"));
    r.push(cfg.yt_timeout_sec.clone());
    r.push(String::from_str("--embed-thumbnail"));
    r.push(String::from_str("--audio-format"));
    r.push(String::from_str("mp3"));
    r.push(String::from_str("--retries"));
    r.push(usize_to_string(cfg.retries));
    r.push(String::from_str("--extract-audio"));
    r.push(String::from_str("--add-metadata"));
    r.push(String::from_str("--output"));
    r.push(output_template(id));
    r.push(String::from_str("--write-info-json"));
    r.push(String::from_str(url));
    r
}

/// The tag fields the catalog keeps from the fetched audio.
pub struct AudioTagData {
    pub title: String,
    pub artist: String,
    pub album: String,
    pub genre: String,
}

/// What tag parsing yields: the audio's play time, split into whole
/// seconds and leftover milliseconds, and its tags when it carries any.
pub struct Mp3Meta {
    pub duration_secs: u64,
    pub duration_subsec_ms: u32,
    pub tag: Option<AudioTagData>,
}

/// What `mp3_metadata::read_from_slice` yields on the given bytes: a
/// function of the bytes alone.
pub uninterp spec fn mp3_meta_of(b: Seq<u8>) -> Option<Mp3Meta>;

/// The byte length under which tag parsing is attempted; far above any
/// real audio file.  The parser keeps its position in 32 bits and adds an
/// ID3 block's stated sizes to it unchecked, so the input can push the
/// position hundreds of megabytes past the buffer's end; keeping buffers
/// under 2 GiB keeps that position from ever wrapping.
pub const MP3_SIZE_LIMIT: usize = 0x8000_0000;

/// Relies on mp3_metadata::read_from_slice: a pure parse whose result
/// depends on the bytes alone.  Duration and tag fields are carried over
/// one for one, the genre as its variant's name.
#[verifier::external_body]
fn read_mp3(b: &Vec<u8>) -> (r: Option<Mp3Meta>)
    requires
        b@.len() < MP3_SIZE_LIMIT,
    ensures
        r == mp3_meta_of(b@),
{
    match mp3_metadata::read_from_slice(b.as_slice()) {
        Ok(m) => Some(Mp3Meta {
            duration_secs: m.duration.as_secs(),
            duration_subsec_ms: m.duration.subsec_millis(),
            tag: m.tag.map(|t| AudioTagData {
                title: t.title,
                artist: t.artist,
                album: t.album,
                genre: format!("{:?}", t.genre),
            }),
        }),
        Err(_) => None,
    }
}

/// The play time in whole milliseconds, capped at `u64::MAX`.
pub open spec fn duration_ms_of(secs: u64, sub_ms: u32) -> u64 {
    if secs * 1000 + sub_ms > u64::MAX {
        u64::MAX
    } else {
        (secs * 1000 + sub_ms) as u64
    }
}

fn duration_ms(secs: u64, sub_ms: u32) -> (r: u64)
    ensures
        r == duration_ms_of(secs, sub_ms),
{
    let total: u128 = secs as u128 * 1000 + sub_ms as u128;
    if total > u64::MAX as u128 {
        u64::MAX
    } else {
        total as u64
    }
}

/// The row a successful extraction persists: the artist is the tag's
/// unless that is empty, then the uploader stands in; title and page data
/// come from the sidecar; `default_search` joins the sidecar title, that
/// merged artist and the album with single spaces.
pub open spec fn assembled_song(
    id: Seq<char>,
    url: Seq<char>,
    added_by: Seq<char>,
    meta: Mp3Meta,
    tag: AudioTagData,
    video: VideoData,
) -> SongV {
    let artist = if tag.artist@.len() == 0 {
        video.uploader@
    } else {
        tag.artist@
    };
    SongV {
        id: id,
        title: video.title@,
        uploader: video.uploader@,
        artist: artist,
        genre: tag.genre@,
        album: tag.album@,
        url: url,
        duration_ms: duration_ms_of(meta.duration_secs, meta.duration_subsec_ms),
        age_limit: video.age_limit as i32,
        webpage_url: video.webpage_url@,
        was_live: video.was_live,
        upload_date: video.upload_date@,
        filesize: video.filesize,
        added_by: added_by,
        default_search: video.title@ + seq![' '] + artist + seq![' '] + tag.album@,
    }
}

/// Assembles the catalog row from parsed tags and sidecar data; audio
/// without readable tags fails as a metadata failure.
pub fn build_song(
    id: String,
    url: &str,
    added_by: String,
    meta: Mp3Meta,
    video: &VideoData,
) -> (r: Result<Song, SongError>)
    ensures
        match meta.tag {
            None => r == Err::<Song, SongError>(SongError::MetadataExtractionFailure),
            Some(tag) => match r {
                Ok(song) => song@ == assembled_song(id@, url@, added_by@, meta, tag, *video),
                Err(_) => false,
            },
        },
{
    match meta.tag {
        None => Err(SongError::MetadataExtractionFailure),
        Some(tag) => {
            let artist: String = if tag.artist.as_str().is_empty() {
                video.uploader.clone()
            } else {
                tag.artist.clone()
            };
            let default_search = join3(
                video.title.as_str(),
                artist.as_str(),
                tag.album.as_str(),
            );
            Ok(
                Song {
                    id,
                    title: video.title.clone(),
                    uploader: video.uploader.clone(),
                    artist,
                    genre: tag.genre,
                    album: tag.album,
                    url: String::from_str(url),
                    duration_ms: duration_ms(meta.duration_secs, meta.duration_subsec_ms),
                    age_limit: #[verifier::truncate] (video.age_limit as i32),
                    webpage_url: video.webpage_url.clone(),
                    was_live: video.was_live,
                    upload_date: video.upload_date.clone(),
                    filesize: video.filesize,
                    added_by,
                    default_search,
                },
            )
        },
    }
}

/// One track extracted from the fetched audio bytes and the sidecar data:
/// parses the audio's tags and assembles the catalog row.  An oversized
/// buffer or unreadable tags fail as metadata failures.
pub fn extract_song(
    id: String,
    url: &str,
    added_by: String,
    bytes: &Vec<u8>,
    video: &VideoData,
) -> (r: Result<Song, SongError>)
    ensures
        bytes@.len() >= MP3_SIZE_LIMIT ==> r == Err::<Song, SongError>(
            SongError::MetadataExtractionFailure,
        ),
        bytes@.len() < MP3_SIZE_LIMIT ==> match mp3_meta_of(bytes@) {
            None => r == Err::<Song, SongError>(SongError::MetadataExtractionFailure),
            Some(meta) => match meta.tag {
                None => r == Err::<Song, SongError>(SongError::MetadataExtractionFailure),
                Some(tag) => match r {
                    Ok(song) => song@ == assembled_song(id@, url@, added_by@, meta, tag, *video),
                    Err(_) => false,
                },
            },
        },
{
    if bytes.len() >= MP3_SIZE_LIMIT {
        return Err(SongError::MetadataExtractionFailure);
    }
    match read_mp3(bytes) {
        None => Err(SongError::MetadataExtractionFailure),
        Some(meta) => build_song(id, url, added_by, meta, video),
    }
}

/// The parsed identifier, or the malformed-url error exactly when the url
/// yielded none.
pub fn require_id(id: Option<String>) -> (r: Result<String, SongError>)
    ensures
        match id {
            Some(v) => r == Ok::<String, SongError>(v),
            None => r == Err::<String, SongError>(SongError::MalformedUrl),
        },
{
    match id {
        Some(v) => Ok(v),
        None => Err(SongError::MalformedUrl),
    }
}

/// Ok exactly when the external download tool succeeded; its failure is
/// the tool-failure error, which aborts the ingestion unpersisted.
pub fn require_tool_success(succeeded: bool) -> (r: Result<(), SongError>)
    ensures
        r == if succeeded {
            Ok::<(), SongError>(())
        } else {
            Err::<(), SongError>(SongError::ExternalToolFailure)
        },
{
    if succeeded {
        Ok(())
    } else {
        Err(SongError::ExternalToolFailure)
    }
}

/// The fetched audio bytes, or the metadata error exactly when the file
/// could not be read.
pub fn require_audio(bytes: Option<Vec<u8>>) -> (r: Result<Vec<u8>, SongError>)
    ensures
        match bytes {
            Some(b) => r == Ok::<Vec<u8>, SongError>(b),
            None => r == Err::<Vec<u8>, SongError>(SongError::MetadataExtractionFailure),
        },
{
    match bytes {
        Some(b) => Ok(b),
        None => Err(SongError::MetadataExtractionFailure),
    }
}

/// The sidecar data, or the metadata error exactly when it could not be
/// read or parsed.
pub fn require_sidecar(video: Option<VideoData>) -> (r: Result<VideoData, SongError>)
    ensures
        match video {
            Some(v) => r == Ok::<VideoData, SongError>(v),
            None => r == Err::<VideoData, SongError>(SongError::MetadataExtractionFailure),
        },
{
    match video {
        Some(v) => Ok(v),
        None => Err(SongError::MetadataExtractionFailure),
    }
}

/// Ok exactly when the catalog store accepted the row; its refusal is the
/// persistence error, after which no reindex may run.
pub fn require_persisted(inserted: bool) -> (r: Result<(), SongError>)
    ensures
        r == if inserted {
            Ok::<(), SongError>(())
        } else {
            Err::<(), SongError>(SongError::PersistenceFailure)
        },
{
    if inserted {
        Ok(())
    } else {
        Err(SongError::PersistenceFailure)
    }
}

} // verus!
