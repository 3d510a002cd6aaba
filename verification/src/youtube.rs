//! The sidecar metadata the external download tool writes beside each
//! fetched audio file.

use vstd::prelude::*;

verus! {

/// Tag data of the source video, read back from the download tool's
/// sidecar file.  The duration here is the tool's, in whole seconds.
#[derive(Debug)]
pub struct VideoData {
    pub id: String,
    pub title: String,
    pub thumbnail: String,
    pub uploader: String,
    pub uploader_url: String,
    pub duration: usize,
    pub age_limit: i64,
    pub webpage_url: String,
    pub was_live: bool,
    pub upload_date: String,
    pub filesize: i64,
}

} // verus!
