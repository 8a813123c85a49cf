//! The resolved form of a song request: the metadata the resolver reports
//! for a URL, and the locator of the downloaded audio. Resolution itself
//! (the download, the metadata file) is I/O and happens outside this
//! library; the coordinator only carries the resolved values.

use vstd::prelude::*;

verus! {

/// Metadata reported for one resolved song.
#[derive(Clone, Debug)]
pub struct YoutubeDLData {
    /// Length of the item in whole seconds.
    pub duration: u64,
    /// The full, unabridged title.
    pub fulltitle: String,
    /// The display title.
    pub title: String,
    /// Who uploaded the item.
    pub uploader: String,
    /// How often the item was viewed at resolution time.
    pub view_count: u64,
}

/// A resolved, playable item: its metadata and where the audio sits.
#[derive(Clone, Debug)]
pub struct Response {
    /// The reported metadata.
    pub data: YoutubeDLData,
    /// A locator the playback gateway can stream from.
    pub filepath: String,
}

} // verus!
