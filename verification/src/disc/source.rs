//! What the analysis needs to know of a media source.
use vstd::prelude::*;

verus! {

/// What a source can offer before streaming begins. These decide between a VOD and a live manifest.
#[derive(Debug, Clone, Copy, PartialEq, Eq, Structural)]
pub struct SourceCapabilities {
    /// The source has stable bytes that identify it: files, images and discs, but no live capture.
    pub has_stable_identity: bool,
    /// The total duration can be determined before streaming starts. Where it cannot, the session
    /// falls back to a live manifest.
    pub has_known_duration: bool,
    /// Keyframes can be scanned in full before the stream begins.
    pub supports_keyframe_scan: bool,
    /// The host can seek during playback.
    pub supports_seeking: bool,
}

/// A video input that the host can stream from.
///
/// The trait holds what the analysis needs of a source: an input for `ffmpeg`, flags that go with
/// it, and a declaration of what can be found out before streaming. What each of them is, is up to
/// the source.
pub trait MediaSource: Send + Sync {
    /// The label shown to the host.
    fn display_name(&self) -> &str;

    /// The input as `ffmpeg` and `ffprobe` take it, such as `/dev/sr0` or `/path/to/movie.iso`.
    fn input_spec(&self) -> &str;

    /// Flags that have to stand before the input, such as `-f v4l2`. Most sources have none.
    fn input_flags(&self) -> (r: &[&str])
        default_ensures
            r@.len() == 0,
    {
        &[]
    }

    /// What analysis the source supports.
    fn capabilities(&self) -> SourceCapabilities;
}

} // verus!
