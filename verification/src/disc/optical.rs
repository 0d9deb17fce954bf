//! A disc drive, a disc image or a disc directory.
use vstd::prelude::*;

use crate::disc::source::{MediaSource, SourceCapabilities};

verus! {

/// Where a disc is.
#[derive(Debug)]
pub struct DiscPath {
    /// The path as text; `None` where it is not valid Unicode.
    pub text: Option<String>,
}

impl DiscPath {
    /// The path as text, or `other` where it is not valid Unicode.
    pub open spec fn text_or(self, other: Seq<char>) -> Seq<char> {
        match self.text {
            Some(text) => text@,
            None => other,
        }
    }

    /// The path as text, or `other` where it is not valid Unicode.
    pub fn to_str_or<'a>(&'a self, other: &'a str) -> (r: &'a str)
        ensures
            r@ == self.text_or(other@),
    {
        match &self.text {
            Some(text) => text.as_str(),
            None => other,
        }
    }
}

/// A disc drive (`/dev/sr0`, `D:\`), an image (`disc.iso`), a disc directory or a container file:
/// any path that `ffmpeg` takes as an input.
#[derive(Debug)]
pub struct OpticalDisc {
    /// Where the disc is.
    pub path: DiscPath,
    /// Volume label, for display.
    pub label: Option<String>,
}

impl OpticalDisc {
    /// The disc at a path, without a label.
    pub fn new(path: DiscPath) -> (r: Self)
        ensures
            r == (OpticalDisc { path, label: None }),
    {
        OpticalDisc { path, label: None }
    }

    /// The same disc with a label.
    pub fn with_label(self, label: String) -> (r: Self)
        ensures
            r == (OpticalDisc { path: self.path, label: Some(label) }),
    {
        OpticalDisc { path: self.path, label: Some(label) }
    }
}

impl MediaSource for OpticalDisc {
    /// The label; without one, the path.
    fn display_name(&self) -> (r: &str)
        ensures
            r@ == (match self.label {
                Some(label) => label@,
                None => self.path.text_or("optical disc"@),
            }),
    {
        match &self.label {
            Some(label) => label.as_str(),
            None => self.path.to_str_or("optical disc"),
        }
    }

    /// The path. `ffmpeg` detects disc formats itself, so no flags go with it.
    fn input_spec(&self) -> (r: &str)
        ensures
            r@ == self.path.text_or(""@),
    {
        self.path.to_str_or("")
    }

    /// A disc offers everything. A damaged one may still turn out to have no known duration.
    fn capabilities(&self) -> (r: SourceCapabilities)
        ensures
            r == (SourceCapabilities {
                has_stable_identity: true,
                has_known_duration: true,
                supports_keyframe_scan: true,
                supports_seeking: true,
            }),
    {
        SourceCapabilities {
            has_stable_identity: true,
            has_known_duration: true,
            supports_keyframe_scan: true,
            supports_seeking: true,
        }
    }
}

/// A path that is text stands for itself; only one that is not is replaced.
pub proof fn law_path_stands_for_itself(path: DiscPath, other: Seq<char>)
    ensures
        path.text matches Some(text) ==> path.text_or(other) == text@,
        path.text is None ==> path.text_or(other) == other,
{
}

} // verus!
