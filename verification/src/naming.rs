//! Names of the files of a download: the final file, named after the
//! resource, and one part file for every range.

use crate::range::ByteRange;
use crate::text::{decimal, decimal_digits};
use vstd::prelude::*;
use vstd::string::StringExecFns;

verus! {

/// The last segment of the path of a URL, still percent-encoded. There is
/// none where the text is no URL, or a URL whose path is not a list of
/// segments, as in `data:` URLs.
pub uninterp spec fn url_last_segment(url: Seq<char>) -> Option<Seq<char>>;

/// An optional text as a value of the model.
pub open spec fn text_of(text: Option<String>) -> Option<Seq<char>> {
    match text {
        Some(t) => Some(t@),
        None => None,
    }
}

/// Parses a URL with `url::Url::parse` and takes the last of its
/// `path_segments`.
///
/// Trusted: the segment depends on the text of the URL alone, and
/// `url_last_segment` is the name of that segment.
#[verifier::external_body]
fn last_path_segment(url: &str) -> (segment: Option<String>)
    ensures
        text_of(segment) == url_last_segment(url@),
{
    match url::Url::parse(url) {
        Ok(parsed) => parsed.path_segments().and_then(|segments| segments.last()).map(
            String::from,
        ),
        Err(_) => None,
    }
}

/// The name of the file for a resource whose URL ends in `segment`: the
/// segment itself, or `tmp.bin` where there is none or it is empty.
pub open spec fn file_name_of(segment: Option<Seq<char>>) -> Seq<char> {
    match segment {
        Some(s) => if s.len() > 0 {
            s
        } else {
            "tmp.bin"@
        },
        None => "tmp.bin"@,
    }
}

/// The name of a part file: the name of the final file, `.part.`, and the
/// offsets of the first and the last byte of the range.
pub open spec fn part_name_of(file_name: Seq<char>, range: ByteRange) -> Seq<char> {
    file_name + ".part."@ + decimal_digits(range.start as nat) + "-"@ + decimal_digits(
        range.end as nat,
    )
}

/// Names the file for a resource from the last segment of its URL.
pub fn file_name_from_segment(segment: Option<String>) -> (name: String)
    ensures
        name@ == file_name_of(text_of(segment)),
{
    match segment {
        Some(s) => {
            if s.as_str().is_empty() {
                String::from_str("tmp.bin")
            } else {
                s
            }
        },
        None => String::from_str("tmp.bin"),
    }
}

/// Names the file for the resource at `url`.
pub fn download_file_name(url: &str) -> (name: String)
    ensures
        name@ == file_name_of(url_last_segment(url@)),
{
    file_name_from_segment(last_path_segment(url))
}

/// Names the part file of a range.
pub fn part_file_name(file_name: &str, range: &ByteRange) -> (name: String)
    ensures
        name@ == part_name_of(file_name@, *range),
{
    let mut name = String::from_str(file_name);
    name.append(".part.");
    name.append(decimal(range.start).as_str());
    name.append("-");
    name.append(decimal(range.end).as_str());
    name
}

/// Where a file of a download goes: a directory and a name in it.
#[derive(Debug)]
pub struct DownloadPath {
    /// The target directory, as it was given.
    pub directory: String,
    /// The name of the file in that directory.
    pub file_name: String,
}

/// Where the resource at `url` is saved under `target_dir`.
pub fn build_download_path(url: &str, target_dir: &str) -> (path: DownloadPath)
    ensures
        path.directory@ == target_dir@,
        path.file_name@ == file_name_of(url_last_segment(url@)),
{
    DownloadPath { directory: String::from_str(target_dir), file_name: download_file_name(url) }
}

impl DownloadPath {
    /// Where the part file of `range` is saved: beside the final file.
    pub fn part(&self, range: &ByteRange) -> (path: DownloadPath)
        ensures
            path.directory@ == self.directory@,
            path.file_name@ == part_name_of(self.file_name@, *range),
    {
        DownloadPath {
            directory: self.directory.clone(),
            file_name: part_file_name(self.file_name.as_str(), range),
        }
    }
}

} // verus!
