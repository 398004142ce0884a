//! Downloading in one stream: the decisions of the blocking and of the
//! non-blocking path, and the messages that both show.

use crate::error::DownloadError;
use crate::human::{human_bytes, human_bytes_text, human_duration, human_duration_text};
use crate::progress::throughput;
use crate::text::{decimal, decimal_digits};
use vstd::prelude::*;
use vstd::string::StringExecFns;

verus! {

/// How the destination file is opened.
#[derive(Clone, Copy, Debug, PartialEq, Eq, Structural)]
pub enum OpenMode {
    /// There is no such file: create it.
    Create,
    /// Empty the file and write from the start.
    Truncate,
    /// Keep what is there and write behind it.
    Append,
}

/// How to open the destination. A file that is there is overwritten if that
/// was asked for, else resumed if that was asked for, and else left alone.
pub open spec fn open_mode_of(is_file: bool, overwrite: bool, resume: bool) -> Result<
    OpenMode,
    DownloadError,
> {
    if !is_file {
        Ok(OpenMode::Create)
    } else if overwrite {
        Ok(OpenMode::Truncate)
    } else if resume {
        Ok(OpenMode::Append)
    } else {
        Err(DownloadError::FileExists)
    }
}

/// Decides how to open the destination.
pub fn choose_open_mode(is_file: bool, overwrite: bool, resume: bool) -> (mode: Result<
    OpenMode,
    DownloadError,
>)
    ensures
        mode == open_mode_of(is_file, overwrite, resume),
{
    if !is_file {
        Ok(OpenMode::Create)
    } else if overwrite {
        Ok(OpenMode::Truncate)
    } else if resume {
        Ok(OpenMode::Append)
    } else {
        Err(DownloadError::FileExists)
    }
}

/// The offset at which a download goes on: behind the bytes of a file that
/// is appended to, and at the start otherwise.
pub open spec fn resume_offset_of(mode: OpenMode, file_len: u64) -> u64 {
    if mode is Append {
        file_len
    } else {
        0
    }
}

/// Finds the offset at which the download goes on.
pub fn resume_offset(mode: OpenMode, file_len: u64) -> (offset: u64)
    ensures
        offset == resume_offset_of(mode, file_len),
{
    match mode {
        OpenMode::Append => file_len,
        _ => 0,
    }
}

/// The `Range` header of a request that resumes: everything from the offset
/// on. A download from the start has no such header.
pub open spec fn resume_header_text(resume_from: u64) -> Option<Seq<char>> {
    if resume_from > 0 {
        Some("bytes="@ + decimal_digits(resume_from as nat) + "-"@)
    } else {
        None
    }
}

/// Writes the value of the `Range` header of a request that resumes.
pub fn resume_header(resume_from: u64) -> (value: Option<String>)
    ensures
        match value {
            Some(v) => resume_header_text(resume_from) == Some(v@),
            None => resume_header_text(resume_from) is None,
        },
{
    if resume_from > 0 {
        let mut value = String::from_str("bytes=");
        value.append(decimal(resume_from).as_str());
        value.append("-");
        Some(value)
    } else {
        None
    }
}

/// What a status means for a request that resumes: 206 carries the rest,
/// 416 says that there is no rest, 200 carries the whole resource from a
/// server that cannot resume, and nothing else is expected.
pub open spec fn resume_status_error(status: u16) -> Option<DownloadError> {
    if status == 206 {
        None
    } else if status == 416 {
        Some(DownloadError::AlreadyComplete)
    } else if status == 200 {
        Some(DownloadError::ResumeUnsupported)
    } else {
        Some(DownloadError::UnexpectedStatus { code: status })
    }
}

/// Judges the status of the answer to a request that resumes.
pub fn check_resume_status(status: u16) -> (verdict: Result<(), DownloadError>)
    ensures
        verdict is Ok <==> status == 206,
        verdict matches Err(e) ==> resume_status_error(status) == Some(e),
{
    if status == 206 {
        Ok(())
    } else if status == 416 {
        Err(DownloadError::AlreadyComplete)
    } else if status == 200 {
        Err(DownloadError::ResumeUnsupported)
    } else {
        Err(DownloadError::UnexpectedStatus { code: status })
    }
}

/// What to do with what a blocking read brought.
#[derive(Clone, Copy, Debug, PartialEq, Eq, Structural)]
pub enum ReadVerdict {
    /// The read brought nothing: the body is at its end.
    EndOfBody,
    /// Cancellation was asked for: stop, and leave the bytes unwritten.
    Cancelled,
    /// Write the bytes and read on.
    Write,
}

/// The byte counts of a download in one stream as mathematical values.
pub struct TransferView {
    /// The offset at which the download began.
    pub resume_from: nat,
    /// The offset behind the last byte read.
    pub downloaded: nat,
}

impl TransferView {
    /// Bytes read in this run.
    pub open spec fn fetched(self) -> int {
        self.downloaded - self.resume_from
    }

    /// Bytes read in this run per second.
    pub open spec fn speed(self, elapsed_secs: int) -> int {
        throughput(self.fetched(), elapsed_secs)
    }
}

/// The byte counts of a download in one stream.
#[derive(Clone, Copy, Debug)]
pub struct Transfer {
    resume_from: u64,
    downloaded: u64,
}

impl View for Transfer {
    type V = TransferView;

    closed spec fn view(&self) -> TransferView {
        TransferView { resume_from: self.resume_from as nat, downloaded: self.downloaded as nat }
    }
}

/// The figures of a download as texts, ready to be put into a message.
#[derive(Debug)]
pub struct Figures {
    /// The offset behind the last byte read, as a size.
    pub downloaded: String,
    /// The bytes read in this run, as a size.
    pub fetched: String,
    /// The bytes read in this run per second, as a size.
    pub speed: String,
    /// The time since the start.
    pub elapsed: String,
}

impl Transfer {
    #[verifier::type_invariant]
    spec fn ordered(self) -> bool {
        self.resume_from <= self.downloaded
    }

    /// A download that goes on at `resume_from` and has read nothing yet.
    pub fn new(resume_from: u64) -> (transfer: Self)
        ensures
            transfer@ == (TransferView {
                resume_from: resume_from as nat,
                downloaded: resume_from as nat,
            }),
    {
        Transfer { resume_from, downloaded: resume_from }
    }

    /// The offset at which the download began.
    pub fn resume_from(&self) -> (n: u64)
        ensures
            n == self@.resume_from,
    {
        self.resume_from
    }

    /// The offset behind the last byte read.
    pub fn downloaded(&self) -> (n: u64)
        ensures
            n == self@.downloaded,
    {
        self.downloaded
    }

    /// Bytes read in this run.
    pub fn fetched(&self) -> (n: u64)
        ensures
            n == self@.fetched(),
            self@.resume_from <= self@.downloaded,
    {
        proof {
            use_type_invariant(self);
        }
        self.downloaded - self.resume_from
    }

    /// Bytes read in this run per second, a second being the least time
    /// counted.
    pub fn speed(&self, elapsed_secs: u64) -> (n: u64)
        ensures
            n == self@.speed(elapsed_secs as int),
    {
        let elapsed: u64 = if elapsed_secs < 1 {
            1
        } else {
            elapsed_secs
        };
        self.fetched() / elapsed
    }

    /// Whether `len` more bytes can be counted.
    pub fn has_room(&self, len: usize) -> (b: bool)
        ensures
            b == (self@.downloaded + len <= u64::MAX),
    {
        len as u64 <= u64::MAX - self.downloaded
    }

    /// Counts a segment of `len` bytes.
    pub fn add(&mut self, len: usize)
        requires
            old(self)@.downloaded + len <= u64::MAX,
        ensures
            final(self)@ == (TransferView {
                downloaded: old(self)@.downloaded + len as nat,
                ..old(self)@
            }),
    {
        proof {
            use_type_invariant(&*self);
        }
        self.downloaded = self.downloaded + len as u64;
    }

    /// Takes what a blocking read brought. A read that brings nothing ends
    /// the body. Bytes are counted as soon as they are read; they are to be
    /// written unless cancellation was asked for in the meantime.
    pub fn after_read(&mut self, len: usize, interrupted: bool) -> (verdict: ReadVerdict)
        requires
            old(self)@.downloaded + len <= u64::MAX,
        ensures
            final(self)@ == (TransferView {
                downloaded: old(self)@.downloaded + len as nat,
                ..old(self)@
            }),
            verdict == if len == 0 {
                ReadVerdict::EndOfBody
            } else if interrupted {
                ReadVerdict::Cancelled
            } else {
                ReadVerdict::Write
            },
    {
        if len == 0 {
            return ReadVerdict::EndOfBody;
        }
        self.add(len);
        if interrupted {
            ReadVerdict::Cancelled
        } else {
            ReadVerdict::Write
        }
    }

    /// The figures of the download after the given time, as texts.
    pub fn figures(&self, elapsed_secs: u32, elapsed_nanos: u32) -> (figures: Figures)
        ensures
            figures.downloaded@ == human_bytes_text(self@.downloaded as u64),
            figures.fetched@ == human_bytes_text(self@.fetched() as u64),
            figures.speed@ == human_bytes_text(self@.speed(elapsed_secs as int) as u64),
            figures.elapsed@ == human_duration_text(elapsed_secs, elapsed_nanos),
    {
        Figures {
            downloaded: human_bytes(self.downloaded),
            fetched: human_bytes(self.fetched()),
            speed: human_bytes(self.speed(elapsed_secs as u64)),
            elapsed: human_duration(elapsed_secs, elapsed_nanos),
        }
    }
}

/// What a tick of the polling interval means for a download without
/// blocking: it goes on unless cancellation was asked for.
pub fn check_interrupt(interrupted: bool) -> (verdict: Result<(), DownloadError>)
    ensures
        verdict == if interrupted {
            Err::<(), DownloadError>(DownloadError::Interrupted)
        } else {
            Ok::<(), DownloadError>(())
        },
{
    if interrupted {
        Err(DownloadError::Interrupted)
    } else {
        Ok(())
    }
}

/// A size as a text.
pub fn size_text(bytes: u64) -> (text: String)
    ensures
        text@ == human_bytes_text(bytes),
{
    human_bytes(bytes)
}

/// A span of time as a text.
pub fn duration_text(secs: u32, nanos: u32) -> (text: String)
    ensures
        text@ == human_duration_text(secs, nanos),
{
    human_duration(secs, nanos)
}

/// The progress message of the non-blocking path.
pub open spec fn streaming_progress_text(
    downloaded: Seq<char>,
    speed: Seq<char>,
    elapsed: Seq<char>,
) -> Seq<char> {
    "Downloaded: "@ + downloaded + ", speed: "@ + speed + "/s. Time Elapsed: "@ + elapsed + "."@
}

/// The closing message of the non-blocking path.
pub open spec fn streaming_summary_text(
    downloaded: Seq<char>,
    speed: Seq<char>,
    elapsed: Seq<char>,
) -> Seq<char> {
    "Downloaded: "@ + downloaded + ", speed: "@ + speed + "/s. Total Time: "@ + elapsed + "."@
}

/// The progress message of the blocking path. The size of the resource is
/// shown where the server reported it.
pub open spec fn blocking_progress_text(
    downloaded: Seq<char>,
    total: Option<Seq<char>>,
    speed: Seq<char>,
    elapsed: Seq<char>,
) -> Seq<char> {
    match total {
        Some(t) => "Downloaded "@ + downloaded + "/"@ + t + ". Speed: "@ + speed
            + "/s. Time Elapsed: "@ + elapsed + "."@,
        None => "Downloaded "@ + downloaded + ". Speed: "@ + speed
            + " per second. Time Elapsed: "@ + elapsed + "."@,
    }
}

/// The message of the blocking path when a download is cancelled.
pub open spec fn blocking_interrupted_text(downloaded: Seq<char>, total: Option<Seq<char>>) -> Seq<
    char,
> {
    match total {
        Some(t) => "Download interrupted at "@ + downloaded + "/"@ + t + "."@,
        None => "Download interrupted at "@ + downloaded,
    }
}

/// The closing message of the blocking path.
pub open spec fn blocking_summary_text(
    fetched: Seq<char>,
    speed: Seq<char>,
    elapsed: Seq<char>,
) -> Seq<char> {
    "Downloaded "@ + fetched + " at "@ + speed + "/s in "@ + elapsed + "."@
}

/// The line that reports where the file was saved and how long it took.
pub open spec fn saved_text(path: Seq<char>, elapsed: Seq<char>) -> Seq<char> {
    "Downloaded to "@ + path + " in "@ + elapsed
}

/// An optional text as a value of the model.
pub open spec fn shown(text: Option<&str>) -> Option<Seq<char>> {
    match text {
        Some(t) => Some(t@),
        None => None,
    }
}

/// Writes the progress message of the non-blocking path.
pub fn streaming_progress(figures: &Figures) -> (out: String)
    ensures
        out@ == streaming_progress_text(figures.downloaded@, figures.speed@, figures.elapsed@),
{
    let mut out = String::from_str("Downloaded: ");
    out.append(figures.downloaded.as_str());
    out.append(", speed: ");
    out.append(figures.speed.as_str());
    out.append("/s. Time Elapsed: ");
    out.append(figures.elapsed.as_str());
    out.append(".");
    out
}

/// Writes the closing message of the non-blocking path.
pub fn streaming_summary(figures: &Figures) -> (out: String)
    ensures
        out@ == streaming_summary_text(figures.downloaded@, figures.speed@, figures.elapsed@),
{
    let mut out = String::from_str("Downloaded: ");
    out.append(figures.downloaded.as_str());
    out.append(", speed: ");
    out.append(figures.speed.as_str());
    out.append("/s. Total Time: ");
    out.append(figures.elapsed.as_str());
    out.append(".");
    out
}

/// Writes the progress message of the blocking path.
pub fn blocking_progress(figures: &Figures, total: Option<&str>) -> (out: String)
    ensures
        out@ == blocking_progress_text(
            figures.downloaded@,
            shown(total),
            figures.speed@,
            figures.elapsed@,
        ),
{
    let mut out = String::from_str("Downloaded ");
    out.append(figures.downloaded.as_str());
    match total {
        Some(t) => {
            out.append("/");
            out.append(t);
            out.append(". Speed: ");
            out.append(figures.speed.as_str());
            out.append("/s. Time Elapsed: ");
        },
        None => {
            out.append(". Speed: ");
            out.append(figures.speed.as_str());
            out.append(" per second. Time Elapsed: ");
        },
    }
    out.append(figures.elapsed.as_str());
    out.append(".");
    out
}

/// Writes the message of the blocking path when a download is cancelled.
pub fn blocking_interrupted(figures: &Figures, total: Option<&str>) -> (out: String)
    ensures
        out@ == blocking_interrupted_text(figures.downloaded@, shown(total)),
{
    let mut out = String::from_str("Download interrupted at ");
    out.append(figures.downloaded.as_str());
    match total {
        Some(t) => {
            out.append("/");
            out.append(t);
            out.append(".");
        },
        None => {},
    }
    out
}

/// Writes the closing message of the blocking path.
pub fn blocking_summary(figures: &Figures) -> (out: String)
    ensures
        out@ == blocking_summary_text(figures.fetched@, figures.speed@, figures.elapsed@),
{
    let mut out = String::from_str("Downloaded ");
    out.append(figures.fetched.as_str());
    out.append(" at ");
    out.append(figures.speed.as_str());
    out.append("/s in ");
    out.append(figures.elapsed.as_str());
    out.append(".");
    out
}

/// Writes the line that reports where the file was saved and how long the
/// download took.
pub fn saved_line(path: &str, elapsed: &str) -> (out: String)
    ensures
        out@ == saved_text(path@, elapsed@),
{
    let mut out = String::from_str("Downloaded to ");
    out.append(path);
    out.append(" in ");
    out.append(elapsed);
    out
}

} // verus!
