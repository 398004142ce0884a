//! Progress of a job: a byte counter and a lifecycle state for every range.

use crate::human::{human_bytes, human_bytes_text};
use crate::text::{joined, lemma_joined_push};
use vstd::prelude::*;
use vstd::string::StringExecFns;

verus! {

/// Where one range stands in its lifecycle.
#[derive(Clone, Copy, Debug, PartialEq, Eq, Structural)]
pub enum ChunkState {
    /// Planned, not yet requested.
    Pending,
    /// Requested; the body is being read by the named worker.
    Downloading { worker_id: usize },
    /// Read to the end.
    Completed,
    /// Given up after an error or a cancellation.
    Failed,
}

impl ChunkState {
    /// `Completed` and `Failed` are final: a range does not leave them.
    pub open spec fn is_terminal(self) -> bool {
        self is Completed || self is Failed
    }
}

/// The colours of the range indicators.
#[derive(Clone, Copy, Debug, PartialEq, Eq, Structural)]
pub enum Tint {
    Green,
    Yellow,
    Cyan,
    Magenta,
    BrightBlack,
    Red,
}

impl Tint {
    /// The number by which a terminal knows the colour.
    pub open spec fn code(self) -> Seq<char> {
        match self {
            Tint::Green => seq!['3', '2'],
            Tint::Yellow => seq!['3', '3'],
            Tint::Cyan => seq!['3', '6'],
            Tint::Magenta => seq!['3', '5'],
            Tint::BrightBlack => seq!['9', '0'],
            Tint::Red => seq!['3', '1'],
        }
    }
}

/// A text between the escape sequence that switches a colour on and the one
/// that resets the terminal.
pub open spec fn tinted(text: Seq<char>, tint: Tint) -> Seq<char> {
    seq!['\u{1b}', '['] + tint.code() + seq!['m'] + text + seq!['\u{1b}', '[', '0', 'm']
}

/// What painting a text may give: the text in colour, or the text as it is
/// where colours are switched off.
pub open spec fn painted_as(out: Seq<char>, text: Seq<char>, tint: Tint) -> bool {
    out == text || out == tinted(text, tint)
}

/// Paints a text with `colored::Colorize::color` and takes the result as a
/// `String`.
///
/// Trusted: the crate writes the text unchanged where the environment or an
/// override switches colours off, and else between the colour's escape
/// sequence and a reset. A text that holds an escape character is left out,
/// because resets inside the text are rewritten.
#[verifier::external_body]
fn paint(text: &str, tint: Tint) -> (out: String)
    requires
        !text@.contains('\u{1b}'),
    ensures
        painted_as(out@, text@, tint),
{
    let color = match tint {
        Tint::Green => colored::Color::Green,
        Tint::Yellow => colored::Color::Yellow,
        Tint::Cyan => colored::Color::Cyan,
        Tint::Magenta => colored::Color::Magenta,
        Tint::BrightBlack => colored::Color::BrightBlack,
        Tint::Red => colored::Color::Red,
    };
    colored::Colorize::color(text, color).to_string()
}

impl ChunkState {
    /// The colour of a range's indicator: green when completed, red when
    /// failed, grey while pending, and one of three colours, by worker, while
    /// downloading.
    pub open spec fn tint(self) -> Tint {
        match self {
            ChunkState::Completed => Tint::Green,
            ChunkState::Downloading { worker_id } => if worker_id % 3 == 0 {
                Tint::Yellow
            } else if worker_id % 3 == 1 {
                Tint::Cyan
            } else {
                Tint::Magenta
            },
            ChunkState::Pending => Tint::BrightBlack,
            ChunkState::Failed => Tint::Red,
        }
    }

    /// The shape of a range's indicator: a light block while pending, a full
    /// block afterwards.
    pub open spec fn glyph(self) -> Seq<char> {
        if self is Pending {
            seq!['\u{2591}']
        } else {
            seq!['\u{2588}']
        }
    }

    /// Shape and colour of the indicator of a range in this state.
    pub fn indicator(&self) -> (look: (&'static str, Tint))
        ensures
            look.0@ == self.glyph(),
            look.1 == self.tint(),
    {
        proof {
            reveal_strlit("\u{2591}");
            reveal_strlit("\u{2588}");
        }
        match self {
            ChunkState::Completed => ("\u{2588}", Tint::Green),
            ChunkState::Downloading { worker_id } => {
                let tint = if *worker_id % 3 == 0 {
                    Tint::Yellow
                } else if *worker_id % 3 == 1 {
                    Tint::Cyan
                } else {
                    Tint::Magenta
                };
                ("\u{2588}", tint)
            },
            ChunkState::Pending => ("\u{2591}", Tint::BrightBlack),
            ChunkState::Failed => ("\u{2588}", Tint::Red),
        }
    }
}

/// The views of a list of texts.
pub open spec fn texts(pieces: Seq<String>) -> Seq<Seq<char>> {
    Seq::new(pieces.len(), |i: int| pieces[i]@)
}

/// The indicators of all ranges, in range order, between square brackets.
pub open spec fn bracketed(pieces: Seq<Seq<char>>) -> Seq<char> {
    seq!['['] + joined(pieces) + seq![']']
}

/// Whether `out` shows the given states: one indicator for each range, in
/// range order and between square brackets, each in the shape and colour of
/// its state, or in the shape alone where colours are switched off.
pub open spec fn shows_states(out: Seq<char>, states: Seq<ChunkState>) -> bool {
    exists|pieces: Seq<Seq<char>>|
        #![trigger bracketed(pieces)]
        pieces.len() == states.len() && (forall|i: int|
            0 <= i < states.len() ==> painted_as(
                #[trigger] pieces[i],
                states[i].glyph(),
                states[i].tint(),
            )) && out == bracketed(pieces)
}

/// Puts the indicators of the ranges between square brackets.
pub fn assemble_chunks(pieces: &Vec<String>) -> (out: String)
    ensures
        out@ == bracketed(texts(pieces@)),
{
    proof {
        reveal_strlit("[");
        reveal_strlit("]");
    }
    let mut out = String::from_str("[");
    let mut i: usize = 0;
    while i < pieces.len()
        invariant
            i <= pieces@.len(),
            out@ == seq!['['] + joined(texts(pieces@).take(i as int)),
        decreases pieces@.len() - i,
    {
        proof {
            lemma_joined_push(texts(pieces@).take(i as int), pieces@[i as int]@);
            assert(texts(pieces@).take(i as int).push(pieces@[i as int]@) =~= texts(
                pieces@,
            ).take(i + 1));
        }
        out.append(pieces[i].as_str());
        i = i + 1;
    }
    assert(texts(pieces@).take(i as int) =~= texts(pieces@));
    out.append("]");
    out
}

/// Bytes per second since the start, a second being the least time counted.
pub open spec fn throughput(downloaded: int, elapsed_secs: int) -> int {
    downloaded / (if elapsed_secs < 1 {
        1
    } else {
        elapsed_secs
    })
}

/// The progress line: the indicators, the bytes downloaded, the size of the
/// resource and the throughput.
pub open spec fn progress_line(
    indicators: Seq<char>,
    downloaded: Seq<char>,
    total: Seq<char>,
    speed: Seq<char>,
) -> Seq<char> {
    indicators + " Downloaded: "@ + downloaded + " / "@ + total + " @ "@ + speed + "/s"@
}

/// Writes the progress line from its four parts.
pub fn render_line(indicators: &str, downloaded: &str, total: &str, speed: &str) -> (out: String)
    ensures
        out@ == progress_line(indicators@, downloaded@, total@, speed@),
{
    let mut out = String::from_str(indicators);
    out.append(" Downloaded: ");
    out.append(downloaded);
    out.append(" / ");
    out.append(total);
    out.append(" @ ");
    out.append(speed);
    out.append("/s");
    out
}

/// Sum of the counters of all ranges.
pub open spec fn total_of(counters: Seq<usize>) -> int
    decreases counters.len(),
{
    if counters.len() == 0 {
        0
    } else {
        total_of(counters.drop_last()) + counters.last()
    }
}

/// A sum of counters lies between zero and the sum of any extension.
pub proof fn lemma_total_of_prefix(counters: Seq<usize>, k: int)
    requires
        0 <= k <= counters.len(),
    ensures
        0 <= total_of(counters.take(k)) <= total_of(counters),
    decreases counters.len() - k,
{
    if k == counters.len() {
        assert(counters.take(k) =~= counters);
        lemma_total_of_nonnegative(counters);
    } else {
        lemma_total_of_prefix(counters, k + 1);
        lemma_total_of_nonnegative(counters.take(k));
        assert(counters.take(k + 1).drop_last() =~= counters.take(k));
    }
}

/// A sum of counters is not negative.
pub proof fn lemma_total_of_nonnegative(counters: Seq<usize>)
    ensures
        0 <= total_of(counters),
    decreases counters.len(),
{
    if counters.len() > 0 {
        lemma_total_of_nonnegative(counters.drop_last());
    }
}

/// The progress of a job as a mathematical value.
pub struct ProgressView {
    /// Lifecycle state of every range, by range number.
    pub states: Seq<ChunkState>,
    /// Bytes downloaded so far for every range, by range number.
    pub counters: Seq<usize>,
    /// Size of the resource, zero while unknown.
    pub total_bytes: u64,
    /// Whether cancellation was asked for.
    pub interrupted: bool,
}

impl ProgressView {
    /// There is one counter for every state.
    pub open spec fn wf(self) -> bool {
        self.states.len() == self.counters.len()
    }

    /// Number of ranges.
    pub open spec fn len(self) -> nat {
        self.states.len()
    }

    /// The progress of a job that has just been planned.
    pub open spec fn fresh(num_chunks: nat, total_bytes: u64, interrupted: bool) -> ProgressView {
        ProgressView {
            states: Seq::new(num_chunks, |i: int| ChunkState::Pending),
            counters: Seq::new(num_chunks, |i: int| 0usize),
            total_bytes,
            interrupted,
        }
    }

    /// The same progress with the counter of one range replaced. A number
    /// that names no range changes nothing.
    pub open spec fn with_bytes(self, chunk_id: int, bytes: usize) -> ProgressView {
        if 0 <= chunk_id < self.counters.len() {
            ProgressView { counters: self.counters.update(chunk_id, bytes), ..self }
        } else {
            self
        }
    }

    /// The same progress with the state of one range replaced. A number that
    /// names no range changes nothing.
    pub open spec fn with_state(self, chunk_id: int, state: ChunkState) -> ProgressView {
        if 0 <= chunk_id < self.states.len() {
            ProgressView { states: self.states.update(chunk_id, state), ..self }
        } else {
            self
        }
    }

    /// The same progress with cancellation asked for.
    pub open spec fn cancelled(self) -> ProgressView {
        ProgressView { interrupted: true, ..self }
    }

    /// Bytes downloaded over all ranges.
    pub open spec fn total_downloaded(self) -> int {
        total_of(self.counters)
    }
}

/// State and counter of one range.
#[derive(Clone, Copy, Debug)]
struct ChunkEntry {
    state: ChunkState,
    bytes: usize,
}

/// Counters and states of the ranges of one job.
#[derive(Clone, Debug)]
pub struct ChunkProgressBar {
    entries: Vec<ChunkEntry>,
    total_bytes: u64,
    interrupted: bool,
}

impl View for ChunkProgressBar {
    type V = ProgressView;

    closed spec fn view(&self) -> ProgressView {
        ProgressView {
            states: Seq::new(self.entries@.len(), |i: int| self.entries@[i].state),
            counters: Seq::new(self.entries@.len(), |i: int| self.entries@[i].bytes),
            total_bytes: self.total_bytes,
            interrupted: self.interrupted,
        }
    }
}

impl ChunkProgressBar {
    /// Progress for `num_chunks` ranges of a resource of `total_bytes` bytes:
    /// every range pending, every counter at zero.
    pub fn new(num_chunks: usize, total_bytes: u64, interrupted: bool) -> (bar: Self)
        ensures
            bar@ == ProgressView::fresh(num_chunks as nat, total_bytes, interrupted),
            bar@.wf(),
    {
        let mut entries: Vec<ChunkEntry> = Vec::new();
        let mut i: usize = 0;
        while i < num_chunks
            invariant
                i <= num_chunks,
                entries@.len() == i,
                forall|k: int|
                    0 <= k < i ==> entries@[k].state == ChunkState::Pending && entries@[k].bytes
                        == 0,
            decreases num_chunks - i,
        {
            entries.push(ChunkEntry { state: ChunkState::Pending, bytes: 0 });
            i = i + 1;
        }
        let bar = ChunkProgressBar { entries, total_bytes, interrupted };
        assert(bar@.states =~= ProgressView::fresh(
            num_chunks as nat,
            total_bytes,
            interrupted,
        ).states);
        assert(bar@.counters =~= ProgressView::fresh(
            num_chunks as nat,
            total_bytes,
            interrupted,
        ).counters);
        bar
    }

    /// Sets the counter of a range to the bytes downloaded for it so far.
    /// The value replaces the counter, so repeating a call changes nothing.
    pub fn update_chunk_bytes(&mut self, chunk_id: usize, bytes: usize)
        ensures
            final(self)@ == old(self)@.with_bytes(chunk_id as int, bytes),
            final(self)@.wf(),
    {
        if chunk_id < self.entries.len() {
            let state = self.entries[chunk_id].state;
            self.entries.set(chunk_id, ChunkEntry { state, bytes });
            assert(self@.states =~= old(self)@.states);
            assert(self@.counters =~= old(self)@.counters.update(chunk_id as int, bytes));
        }
    }

    /// Sets the state of a range; the last writer wins.
    pub fn set_chunk_state(&mut self, chunk_id: usize, state: ChunkState)
        ensures
            final(self)@ == old(self)@.with_state(chunk_id as int, state),
            final(self)@.wf(),
    {
        if chunk_id < self.entries.len() {
            let bytes = self.entries[chunk_id].bytes;
            self.entries.set(chunk_id, ChunkEntry { state, bytes });
            assert(self@.states =~= old(self)@.states.update(chunk_id as int, state));
            assert(self@.counters =~= old(self)@.counters);
        }
    }

    /// Sets the size of the resource once it is known.
    pub fn set_total_bytes(&mut self, total_bytes: u64)
        ensures
            final(self)@ == (ProgressView { total_bytes, ..old(self)@ }),
            final(self)@.wf(),
    {
        self.total_bytes = total_bytes;
    }

    /// Records that cancellation was asked for. Nothing clears the flag.
    pub fn interrupt(&mut self)
        ensures
            final(self)@ == old(self)@.cancelled(),
            final(self)@.wf(),
    {
        self.interrupted = true;
    }

    /// Bytes downloaded over all ranges, or `None` when the sum does not fit.
    pub fn checked_total_downloaded(&self) -> (total: Option<usize>)
        ensures
            total matches Some(t) ==> t == self@.total_downloaded(),
            total is None <==> self@.total_downloaded() > usize::MAX,
    {
        let ghost counters = self@.counters;
        let mut sum: usize = 0;
        let mut i: usize = 0;
        while i < self.entries.len()
            invariant
                counters == self@.counters,
                counters.len() == self.entries@.len(),
                i <= counters.len(),
                sum == total_of(counters.take(i as int)),
            decreases counters.len() - i,
        {
            proof {
                assert(counters.take(i + 1).drop_last() =~= counters.take(i as int));
                assert(counters.take(i + 1).last() == self.entries@[i as int].bytes);
                lemma_total_of_prefix(counters, i + 1);
            }
            match sum.checked_add(self.entries[i].bytes) {
                Some(s) => {
                    sum = s;
                },
                None => {
                    return None;
                },
            }
            i = i + 1;
        }
        assert(counters.take(i as int) =~= counters);
        Some(sum)
    }

    /// One indicator for each range, in range order, between square
    /// brackets.
    pub fn render_chunks(&self) -> (out: String)
        ensures
            shows_states(out@, self@.states),
    {
        let mut pieces: Vec<String> = Vec::new();
        let mut i: usize = 0;
        while i < self.entries.len()
            invariant
                i <= self.entries@.len(),
                pieces@.len() == i,
                forall|k: int|
                    0 <= k < i ==> painted_as(
                        #[trigger] pieces@[k]@,
                        self.entries@[k].state.glyph(),
                        self.entries@[k].state.tint(),
                    ),
            decreases self.entries@.len() - i,
        {
            let (glyph, tint) = self.entries[i].state.indicator();
            let piece = paint(glyph, tint);
            pieces.push(piece);
            i = i + 1;
        }
        let out = assemble_chunks(&pieces);
        proof {
            let shown = texts(pieces@);
            assert(shown.len() == self@.states.len());
            assert forall|k: int| 0 <= k < self@.states.len() implies painted_as(
                #[trigger] shown[k],
                self@.states[k].glyph(),
                self@.states[k].tint(),
            ) by {
                assert(shown[k] == pieces@[k]@);
            }
            assert(out@ == bracketed(shown));
        }
        out
    }

    /// Number of ranges.
    pub fn num_chunks(&self) -> (n: usize)
        ensures
            n == self@.len(),
            self@.wf(),
    {
        self.entries.len()
    }

    /// The state of a range, if there is such a range.
    pub fn chunk_state(&self, chunk_id: usize) -> (state: Option<ChunkState>)
        ensures
            state == if chunk_id < self@.states.len() {
                Some(self@.states[chunk_id as int])
            } else {
                None
            },
    {
        if chunk_id < self.entries.len() {
            Some(self.entries[chunk_id].state)
        } else {
            None
        }
    }

    /// The counter of a range, if there is such a range.
    pub fn chunk_bytes(&self, chunk_id: usize) -> (bytes: Option<usize>)
        ensures
            bytes == if chunk_id < self@.counters.len() {
                Some(self@.counters[chunk_id as int])
            } else {
                None
            },
    {
        if chunk_id < self.entries.len() {
            Some(self.entries[chunk_id].bytes)
        } else {
            None
        }
    }

    /// Size of the resource, zero while unknown.
    pub fn total_bytes(&self) -> (n: u64)
        ensures
            n == self@.total_bytes,
    {
        self.total_bytes
    }

    /// Bytes downloaded over all ranges.
    pub fn get_total_downloaded(&self) -> (total: usize)
        requires
            self@.total_downloaded() <= usize::MAX,
        ensures
            total == self@.total_downloaded(),
    {
        match self.checked_total_downloaded() {
            Some(t) => t,
            None => 0,
        }
    }
}

/// What every kind of progress offers to the code that shows it.
pub trait ProgressTracker {
    /// Whether cancellation was asked for.
    spec fn flagged(&self) -> bool;

    /// Whether the progress can be written as a line.
    spec fn renderable(&self) -> bool;

    /// Whether `out` is the progress line after `elapsed_secs` seconds.
    spec fn rendered(&self, elapsed_secs: u64, out: Seq<char>) -> bool;

    /// Whether cancellation was asked for.
    fn interrupted(&self) -> (b: bool)
        ensures
            b == self.flagged(),
    ;

    /// Whether the progress can be written as a line.
    fn can_render(&self) -> (b: bool)
        ensures
            b == self.renderable(),
    ;

    /// The progress line after `elapsed_secs` seconds.
    fn render(&self, elapsed_secs: u64) -> (out: String)
        requires
            self.renderable(),
        ensures
            self.rendered(elapsed_secs, out@),
    ;
}

impl ProgressTracker for ChunkProgressBar {
    open spec fn flagged(&self) -> bool {
        self@.interrupted
    }

    open spec fn renderable(&self) -> bool {
        self@.total_downloaded() <= usize::MAX
    }

    /// The line shows the indicators of the ranges, the bytes downloaded
    /// over all ranges, the size of the resource and the throughput.
    open spec fn rendered(&self, elapsed_secs: u64, out: Seq<char>) -> bool {
        exists|indicators: Seq<char>|
            #![trigger shows_states(indicators, self@.states)]
            shows_states(indicators, self@.states) && out == progress_line(
                indicators,
                human_bytes_text(self@.total_downloaded() as u64),
                human_bytes_text(self@.total_bytes),
                human_bytes_text(throughput(self@.total_downloaded(), elapsed_secs as int) as u64),
            )
    }

    fn interrupted(&self) -> (b: bool) {
        self.interrupted
    }

    fn can_render(&self) -> (b: bool) {
        self.checked_total_downloaded().is_some()
    }

    fn render(&self, elapsed_secs: u64) -> (out: String) {
        let total: u64 = self.get_total_downloaded() as u64;
        let elapsed: u64 = if elapsed_secs < 1 {
            1
        } else {
            elapsed_secs
        };
        let speed: u64 = total / elapsed;
        let indicators = self.render_chunks();
        let downloaded_text = human_bytes(total);
        let total_text = human_bytes(self.total_bytes);
        let speed_text = human_bytes(speed);
        let out = render_line(
            indicators.as_str(),
            downloaded_text.as_str(),
            total_text.as_str(),
            speed_text.as_str(),
        );
        assert(shows_states(indicators@, self@.states));
        out
    }
}

/// Progress of a download in a single stream.
#[derive(Clone, Copy, Debug, PartialEq, Eq, Structural)]
pub struct DownloadProgress {
    /// Bytes downloaded so far.
    pub bytes_downloaded: usize,
    /// Size of the resource, zero while unknown.
    pub total_bytes: u64,
    /// Whether cancellation was asked for.
    pub interrupted: bool,
}

/// The progress message of a single stream. The size of the resource is
/// shown once it is known.
pub open spec fn transfer_line(
    downloaded: Seq<char>,
    total: Option<Seq<char>>,
    speed: Seq<char>,
) -> Seq<char> {
    match total {
        Some(t) => "Downloaded: "@ + downloaded + "/"@ + t + " @ "@ + speed + "/s"@,
        None => "Downloaded: "@ + downloaded + " @ "@ + speed + "/s"@,
    }
}

/// Writes the progress message of a single stream from its parts.
pub fn transfer_message(downloaded: &str, total: Option<&str>, speed: &str) -> (out: String)
    ensures
        out@ == transfer_line(
            downloaded@,
            match total {
                Some(t) => Some(t@),
                None => None,
            },
            speed@,
        ),
{
    let mut out = String::from_str("Downloaded: ");
    out.append(downloaded);
    match total {
        Some(t) => {
            out.append("/");
            out.append(t);
        },
        None => {},
    }
    out.append(" @ ");
    out.append(speed);
    out.append("/s");
    out
}

impl DownloadProgress {
    /// Progress of a download that has not begun: nothing downloaded, the
    /// size unknown.
    pub fn new(interrupted: bool) -> (progress: Self)
        ensures
            progress == (DownloadProgress { bytes_downloaded: 0, total_bytes: 0, interrupted }),
    {
        DownloadProgress { bytes_downloaded: 0, total_bytes: 0, interrupted }
    }

    /// Sets the bytes downloaded so far.
    pub fn update_progress(&mut self, bytes: usize)
        ensures
            *final(self) == (DownloadProgress { bytes_downloaded: bytes, ..*old(self) }),
    {
        self.bytes_downloaded = bytes;
    }
}

impl ProgressTracker for DownloadProgress {
    open spec fn flagged(&self) -> bool {
        self.interrupted
    }

    open spec fn renderable(&self) -> bool {
        true
    }

    /// The line shows the bytes downloaded, the size of the resource once
    /// it is known, and the throughput.
    open spec fn rendered(&self, elapsed_secs: u64, out: Seq<char>) -> bool {
        out == transfer_line(
            human_bytes_text(self.bytes_downloaded as u64),
            if self.total_bytes > 0 {
                Some(human_bytes_text(self.total_bytes))
            } else {
                None
            },
            human_bytes_text(throughput(self.bytes_downloaded as int, elapsed_secs as int) as u64),
        )
    }

    fn interrupted(&self) -> (b: bool) {
        self.interrupted
    }

    fn can_render(&self) -> (b: bool) {
        true
    }

    fn render(&self, elapsed_secs: u64) -> (out: String) {
        let downloaded: u64 = self.bytes_downloaded as u64;
        let elapsed: u64 = if elapsed_secs < 1 {
            1
        } else {
            elapsed_secs
        };
        let speed: u64 = downloaded / elapsed;
        let downloaded_text = human_bytes(downloaded);
        let speed_text = human_bytes(speed);
        if self.total_bytes > 0 {
            let total_text = human_bytes(self.total_bytes);
            transfer_message(
                downloaded_text.as_str(),
                Some(total_text.as_str()),
                speed_text.as_str(),
            )
        } else {
            transfer_message(downloaded_text.as_str(), None, speed_text.as_str())
        }
    }
}

} // verus!
