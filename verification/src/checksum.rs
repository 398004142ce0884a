//! Checksums of downloaded files: SHA-256 over the bytes, written in hex.

use vstd::prelude::*;
use vstd::string::StringExecFns;

verus! {

/// The SHA-256 digest of a sequence of bytes.
pub uninterp spec fn sha256_digest(data: Seq<u8>) -> Seq<u8>;

/// The bytes that a hasher has taken so far, in the order it took them.
pub uninterp spec fn absorbed(hasher: Sha256Stream) -> Seq<u8>;

/// A SHA-256 computation in progress: the state of `sha2::Sha256`.
///
/// Trusted: the state is hidden. What is known of it is the sequence of
/// bytes that it took, which `absorbed` names.
#[verifier::external_body]
pub struct Sha256Stream {
    state: sha2::Sha256,
}

impl View for Sha256Stream {
    type V = Seq<u8>;

    open spec fn view(&self) -> Seq<u8> {
        absorbed(*self)
    }
}

/// Starts a hasher with `sha2::Digest::new`.
///
/// Trusted: a new hasher has taken no bytes.
#[verifier::external_body]
fn start() -> (hasher: Sha256Stream)
    ensures
        absorbed(hasher) == Seq::<u8>::empty(),
{
    Sha256Stream { state: sha2::Digest::new() }
}

/// Feeds bytes to a hasher with `sha2::Digest::update`.
///
/// Trusted: the bytes are added behind those taken before.
#[verifier::external_body]
fn feed(hasher: &mut Sha256Stream, data: &[u8])
    ensures
        absorbed(*final(hasher)) == absorbed(*old(hasher)) + data@,
{
    sha2::Digest::update(&mut hasher.state, data)
}

/// Ends a hasher with `sha2::Digest::finalize` and takes the digest as an
/// array.
///
/// Trusted: the digest is that of the bytes taken, and depends on them
/// alone.
#[verifier::external_body]
fn finalize(hasher: Sha256Stream) -> (digest: [u8; 32])
    ensures
        digest@ == sha256_digest(absorbed(hasher)),
{
    sha2::Digest::finalize(hasher.state).into()
}

/// The character for four bits, in lower case.
pub open spec fn hex_digit(nibble: int) -> char {
    if nibble == 0 {
        '0'
    } else if nibble == 1 {
        '1'
    } else if nibble == 2 {
        '2'
    } else if nibble == 3 {
        '3'
    } else if nibble == 4 {
        '4'
    } else if nibble == 5 {
        '5'
    } else if nibble == 6 {
        '6'
    } else if nibble == 7 {
        '7'
    } else if nibble == 8 {
        '8'
    } else if nibble == 9 {
        '9'
    } else if nibble == 10 {
        'a'
    } else if nibble == 11 {
        'b'
    } else if nibble == 12 {
        'c'
    } else if nibble == 13 {
        'd'
    } else if nibble == 14 {
        'e'
    } else {
        'f'
    }
}

/// Bytes written in hex: two characters for each byte, the high four bits
/// first.
pub open spec fn hex_text(data: Seq<u8>) -> Seq<char> {
    Seq::new(
        2 * data.len(),
        |i: int|
            if i % 2 == 0 {
                hex_digit(data[i / 2] as int / 16)
            } else {
                hex_digit(data[i / 2] as int % 16)
            },
    )
}

/// Writes bytes in hex with `hex::encode`.
///
/// Trusted: the crate writes two lower-case hex digits for each byte, the
/// high four bits first.
#[verifier::external_body]
fn hex_encode(data: &[u8]) -> (text: String)
    ensures
        text@ == hex_text(data@),
{
    hex::encode(data)
}

impl Sha256Stream {
    /// A hasher that has taken nothing.
    pub fn new() -> (hasher: Self)
        ensures
            hasher@ == Seq::<u8>::empty(),
    {
        start()
    }

    /// Takes what one read brought, the first `bytes_read` bytes of
    /// `buffer`, and says whether there is more to read: a read that brings
    /// nothing is the end of the file.
    pub fn absorb(&mut self, buffer: &[u8], bytes_read: usize) -> (more: bool)
        requires
            bytes_read <= buffer@.len(),
        ensures
            final(self)@ == old(self)@ + buffer@.take(bytes_read as int),
            more == (bytes_read > 0),
    {
        if bytes_read == 0 {
            assert(buffer@.take(0) =~= Seq::<u8>::empty());
            assert(self@ + Seq::<u8>::empty() =~= self@);
            false
        } else {
            let read = vstd::slice::slice_subrange(buffer, 0, bytes_read);
            feed(self, read);
            assert(buffer@.subrange(0, bytes_read as int) =~= buffer@.take(bytes_read as int));
            true
        }
    }

    /// The digest of all the bytes taken.
    pub fn finish(self) -> (digest: [u8; 32])
        ensures
            digest@ == sha256_digest(self@),
    {
        finalize(self)
    }
}

/// The line that reports a checksum.
pub open spec fn checksum_text(digest: Seq<u8>) -> Seq<char> {
    "SHA256: "@ + hex_text(digest)
}

/// Writes the line that reports a checksum.
pub fn checksum_line(digest: &[u8; 32]) -> (line: String)
    ensures
        line@ == checksum_text(digest@),
{
    let mut line = String::from_str("SHA256: ");
    line.append(hex_encode(digest.as_slice()).as_str());
    line
}

} // verus!
