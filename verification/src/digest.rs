//! Copying a download to disk while computing its MD5 checksum, and
//! checking that checksum against the one the index announces.

use crypto::digest::Digest;
use crypto::md5::Md5;
use vstd::prelude::*;
use crate::text::str_eq;

verus! {

#[verifier::external_type_specification]
#[verifier::external_body]
pub struct ExMd5(Md5);

/// The bytes that an MD5 hasher of the `crypto` crate has been fed since it
/// was created: what the hasher holds, as far as its result goes.
pub uninterp spec fn md5_absorbed(h: Md5) -> Seq<u8>;

/// Whether the result of an MD5 hasher of the `crypto` crate has been taken:
/// its `finished` field. A finished hasher panics when fed more bytes.
pub uninterp spec fn md5_finished(h: Md5) -> bool;

/// The MD5 digest of `data` in lowercase hexadecimal, as `Digest::result_str`
/// of the `crypto` crate writes it.
pub uninterp spec fn md5_hex(data: Seq<u8>) -> Seq<char>;

/// A lowercase hexadecimal digit.
pub open spec fn is_lower_hex_digit(c: char) -> bool {
    ('0' <= c && c <= '9') || ('a' <= c && c <= 'f')
}

/// `crypto::md5::Md5::new`: a hasher that has been fed nothing.
#[verifier::external_body]
fn md5_new() -> (h: Md5)
    ensures
        md5_absorbed(h) == Seq::<u8>::empty(),
        !md5_finished(h),
{
    Md5::new()
}

/// `Digest::input` of `crypto::md5::Md5`: the hasher is fed `data` after
/// what it had, and stays open. The hasher panics when its result was taken
/// already, and counts the bytes in a `u64` whose overflow panics, hence the
/// two bounds.
#[verifier::external_body]
fn md5_input(h: &mut Md5, data: &[u8])
    requires
        !md5_finished(*old(h)),
        md5_absorbed(*old(h)).len() + data@.len() <= u64::MAX,
    ensures
        md5_absorbed(*final(h)) == md5_absorbed(*old(h)) + data@,
        !md5_finished(*final(h)),
{
    h.input(data)
}

/// `Digest::result_str` of `crypto::md5::Md5`, taken on a copy of the hasher
/// so that `h` itself stays open: the digest of what `h` was fed, as 32
/// lowercase hexadecimal digits (16 bytes, each written as two digits).
#[verifier::external_body]
fn md5_result_str(h: &Md5) -> (s: String)
    ensures
        s@ == md5_hex(md5_absorbed(*h)),
        s@.len() == 32,
        forall|i: int| 0 <= i < s@.len() ==> is_lower_hex_digit(#[trigger] s@[i]),
{
    let mut finished: Md5 = *h;
    finished.result_str()
}

/// What a read from the download gave.
pub enum ReadEvent {
    /// Some bytes, already written to the target file.
    Chunk(Vec<u8>),
    /// The read was interrupted before it gave anything.
    Interrupted,
    /// The download is over.
    EndOfStream,
}

/// What the copy does after a read.
pub enum CopyAction {
    /// Report that this many bytes have been copied, then read on.
    Report(u64),
    /// Read again.
    Retry,
    /// The copy is done: this many bytes, with this MD5 checksum.
    Finished(u64, String),
}

/// A copy in progress: how many bytes have been written, and the checksum
/// of those bytes so far.
pub struct CopyProgress {
    written: u64,
    hasher: Md5,
}

impl CopyProgress {
    /// The bytes copied so far, in order.
    pub closed spec fn bytes(self) -> Seq<u8> {
        md5_absorbed(self.hasher)
    }

    /// The byte count matches the bytes fed to the checksum, and the
    /// checksum is still open.
    pub closed spec fn wf(self) -> bool {
        &&& self.written as int == md5_absorbed(self.hasher).len()
        &&& !md5_finished(self.hasher)
    }

    /// A copy that has not copied anything yet.
    pub fn new() -> (c: CopyProgress)
        ensures
            c.wf(),
            c.bytes() == Seq::<u8>::empty(),
    {
        CopyProgress { written: 0, hasher: md5_new() }
    }

    /// How many bytes have been copied.
    pub fn written(&self) -> (n: u64)
        requires
            self.wf(),
        ensures
            n == self.bytes().len(),
    {
        self.written
    }

    /// Takes the outcome of one read: bytes are counted and fed to the
    /// checksum, and the new count is reported; an interrupted read is
    /// retried; the end of the download gives the count and the checksum of
    /// everything copied.
    pub fn step(&mut self, event: ReadEvent) -> (action: CopyAction)
        requires
            old(self).wf(),
            event matches ReadEvent::Chunk(chunk) ==> old(self).bytes().len() + chunk@.len() <= u64::MAX,
        ensures
            final(self).wf(),
            match event {
                ReadEvent::Chunk(chunk) => {
                    &&& final(self).bytes() == old(self).bytes() + chunk@
                    &&& action == CopyAction::Report(final(self).bytes().len() as u64)
                },
                ReadEvent::Interrupted => {
                    &&& final(self).bytes() == old(self).bytes()
                    &&& action == CopyAction::Retry
                },
                ReadEvent::EndOfStream => {
                    &&& final(self).bytes() == old(self).bytes()
                    &&& action matches CopyAction::Finished(n, md5) && n == old(self).bytes().len()
                        && md5@ == md5_hex(old(self).bytes()) && md5@.len() == 32
                        && forall|i: int| 0 <= i < md5@.len() ==> is_lower_hex_digit(#[trigger] md5@[i])
                },
            },
    {
        match event {
            ReadEvent::Chunk(chunk) => {
                md5_input(&mut self.hasher, chunk.as_slice());
                self.written = self.written + chunk.len() as u64;
                CopyAction::Report(self.written)
            },
            ReadEvent::Interrupted => CopyAction::Retry,
            ReadEvent::EndOfStream => CopyAction::Finished(self.written, md5_result_str(&self.hasher)),
        }
    }
}

/// The message of a download whose checksum is not the announced one.
pub open spec fn md5_mismatch_message(expected: Seq<char>, actual: Seq<char>) -> Seq<char> {
    "Md5 mismatch: expecting "@ + expected + " got "@ + actual
}

/// A download with checksum `actual` is accepted when no checksum was
/// announced or the announced one is `actual`; otherwise it is refused with
/// a message that names both.
pub fn check_md5(expected: Option<&str>, actual: &str) -> (r: Result<(), String>)
    ensures
        match expected {
            Some(e) => if e@ == actual@ {
                r is Ok
            } else {
                r matches Err(msg) && msg@ == md5_mismatch_message(e@, actual@)
            },
            None => r is Ok,
        },
{
    match expected {
        Some(e) => {
            if str_eq(e, actual) {
                Ok(())
            } else {
                let mut msg = String::from_str("Md5 mismatch: expecting ");
                msg.append(e);
                msg.append(" got ");
                msg.append(actual);
                Err(msg)
            }
        },
        None => Ok(()),
    }
}

} // verus!
