//! The byte-stream interface that higher layers are written against.

use vstd::prelude::*;

verus! {

/// What a read of up to `len` bytes may deliver: at most `len` bytes, or an
/// error.
pub open spec fn may_deliver<E>(len: usize, result: Result<Vec<u8>, E>) -> bool {
    result matches Ok(bytes) ==> bytes@.len() <= len
}

/// What a write of `buf` may report: that some part of it was accepted, or an
/// error.
pub open spec fn may_accept<E>(buf: Seq<u8>, result: Result<usize, E>) -> bool {
    result matches Ok(count) ==> count <= buf.len()
}

/// A connected, reliable, bidirectional byte stream.
///
/// This is the abstraction that lets higher layers stay agnostic about what
/// sits underneath: a plaintext connection and an encrypted one both present
/// the same read/write surface, so a layer written against `StreamSocket` works
/// over both without change.
///
/// Reads and writes are byte-oriented: there are no message boundaries, so a
/// single `read` may deliver fewer bytes than requested and a single `write`
/// may accept only part of the buffer (the count says how much). An empty read
/// is the end of the stream.
///
/// `R` and `W` are the types of the callbacks and `E` that of the errors. A
/// callback must be ready for whatever the stream may hand it, and a stream may
/// hand it nothing else.
///
/// Every method **must be called from the I/O thread**, and the implementor
/// must be kept alive until its callbacks fire.
pub trait StreamSocket<E, R, W>: Send + Sync where
    R: FnOnce(Result<Vec<u8>, E>) + Send,
    W: FnOnce(Result<usize, E>) + Send,
 {
    /// Read up to `len` bytes; the callback receives whatever arrived.
    fn read(&self, len: usize, cb: R)
        requires
            forall|result: Result<Vec<u8>, E>| #[trigger]
                may_deliver(len, result) ==> call_requires(cb, (result,)),
    ;

    /// Write `buf`; the callback receives the number of bytes accepted.
    fn write(&self, buf: Vec<u8>, cb: W)
        requires
            forall|result: Result<usize, E>| #[trigger]
                may_accept(buf@, result) ==> call_requires(cb, (result,)),
    ;

    /// Close the stream and cancel pending operations.
    fn disconnect(&self);
}

} // verus!
