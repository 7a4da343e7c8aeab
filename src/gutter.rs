//! The stream a value travels over, and an in-memory one.
use vstd::prelude::*;

verus! {

#[verifier::external_type_specification]
#[verifier::external_body]
pub struct ExIoError(std::io::Error);

/// Whether a write of `n` bytes fits in `room` (see [`Gutter::room`]).
pub open spec fn fits(room: Option<nat>, n: nat) -> bool {
    match room {
        Some(k) => n <= k,
        None => true,
    }
}

/// What is left of `room` after a write of `n` bytes that fits.
pub open spec fn less(room: Option<nat>, n: nat) -> Option<nat> {
    match room {
        Some(k) => Some((k - n) as nat),
        None => None,
    }
}

/// A blocking duplex byte stream.
///
/// Its model looks ahead: `pending` holds the bytes that reads will deliver,
/// in order, before the stream next fails or ends, and `room` how many bytes
/// writes will hand over before the next failure. With them a read or a write
/// succeeds exactly when the stream lets it.
pub trait Gutter {
    /// The bytes reads will deliver before the next failure or the end.
    ///
    /// Like `sent` and `room`, it has a default so that a stream written
    /// outside verified code can implement the trait; a verified one states
    /// its own, and the defaults describe a stream on which every read and
    /// every write of at least one byte fails.
    closed spec fn pending(&self) -> Seq<u8> {
        Seq::empty()
    }

    /// Every byte written so far, in order.
    closed spec fn sent(&self) -> Seq<u8> {
        Seq::empty()
    }

    /// How many more bytes writes hand over before a failure; `None` when
    /// none is ahead.
    closed spec fn room(&self) -> Option<nat> {
        Some(0)
    }

    /// Reads exactly `n` bytes, or fails when the stream fails or ends first.
    fn read_exact(&mut self, n: usize) -> (r: std::io::Result<Vec<u8>>)
        ensures
            r is Ok <==> n <= old(self).pending().len(),
            r is Ok ==> {
                &&& r->Ok_0@ == old(self).pending().take(n as int)
                &&& final(self).pending() == old(self).pending().skip(n as int)
                &&& final(self).room() == old(self).room()
            },
            final(self).sent() == old(self).sent(),
    ;

    /// Writes all of `bytes`; on failure, what was handed over stays sent.
    fn write_all(&mut self, bytes: &[u8]) -> (r: std::io::Result<()>)
        ensures
            r is Ok <==> fits(old(self).room(), bytes@.len()),
            r is Ok ==> {
                &&& final(self).sent() == old(self).sent() + bytes@
                &&& final(self).room() == less(old(self).room(), bytes@.len())
            },
            r is Err ==> final(self).sent() == old(self).sent() + bytes@.take(
                old(self).room()->0 as int,
            ),
            final(self).pending() == old(self).pending(),
    ;
}

/// Relies on `std::io::Error::from(ErrorKind::UnexpectedEof)`: the error of a
/// stream that ends before a read is complete.
#[verifier::external_body]
fn unexpected_eof() -> std::io::Error {
    std::io::Error::from(std::io::ErrorKind::UnexpectedEof)
}

/// Relies on `std::io::Error::from(ErrorKind::BrokenPipe)`: the error of a
/// write whose reader is gone.
#[verifier::external_body]
fn broken_pipe() -> std::io::Error {
    std::io::Error::from(std::io::ErrorKind::BrokenPipe)
}

/// One end of an in-memory duplex pipe.
///
/// What is written to it is kept; [`MemGutter::forward`] hands it to the
/// other end. Reading past what has arrived fails as an early end of stream;
/// once the other end is gone, every write of at least one byte fails.
pub struct MemGutter {
    inbox: Vec<u8>,
    outbox: Vec<u8>,
    peer_open: bool,
}

/// The bytes `s[from..to]`, in a vector.
fn copy_range(s: &Vec<u8>, from: usize, to: usize) -> (r: Vec<u8>)
    requires
        from <= to <= s@.len(),
    ensures
        r@ == s@.subrange(from as int, to as int),
{
    let mut r: Vec<u8> = Vec::with_capacity(to - from);
    let mut i: usize = from;
    while i < to
        invariant
            from <= i <= to <= s@.len(),
            r@ == s@.subrange(from as int, i as int),
        decreases to - i,
    {
        r.push(s[i]);
        i = i + 1;
        assert(r@ =~= s@.subrange(from as int, i as int));
    }
    r
}

impl MemGutter {
    /// A fresh end, with nothing to read and an open peer.
    pub fn new() -> (r: MemGutter)
        ensures
            r.pending() == Seq::<u8>::empty(),
            r.sent() == Seq::<u8>::empty(),
            r.room() == None::<nat>,
    {
        MemGutter { inbox: Vec::new(), outbox: Vec::new(), peer_open: true }
    }

    /// An end on which `bytes` have already arrived.
    pub fn with_incoming(bytes: Vec<u8>) -> (r: MemGutter)
        ensures
            r.pending() == bytes@,
            r.sent() == Seq::<u8>::empty(),
            r.room() == None::<nat>,
    {
        MemGutter { inbox: bytes, outbox: Vec::new(), peer_open: true }
    }

    /// Hands `peer` every byte written here from position `from` on, as if
    /// they had crossed the pipe.
    pub fn forward(&self, from: usize, peer: &mut MemGutter)
        requires
            from <= self.sent().len(),
        ensures
            final(peer).pending() == old(peer).pending() + self.sent().skip(from as int),
            final(peer).sent() == old(peer).sent(),
            final(peer).room() == old(peer).room(),
    {
        let mut i: usize = from;
        while i < self.outbox.len()
            invariant
                from <= i <= self.outbox@.len(),
                peer.inbox@ == old(peer).inbox@ + self.outbox@.subrange(from as int, i as int),
                peer.outbox@ == old(peer).outbox@,
                peer.peer_open == old(peer).peer_open,
            decreases self.outbox@.len() - i,
        {
            peer.inbox.push(self.outbox[i]);
            i = i + 1;
            assert(peer.inbox@ =~= old(peer).inbox@ + self.outbox@.subrange(from as int, i as int));
        }
        assert(self.outbox@.subrange(from as int, i as int) =~= self.sent().skip(from as int));
    }

    /// The other end goes away: every later write of at least one byte
    /// fails, while what has already arrived can still be read.
    pub fn lose_peer(&mut self)
        ensures
            final(self).room() == Some(0nat),
            final(self).pending() == old(self).pending(),
            final(self).sent() == old(self).sent(),
    {
        self.peer_open = false;
    }

    /// The number of bytes that have arrived and are not read yet.
    pub fn available(&self) -> (r: usize)
        ensures
            r == self.pending().len(),
    {
        self.inbox.len()
    }

    /// A copy of every byte written to this end.
    pub fn written(&self) -> (r: Vec<u8>)
        ensures
            r@ == self.sent(),
    {
        copy_range(&self.outbox, 0, self.outbox.len())
    }
}

impl Gutter for MemGutter {
    closed spec fn pending(&self) -> Seq<u8> {
        self.inbox@
    }

    closed spec fn sent(&self) -> Seq<u8> {
        self.outbox@
    }

    closed spec fn room(&self) -> Option<nat> {
        if self.peer_open {
            None
        } else {
            Some(0)
        }
    }

    fn read_exact(&mut self, n: usize) -> (r: std::io::Result<Vec<u8>>) {
        let len = self.inbox.len();
        if n > len {
            self.inbox = Vec::new();
            return Err(unexpected_eof());
        }
        let r = copy_range(&self.inbox, 0, n);
        let rest = copy_range(&self.inbox, n, len);
        assert(r@ =~= old(self).pending().take(n as int));
        assert(rest@ =~= old(self).pending().skip(n as int));
        self.inbox = rest;
        Ok(r)
    }

    fn write_all(&mut self, bytes: &[u8]) -> (r: std::io::Result<()>) {
        if !self.peer_open && bytes.len() > 0 {
            assert(bytes@.take(0) =~= Seq::<u8>::empty());
            assert(self.outbox@ =~= old(self).outbox@ + bytes@.take(0));
            return Err(broken_pipe());
        }
        let mut i: usize = 0;
        while i < bytes.len()
            invariant
                i <= bytes@.len(),
                self.outbox@ == old(self).outbox@ + bytes@.take(i as int),
                self.inbox@ == old(self).inbox@,
                self.peer_open == old(self).peer_open,
            decreases bytes@.len() - i,
        {
            self.outbox.push(bytes[i]);
            i = i + 1;
            assert(self.outbox@ =~= old(self).outbox@ + bytes@.take(i as int));
        }
        assert(bytes@.take(i as int) =~= bytes@);
        Ok(())
    }
}

} // verus!
