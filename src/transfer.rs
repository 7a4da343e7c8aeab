//! Sending and receiving logs, and the one-byte handshake.
//!
//! Every call blocks until its stream has done its part or failed, and hands
//! the stream's error back unchanged.
use crate::gutter::{fits, less, Gutter};
use crate::log::Log;
use vstd::prelude::*;

verus! {

/// The byte that [`hail`] writes.
pub const HAIL_BYTE: u8 = 0x0A;

/// Reads a value of type `T` from `gutter` into `buffer`: exactly as many
/// bytes as its image holds, in the sender's byte order.
///
/// It succeeds exactly when that many bytes come before the stream fails or
/// ends; a stream that delivers fewer, none included, gives an error.
pub fn pick_up<G: Gutter, T: Log>(gutter: &mut G, buffer: &mut T) -> (r: std::io::Result<()>)
    ensures
        r is Ok <==> T::width() <= old(gutter).pending().len(),
        r is Ok ==> {
            &&& final(buffer).image() == old(gutter).pending().take(T::width() as int)
            &&& final(gutter).pending() == old(gutter).pending().skip(T::width() as int)
            &&& final(gutter).room() == old(gutter).room()
        },
        r is Err ==> *final(buffer) == *old(buffer),
        final(gutter).sent() == old(gutter).sent(),
{
    match gutter.read_exact(T::byte_width()) {
        Ok(bytes) => {
            *buffer = T::from_bytes(bytes.as_slice());
            Ok(())
        },
        Err(e) => Err(e),
    }
}

/// Writes the image of `buffer` to `gutter`.
///
/// It succeeds exactly when the stream takes the whole image; on failure the
/// part it took stays sent.
pub fn throw<G: Gutter, T: Log>(gutter: &mut G, buffer: &T) -> (r: std::io::Result<()>)
    ensures
        r is Ok <==> fits(old(gutter).room(), T::width()),
        r is Ok ==> {
            &&& final(gutter).sent() == old(gutter).sent() + buffer.image()
            &&& final(gutter).room() == less(old(gutter).room(), T::width())
        },
        r is Err ==> final(gutter).sent() == old(gutter).sent() + buffer.image().take(
            old(gutter).room()->0 as int,
        ),
        final(gutter).pending() == old(gutter).pending(),
{
    proof {
        T::lemma_image(*buffer, *buffer);
    }
    let bytes = buffer.to_bytes();
    gutter.write_all(bytes.as_slice())
}

/// Writes the handshake byte to `gutter`.
pub fn hail<G: Gutter>(gutter: &mut G) -> (r: std::io::Result<()>)
    ensures
        r is Ok <==> fits(old(gutter).room(), 1),
        r is Ok ==> {
            &&& final(gutter).sent() == old(gutter).sent().push(HAIL_BYTE)
            &&& final(gutter).room() == less(old(gutter).room(), 1)
        },
        r is Err ==> final(gutter).sent() == old(gutter).sent(),
        final(gutter).pending() == old(gutter).pending(),
{
    let token: Vec<u8> = vec![HAIL_BYTE];
    let r = gutter.write_all(token.as_slice());
    assert(old(gutter).sent() + token@ =~= old(gutter).sent().push(HAIL_BYTE));
    assert(r is Err ==> old(gutter).sent() + token@.take(old(gutter).room()->0 as int)
        =~= old(gutter).sent());
    r
}

/// Reads one byte from `gutter` and drops it, whatever its value.
pub fn wait<G: Gutter>(gutter: &mut G) -> (r: std::io::Result<()>)
    ensures
        r is Ok <==> 1 <= old(gutter).pending().len(),
        r is Ok ==> {
            &&& final(gutter).pending() == old(gutter).pending().skip(1)
            &&& final(gutter).room() == old(gutter).room()
        },
        final(gutter).sent() == old(gutter).sent(),
{
    match gutter.read_exact(1) {
        Ok(_) => Ok(()),
        Err(e) => Err(e),
    }
}

/// [`pick_up`], then, only if it succeeded, [`hail`].
///
/// When the value cannot be read, nothing is written.
pub fn pick_up_and_hail<G: Gutter, T: Log>(
    gutter: &mut G,
    buffer: &mut T,
) -> (r: std::io::Result<()>)
    ensures
        r is Ok <==> T::width() <= old(gutter).pending().len() && fits(old(gutter).room(), 1),
        T::width() <= old(gutter).pending().len() ==> {
            &&& final(buffer).image() == old(gutter).pending().take(T::width() as int)
            &&& final(gutter).pending() == old(gutter).pending().skip(T::width() as int)
        },
        T::width() > old(gutter).pending().len() ==> *final(buffer) == *old(buffer),
        r is Ok ==> {
            &&& final(gutter).sent() == old(gutter).sent().push(HAIL_BYTE)
            &&& final(gutter).room() == less(old(gutter).room(), 1)
        },
        r is Err ==> final(gutter).sent() == old(gutter).sent(),
{
    match pick_up(gutter, buffer) {
        Ok(()) => hail(gutter),
        Err(e) => Err(e),
    }
}

/// [`throw`], then, only if it succeeded, [`wait`].
///
/// When the value cannot be written whole, nothing is read.
pub fn throw_and_wait<G: Gutter, T: Log>(gutter: &mut G, buffer: &T) -> (r: std::io::Result<()>)
    ensures
        r is Ok <==> fits(old(gutter).room(), T::width()) && 1 <= old(gutter).pending().len(),
        fits(old(gutter).room(), T::width()) ==> {
            &&& final(gutter).sent() == old(gutter).sent() + buffer.image()
        },
        !fits(old(gutter).room(), T::width()) ==> {
            &&& final(gutter).sent() == old(gutter).sent() + buffer.image().take(
                old(gutter).room()->0 as int,
            )
            &&& final(gutter).pending() == old(gutter).pending()
        },
        r is Ok ==> {
            &&& final(gutter).pending() == old(gutter).pending().skip(1)
            &&& final(gutter).room() == less(old(gutter).room(), T::width())
        },
{
    match throw(gutter, buffer) {
        Ok(()) => wait(gutter),
        Err(e) => Err(e),
    }
}

/// A value thrown into one end of a pipe is picked up at the other end bit
/// for bit the same.
///
/// `before` and `after` are the sending end around a successful [`throw`] of
/// `v`; the bytes it wrote in between lead what `receiver` reads. Then a
/// [`pick_up`] there succeeds, and gives back `v`.
pub proof fn lemma_round_trip<G: Gutter, H: Gutter, T: Log>(
    v: T,
    before: G,
    after: G,
    receiver: H,
)
    requires
        after.sent() == before.sent() + v.image(),
        after.sent().skip(before.sent().len() as int).is_prefix_of(receiver.pending()),
    ensures
        T::width() <= receiver.pending().len(),
        forall|out: T|
            #[trigger] out.image() == receiver.pending().take(T::width() as int) ==> out == v,
{
    T::lemma_image(v, v);
    assert(after.sent().skip(before.sent().len() as int) =~= v.image());
    assert(receiver.pending().take(T::width() as int) =~= v.image());
    assert forall|out: T| #[trigger]
        out.image() == receiver.pending().take(T::width() as int) implies out == v by {
        T::lemma_image(out, v);
    }
}

/// A successful [`hail`] on one end lets a [`wait`] on the other end succeed
/// once the byte has crossed.
///
/// `before` and `after` are the hailing end around the call; the byte it
/// wrote leads what `receiver` reads.
pub proof fn lemma_handshake<G: Gutter, H: Gutter>(before: G, after: G, receiver: H)
    requires
        after.sent() == before.sent().push(HAIL_BYTE),
        after.sent().skip(before.sent().len() as int).is_prefix_of(receiver.pending()),
    ensures
        1 <= receiver.pending().len(),
{
    assert(after.sent().skip(before.sent().len() as int) =~= seq![HAIL_BYTE]);
}

} // verus!
