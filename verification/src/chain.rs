//! Reply defragmentation: a reply that does not fit in one transmission
//! arrives across several exchanges, each trailed by a status word. The
//! decisions live here; the caller owns the transport and performs one
//! exchange per continuation request.

use vstd::prelude::*;

use crate::error::Error;
use crate::status::{spec_status, status, Status};

verus! {

/// The status word of one transmission: its last two bytes, most-significant
/// byte first.
pub open spec fn spec_status_word(reply: Seq<u8>) -> u16
    recommends
        reply.len() >= 2,
{
    (reply[reply.len() - 2] as int * 256 + reply[reply.len() - 1] as int) as u16
}

/// The data bytes of one transmission: everything before the status word.
pub open spec fn spec_reply_data(reply: Seq<u8>) -> Seq<u8>
    recommends
        reply.len() >= 2,
{
    reply.take(reply.len() - 2)
}

/// Consumes the reply of one exchange: strips and classifies its status
/// word, and on success appends the data bytes to the running buffer.
/// Returns whether a continuation exchange must be issued; on an error the
/// buffer is left unchanged and the operation is aborted.
pub fn chain_step(acc: &mut Vec<u8>, reply: &[u8]) -> (r: Result<bool, Error>)
    ensures
        reply@.len() < 2 ==> r == Err::<bool, Error>(Error::InsufficientData) && final(acc)@
            == old(acc)@,
        reply@.len() >= 2 ==> match spec_status(spec_status_word(reply@)) {
            Ok(st) => r == Ok::<bool, Error>(st is MoreData) && final(acc)@ == old(acc)@
                + spec_reply_data(reply@),
            Err(e) => r == Err::<bool, Error>(e) && final(acc)@ == old(acc)@,
        },
{
    if reply.len() < 2 {
        return Err(Error::InsufficientData);
    }
    let word = (reply[reply.len() - 2] as u16) * 256 + (reply[reply.len() - 1] as u16);
    assert(word == spec_status_word(reply@));
    match status(word) {
        Err(e) => Err(e),
        Ok(st) => {
            let mut i: usize = 0;
            while i < reply.len() - 2
                invariant
                    reply@.len() >= 2,
                    i <= reply@.len() - 2,
                    acc@ == old(acc)@ + reply@.take(i as int),
                decreases reply@.len() - 2 - i,
            {
                acc.push(reply[i]);
                proof {
                    assert(acc@ =~= old(acc)@ + reply@.take(i + 1 as int));
                }
                i += 1;
            }
            match st {
                Status::Success => Ok(false),
                Status::MoreData => Ok(true),
            }
        },
    }
}

/// The views of a sequence of owned reply buffers.
pub open spec fn reply_views(replies: Seq<Vec<u8>>) -> Seq<Seq<u8>> {
    replies.map_values(|v: Vec<u8>| v@)
}

/// What assembling a logical reply from the transmissions `replies` yields
/// when they arrive in that order: the concatenation of the data bytes of
/// every transmission up to and including the first one with a terminal
/// status word, paired with how many exchanges were consumed; or the first
/// error. Running out of transmissions while more data is promised is a
/// buffer underrun.
pub open spec fn spec_chain(replies: Seq<Seq<u8>>, acc: Seq<u8>) -> Result<(Seq<u8>, int), Error>
    decreases replies.len(),
{
    if replies.len() == 0 {
        Err(Error::InsufficientData)
    } else {
        let reply = replies[0];
        if reply.len() < 2 {
            Err(Error::InsufficientData)
        } else {
            match spec_status(spec_status_word(reply)) {
                Ok(Status::Success) => Ok((acc + spec_reply_data(reply), 1)),
                Ok(Status::MoreData) => match spec_chain(
                    replies.skip(1),
                    acc + spec_reply_data(reply),
                ) {
                    Ok(p) => Ok((p.0, p.1 + 1)),
                    Err(e) => Err(e),
                },
                Err(e) => Err(e),
            }
        }
    }
}

/// `spec_chain` with `k` exchanges already behind it.
spec fn spec_chain_shifted(r: Result<(Seq<u8>, int), Error>, k: int) -> Result<
    (Seq<u8>, int),
    Error,
> {
    match r {
        Ok(p) => Ok((p.0, p.1 + k)),
        Err(e) => Err(e),
    }
}

/// Assembles one logical reply from the transmissions `replies`, in order:
/// the eager form of the chained transmitter, for callers that already hold
/// every transmission. Returns the concatenated data bytes and the number of
/// exchanges consumed.
pub fn assemble(replies: &Vec<Vec<u8>>) -> (r: Result<(Vec<u8>, usize), Error>)
    ensures
        match spec_chain(reply_views(replies@), Seq::empty()) {
            Ok(p) => r matches Ok(q) && q.0@ == p.0 && q.1 as int == p.1,
            Err(e) => r matches Err(e2) && e2 == e,
        },
{
    let ghost dv = reply_views(replies@);
    let mut acc: Vec<u8> = Vec::new();
    let mut i: usize = 0;
    proof {
        assert(dv.skip(0) =~= dv);
        match spec_chain(dv, Seq::<u8>::empty()) {
            Ok(p) => {
                assert(p == (p.0, p.1));
                assert(spec_chain_shifted(spec_chain(dv, Seq::<u8>::empty()), 0) == Ok::<
                    _,
                    Error,
                >((p.0, p.1)));
            },
            Err(e) => {},
        }
    }
    loop
        invariant
            i <= replies@.len(),
            dv == reply_views(replies@),
            spec_chain(dv, Seq::empty()) == spec_chain_shifted(
                spec_chain(dv.skip(i as int), acc@),
                i as int,
            ),
        decreases replies@.len() - i,
    {
        if i == replies.len() {
            assert(dv.skip(i as int).len() == 0);
            return Err(Error::InsufficientData);
        }
        assert(dv.skip(i as int)[0] == replies@[i as int]@);
        let step = chain_step(&mut acc, replies[i].as_slice());
        match step {
            Err(e) => {
                return Err(e);
            },
            Ok(more) => {
                i += 1;
                if !more {
                    return Ok((acc, i));
                }
                proof {
                    assert(dv.skip(i - 1 as int).skip(1) =~= dv.skip(i as int));
                }
            },
        }
    }
}

/// Chaining issues exactly one continuation exchange per leading "more
/// data" status word, in order, and terminates at the first transmission
/// whose status word is not of the form 0x61XX: when the transmissions up to
/// index `k` all signal more data and transmission `k` carries a terminal
/// word, exactly `k + 1` exchanges are consumed and the outcome is decided
/// by that terminal word alone.
pub proof fn lemma_chain_counts_continuations(replies: Seq<Seq<u8>>, acc: Seq<u8>, k: int)
    requires
        0 <= k < replies.len(),
        forall|i: int|
            0 <= i < k ==> (#[trigger] replies[i]).len() >= 2 && spec_status(
                spec_status_word(replies[i]),
            ) == Ok::<Status, Error>(Status::MoreData),
        replies[k].len() >= 2,
        spec_status(spec_status_word(replies[k])) != Ok::<Status, Error>(Status::MoreData),
    ensures
        match spec_chain(replies, acc) {
            Ok(p) => p.1 == k + 1 && spec_status(spec_status_word(replies[k])) == Ok::<
                Status,
                Error,
            >(Status::Success),
            Err(e) => spec_status(spec_status_word(replies[k])) == Err::<Status, Error>(e),
        },
    decreases k,
{
    if k == 0 {
        match spec_status(spec_status_word(replies[0])) {
            Ok(st) => {
                assert(st is Success);
            },
            Err(e) => {},
        }
    } else {
        assert(replies[0].len() >= 2 && spec_status(spec_status_word(replies[0])) == Ok::<
            Status,
            Error,
        >(Status::MoreData));
        let rest = replies.skip(1);
        assert(rest[k - 1] == replies[k]);
        assert(forall|i: int|
            0 <= i < k - 1 ==> (#[trigger] rest[i]).len() >= 2 && spec_status(
                spec_status_word(rest[i]),
            ) == Ok::<Status, Error>(Status::MoreData)) by {
            assert(forall|i: int| 0 <= i < k - 1 ==> rest[i] == replies[i + 1]);
        }
        lemma_chain_counts_continuations(rest, acc + spec_reply_data(replies[0]), k - 1);
    }
}

} // verus!
