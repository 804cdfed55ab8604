//! Typed values on the data stack of a scheduler: each function encodes a
//! value and pushes the frame, or takes a frame and decodes it.

use crate::codec::decodes_to;
use crate::codec::from_bytes;
use crate::codec::to_bytes;
use crate::codec::cbor_encoding;
use crate::codec::CodecError;
use crate::codec::Payload;
use crate::error::Error;
use crate::scheduler::push_failure;
use crate::scheduler::Scheduler;
use crate::stack::ArenaModel;
use crate::stack::StackError;
use crate::stack::MAX_FRAME_LEN;
use vstd::pervasive::unreached;
use vstd::prelude::*;

verus! {

/// Pushes `frames` on the front stack of `m`, first frame first, and stops
/// at the first that the arena refuses, keeping what was pushed before it.
/// Gives the arena that results and the refusal, if there was one.
pub open spec fn frames_pushed(m: ArenaModel, frames: Seq<Seq<u8>>) -> (
    ArenaModel,
    Option<StackError>,
)
    decreases frames.len(),
{
    if frames.len() == 0 {
        (m, None)
    } else {
        match m.push_error(frames.first()) {
            Some(e) => (m, Some(e)),
            None => frames_pushed(m.push_front(frames.first()), frames.drop_first()),
        }
    }
}

/// The payloads of a list of frames.
pub open spec fn frame_views(frames: Seq<Vec<u8>>) -> Seq<Seq<u8>> {
    Seq::new(frames.len(), |i: int| frames[i]@)
}

/// Takes the newest value off the data stack and decodes it.
///
/// For call sites that know the frame to be there and to be a `T`.
pub fn decode<T: Payload>(scheduler: &mut Scheduler) -> (value: T)
    requires
        old(scheduler)@.front.len() > 0,
        exists|value: T| decodes_to(old(scheduler)@.front.last(), value),
    ensures
        decodes_to(old(scheduler)@.front.last(), value),
        final(scheduler)@ == old(scheduler)@.pop_front(),
{
    match scheduler.pop_data::<T>() {
        Ok(value) => value,
        Err(_) => unreached(),
    }
}

/// Takes the newest value off the data stack and decodes it. Where there is
/// no frame, or the frame is no `T`, the stack stays as it is.
pub fn try_decode<T: Payload>(scheduler: &mut Scheduler) -> (r: Result<T, CodecError>)
    ensures
        match r {
            Ok(value) => {
                &&& old(scheduler)@.front.len() > 0
                &&& decodes_to(old(scheduler)@.front.last(), value)
                &&& final(scheduler)@ == old(scheduler)@.pop_front()
            },
            Err(e) => {
                &&& *final(scheduler) == *old(scheduler)
                &&& if old(scheduler)@.front.len() == 0 {
                    e is EmptyStack
                } else {
                    e is DeserializationError && forall|value: T|
                        !#[trigger] decodes_to(old(scheduler)@.front.last(), value)
                }
            },
        },
{
    match peek::<T>(scheduler) {
        Ok(_) => Ok(decode(scheduler)),
        Err(e) => Err(e),
    }
}

/// Encodes a value and pushes it on the data stack.
///
/// For call sites that know the value to encode and the frame to fit.
pub fn encode<T: Payload>(scheduler: &mut Scheduler, value: T)
    requires
        push_failure(old(scheduler)@, value.datum()) is None,
    ensures
        final(scheduler)@ == old(scheduler)@.push_front(cbor_encoding(value.datum())->0),
{
    match scheduler.push_data(&value) {
        Ok(()) => {},
        Err(_) => unreached(),
    }
}

/// Encodes a value and pushes it on the data stack. A value that the
/// encoder refuses, or whose frame the arena has no room for, is reported
/// as a serialization error and leaves the stack as it is.
pub fn try_encode<T: Payload>(scheduler: &mut Scheduler, value: T) -> (r: Result<(), CodecError>)
    ensures
        match push_failure(old(scheduler)@, value.datum()) {
            None => r is Ok && final(scheduler)@ == old(scheduler)@.push_front(
                cbor_encoding(value.datum())->0,
            ),
            Some(_) => r matches Err(CodecError::SerializationError(_)) && *final(scheduler)
                == *old(scheduler),
        },
{
    let bytes = to_bytes(&value)?;
    if bytes.len() > MAX_FRAME_LEN {
        return Err(CodecError::SerializationError(StackError::DataTooLarge.message()));
    }
    if scheduler.available_capacity() <= bytes.len() {
        return Err(CodecError::SerializationError(StackError::InsufficientCapacity.message()));
    }
    encode(scheduler, value);
    Ok(())
}

/// Pushes frames that are encoded already, first frame first; stops at the
/// first that the arena refuses.
pub fn push_encoded(scheduler: &mut Scheduler, encoded_values: Vec<Vec<u8>>) -> (r: Result<
    (),
    Error,
>)
    ensures
        final(scheduler)@ == frames_pushed(old(scheduler)@, frame_views(encoded_values@)).0,
        match frames_pushed(old(scheduler)@, frame_views(encoded_values@)).1 {
            Some(e) => r == Err::<(), Error>(Error::StackCapacity(e)),
            None => r is Ok,
        },
{
    let ghost all = frame_views(encoded_values@);
    let mut i: usize = 0;
    assert(all.subrange(0, all.len() as int) =~= all);
    while i < encoded_values.len()
        invariant
            i <= encoded_values@.len(),
            all == frame_views(encoded_values@),
            frames_pushed(old(scheduler)@, all) == frames_pushed(
                scheduler@,
                all.subrange(i as int, all.len() as int),
            ),
        decreases encoded_values.len() - i,
    {
        let ghost rest = all.subrange(i as int, all.len() as int);
        assert(rest.first() == encoded_values@[i as int]@);
        assert(rest.drop_first() =~= all.subrange(i + 1, all.len() as int));
        match scheduler.push_frame(encoded_values[i].as_slice()) {
            Ok(()) => {},
            Err(e) => {
                return Err(e);
            },
        }
        i += 1;
    }
    assert(all.subrange(all.len() as int, all.len() as int) =~= Seq::<Seq<u8>>::empty());
    Ok(())
}

/// Decodes the newest value of the data stack and leaves it in place.
pub fn peek<T: Payload>(scheduler: &Scheduler) -> (r: Result<T, CodecError>)
    ensures
        match r {
            Ok(value) => scheduler@.front.len() > 0 && decodes_to(scheduler@.front.last(), value),
            Err(e) => if scheduler@.front.len() == 0 {
                e is EmptyStack
            } else {
                e is DeserializationError && forall|value: T|
                    !#[trigger] decodes_to(scheduler@.front.last(), value)
            },
        },
{
    let frame = match scheduler.peek_frame() {
        Ok(frame) => frame,
        Err(_) => {
            return Err(CodecError::EmptyStack);
        },
    };
    from_bytes::<T>(frame.as_slice())
}

} // verus!
