//! The frames in which browser extensions and the shell exchange messages: four bytes
//! with the length, in the order of the machine, and the message.

use vstd::prelude::*;

use crate::platform::ByteOrder;
use crate::text;

verus! {

/// How long a message from an extension may be, and how much is read at once.
pub const MAX_INCOMING_DATA: usize = 10000;

/// The number that four bytes stand for, the lowest first.
pub open spec fn little(bytes: Seq<u8>) -> nat {
    (bytes[0] + 0x100 * bytes[1] + 0x1_0000 * bytes[2] + 0x100_0000 * bytes[3]) as nat
}

/// The length in the first four bytes of a frame.
pub open spec fn length_in(bytes: Seq<u8>, order: ByteOrder) -> nat {
    match order {
        ByteOrder::Little => little(bytes),
        ByteOrder::Big => little(seq![bytes[3], bytes[2], bytes[1], bytes[0]]),
    }
}

/// The four bytes of a length.
pub open spec fn length_bytes(length: nat, order: ByteOrder) -> Seq<u8> {
    let a = (length % 0x100) as u8;
    let b = (length / 0x100 % 0x100) as u8;
    let c = (length / 0x1_0000 % 0x100) as u8;
    let d = (length / 0x100_0000 % 0x100) as u8;
    match order {
        ByteOrder::Little => seq![a, b, c, d],
        ByteOrder::Big => seq![d, c, b, a],
    }
}

/// The frame of a message.
pub open spec fn framed(message: Seq<u8>, order: ByteOrder) -> Seq<u8> {
    length_bytes(message.len(), order) + message
}

/// The frame of a message.
pub fn frame(message: &Vec<u8>, order: ByteOrder) -> (r: Result<Vec<u8>, String>)
    ensures
        match r {
            Ok(bytes) => message@.len() <= u32::MAX && bytes@ == framed(message@, order),
            Err(e) => message@.len() > u32::MAX && e@ == "Browser extension response is too large"@,
        },
{
    if message.len() as u64 > u32::MAX as u64 {
        return Err("Browser extension response is too large".to_owned());
    }
    let length: u32 = message.len() as u32;
    let a: u8 = (length % 0x100) as u8;
    let b: u8 = (length / 0x100 % 0x100) as u8;
    let c: u8 = (length / 0x1_0000 % 0x100) as u8;
    let d: u8 = (length / 0x100_0000 % 0x100) as u8;
    let mut bytes: Vec<u8> = Vec::new();
    match order {
        ByteOrder::Little => {
            bytes.push(a);
            bytes.push(b);
            bytes.push(c);
            bytes.push(d);
        },
        ByteOrder::Big => {
            bytes.push(d);
            bytes.push(c);
            bytes.push(b);
            bytes.push(a);
        },
    }
    assert(bytes@ =~= length_bytes(message@.len(), order));
    let mut i: usize = 0;
    while i < message.len()
        invariant
            i <= message@.len(),
            bytes@ == length_bytes(message@.len(), order) + message@.take(i as int),
        decreases message@.len() - i,
    {
        bytes.push(message[i]);
        i += 1;
        assert(message@.take(i as int) =~= message@.take(i - 1).push(message@[i - 1]));
    }
    assert(message@.take(i as int) =~= message@);
    Ok(bytes)
}

/// What stands at the beginning of what was read.
pub enum Incoming {
    /// Not enough for a message.
    Incomplete,
    /// A message that is too long.
    TooLong,
    /// A message.
    Message(Seq<u8>),
}

/// What stands at the beginning of what was read.
pub open spec fn incoming(pending: Seq<u8>, order: ByteOrder) -> Incoming {
    if pending.len() < 4 {
        Incoming::Incomplete
    } else {
        let length = length_in(pending, order);
        if length > MAX_INCOMING_DATA {
            Incoming::TooLong
        } else if pending.len() < length + 4 {
            Incoming::Incomplete
        } else {
            Incoming::Message(pending.subrange(4, length as int + 4))
        }
    }
}

fn read_length(bytes: &Vec<u8>, order: ByteOrder) -> (r: u32)
    requires
        bytes@.len() >= 4,
    ensures
        r == length_in(bytes@, order),
{
    let (a, b, c, d) = match order {
        ByteOrder::Little => (bytes[0], bytes[1], bytes[2], bytes[3]),
        ByteOrder::Big => (bytes[3], bytes[2], bytes[1], bytes[0]),
    };
    a as u32 + 0x100 * b as u32 + 0x1_0000 * c as u32 + 0x100_0000 * d as u32
}

/// Takes the next message from what was read, if it is complete. A message that is too
/// long is refused as soon as its length is known.
pub fn read_message(pending: &mut Vec<u8>, order: ByteOrder) -> (r: Result<Option<Vec<u8>>, String>)
    ensures
        match incoming(old(pending)@, order) {
            Incoming::Incomplete => r == Ok::<Option<Vec<u8>>, String>(None) && final(pending)@
                == old(pending)@,
            Incoming::TooLong => r is Err && (r->Err_0)@
                == "Incoming browser extension frame exceeds 10000 bytes"@ && final(pending)@
                == old(pending)@,
            Incoming::Message(message) => {
                &&& r matches Ok(Some(bytes)) && bytes@ == message
                &&& final(pending)@ == old(pending)@.skip(message.len() as int + 4)
            },
        },
{
    if pending.len() < 4 {
        return Ok(None);
    }
    let length: usize = read_length(pending, order) as usize;
    if length > MAX_INCOMING_DATA {
        return Err("Incoming browser extension frame exceeds 10000 bytes".to_owned());
    }
    if pending.len() < length + 4 {
        return Ok(None);
    }
    let ghost all = pending@;
    let rest = pending.split_off(length + 4);
    let message = pending.split_off(4);
    assert(message@ =~= all.subrange(4, length + 4));
    *pending = rest;
    assert(pending@ =~= all.skip(length + 4));
    Ok(Some(message))
}

/// What came of reading from an extension.
pub enum ChunkRead {
    /// Bytes; none when it has hung up.
    Data(Vec<u8>),
    Failed(String),
}

/// Takes what was read.
pub fn read_chunk(pending: &mut Vec<u8>, read: ChunkRead) -> (r: Result<(), String>)
    ensures
        text::outcome(r) == match read {
            ChunkRead::Failed(message) => Err(message@),
            ChunkRead::Data(data) => if data@.len() == 0 {
                Err("Connection closed"@)
            } else if data@.len() > MAX_INCOMING_DATA {
                Err("Incoming browser extension chunk exceeds 10000 bytes"@)
            } else {
                Ok(())
            },
        },
        final(pending)@ == if r is Ok {
            old(pending)@ + read->Data_0@
        } else {
            old(pending)@
        },
{
    match read {
        ChunkRead::Failed(message) => Err(message),
        ChunkRead::Data(data) => {
            if data.len() == 0 {
                return Err("Connection closed".to_owned());
            }
            if data.len() > MAX_INCOMING_DATA {
                return Err("Incoming browser extension chunk exceeds 10000 bytes".to_owned());
            }
            let mut data = data;
            pending.append(&mut data);
            Ok(())
        },
    }
}

// ---------------------------------------------------------------------------
// Laws
// ---------------------------------------------------------------------------

/// The length of a frame can be read back, whatever follows it.
pub proof fn law_length_round_trip(length: nat, order: ByteOrder, rest: Seq<u8>)
    requires
        length <= u32::MAX,
    ensures
        length_in(length_bytes(length, order) + rest, order) == length,
{
    let bytes = length_bytes(length, order) + rest;
    let a = length % 0x100;
    let b = length / 0x100 % 0x100;
    let c = length / 0x1_0000 % 0x100;
    let d = length / 0x100_0000 % 0x100;
    assert(length == a + 0x100 * b + 0x1_0000 * c + 0x100_0000 * d);
}

/// A message that is not too long is read back from its frame, and what follows the
/// frame is left.
pub proof fn law_frame_round_trip(message: Seq<u8>, order: ByteOrder, rest: Seq<u8>)
    requires
        message.len() <= MAX_INCOMING_DATA,
    ensures
        incoming(framed(message, order) + rest, order) == Incoming::Message(message),
        (framed(message, order) + rest).skip(message.len() as int + 4) == rest,
{
    law_length_round_trip(message.len(), order, message + rest);
    let pending = framed(message, order) + rest;
    assert(pending =~= length_bytes(message.len(), order) + (message + rest));
    assert(pending.subrange(4, message.len() as int + 4) =~= message);
    assert(pending.skip(message.len() as int + 4) =~= rest);
}

/// A longer message is refused, though it could be framed.
pub proof fn law_long_frame_is_refused(message: Seq<u8>, order: ByteOrder)
    requires
        MAX_INCOMING_DATA < message.len() <= u32::MAX,
    ensures
        incoming(framed(message, order), order) is TooLong,
{
    law_length_round_trip(message.len(), order, message);
}

/// The messages at the beginning of what was read.
pub open spec fn all_messages(pending: Seq<u8>, order: ByteOrder) -> Seq<Seq<u8>>
    decreases pending.len(),
{
    match incoming(pending, order) {
        Incoming::Message(message) => seq![message] + all_messages(
            pending.skip(message.len() as int + 4),
            order,
        ),
        _ => Seq::empty(),
    }
}

/// The frames of some messages.
pub open spec fn all_frames(messages: Seq<Seq<u8>>, order: ByteOrder) -> Seq<u8>
    decreases messages.len(),
{
    if messages.len() == 0 {
        Seq::empty()
    } else {
        framed(messages[0], order) + all_frames(messages.drop_first(), order)
    }
}

/// Messages are read back from their frames in their order, none is lost and none is
/// made up.
pub proof fn law_messages_round_trip(messages: Seq<Seq<u8>>, order: ByteOrder)
    requires
        forall|i: int| 0 <= i < messages.len() ==> (#[trigger] messages[i]).len() <= MAX_INCOMING_DATA,
    ensures
        all_messages(all_frames(messages, order), order) == messages,
    decreases messages.len(),
{
    if messages.len() > 0 {
        let rest = messages.drop_first();
        assert forall|i: int| 0 <= i < rest.len() implies (#[trigger] rest[i]).len()
            <= MAX_INCOMING_DATA by {
            assert(rest[i] == messages[i + 1]);
        }
        law_messages_round_trip(rest, order);
        law_frame_round_trip(messages[0], order, all_frames(rest, order));
        assert(seq![messages[0]] + rest =~= messages);
    }
}

/// A message that is complete is the same whatever has been read after it, so the
/// portions in which frames arrive do not matter.
pub proof fn law_portions_do_not_matter(pending: Seq<u8>, more: Seq<u8>, order: ByteOrder)
    requires
        incoming(pending, order) is Message,
    ensures
        incoming(pending + more, order) == incoming(pending, order),
        (pending + more).skip(incoming(pending, order)->Message_0.len() as int + 4) == pending.skip(
            incoming(pending, order)->Message_0.len() as int + 4,
        ) + more,
{
    let message = incoming(pending, order)->Message_0;
    assert((pending + more).subrange(4, message.len() as int + 4) =~= message);
    assert((pending + more).skip(message.len() as int + 4) =~= pending.skip(message.len() as int + 4) + more);
}

/// The length takes four bytes, of which the lowest comes first or last, as the machine has
/// it; the message follows them unchanged.
pub proof fn law_frame_layout(message: &Vec<u8>, order: ByteOrder, r: Result<Vec<u8>, String>)
    requires
        call_ensures(frame, (message, order), r),
    ensures
        r is Ok <==> message@.len() <= u32::MAX,
        r matches Ok(bytes) ==> {
            &&& bytes@.len() == message@.len() + 4
            &&& bytes@.skip(4) == message@
            &&& order is Little ==> message@.len() == bytes@[0] + 0x100 * bytes@[1] + 0x1_0000
                * bytes@[2] + 0x100_0000 * bytes@[3]
            &&& order is Big ==> message@.len() == bytes@[3] + 0x100 * bytes@[2] + 0x1_0000
                * bytes@[1] + 0x100_0000 * bytes@[0]
        },
        r matches Err(e) ==> e@ == "Browser extension response is too large"@,
{
    if r is Ok {
        let n = message@.len();
        law_length_round_trip(n, order, message@);
        assert((r->Ok_0)@.skip(4) =~= message@);
    }
}

/// A message is taken only once all of it is there, and refused as soon as its length is
/// known to be too great.
pub proof fn law_incoming(pending: Seq<u8>, order: ByteOrder)
    ensures
        ({
            let n = if order is Little {
                pending[0] + 0x100 * pending[1] + 0x1_0000 * pending[2] + 0x100_0000 * pending[3]
            } else {
                pending[3] + 0x100 * pending[2] + 0x1_0000 * pending[1] + 0x100_0000 * pending[0]
            };
            let known = pending.len() >= 4;
            &&& incoming(pending, order) is TooLong <==> known && n > 10000
            &&& incoming(pending, order) is Message <==> known && n <= 10000 && pending.len() >= n + 4
            &&& incoming(pending, order) matches Incoming::Message(message) ==> message
                == pending.subrange(4, n + 4)
        }),
{
}

/// A message is taken off the front of what was read, and what follows it stays; as long as
/// it is incomplete nothing is taken.
pub proof fn law_message_is_taken(
    pending: &mut Vec<u8>,
    order: ByteOrder,
    r: Result<Option<Vec<u8>>, String>,
)
    requires
        call_ensures(read_message, (pending, order), r),
    ensures
        r matches Ok(Some(message)) ==> {
            &&& old(pending)@.len() >= message@.len() + 4
            &&& old(pending)@.subrange(4, message@.len() as int + 4) == message@
            &&& old(pending)@.skip(message@.len() as int + 4) == final(pending)@
            &&& message@.len() <= 10000
        },
        r matches Ok(None) ==> final(pending)@ == old(pending)@,
        r is Err ==> final(pending)@ == old(pending)@,
{
}

/// What was read is put at the end of what was read before, as long as it is something and
/// not too much.
pub proof fn law_chunk_is_added(pending: &mut Vec<u8>, read: ChunkRead, r: Result<(), String>)
    requires
        call_ensures(read_chunk, (pending, read), r),
    ensures
        r is Ok <==> read is Data && 0 < (read->Data_0)@.len() <= 10000,
        r is Ok ==> final(pending)@ == old(pending)@ + (read->Data_0)@,
        r is Err ==> final(pending)@ == old(pending)@,
{
}

} // verus!
