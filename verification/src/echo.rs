//! The reply of the echo service: what was received, in upper case.

use vstd::prelude::*;

verus! {

/// The upper-case form of an ASCII letter; any other byte is itself.
pub open spec fn upper(byte: u8) -> u8 {
    if 0x61 <= byte <= 0x7a {
        (byte - 0x20) as u8
    } else {
        byte
    }
}

/// The upper-case form of an ASCII letter; any other byte is itself.
pub fn to_upper(byte: u8) -> (result: u8)
    ensures
        result == upper(byte),
{
    if 0x61 <= byte && byte <= 0x7a {
        byte - 0x20
    } else {
        byte
    }
}

/// The bytes to send back for the bytes `received`: each in upper case, in
/// the order in which they came. Nothing received, nothing sent.
pub fn uppercase_reply(received: &[u8]) -> (reply: Vec<u8>)
    ensures
        reply@.len() == received@.len(),
        forall|i: int| 0 <= i < received@.len() ==> #[trigger] reply@[i] == upper(received@[i]),
{
    let mut reply: Vec<u8> = Vec::new();
    let mut i: usize = 0;
    while i < received.len()
        invariant
            i <= received@.len(),
            reply@.len() == i,
            forall|k: int| 0 <= k < i ==> #[trigger] reply@[k] == upper(received@[k]),
        decreases received@.len() - i,
    {
        reply.push(to_upper(received[i]));
        i += 1;
    }
    reply
}

} // verus!
