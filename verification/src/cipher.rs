//! The byte scrambler of the serial loop-back demonstration: every byte of
//! a message is XOR-ed with a one-byte key before sending, and the same
//! operation on the received bytes recovers the message.

use vstd::prelude::*;

verus! {

/// The key that the loop-back demonstration scrambles with (any value from 1 to 255 will do).
pub const KEY: u8 = 212;

/// `msg` with every byte XOR-ed with `key`.
pub open spec fn scrambled(msg: Seq<u8>, key: u8) -> Seq<u8> {
    Seq::new(msg.len(), |i: int| msg[i] ^ key)
}

/// Scrambles (or unscrambles) `msg` with `key`.
pub fn garble(msg: &[u8], key: u8) -> (out: Vec<u8>)
    ensures
        out@ == scrambled(msg@, key),
        out@.len() == msg@.len(),
        forall|i: int| 0 <= i < msg@.len() ==> out@[i] == msg@[i] ^ key,
{
    let mut out: Vec<u8> = Vec::new();
    let mut i: usize = 0;
    while i < msg.len()
        invariant
            i <= msg@.len(),
            out@ == scrambled(msg@.subrange(0, i as int), key),
        decreases msg@.len() - i,
    {
        out.push(msg[i] ^ key);
        i = i + 1;
        assert(out@ =~= scrambled(msg@.subrange(0, i as int), key));
    }
    assert(msg@.subrange(0, i as int) =~= msg@);
    out
}

/// Each byte goes out as that byte XOR-ed with the key, one and the same
/// key at every position, and no byte is added or lost.
pub proof fn scramble_is_bytewise_xor(msg: Seq<u8>, key: u8)
    ensures
        scrambled(msg, key).len() == msg.len(),
        forall|i: int| 0 <= i < msg.len() ==> #[trigger] scrambled(msg, key)[i] == msg[i] ^ key,
{
}

/// Scrambling a message in two pieces gives the same bytes as scrambling it
/// whole: a byte's scrambled value does not depend on where it stands.
pub proof fn scramble_splits(a: Seq<u8>, b: Seq<u8>, key: u8)
    ensures
        scrambled(a + b, key) == scrambled(a, key) + scrambled(b, key),
{
    assert(scrambled(a + b, key) =~= scrambled(a, key) + scrambled(b, key));
}

/// Scrambling twice with the same key gives the message back: what the
/// receiver unscrambles is what the sender scrambled.
pub proof fn garble_is_involution(msg: Seq<u8>, key: u8)
    ensures
        scrambled(scrambled(msg, key), key) == msg,
{
    assert forall|i: int| 0 <= i < msg.len() implies scrambled(scrambled(msg, key), key)[i]
        == msg[i] by {
        let b = msg[i];
        assert((b ^ key) ^ key == b) by (bit_vector);
    }
    assert(scrambled(scrambled(msg, key), key) =~= msg);
}

/// With a key other than zero, no byte goes out as it came in.
pub proof fn nonzero_key_changes_every_byte(msg: Seq<u8>, key: u8)
    requires
        key != 0,
    ensures
        forall|i: int| 0 <= i < msg.len() ==> #[trigger] scrambled(msg, key)[i] != msg[i],
{
    assert forall|i: int| 0 <= i < msg.len() implies #[trigger] scrambled(msg, key)[i] != msg[i] by {
        let b = msg[i];
        assert(key != 0 ==> b ^ key != b) by (bit_vector);
    }
}

} // verus!
