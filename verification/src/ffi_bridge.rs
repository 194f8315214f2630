//! What passes between the host and code compiled ahead of time.

use crate::engine::Address;
use crate::word::{
    be_value, law_be_value_injective, law_word_determined_by_value, lemma_be_value_zeros, Word,
};
use alloy_primitives::Bytes;
use vstd::prelude::*;

verus! {

/// First four bytes of the call data of a token `transfer(address,uint256)`.
pub const TRANSFER_SELECTOR: [u8; 4] = [0xa9, 0x05, 0x9c, 0xbb];

/// What a host function answers the guest when it has done its work.
pub const HOST_OK: i32 = 0;

/// Call data handed to the guest.
#[derive(Debug)]
pub struct FfiCallData {
    /// The bytes that the guest may read.
    pub data: Bytes,
}

/// Room for what the guest returns.
#[derive(Debug)]
pub struct FfiReturnData {
    /// The bytes that the guest may write; there are as many as the guest is told it has room for.
    pub buf: Vec<u8>,
}

impl FfiReturnData {
    /// Room for `cap` bytes, all zero.
    pub fn zeroed(cap: usize) -> (ret: FfiReturnData)
        ensures
            ret.buf@ == Seq::new(cap as nat, |i: int| 0u8),
    {
        let buf: Vec<u8> = vec![0u8; cap];
        assert(buf@ =~= Seq::new(cap as nat, |i: int| 0u8));
        FfiReturnData { buf }
    }
}

/// A read of contract storage that the guest asked for.
#[derive(Clone, Copy, Debug, PartialEq, Eq)]
pub struct StorageRead {
    /// The account whose storage is read. It is loaded first.
    pub account: Address,
    /// The slot.
    pub key: Word,
}

/// A write to contract storage that the guest asked for.
#[derive(Clone, Copy, Debug, PartialEq, Eq)]
pub struct StorageWrite {
    /// The account whose storage is written. It is loaded first.
    pub account: Address,
    /// The slot.
    pub key: Word,
    /// The value to store.
    pub value: Word,
}

/// The host functions that a guest may call while it runs, bound to the contract it runs for.
#[derive(Clone, Copy, Debug, PartialEq, Eq)]
pub struct FfiHostVTable {
    /// The contract that the guest runs for.
    pub target: Address,
}

impl FfiHostVTable {
    /// The storage read that a guest's `sload` stands for. Storage is always the target's: the
    /// address that the guest names does not count.
    pub fn sload(&self, guest_addr: &[u8; 20], key: &[u8; 32]) -> (read: StorageRead)
        ensures
            read.account == self.target,
            read.key@ == be_value(key@),
    {
        StorageRead { account: self.target, key: Word::from_key(key) }
    }

    /// The 32 bytes that answer an `sload`, where `value` is what the storage read gave. A read
    /// that failed counts as zero.
    pub fn sload_reply(&self, value: Option<Word>) -> (out: [u8; 32])
        ensures
            value matches Some(word) ==> be_value(out@) == word@,
            value is None ==> be_value(out@) == 0,
    {
        match value {
            Some(word) => word.to_be_bytes(),
            None => Word::zero().to_be_bytes(),
        }
    }

    /// The storage write that a guest's `sstore` stands for. Storage is always the target's: the
    /// address that the guest names does not count.
    pub fn sstore(&self, guest_addr: &[u8; 20], key: &[u8; 32], value: &[u8; 32]) -> (write:
        StorageWrite)
        ensures
            write.account == self.target,
            write.key@ == be_value(key@),
            write.value@ == be_value(value@),
    {
        StorageWrite {
            account: self.target,
            key: Word::from_key(key),
            value: Word::from_be_bytes(value),
        }
    }

    /// The 20 bytes that answer a guest's `get_caller`: the sender of the transaction, whatever
    /// contract the guest runs for.
    pub fn get_caller(&self, caller: Address) -> (out: [u8; 20])
        ensures
            out == caller,
    {
        caller
    }
}

/// A guest reads back what it stored: the answer to an `sload` that finds the word which an
/// `sstore` of `value` wrote is `value` itself.
pub proof fn law_stored_value_reads_back(value: [u8; 32], word: Word, reply: [u8; 32])
    requires
        word@ == be_value(value@),
        be_value(reply@) == word@,
    ensures
        reply == value,
{
    law_be_value_injective(reply@, value@);
    assert(reply =~= value);
}

/// Two guest keys name the same slot exactly when they are the same 32 bytes.
pub proof fn law_slot_determined_by_key(key1: [u8; 32], slot1: Word, key2: [u8; 32], slot2: Word)
    requires
        slot1@ == be_value(key1@),
        slot2@ == be_value(key2@),
    ensures
        slot1 == slot2 <==> key1 == key2,
{
    if slot1 == slot2 {
        law_be_value_injective(key1@, key2@);
        assert(key1 =~= key2);
    }
    if key1 == key2 {
        law_word_determined_by_value(slot1, slot2);
    }
}

/// What a guest stores under a key it reads back under the same key, whatever addresses it names:
/// both calls go to the same account, the target, and to the same slot, and the answer to a read
/// that finds the stored word is the stored value, byte for byte.
pub proof fn law_guest_reads_what_it_stored(
    host: FfiHostVTable,
    write_addr: [u8; 20],
    read_addr: [u8; 20],
    key: [u8; 32],
    value: [u8; 32],
    write: StorageWrite,
    read: StorageRead,
    reply: [u8; 32],
)
    requires
        call_ensures(FfiHostVTable::sstore, (&host, &write_addr, &key, &value), write),
        call_ensures(FfiHostVTable::sload, (&host, &read_addr, &key), read),
        call_ensures(FfiHostVTable::sload_reply, (&host, Some(write.value)), reply),
    ensures
        write.account == host.target,
        read.account == host.target,
        read.key == write.key,
        reply == value,
{
    law_word_determined_by_value(read.key, write.key);
    law_stored_value_reads_back(value, write.value, reply);
}

/// A guest's storage calls name slots by their keys: a read and a write go to the same slot exactly
/// when their keys are the same 32 bytes, and the slot holds the key's bytes in order.
pub proof fn law_guest_slots_are_apart(
    host: FfiHostVTable,
    addr: [u8; 20],
    read_key: [u8; 32],
    write_key: [u8; 32],
    value: [u8; 32],
    read: StorageRead,
    write: StorageWrite,
    slot: Word,
    word: Word,
)
    requires
        call_ensures(FfiHostVTable::sload, (&host, &addr, &read_key), read),
        call_ensures(FfiHostVTable::sstore, (&host, &addr, &write_key, &value), write),
        call_ensures(Word::from_key, (&write_key,), slot),
        call_ensures(Word::from_be_bytes, (&value,), word),
    ensures
        read.key == write.key <==> read_key == write_key,
        write.key == slot,
        write.value == word,
{
    law_slot_determined_by_key(read_key, read.key, write_key, write.key);
    law_word_determined_by_value(write.key, slot);
    law_word_determined_by_value(write.value, word);
}

/// A read that failed is answered with 32 zeros.
pub proof fn law_failed_read_answers_zeros(host: FfiHostVTable, reply: [u8; 32])
    requires
        call_ensures(FfiHostVTable::sload_reply, (&host, None), reply),
    ensures
        forall|k: int| 0 <= k < 32 ==> #[trigger] reply@[k] == 0,
{
    lemma_be_value_zeros(32);
    law_be_value_injective(reply@, Seq::new(32, |i: int| 0u8));
}

/// A guest learns the sender of the transaction, unchanged and whatever its target.
pub proof fn law_guest_learns_sender(host: FfiHostVTable, caller: Address, out: [u8; 20])
    requires
        call_ensures(FfiHostVTable::get_caller, (&host, caller), out),
    ensures
        forall|k: int| 0 <= k < 20 ==> #[trigger] out@[k] == caller@[k],
{
}

/// Room for a guest's output has the length asked for and holds nothing but zeros.
pub proof fn law_room_is_zeroed(cap: usize, ret: FfiReturnData)
    requires
        call_ensures(FfiReturnData::zeroed, (cap,), ret),
    ensures
        ret.buf@.len() == cap,
        forall|k: int| 0 <= k < cap ==> #[trigger] ret.buf@[k] == 0,
{
}

} // verus!
