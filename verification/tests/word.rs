use aot_handler::ffi_bridge::{FfiHostVTable, FfiReturnData, HOST_OK, TRANSFER_SELECTOR};
use aot_handler::word::{align_to_word, Word};

fn ramp() -> [u8; 32] {
    let mut bytes = [0u8; 32];
    for i in 0..32 {
        bytes[i] = i as u8 + 1;
    }
    bytes
}

#[test]
fn key_is_read_big_endian() {
    let word = Word::from_key(&ramp());
    assert_eq!(
        word.limbs,
        [
            0x191a_1b1c_1d1e_1f20,
            0x1112_1314_1516_1718,
            0x090a_0b0c_0d0e_0f10,
            0x0102_0304_0506_0708,
        ]
    );
}

#[test]
fn value_is_read_big_endian() {
    let mut bytes = [0u8; 32];
    bytes[31] = 0x2a;
    bytes[22] = 0x01;
    let word = Word::from_be_bytes(&bytes);
    assert_eq!(word.limbs, [0x2a, 0x100, 0, 0]);
}

#[test]
fn word_is_written_big_endian() {
    let word = Word { limbs: [0x2a, 0x100, 0, 0x0102_0304_0506_0708] };
    let bytes = word.to_be_bytes();
    let mut expected = [0u8; 32];
    expected[31] = 0x2a;
    expected[22] = 0x01;
    expected[..8].copy_from_slice(&[1, 2, 3, 4, 5, 6, 7, 8]);
    assert_eq!(bytes, expected);
}

#[test]
fn largest_word_survives() {
    let bytes = [0xff; 32];
    let word = Word::from_be_bytes(&bytes);
    assert_eq!(word.limbs, [u64::MAX; 4]);
    assert_eq!(word.to_be_bytes(), bytes);
}

#[test]
fn zero_word() {
    assert_eq!(Word::zero().limbs, [0; 4]);
    assert_eq!(Word::zero().to_be_bytes(), [0; 32]);
}

#[test]
fn short_input_gets_zeros_in_front() {
    let word = align_to_word(&[0xab, 0xcd]);
    let mut expected = [0u8; 32];
    expected[30] = 0xab;
    expected[31] = 0xcd;
    assert_eq!(word, expected);
    assert_eq!(Word::from_be_bytes(&word).limbs, [0xabcd, 0, 0, 0]);
}

#[test]
fn empty_input_is_zero() {
    assert_eq!(align_to_word(&[]), [0; 32]);
}

#[test]
fn one_word_stays_as_it_is() {
    assert_eq!(align_to_word(&ramp()), ramp());
}

#[test]
fn long_input_keeps_its_low_bytes() {
    let mut long = vec![0xee; 5];
    long.extend_from_slice(&ramp());
    assert_eq!(align_to_word(&long), ramp());
}

#[test]
fn sload_reads_the_targets_storage() {
    let host = FfiHostVTable { target: [7; 20] };
    let read = host.sload(&[9; 20], &ramp());
    assert_eq!(read.account, [7; 20]);
    assert_eq!(read.key, Word::from_key(&ramp()));
    assert_eq!(read, host.sload(&[1; 20], &ramp()));
}

#[test]
fn sstore_writes_the_targets_storage() {
    let host = FfiHostVTable { target: [7; 20] };
    let mut value = [0u8; 32];
    value[31] = 5;
    let write = host.sstore(&[9; 20], &ramp(), &value);
    assert_eq!(write.account, [7; 20]);
    assert_eq!(write.key, host.sload(&[9; 20], &ramp()).key);
    assert_eq!(write.value.limbs, [5, 0, 0, 0]);
}

#[test]
fn stored_value_reads_back() {
    let host = FfiHostVTable { target: [7; 20] };
    let write = host.sstore(&[0; 20], &[3; 32], &ramp());
    assert_eq!(host.sload_reply(Some(write.value)), ramp());
}

#[test]
fn failed_read_is_zero() {
    let host = FfiHostVTable { target: [7; 20] };
    assert_eq!(host.sload_reply(None), [0; 32]);
}

#[test]
fn different_keys_are_different_slots() {
    let mut other = ramp();
    other[0] = 0;
    assert_ne!(Word::from_key(&ramp()), Word::from_key(&other));
}

#[test]
fn return_data_starts_as_zeros() {
    assert_eq!(FfiReturnData::zeroed(3).buf, vec![0, 0, 0]);
    assert_eq!(FfiReturnData::zeroed(0).buf.len(), 0);
}

#[test]
fn bridge_constants() {
    assert_eq!(TRANSFER_SELECTOR, [0xa9, 0x05, 0x9c, 0xbb]);
    assert_eq!(HOST_OK, 0);
}

#[test]
fn guest_learns_the_sender() {
    let host = FfiHostVTable { target: [7; 20] };
    assert_eq!(host.get_caller([4; 20]), [4; 20]);
}
