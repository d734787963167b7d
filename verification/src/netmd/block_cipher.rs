//! DES as the protocol uses it: single blocks, and blocks chained with CBC.
//!
//! The block transformations themselves are computed by the `des`, `ecb` and
//! `cbc` crates and are only named here. The chaining is stated in full, so
//! that what is proved about packets rests on the block transformation alone.
use cbc::cipher::block_padding::NoPadding;
use cbc::cipher::{BlockDecryptMut, BlockEncryptMut, KeyInit, KeyIvInit};
use rand::RngCore;
use vstd::prelude::*;

verus! {

/// The size of a DES block, and of a DES key, in bytes.
pub const BLOCK: usize = 8;

/// The block that DES makes of `block` under `key`: the result of
/// `des::Des::encrypt_block` on eight bytes and a key of eight bytes.
pub uninterp spec fn des_encrypt_block(key: Seq<u8>, block: Seq<u8>) -> Seq<u8>;

/// The block that DES decryption makes of `block` under `key`: the result of
/// `des::Des::decrypt_block` on eight bytes and a key of eight bytes.
pub uninterp spec fn des_decrypt_block(key: Seq<u8>, block: Seq<u8>) -> Seq<u8>;

/// The block that three-key triple DES makes of `block` under the 24 bytes
/// of `key`: the result of `des::TdesEde3::encrypt_block`.
pub uninterp spec fn tdes_encrypt_block(key: Seq<u8>, block: Seq<u8>) -> Seq<u8>;

/// A sequence as a block: its first eight bytes, with zeros where it is
/// shorter. A block of eight bytes is itself.
pub open spec fn as_block(bytes: Seq<u8>) -> Seq<u8> {
    Seq::new(
        8,
        |i: int|
            if i < bytes.len() {
                bytes[i]
            } else {
                0u8
            },
    )
}

/// Eight zero bytes.
pub open spec fn zero_block() -> Seq<u8> {
    Seq::new(8, |i: int| 0u8)
}

/// Two blocks combined bit by bit with exclusive or.
pub open spec fn xor_block(a: Seq<u8>, b: Seq<u8>) -> Seq<u8> {
    Seq::new(8, |i: int| a[i] ^ b[i])
}

/// CBC encryption with DES and no padding: each block is combined with the
/// block of ciphertext before it, the first with `iv`, and then encrypted.
/// Bytes after the last whole block are left out.
pub open spec fn cbc_encrypt(key: Seq<u8>, iv: Seq<u8>, data: Seq<u8>) -> Seq<u8>
    decreases data.len(),
{
    if data.len() < 8 {
        Seq::empty()
    } else {
        let head = as_block(des_encrypt_block(key, xor_block(data.subrange(0, 8), iv)));
        head + cbc_encrypt(key, head, data.subrange(8, data.len() as int))
    }
}

/// CBC decryption with DES and no padding: each block is decrypted and then
/// combined with the block of ciphertext before it, the first with `iv`.
pub open spec fn cbc_decrypt(key: Seq<u8>, iv: Seq<u8>, data: Seq<u8>) -> Seq<u8>
    decreases data.len(),
{
    if data.len() < 8 {
        Seq::empty()
    } else {
        let block = data.subrange(0, 8);
        xor_block(as_block(des_decrypt_block(key, block)), iv) + cbc_decrypt(
            key,
            block,
            data.subrange(8, data.len() as int),
        )
    }
}

/// The initialisation vector that continues a CBC encryption after the
/// first `done` bytes: the last block of ciphertext so far, or `iv` at the
/// start.
pub open spec fn cbc_chain(key: Seq<u8>, iv: Seq<u8>, data: Seq<u8>, done: int) -> Seq<u8> {
    if done < 8 {
        iv
    } else {
        cbc_encrypt(key, iv, data).subrange(done - 8, done)
    }
}

/// CBC ciphertext is as long as the whole blocks of its plaintext.
pub proof fn lemma_cbc_encrypt_len(key: Seq<u8>, iv: Seq<u8>, data: Seq<u8>)
    ensures
        cbc_encrypt(key, iv, data).len() == (data.len() / 8) * 8,
    decreases data.len(),
{
    if data.len() >= 8 {
        let head = as_block(des_encrypt_block(key, xor_block(data.subrange(0, 8), iv)));
        lemma_cbc_encrypt_len(key, head, data.subrange(8, data.len() as int));
    }
}

/// CBC plain text is as long as the whole blocks of its ciphertext.
pub proof fn lemma_cbc_decrypt_len(key: Seq<u8>, iv: Seq<u8>, data: Seq<u8>)
    ensures
        cbc_decrypt(key, iv, data).len() == (data.len() / 8) * 8,
    decreases data.len(),
{
    if data.len() >= 8 {
        lemma_cbc_decrypt_len(key, data.subrange(0, 8), data.subrange(8, data.len() as int));
    }
}

/// Encryption in pieces: the ciphertext of whole blocks `from..to` of a
/// message is what CBC makes of those blocks alone when it starts from the
/// last block of ciphertext before them.
pub proof fn lemma_cbc_encrypt_piece(
    key: Seq<u8>,
    iv: Seq<u8>,
    data: Seq<u8>,
    from: int,
    to: int,
)
    requires
        0 <= from <= to <= data.len(),
        from % 8 == 0,
        to % 8 == 0,
        iv.len() == 8,
    ensures
        cbc_encrypt(key, iv, data).len() >= to,
        cbc_encrypt(key, cbc_chain(key, iv, data, from), data.subrange(from, to)) == cbc_encrypt(
            key,
            iv,
            data,
        ).subrange(from, to),
    decreases data.len(),
{
    lemma_cbc_encrypt_len(key, iv, data);
    let whole = cbc_encrypt(key, iv, data);
    if to == 0 {
        assert(data.subrange(from, to).len() == 0);
        assert(whole.subrange(0, 0) == Seq::<u8>::empty());
    } else {
        assert(data.len() >= 8);
        let head = as_block(des_encrypt_block(key, xor_block(data.subrange(0, 8), iv)));
        let rest = data.subrange(8, data.len() as int);
        let tail = cbc_encrypt(key, head, rest);
        lemma_cbc_encrypt_len(key, head, rest);
        assert(whole == head + tail);
        if from == 0 {
            let piece = data.subrange(0, to);
            assert(piece.subrange(0, 8) == data.subrange(0, 8));
            assert(piece.subrange(8, piece.len() as int) == rest.subrange(0, to - 8));
            lemma_cbc_encrypt_piece(key, head, rest, 0, to - 8);
            assert(cbc_chain(key, head, rest, 0) == head);
            assert(cbc_encrypt(key, iv, piece) == head + tail.subrange(0, to - 8));
            assert(whole.subrange(0, to) == head + tail.subrange(0, to - 8));
        } else {
            lemma_cbc_encrypt_piece(key, head, rest, from - 8, to - 8);
            assert(data.subrange(from, to) == rest.subrange(from - 8, to - 8));
            assert(whole.subrange(from, to) == tail.subrange(from - 8, to - 8));
            if from == 8 {
                assert(whole.subrange(0, 8) == head);
            } else {
                assert(whole.subrange(from - 8, from) == tail.subrange(from - 16, from - 8));
            }
        }
    }
}

/// Whether decryption under a key undoes encryption under it, block by
/// block. DES is built so that it does; the block transformations are only
/// named here, so what rests on this says so.
pub open spec fn decryption_undoes_encryption(key: Seq<u8>) -> bool {
    forall|block: Seq<u8>|
        block.len() == 8 ==> as_block(
            des_decrypt_block(key, as_block(#[trigger] des_encrypt_block(key, block))),
        ) == block
}

/// A block combined twice with the same block is the block itself.
pub proof fn lemma_xor_twice(a: Seq<u8>, b: Seq<u8>)
    requires
        a.len() == 8,
        b.len() == 8,
    ensures
        xor_block(xor_block(a, b), b) == a,
{
    assert forall|i: int| 0 <= i < 8 implies (a[i] ^ b[i]) ^ b[i] == a[i] by {
        let x = a[i];
        let y = b[i];
        assert((x ^ y) ^ y == x) by (bit_vector);
    }
    assert(xor_block(xor_block(a, b), b) =~= a);
}

/// CBC decryption undoes CBC encryption of whole blocks, under a key whose
/// block decryption undoes its block encryption.
pub proof fn lemma_cbc_decrypt_of_encrypt(key: Seq<u8>, iv: Seq<u8>, data: Seq<u8>)
    requires
        decryption_undoes_encryption(key),
        iv.len() == 8,
        data.len() % 8 == 0,
    ensures
        cbc_decrypt(key, iv, cbc_encrypt(key, iv, data)) == data,
    decreases data.len(),
{
    lemma_cbc_encrypt_len(key, iv, data);
    let whole = cbc_encrypt(key, iv, data);
    if data.len() < 8 {
        assert(data.len() == 0);
        assert(data == Seq::<u8>::empty());
    } else {
        let first = data.subrange(0, 8);
        let mixed = xor_block(first, iv);
        let head = as_block(des_encrypt_block(key, mixed));
        let rest = data.subrange(8, data.len() as int);
        let tail = cbc_encrypt(key, head, rest);
        lemma_cbc_encrypt_len(key, head, rest);
        assert(whole == head + tail);
        assert(whole.subrange(0, 8) == head);
        assert(whole.subrange(8, whole.len() as int) == tail);
        lemma_cbc_decrypt_of_encrypt(key, head, rest);
        assert(as_block(des_decrypt_block(key, head)) == mixed);
        lemma_xor_twice(first, iv);
        assert(cbc_decrypt(key, iv, whole) == first + rest);
        assert(first + rest == data);
    }
}

/// One block encrypted with DES: the transformation of `ecb::Encryptor` over
/// `des::Des` on a single block, which is that of DES itself.
#[verifier::external_body]
pub(crate) fn des_ecb_encrypt(key: &Vec<u8>, block: &Vec<u8>) -> (out: Vec<u8>)
    requires
        key@.len() == 8,
        block@.len() == 8,
    ensures
        out@.len() == 8,
        out@ == des_encrypt_block(key@, block@),
{
    let mut buf = block.clone();
    ecb::Encryptor::<des::Des>::new(key.as_slice().into())
        .encrypt_padded_mut::<NoPadding>(&mut buf, 8)
        .unwrap();
    buf
}

/// One block decrypted with DES: the transformation of `ecb::Decryptor` over
/// `des::Des` on a single block.
#[verifier::external_body]
pub(crate) fn des_ecb_decrypt(key: &Vec<u8>, block: &Vec<u8>) -> (out: Vec<u8>)
    requires
        key@.len() == 8,
        block@.len() == 8,
    ensures
        out@.len() == 8,
        out@ == des_decrypt_block(key@, block@),
{
    let mut buf = block.clone();
    ecb::Decryptor::<des::Des>::new(key.as_slice().into())
        .decrypt_padded_mut::<NoPadding>(&mut buf)
        .unwrap();
    buf
}

/// Whole blocks encrypted with `cbc::Encryptor` over `des::Des`, without
/// padding. The result is the chaining that [`cbc_encrypt`] states, over the
/// block transformation of DES.
#[verifier::external_body]
pub(crate) fn des_cbc_encrypt(key: &Vec<u8>, iv: &Vec<u8>, data: Vec<u8>) -> (out: Vec<u8>)
    requires
        key@.len() == 8,
        iv@.len() == 8,
        data@.len() % 8 == 0,
    ensures
        out@ == cbc_encrypt(key@, iv@, data@),
{
    let mut buf = data;
    let len = buf.len();
    cbc::Encryptor::<des::Des>::new(key.as_slice().into(), iv.as_slice().into())
        .encrypt_padded_mut::<NoPadding>(&mut buf, len)
        .unwrap();
    buf
}

/// Whole blocks decrypted with `cbc::Decryptor` over `des::Des`, without
/// padding. The result is the chaining that [`cbc_decrypt`] states, over the
/// block transformation of DES decryption.
#[verifier::external_body]
pub(crate) fn des_cbc_decrypt(key: &Vec<u8>, iv: &Vec<u8>, data: Vec<u8>) -> (out: Vec<u8>)
    requires
        key@.len() == 8,
        iv@.len() == 8,
        data@.len() % 8 == 0,
    ensures
        out@ == cbc_decrypt(key@, iv@, data@),
{
    let mut buf = data;
    cbc::Decryptor::<des::Des>::new(key.as_slice().into(), iv.as_slice().into())
        .decrypt_padded_mut::<NoPadding>(&mut buf)
        .unwrap();
    buf
}

/// One block encrypted with `cbc::Encryptor` over `des::TdesEde3`: the block
/// is combined with `iv` and then encrypted with triple DES.
#[verifier::external_body]
pub(crate) fn tdes_cbc_encrypt(key: &Vec<u8>, iv: &Vec<u8>, block: &Vec<u8>) -> (out: Vec<u8>)
    requires
        key@.len() == 24,
        iv@.len() == 8,
        block@.len() == 8,
    ensures
        out@.len() == 8,
        out@ == tdes_encrypt_block(key@, xor_block(block@, iv@)),
{
    let mut buf = block.clone();
    cbc::Encryptor::<des::TdesEde3>::new(key.as_slice().into(), iv.as_slice().into())
        .encrypt_padded_mut::<NoPadding>(&mut buf, 8)
        .unwrap();
    buf
}

/// Eight bytes from the thread's random number generator, `rand::rng()`.
/// Nothing is known of them but their count.
#[verifier::external_body]
pub(crate) fn random_block() -> (out: Vec<u8>)
    ensures
        out@.len() == 8,
{
    let mut buf = vec![0u8; 8];
    rand::rng().fill_bytes(&mut buf);
    buf
}

} // verus!
