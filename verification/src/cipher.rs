//! The cipher codec: AES-128 in electronic-codebook mode over text padded
//! to whole blocks.
//!
//! Every block is enciphered on its own, with no chaining and no
//! initialisation vector, so equal plaintext blocks give equal ciphertext
//! blocks. That weakness is part of the wire format and is kept.

use aes::cipher::generic_array::GenericArray;
use aes::cipher::{BlockDecrypt, BlockEncrypt, KeyInit};
use aes::Aes128;
use vstd::prelude::*;
use vstd::slice::*;
use vstd::string::*;
use vstd::utf8::*;

use crate::text::string_from_utf8;

verus! {

/// Bytes in one cipher block, and in a key.
pub const BLOCK_SIZE: usize = 16;

/// Why a ciphertext could not be turned back into text.
#[derive(Debug, Clone, Copy, PartialEq, Eq)]
pub enum DecryptError {
    /// The ciphertext is not a whole number of blocks.
    BadLength,
    /// There is no final byte to read the padding length from, or that byte
    /// is larger than the number of bytes recovered.
    BadPadding,
    /// What is left after the padding is taken off is not UTF-8.
    NotText,
}

/// The AES-128 encryption of the 16-byte `block` under the 16-byte `key`.
pub uninterp spec fn aes128_encrypt_block(key: Seq<u8>, block: Seq<u8>) -> Seq<u8>;

/// The AES-128 decryption of the 16-byte `block` under the 16-byte `key`.
pub uninterp spec fn aes128_decrypt_block(key: Seq<u8>, block: Seq<u8>) -> Seq<u8>;

/// Number of padding bytes that follow `n` bytes of data: between 1 and 16,
/// bringing the total to the next multiple of 16.
pub open spec fn pad_len(n: nat) -> nat {
    (16 - n % 16) as nat
}

/// `data` followed by `pad_len` bytes that each hold `pad_len`.
pub open spec fn padded(data: Seq<u8>) -> Seq<u8> {
    data + Seq::new(pad_len(data.len()), |i: int| pad_len(data.len()) as u8)
}

/// The `i`-th block of `data`.
pub open spec fn block_at(data: Seq<u8>, i: int) -> Seq<u8> {
    data.subrange(16 * i, 16 * i + 16)
}

/// `data`, a whole number of blocks, with each block encrypted on its own.
pub open spec fn ecb_encrypted(key: Seq<u8>, data: Seq<u8>) -> Seq<u8> {
    Seq::new(data.len(), |j: int| aes128_encrypt_block(key, block_at(data, j / 16))[j % 16])
}

/// `data`, a whole number of blocks, with each block decrypted on its own.
pub open spec fn ecb_decrypted(key: Seq<u8>, data: Seq<u8>) -> Seq<u8> {
    Seq::new(data.len(), |j: int| aes128_decrypt_block(key, block_at(data, j / 16))[j % 16])
}

/// The ciphertext of `message` under `key`.
pub open spec fn encrypt_spec(message: Seq<char>, key: Seq<u8>) -> Seq<u8> {
    ecb_encrypted(key, padded(encode_utf8(message)))
}

/// What is left of `plain` once the padding that its last byte announces
/// is cut off, or the reason why that cannot be read as text.
pub open spec fn unpadded_text(plain: Seq<u8>) -> Result<Seq<char>, DecryptError> {
    if plain.len() == 0 || plain.last() > plain.len() {
        Err(DecryptError::BadPadding)
    } else {
        let body = plain.take(plain.len() - plain.last());
        if valid_utf8(body) {
            Ok(decode_utf8(body))
        } else {
            Err(DecryptError::NotText)
        }
    }
}

/// The text that `ciphertext` holds under `key`, or the reason why it holds
/// none.
pub open spec fn decrypt_spec(ciphertext: Seq<u8>, key: Seq<u8>) -> Result<Seq<char>, DecryptError> {
    if ciphertext.len() % 16 != 0 {
        Err(DecryptError::BadLength)
    } else {
        unpadded_text(ecb_decrypted(key, ciphertext))
    }
}

/// Whether `ciphertext` is what `encrypt` gives for `message` under `key`:
/// the block-wise encryption of the padded message, which the block cipher
/// under the same key turns back into the padded message.
pub open spec fn is_encryption_of(ciphertext: Seq<u8>, message: Seq<char>, key: Seq<u8>) -> bool {
    &&& ciphertext == encrypt_spec(message, key)
    &&& ecb_decrypted(key, ciphertext) == padded(encode_utf8(message))
}

/// Padding adds between 1 and 16 bytes and fills the last block.
pub proof fn lemma_padded_len(data: Seq<u8>)
    ensures
        padded(data).len() == data.len() + pad_len(data.len()),
        1 <= pad_len(data.len()) <= 16,
        padded(data).len() % 16 == 0,
        padded(data).len() == 16 * (data.len() / 16 + 1),
{
}

/// Cutting the padding off padded UTF-8 text gives the text back.
pub proof fn lemma_unpadded_text(message: Seq<char>)
    ensures
        unpadded_text(padded(encode_utf8(message))) == Ok::<Seq<char>, DecryptError>(message),
{
    let data = encode_utf8(message);
    let plain = padded(data);
    lemma_padded_len(data);
    assert(plain.last() == pad_len(data.len()) as u8);
    assert(plain.take(plain.len() - plain.last()) =~= data);
    encode_utf8_valid_utf8(message);
    encode_utf8_decode_utf8(message);
}

/// A ciphertext is longer than the UTF-8 bytes of its message by between 1
/// and 16 bytes, and is a whole number of blocks.
pub proof fn lemma_ciphertext_len(message: Seq<char>, key: Seq<u8>)
    ensures
        encrypt_spec(message, key).len() % 16 == 0,
        encrypt_spec(message, key).len() > encode_utf8(message).len(),
        encrypt_spec(message, key).len() <= encode_utf8(message).len() + 16,
        encrypt_spec(message, key).len() == 16 * (encode_utf8(message).len() / 16 + 1),
{
    lemma_padded_len(encode_utf8(message));
}

/// Decrypting, under the same key, what `encrypt` gave for `message` gives
/// `message` back.
pub proof fn lemma_round_trip(message: Seq<char>, key: Seq<u8>, ciphertext: Seq<u8>)
    requires
        is_encryption_of(ciphertext, message, key),
    ensures
        decrypt_spec(ciphertext, key) == Ok::<Seq<char>, DecryptError>(message),
{
    lemma_ciphertext_len(message, key);
    lemma_unpadded_text(message);
}

/// Encrypts one block with `Aes128::encrypt_block`, under the cipher that
/// `Aes128::new` makes of `key`. The result is the AES-128 encryption of
/// the block, and AES-128 decryption under the same key leads back to the
/// block: a block cipher is a keyed permutation with decryption as its
/// inverse.
#[verifier::external_body]
fn cipher_encrypt_block(key: &[u8; 16], block: &[u8; 16]) -> (out: [u8; 16])
    ensures
        out@ == aes128_encrypt_block(key@, block@),
        aes128_decrypt_block(key@, out@) == block@,
{
    let mut buffer = GenericArray::from(*block);
    Aes128::new(GenericArray::from_slice(key)).encrypt_block(&mut buffer);
    buffer.into()
}

/// Decrypts one block with `Aes128::decrypt_block`, under the cipher that
/// `Aes128::new` makes of `key`. The result is the AES-128 decryption of
/// the block.
#[verifier::external_body]
fn cipher_decrypt_block(key: &[u8; 16], block: &[u8; 16]) -> (out: [u8; 16])
    ensures
        out@ == aes128_decrypt_block(key@, block@),
{
    let mut buffer = GenericArray::from(*block);
    Aes128::new(GenericArray::from_slice(key)).decrypt_block(&mut buffer);
    buffer.into()
}

/// The `i`-th block of `data`, as an array.
fn copy_block(data: &Vec<u8>, i: usize) -> (block: [u8; 16])
    requires
        16 * i + 16 <= data@.len(),
    ensures
        block@ == block_at(data@, i as int),
{
    let n: usize = data.len();
    let mut block: [u8; 16] = [0u8; 16];
    let mut k: usize = 0;
    while k < 16
        invariant
            n == data@.len(),
            16 * i + 16 <= n,
            k <= 16,
            forall|j: int| 0 <= j < k ==> block@[j] == data@[16 * i + j],
        decreases 16 - k,
    {
        block[k] = data[16 * i + k];
        k += 1;
    }
    assert(block@ =~= block_at(data@, i as int));
    block
}

/// Appends the 16 bytes of `block` to `out`.
fn push_block(out: &mut Vec<u8>, block: &[u8; 16])
    ensures
        final(out)@ == old(out)@ + block@,
{
    let mut k: usize = 0;
    while k < 16
        invariant
            k <= 16,
            out@ == old(out)@ + block@.take(k as int),
        decreases 16 - k,
    {
        out.push(block[k]);
        k += 1;
    }
    assert(block@.take(16) =~= block@);
}

/// Encrypts `message` under `key`: its UTF-8 bytes, padded to whole blocks,
/// each block enciphered on its own.
pub fn encrypt(message: &str, key: &[u8; 16]) -> (ciphertext: Vec<u8>)
    ensures
        is_encryption_of(ciphertext@, message@, key@),
        decrypt_spec(ciphertext@, key@) == Ok::<Seq<char>, DecryptError>(message@),
        ciphertext@.len() % 16 == 0,
        ciphertext@.len() > encode_utf8(message@).len(),
        ciphertext@.len() == 16 * (encode_utf8(message@).len() / 16 + 1),
{
    let mut data: Vec<u8> = slice_to_vec(message.as_bytes());
    let ghost bytes = data@;
    let fill: usize = BLOCK_SIZE - data.len() % BLOCK_SIZE;
    let mut k: usize = 0;
    while k < fill
        invariant
            k <= fill,
            1 <= fill <= 16,
            fill == pad_len(bytes.len()),
            data@ == bytes + Seq::new(k as nat, |i: int| fill as u8),
        decreases fill - k,
    {
        data.push(fill as u8);
        k += 1;
    }
    assert(data@ =~= padded(bytes));
    proof {
        lemma_padded_len(bytes);
    }
    let blocks: usize = data.len() / BLOCK_SIZE;
    let mut out: Vec<u8> = Vec::new();
    let mut i: usize = 0;
    while i < blocks
        invariant
            i <= blocks,
            data@.len() == 16 * blocks,
            out@.len() == 16 * i,
            forall|j: int|
                0 <= j < 16 * i ==> out@[j] == #[trigger] aes128_encrypt_block(
                    key@,
                    block_at(data@, j / 16),
                )[j % 16],
            forall|b: int|
                0 <= b < i ==> #[trigger] aes128_decrypt_block(key@, block_at(out@, b)) == block_at(
                    data@,
                    b,
                ),
        decreases blocks - i,
    {
        let block = copy_block(&data, i);
        let sealed = cipher_encrypt_block(key, &block);
        let ghost before = out@;
        push_block(&mut out, &sealed);
        proof {
            assert forall|j: int| 0 <= j < 16 * (i + 1) implies out@[j] == #[trigger] aes128_encrypt_block(
                key@,
                block_at(data@, j / 16),
            )[j % 16] by {
                if j >= 16 * i {
                    assert(j / 16 == i);
                    assert(out@[j] == sealed@[j - 16 * i]);
                } else {
                    assert(out@[j] == before[j]);
                }
            }
            assert forall|b: int| 0 <= b < i + 1 implies #[trigger] aes128_decrypt_block(
                key@,
                block_at(out@, b),
            ) == block_at(data@, b) by {
                if b < i {
                    assert(block_at(out@, b) =~= block_at(before, b));
                } else {
                    assert(block_at(out@, b) =~= sealed@);
                }
            }
        }
        i += 1;
    }
    proof {
        assert(out@ =~= ecb_encrypted(key@, data@));
        assert forall|j: int| 0 <= j < data@.len() implies ecb_decrypted(key@, out@)[j] == data@[j] by {
            let b = j / 16;
            assert(aes128_decrypt_block(key@, block_at(out@, b)) == block_at(data@, b));
            assert(block_at(data@, b)[j % 16] == data@[j]);
        }
        assert(ecb_decrypted(key@, out@) =~= data@);
        lemma_round_trip(message@, key@, out@);
    }
    out
}

/// Decrypts `msg` under `key`: each block deciphered on its own, the
/// padding that the last byte announces cut off, the rest read as UTF-8.
pub fn decrypt(msg: Vec<u8>, key: &[u8; 16]) -> (text: Result<String, DecryptError>)
    ensures
        match text {
            Ok(s) => decrypt_spec(msg@, key@) == Ok::<Seq<char>, DecryptError>(s@),
            Err(e) => decrypt_spec(msg@, key@) == Err::<Seq<char>, DecryptError>(e),
        },
{
    if msg.len() % BLOCK_SIZE != 0 {
        return Err(DecryptError::BadLength);
    }
    let blocks: usize = msg.len() / BLOCK_SIZE;
    let mut plain: Vec<u8> = Vec::new();
    let mut i: usize = 0;
    while i < blocks
        invariant
            i <= blocks,
            msg@.len() == 16 * blocks,
            plain@.len() == 16 * i,
            forall|j: int|
                0 <= j < 16 * i ==> plain@[j] == #[trigger] aes128_decrypt_block(
                    key@,
                    block_at(msg@, j / 16),
                )[j % 16],
        decreases blocks - i,
    {
        let block = copy_block(&msg, i);
        let opened = cipher_decrypt_block(key, &block);
        let ghost before = plain@;
        push_block(&mut plain, &opened);
        proof {
            assert forall|j: int| 0 <= j < 16 * (i + 1) implies plain@[j] == #[trigger] aes128_decrypt_block(
                key@,
                block_at(msg@, j / 16),
            )[j % 16] by {
                if j >= 16 * i {
                    assert(j / 16 == i);
                    assert(plain@[j] == opened@[j - 16 * i]);
                } else {
                    assert(plain@[j] == before[j]);
                }
            }
        }
        i += 1;
    }
    assert(plain@ =~= ecb_decrypted(key@, msg@));
    let n: usize = plain.len();
    if n == 0 {
        return Err(DecryptError::BadPadding);
    }
    let cut: usize = plain[n - 1] as usize;
    if cut > n {
        return Err(DecryptError::BadPadding);
    }
    plain.truncate(n - cut);
    match string_from_utf8(plain) {
        Some(s) => Ok(s),
        None => Err(DecryptError::NotText),
    }
}

} // verus!
