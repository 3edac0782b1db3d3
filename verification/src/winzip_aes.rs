//! The vendor AES scheme of the archive format: a key derived from the
//! password by PBKDF2-HMAC-SHA1 over a salt read from the stream, a
//! two-byte password-verification value, AES in counter mode with a
//! little-endian counter that starts at one, and an HMAC-SHA1 tag over the
//! ciphertext whose first ten bytes trail the stream.  Reads may come in
//! any chunk sizes, so the engine carries its position in the current
//! keystream block across calls.

use vstd::prelude::*;

use crate::bytes::{push_u32_le, u32_le_bytes};
use crate::mem_map::{aes_strength_of_byte, AesEncryptionStrength};
use crypto::mac::Mac;

verus! {

pub const PBKDF2_ROUNDS: u32 = 1000;

pub const AES_EXTRA_FIELD_SIZE: usize = 11;

pub const AES_CTR_BUFFER_SIZE: usize = 16;

/// Salt length in bytes for a key strength.
pub open spec fn aes_salt_len(s: AesEncryptionStrength) -> int {
    match s {
        AesEncryptionStrength::Aes128 => 8,
        AesEncryptionStrength::Aes192 => 12,
        AesEncryptionStrength::Aes256 => 16,
        AesEncryptionStrength::Unknown => 0,
    }
}

/// Key length in bytes for a key strength.
pub open spec fn aes_key_len(s: AesEncryptionStrength) -> int {
    match s {
        AesEncryptionStrength::Aes128 => 16,
        AesEncryptionStrength::Aes192 => 24,
        AesEncryptionStrength::Aes256 => 32,
        AesEncryptionStrength::Unknown => 0,
    }
}

/// The bytes PBKDF2-HMAC-SHA1 derives from a password and salt.
pub uninterp spec fn pbkdf2_sha1_of(
    password: Seq<u8>,
    salt: Seq<u8>,
    rounds: u32,
    dk_len: usize,
) -> Seq<u8>;

/// The 20-byte HMAC-SHA1 tag of a message under a key.
pub uninterp spec fn hmac_sha1_of(key: Seq<u8>, data: Seq<u8>) -> Seq<u8>;

/// The 16-byte keystream block AES in counter mode produces for one key
/// and one counter block.
pub uninterp spec fn aes_ctr_block_of(key: Seq<u8>, iv: Seq<u8>) -> Seq<u8>;

/// Relies on crypto::pbkdf2::pbkdf2 with crypto::hmac::Hmac over
/// crypto::sha1::Sha1: the derived bytes fill the whole output buffer and
/// depend on password, salt and round count alone.
#[verifier::external_body]
fn derive_key(password: &Vec<u8>, salt: &Vec<u8>, rounds: u32, dk_len: usize) -> (r: Vec<u8>)
    requires
        rounds >= 1,
        dk_len <= 0xffff,
    ensures
        r@ == pbkdf2_sha1_of(password@, salt@, rounds, dk_len),
        r@.len() == dk_len,
{
    let mut mac = crypto::hmac::Hmac::new(crypto::sha1::Sha1::new(), password.as_slice());
    let mut key = vec![0u8; dk_len];
    crypto::pbkdf2::pbkdf2(&mut mac, salt.as_slice(), rounds, &mut key);
    key
}

/// Relies on crypto::hmac::Hmac over crypto::sha1::Sha1: the 20-byte tag is
/// a function of key and message alone.
#[verifier::external_body]
fn hmac_sha1(key: &Vec<u8>, data: &Vec<u8>) -> (r: Vec<u8>)
    ensures
        r@ == hmac_sha1_of(key@, data@),
        r@.len() == 20,
{
    let mut mac = crypto::hmac::Hmac::new(crypto::sha1::Sha1::new(), key.as_slice());
    mac.input(data.as_slice());
    let mut out = vec![0u8; 20];
    mac.raw_result(&mut out);
    out
}

/// Relies on crypto::aes::ctr: a counter-mode cipher XORs its input with a
/// keystream determined by key and counter block alone, so processing
/// sixteen zero bytes with a fresh cipher returns that keystream block.
#[verifier::external_body]
fn aes_keystream_block(strength: &AesEncryptionStrength, key: &Vec<u8>, iv: &Vec<u8>) -> (r: Vec<
    u8,
>)
    requires
        *strength != AesEncryptionStrength::Unknown,
        key@.len() == aes_key_len(*strength),
        iv@.len() == 16,
    ensures
        r@ == aes_ctr_block_of(key@, iv@),
        r@.len() == 16,
{
    let key_size = match strength {
        AesEncryptionStrength::Aes128 => crypto::aes::KeySize::KeySize128,
        AesEncryptionStrength::Aes192 => crypto::aes::KeySize::KeySize192,
        AesEncryptionStrength::Aes256 => crypto::aes::KeySize::KeySize256,
        AesEncryptionStrength::Unknown => crypto::aes::KeySize::KeySize128,
    };
    let mut aes = crypto::aes::ctr(key_size, key.as_slice(), iv.as_slice());
    let zeroes = [0u8; 16];
    let mut out = vec![0u8; 16];
    aes.process(&zeroes, &mut out);
    out
}

/// The counter block for the given counter value: four little-endian bytes
/// and twelve zeroes.
pub open spec fn ctr_iv(counter: u32) -> Seq<u8> {
    u32_le_bytes(counter) + Seq::new(12, |i: int| 0u8)
}

/// The keystream byte at absolute position `pos` of a stream: byte
/// `pos % 16` of the block whose counter is `pos / 16 + 1`.
pub open spec fn aes_keystream_byte(key: Seq<u8>, pos: int) -> u8
    recommends
        0 <= pos,
        pos / 16 + 1 <= u32::MAX,
{
    aes_ctr_block_of(key, ctr_iv((pos / 16 + 1) as u32))[pos % 16]
}

/// `data` XORed against the keystream starting at absolute position `pos`.
pub open spec fn aes_ctr_xor_at(key: Seq<u8>, pos: int, data: Seq<u8>) -> Seq<u8>
    recommends
        0 <= pos,
{
    Seq::new(data.len(), |i: int| data[i] ^ aes_keystream_byte(key, pos + i))
}

/// Decrypting a stream in two reads, wherever it is split, gives the same
/// bytes as decrypting it whole: the keystream position carries across the
/// boundary.
pub proof fn lemma_aes_ctr_chunking(key: Seq<u8>, pos: int, c1: Seq<u8>, c2: Seq<u8>)
    requires
        0 <= pos,
    ensures
        aes_ctr_xor_at(key, pos, c1 + c2) == aes_ctr_xor_at(key, pos, c1) + aes_ctr_xor_at(
            key,
            pos + c1.len(),
            c2,
        ),
{
    assert(aes_ctr_xor_at(key, pos, c1 + c2) =~= aes_ctr_xor_at(key, pos, c1) + aes_ctr_xor_at(
        key,
        pos + c1.len(),
        c2,
    ));
}

/// XORing against the same keystream twice gives the plaintext back:
/// encryption and decryption are the same XOR at the same positions.
pub proof fn lemma_aes_ctr_xor_involution(key: Seq<u8>, pos: int, data: Seq<u8>)
    requires
        0 <= pos,
    ensures
        aes_ctr_xor_at(key, pos, aes_ctr_xor_at(key, pos, data)) == data,
{
    assert forall|i: int| 0 <= i < data.len() implies aes_ctr_xor_at(
        key,
        pos,
        aes_ctr_xor_at(key, pos, data),
    )[i] == data[i] by {
        let d = data[i];
        let k = aes_keystream_byte(key, pos + i);
        assert((d ^ k) ^ k == d) by (bit_vector);
    }
    assert(aes_ctr_xor_at(key, pos, aes_ctr_xor_at(key, pos, data)) =~= data);
}

#[derive(Debug)]
pub enum WinZipAesError {
    TruncatedStream,
    ExtraFieldSizeError(usize),
    UnknownEncryptionStrength(u8),
    InvalidPassword(Vec<u8>),
}

/// The bytes derived for a password and salt at a given strength: the
/// encryption key, then the authentication key, then the two-byte
/// password-verification value.
pub open spec fn aes_derived_bytes(
    password: Seq<u8>,
    salt: Seq<u8>,
    strength: AesEncryptionStrength,
) -> Seq<u8> {
    pbkdf2_sha1_of(password, salt, 1000, (2 * aes_key_len(strength) + 2) as usize)
}

/// Decrypts one entry body held in memory: salt and password-verification
/// value are checked on construction, content bytes are served by `read`
/// in caller-chosen chunk sizes, and the trailing ten-byte authentication
/// code can be verified against the ciphertext once reading is done.
pub struct WinZipAesReader {
    strength: AesEncryptionStrength,
    encryption_key: Vec<u8>,
    auth_key: Vec<u8>,
    cipher: Vec<u8>,
    auth_code: Vec<u8>,
    pos: usize,
    ks_block: Vec<u8>,
}

impl WinZipAesReader {
    pub closed spec fn wf(&self) -> bool {
        &&& self.strength != AesEncryptionStrength::Unknown
        &&& self.encryption_key@.len() == aes_key_len(self.strength)
        &&& self.pos <= self.cipher@.len()
        &&& self.cipher@.len() < 0x100000000
        &&& self.ks_block@ == aes_ctr_block_of(
            self.encryption_key@,
            ctr_iv((self.pos as int / 16 + 1) as u32),
        )
        &&& self.ks_block@.len() == 16
        &&& self.auth_code@.len() == 10
    }

    pub closed spec fn key(&self) -> Seq<u8> {
        self.encryption_key@
    }

    pub closed spec fn auth_key_view(&self) -> Seq<u8> {
        self.auth_key@
    }

    pub closed spec fn cipher_view(&self) -> Seq<u8> {
        self.cipher@
    }

    pub closed spec fn auth_code_view(&self) -> Seq<u8> {
        self.auth_code@
    }

    pub closed spec fn position(&self) -> int {
        self.pos as int
    }

    pub closed spec fn strength_view(&self) -> AesEncryptionStrength {
        self.strength
    }
}

/// The extra field carries a usable strength byte.
pub open spec fn aes_extra_ok(extra: Seq<u8>) -> bool {
    extra.len() >= 11 && aes_strength_of_byte(extra[8]) != AesEncryptionStrength::Unknown
}

/// The key strength the extra field names.
pub open spec fn aes_strength_of_extra(extra: Seq<u8>) -> AesEncryptionStrength
    recommends
        extra.len() >= 11,
{
    aes_strength_of_byte(extra[8])
}

/// The stream is long enough for salt, verification value and trailer.
pub open spec fn aes_data_long_enough(extra: Seq<u8>, data: Seq<u8>) -> bool
    recommends
        aes_extra_ok(extra),
{
    data.len() >= aes_salt_len(aes_strength_of_extra(extra)) + 12
}

/// The salt at the front of the stream.
pub open spec fn aes_salt_of(extra: Seq<u8>, data: Seq<u8>) -> Seq<u8>
    recommends
        aes_extra_ok(extra),
        aes_data_long_enough(extra, data),
{
    data.subrange(0, aes_salt_len(aes_strength_of_extra(extra)))
}

/// The derived bytes for this password and stream.
pub open spec fn aes_derived_of(password: Seq<u8>, extra: Seq<u8>, data: Seq<u8>) -> Seq<u8>
    recommends
        aes_extra_ok(extra),
        aes_data_long_enough(extra, data),
{
    aes_derived_bytes(password, aes_salt_of(extra, data), aes_strength_of_extra(extra))
}

/// The password check: the last two derived bytes must equal the two bytes
/// after the salt.
pub open spec fn aes_password_ok(password: Seq<u8>, extra: Seq<u8>, data: Seq<u8>) -> bool
    recommends
        aes_extra_ok(extra),
        aes_data_long_enough(extra, data),
{
    let st = aes_strength_of_extra(extra);
    let sl = aes_salt_len(st);
    let kl = aes_key_len(st);
    aes_derived_of(password, extra, data).subrange(2 * kl, 2 * kl + 2) == data.subrange(sl, sl + 2)
}

/// The encryption key derived for this password and stream.
pub open spec fn aes_encryption_key_of(password: Seq<u8>, extra: Seq<u8>, data: Seq<u8>) -> Seq<
    u8,
> {
    aes_derived_of(password, extra, data).subrange(0, aes_key_len(aes_strength_of_extra(extra)))
}

/// The authentication key derived for this password and stream.
pub open spec fn aes_auth_key_of(password: Seq<u8>, extra: Seq<u8>, data: Seq<u8>) -> Seq<u8> {
    let kl = aes_key_len(aes_strength_of_extra(extra));
    aes_derived_of(password, extra, data).subrange(kl, 2 * kl)
}

/// The ciphertext between the verification value and the trailer.
pub open spec fn aes_content_of(extra: Seq<u8>, data: Seq<u8>) -> Seq<u8>
    recommends
        aes_extra_ok(extra),
        aes_data_long_enough(extra, data),
{
    data.subrange(aes_salt_len(aes_strength_of_extra(extra)) + 2, data.len() - 10)
}

/// The ten-byte authentication code at the end of the stream.
pub open spec fn aes_auth_code_of(data: Seq<u8>) -> Seq<u8>
    recommends
        data.len() >= 10,
{
    data.subrange(data.len() - 10, data.len() as int)
}

/// The plaintext of a whole entry body: the ciphertext XORed against the
/// keystream from position zero.
pub open spec fn winzip_aes_plaintext(password: Seq<u8>, extra: Seq<u8>, data: Seq<u8>) -> Seq<u8>
    recommends
        aes_extra_ok(extra),
        aes_data_long_enough(extra, data),
{
    aes_ctr_xor_at(aes_encryption_key_of(password, extra, data), 0, aes_content_of(extra, data))
}

/// Builds the 16-byte counter block for a counter value.
fn make_ctr_iv(counter: u32) -> (r: Vec<u8>)
    ensures
        r@ == ctr_iv(counter),
        r@.len() == 16,
{
    let mut iv: Vec<u8> = Vec::new();
    push_u32_le(&mut iv, counter);
    let mut j: usize = 0;
    while j < 12
        invariant
            0 <= j <= 12,
            iv@ == u32_le_bytes(counter) + Seq::new(j as nat, |i: int| 0u8),
        decreases 12 - j,
    {
        iv.push(0u8);
        proof {
            assert(iv@ =~= u32_le_bytes(counter) + Seq::new((j + 1) as nat, |i: int| 0u8));
        }
        j = j + 1;
    }
    proof {
        assert(iv@ =~= ctr_iv(counter));
    }
    iv
}

impl WinZipAesReader {
    /// Parses the strength from the AES extra field, derives the keys from
    /// password and salt, and checks the two-byte verification value before
    /// any content byte is decrypted.
    pub fn new(password: &Vec<u8>, zip_item_extra_field: &Vec<u8>, data: Vec<u8>) -> (r: Result<
        Self,
        WinZipAesError,
    >)
        requires
            data@.len() < 0x100000000,
        ensures
            match r {
                Ok(reader) => {
                    &&& aes_extra_ok(zip_item_extra_field@)
                    &&& aes_data_long_enough(zip_item_extra_field@, data@)
                    &&& aes_password_ok(password@, zip_item_extra_field@, data@)
                    &&& reader.wf()
                    &&& reader.strength_view() == aes_strength_of_extra(zip_item_extra_field@)
                    &&& reader.key() == aes_encryption_key_of(
                        password@,
                        zip_item_extra_field@,
                        data@,
                    )
                    &&& reader.auth_key_view() == aes_auth_key_of(
                        password@,
                        zip_item_extra_field@,
                        data@,
                    )
                    &&& reader.cipher_view() == aes_content_of(zip_item_extra_field@, data@)
                    &&& reader.auth_code_view() == aes_auth_code_of(data@)
                    &&& reader.position() == 0
                },
                Err(WinZipAesError::ExtraFieldSizeError(n)) => {
                    &&& zip_item_extra_field@.len() < 11
                    &&& n == zip_item_extra_field@.len()
                },
                Err(WinZipAesError::UnknownEncryptionStrength(b)) => {
                    &&& zip_item_extra_field@.len() >= 11
                    &&& aes_strength_of_byte(zip_item_extra_field@[8])
                        == AesEncryptionStrength::Unknown
                    &&& b == zip_item_extra_field@[8]
                },
                Err(WinZipAesError::TruncatedStream) => {
                    &&& aes_extra_ok(zip_item_extra_field@)
                    &&& !aes_data_long_enough(zip_item_extra_field@, data@)
                },
                Err(WinZipAesError::InvalidPassword(p)) => {
                    &&& aes_extra_ok(zip_item_extra_field@)
                    &&& aes_data_long_enough(zip_item_extra_field@, data@)
                    &&& !aes_password_ok(password@, zip_item_extra_field@, data@)
                    &&& p@ == password@
                },
            },
    {
        let extra_field_length = zip_item_extra_field.len();
        if extra_field_length < AES_EXTRA_FIELD_SIZE {
            return Err(WinZipAesError::ExtraFieldSizeError(extra_field_length));
        }
        let encryption_strength_byte = zip_item_extra_field[8];
        let encryption_strength = AesEncryptionStrength::from_byte(encryption_strength_byte);
        let salt_size: usize = match encryption_strength {
            AesEncryptionStrength::Aes128 => 8,
            AesEncryptionStrength::Aes192 => 12,
            AesEncryptionStrength::Aes256 => 16,
            AesEncryptionStrength::Unknown => {
                return Err(
                    WinZipAesError::UnknownEncryptionStrength(encryption_strength_byte),
                );
            },
        };
        let key_length: usize = match encryption_strength {
            AesEncryptionStrength::Aes128 => 16,
            AesEncryptionStrength::Aes192 => 24,
            AesEncryptionStrength::Aes256 => 32,
            AesEncryptionStrength::Unknown => {
                return Err(
                    WinZipAesError::UnknownEncryptionStrength(encryption_strength_byte),
                );
            },
        };
        let data_len = data.len();
        if data_len < salt_size + 12 {
            return Err(WinZipAesError::TruncatedStream);
        }
        let salt = vstd::slice::slice_to_vec(&data[0..salt_size]);
        let dk_len = key_length * 2 + 2;
        let key = derive_key(password, &salt, PBKDF2_ROUNDS, dk_len);
        let pv_index = key_length * 2;
        let pv_matches = key[pv_index] == data[salt_size] && key[pv_index + 1] == data[salt_size
            + 1];
        proof {
            let derived = aes_derived_of(password@, zip_item_extra_field@, data@);
            let kl = aes_key_len(encryption_strength);
            let sl = salt_size as int;
            assert(derived == key@);
            assert(derived.subrange(2 * kl, 2 * kl + 2)[0] == derived[2 * kl]);
            assert(derived.subrange(2 * kl, 2 * kl + 2)[1] == derived[2 * kl + 1]);
            assert(data@.subrange(sl, sl + 2)[0] == data@[sl]);
            assert(data@.subrange(sl, sl + 2)[1] == data@[sl + 1]);
            if pv_matches {
                assert(derived.subrange(2 * kl, 2 * kl + 2) =~= data@.subrange(sl, sl + 2));
            }
        }
        if !pv_matches {
            return Err(WinZipAesError::InvalidPassword(
                vstd::slice::slice_to_vec(password.as_slice()),
            ));
        }
        let encryption_key = vstd::slice::slice_to_vec(&key[0..key_length]);
        let auth_key = vstd::slice::slice_to_vec(&key[key_length..pv_index]);
        let cipher = vstd::slice::slice_to_vec(&data[salt_size + 2..data_len - 10]);
        let auth_code = vstd::slice::slice_to_vec(&data[data_len - 10..data_len]);
        let iv = make_ctr_iv(1);
        let ks_block = aes_keystream_block(&encryption_strength, &encryption_key, &iv);
        Ok(
            WinZipAesReader {
                strength: encryption_strength,
                encryption_key,
                auth_key,
                cipher,
                auth_code,
                pos: 0,
                ks_block,
            },
        )
    }

    /// Decrypts and returns the next `buf_size` content bytes, or as many
    /// as remain; the keystream position is carried across calls, so any
    /// sequence of chunk sizes yields the same bytes.
    pub fn read(&mut self, buf_size: usize) -> (r: Vec<u8>)
        requires
            old(self).wf(),
        ensures
            final(self).wf(),
            final(self).key() == old(self).key(),
            final(self).auth_key_view() == old(self).auth_key_view(),
            final(self).cipher_view() == old(self).cipher_view(),
            final(self).auth_code_view() == old(self).auth_code_view(),
            final(self).strength_view() == old(self).strength_view(),
            final(self).position() == old(self).position() + r@.len(),
            r@.len() == if buf_size <= old(self).cipher_view().len() - old(self).position() {
                buf_size as int
            } else {
                old(self).cipher_view().len() - old(self).position()
            },
            r@ == aes_ctr_xor_at(
                old(self).key(),
                old(self).position(),
                old(self).cipher_view().subrange(
                    old(self).position(),
                    old(self).position() + r@.len(),
                ),
            ),
    {
        let remaining = self.cipher.len() - self.pos;
        let count = if buf_size <= remaining {
            buf_size
        } else {
            remaining
        };
        let ghost key = self.encryption_key@;
        let ghost start = self.pos as int;
        let end = self.pos + count;
        let mut out: Vec<u8> = Vec::new();
        assert(out@ =~= aes_ctr_xor_at(key, start, self.cipher@.subrange(start, start)));
        while self.pos < end
            invariant
                self.wf(),
                self.encryption_key@ == key,
                self.cipher@ == old(self).cipher@,
                self.auth_key@ == old(self).auth_key@,
                self.auth_code@ == old(self).auth_code@,
                self.strength == old(self).strength,
                0 <= start <= self.pos <= end,
                end <= self.cipher@.len(),
                out@ == aes_ctr_xor_at(key, start, self.cipher@.subrange(start, self.pos as int)),
                out@.len() == self.pos - start,
            decreases end - self.pos,
        {
            let c = self.cipher[self.pos];
            let k = self.ks_block[self.pos % 16];
            proof {
                assert(k == aes_keystream_byte(key, self.pos as int));
            }
            out.push(c ^ k);
            proof {
                assert(out@ =~= aes_ctr_xor_at(key, start, self.cipher@.subrange(
                    start,
                    self.pos + 1,
                )));
            }
            self.pos = self.pos + 1;
            if self.pos % 16 == 0 {
                let counter = (self.pos / 16 + 1) as u32;
                let iv = make_ctr_iv(counter);
                self.ks_block = aes_keystream_block(&self.strength, &self.encryption_key, &iv);
            } else {
                proof {
                    assert(self.pos as int / 16 == (self.pos - 1) as int / 16);
                }
            }
        }
        out
    }

    /// Decrypts everything that remains.
    pub fn read_to_end(&mut self) -> (r: Vec<u8>)
        requires
            old(self).wf(),
        ensures
            final(self).wf(),
            final(self).position() == old(self).cipher_view().len(),
            final(self).key() == old(self).key(),
            final(self).auth_key_view() == old(self).auth_key_view(),
            final(self).cipher_view() == old(self).cipher_view(),
            final(self).auth_code_view() == old(self).auth_code_view(),
            r@ == aes_ctr_xor_at(
                old(self).key(),
                old(self).position(),
                old(self).cipher_view().subrange(
                    old(self).position(),
                    old(self).cipher_view().len() as int,
                ),
            ),
    {
        let remaining = self.cipher.len() - self.pos;
        self.read(remaining)
    }

    /// Compares the first ten bytes of the HMAC-SHA1 tag over the whole
    /// ciphertext against the authentication code that trailed the stream.
    pub fn verify_authentication(&self) -> (r: bool)
        requires
            self.wf(),
        ensures
            r == (hmac_sha1_of(self.auth_key_view(), self.cipher_view()).subrange(0, 10)
                == self.auth_code_view()),
    {
        let tag = hmac_sha1(&self.auth_key, &self.cipher);
        let mut i: usize = 0;
        let mut all_equal = true;
        while i < 10
            invariant
                0 <= i <= 10,
                tag@ == hmac_sha1_of(self.auth_key@, self.cipher@),
                tag@.len() == 20,
                self.auth_code@.len() == 10,
                all_equal == (forall|j: int| 0 <= j < i ==> tag@[j] == self.auth_code@[j]),
            decreases 10 - i,
        {
            let same = tag[i] == self.auth_code[i];
            all_equal = all_equal && same;
            i = i + 1;
        }
        proof {
            if all_equal {
                assert(tag@.subrange(0, 10) =~= self.auth_code@);
            } else {
                let j = choose|j: int| 0 <= j < 10 && tag@[j] != self.auth_code@[j];
                assert(tag@.subrange(0, 10)[j] == tag@[j]);
                assert(tag@.subrange(0, 10) != self.auth_code@);
            }
        }
        all_equal
    }
}

} // verus!
