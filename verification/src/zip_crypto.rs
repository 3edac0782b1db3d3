//! The legacy password stream cipher of the archive format: three 32-bit
//! key words stirred by a CRC-32 step, a multiplicative mix, and a stream
//! byte drawn from the third word.  Decryption first works through a
//! 12-byte encryption header whose last byte must match the high byte of
//! the entry's checksum; only then is any content byte touched.

use vstd::prelude::*;

verus! {

pub const ZIP_CRYPTO_POLYNOMIAL: u32 = 0xEDB88320;

const PKZIP_INITIAL_KEY_1: u32 = 0x12345678;

const PKZIP_INITIAL_KEY_2: u32 = 0x23456789;

const PKZIP_INITIAL_KEY_3: u32 = 0x34567890;

/// The 256-entry CRC table built from a polynomial.
pub uninterp spec fn crc_table_of(poly: u32) -> Seq<u32>;

/// Relies on crc::crc32::make_table: the table is computed from the
/// polynomial alone, one entry per byte value.
#[verifier::external_body]
fn make_crc_table(poly: u32) -> (r: Vec<u32>)
    ensures
        r@ == crc_table_of(poly),
        r@.len() == 256,
{
    crc::crc32::make_table(poly).to_vec()
}

/// Relies on rand::random: a fresh value from the thread-local generator;
/// nothing can be promised of it.
pub assume_specification<T>[ rand::random::<T> ]() -> (r: T)
    where
        rand::distributions::Standard: rand::distributions::Distribution<T>,
;

/// One table-driven CRC step: shift the running value and fold in a byte.
pub open spec fn zc_step(table: Seq<u32>, crc: u32, input: u8) -> u32
    recommends
        table.len() == 256,
{
    (crc >> 8) ^ table[(((crc & 0xff) as u8) ^ input) as int]
}

/// The second key word after a byte is folded in; all arithmetic wraps.
pub open spec fn zc_key2_next(key2: u32, key1_next: u32) -> u32 {
    ((((key2 + (key1_next & 0xff)) as u32) * 0x08088405) as u32 + 1) as u32
}

/// The three key words after one byte of input is folded into the state.
pub open spec fn zc_update(table: Seq<u32>, keys: (u32, u32, u32), input: u8) -> (u32, u32, u32)
    recommends
        table.len() == 256,
{
    let key1 = zc_step(table, keys.0, input);
    let key2 = zc_key2_next(keys.1, key1);
    let key3 = zc_step(table, keys.2, (key2 >> 24) as u8);
    (key1, key2, key3)
}

/// The cipher byte the state emits, drawn from the third key word.
pub open spec fn zc_stream_byte(key3: u32) -> u8 {
    let t = ((key3 as u16) | 3) as u32;
    (((t * (t ^ 1)) as u32) >> 8) as u8
}

/// The fixed initial key words.
pub open spec fn zc_initial_keys() -> (u32, u32, u32) {
    (0x12345678u32, 0x23456789u32, 0x34567890u32)
}

/// The key words after every byte of `data` is folded in, in order.
pub open spec fn zc_update_seq(table: Seq<u32>, keys: (u32, u32, u32), data: Seq<u8>) -> (
    u32,
    u32,
    u32,
)
    decreases data.len(),
{
    if data.len() == 0 {
        keys
    } else {
        zc_update_seq(table, zc_update(table, keys, data.first()), data.drop_first())
    }
}

/// Ciphertext of `plain`: each byte is XORed with the stream byte, and the
/// plaintext byte is folded into the key state.
pub open spec fn zc_encrypt_seq(table: Seq<u32>, keys: (u32, u32, u32), plain: Seq<u8>) -> Seq<u8>
    decreases plain.len(),
{
    if plain.len() == 0 {
        Seq::empty()
    } else {
        let c = zc_stream_byte(keys.2) ^ plain.first();
        seq![c] + zc_encrypt_seq(table, zc_update(table, keys, plain.first()), plain.drop_first())
    }
}

/// The key words after `plain` has been encrypted.
pub open spec fn zc_keys_after_encrypt(
    table: Seq<u32>,
    keys: (u32, u32, u32),
    plain: Seq<u8>,
) -> (u32, u32, u32)
    decreases plain.len(),
{
    if plain.len() == 0 {
        keys
    } else {
        zc_keys_after_encrypt(table, zc_update(table, keys, plain.first()), plain.drop_first())
    }
}

/// Plaintext of `cipher`: each byte is XORed with the stream byte, and the
/// recovered plaintext byte is folded into the key state.
pub open spec fn zc_decrypt_seq(table: Seq<u32>, keys: (u32, u32, u32), cipher: Seq<u8>) -> Seq<u8>
    decreases cipher.len(),
{
    if cipher.len() == 0 {
        Seq::empty()
    } else {
        let p = zc_stream_byte(keys.2) ^ cipher.first();
        seq![p] + zc_decrypt_seq(table, zc_update(table, keys, p), cipher.drop_first())
    }
}

/// The key words after `cipher` has been decrypted.
pub open spec fn zc_keys_after_decrypt(
    table: Seq<u32>,
    keys: (u32, u32, u32),
    cipher: Seq<u8>,
) -> (u32, u32, u32)
    decreases cipher.len(),
{
    if cipher.len() == 0 {
        keys
    } else {
        let p = zc_stream_byte(keys.2) ^ cipher.first();
        zc_keys_after_decrypt(table, zc_update(table, keys, p), cipher.drop_first())
    }
}

pub proof fn lemma_zc_update_seq_snoc(table: Seq<u32>, keys: (u32, u32, u32), data: Seq<u8>, b: u8)
    ensures
        zc_update_seq(table, keys, data.push(b)) == zc_update(
            table,
            zc_update_seq(table, keys, data),
            b,
        ),
    decreases data.len(),
{
    if data.len() == 0 {
        let k2 = zc_update(table, keys, b);
        assert(data.push(b).first() == b);
        assert(data.push(b).drop_first() =~= Seq::<u8>::empty());
        assert(zc_update_seq(table, k2, Seq::<u8>::empty()) == k2);
    } else {
        assert(data.push(b).first() == data.first());
        assert(data.push(b).drop_first() =~= data.drop_first().push(b));
        lemma_zc_update_seq_snoc(table, zc_update(table, keys, data.first()), data.drop_first(), b);
    }
}

pub proof fn lemma_zc_encrypt_snoc(table: Seq<u32>, keys: (u32, u32, u32), plain: Seq<u8>, b: u8)
    ensures
        zc_encrypt_seq(table, keys, plain.push(b)) == zc_encrypt_seq(table, keys, plain).push(
            zc_stream_byte(zc_keys_after_encrypt(table, keys, plain).2) ^ b,
        ),
        zc_keys_after_encrypt(table, keys, plain.push(b)) == zc_update(
            table,
            zc_keys_after_encrypt(table, keys, plain),
            b,
        ),
    decreases plain.len(),
{
    if plain.len() == 0 {
        let k2 = zc_update(table, keys, b);
        assert(plain.push(b).first() == b);
        assert(plain.push(b).drop_first() =~= Seq::<u8>::empty());
        assert(zc_encrypt_seq(table, k2, Seq::<u8>::empty()) =~= Seq::<u8>::empty());
        assert(zc_keys_after_encrypt(table, k2, Seq::<u8>::empty()) == k2);
        assert(zc_encrypt_seq(table, keys, plain.push(b)) =~= zc_encrypt_seq(
            table,
            keys,
            plain,
        ).push(zc_stream_byte(zc_keys_after_encrypt(table, keys, plain).2) ^ b));
    } else {
        let k2 = zc_update(table, keys, plain.first());
        let pdf = plain.drop_first();
        let c0 = zc_stream_byte(keys.2) ^ plain.first();
        let x = zc_stream_byte(zc_keys_after_encrypt(table, k2, pdf).2) ^ b;
        assert(plain.push(b).first() == plain.first());
        assert(plain.push(b).drop_first() =~= pdf.push(b));
        lemma_zc_encrypt_snoc(table, k2, pdf, b);
        assert(zc_keys_after_encrypt(table, keys, plain) == zc_keys_after_encrypt(table, k2, pdf));
        assert(zc_encrypt_seq(table, keys, plain.push(b)) == seq![c0] + zc_encrypt_seq(
            table,
            k2,
            pdf.push(b),
        ));
        assert(zc_encrypt_seq(table, k2, pdf.push(b)) == zc_encrypt_seq(table, k2, pdf).push(x));
        assert(seq![c0] + zc_encrypt_seq(table, k2, pdf).push(x) =~= (seq![c0] + zc_encrypt_seq(
            table,
            k2,
            pdf,
        )).push(x));
        assert(zc_encrypt_seq(table, keys, plain) == seq![c0] + zc_encrypt_seq(table, k2, pdf));
    }
}

pub proof fn lemma_zc_decrypt_snoc(table: Seq<u32>, keys: (u32, u32, u32), cipher: Seq<u8>, b: u8)
    ensures
        zc_decrypt_seq(table, keys, cipher.push(b)) == zc_decrypt_seq(table, keys, cipher).push(
            zc_stream_byte(zc_keys_after_decrypt(table, keys, cipher).2) ^ b,
        ),
        zc_keys_after_decrypt(table, keys, cipher.push(b)) == zc_update(
            table,
            zc_keys_after_decrypt(table, keys, cipher),
            zc_stream_byte(zc_keys_after_decrypt(table, keys, cipher).2) ^ b,
        ),
    decreases cipher.len(),
{
    if cipher.len() == 0 {
        let p = zc_stream_byte(keys.2) ^ b;
        let k2 = zc_update(table, keys, p);
        assert(cipher.push(b).first() == b);
        assert(cipher.push(b).drop_first() =~= Seq::<u8>::empty());
        assert(zc_decrypt_seq(table, k2, Seq::<u8>::empty()) =~= Seq::<u8>::empty());
        assert(zc_keys_after_decrypt(table, k2, Seq::<u8>::empty()) == k2);
        assert(zc_decrypt_seq(table, keys, cipher.push(b)) =~= zc_decrypt_seq(
            table,
            keys,
            cipher,
        ).push(zc_stream_byte(zc_keys_after_decrypt(table, keys, cipher).2) ^ b));
    } else {
        let p = zc_stream_byte(keys.2) ^ cipher.first();
        let k2 = zc_update(table, keys, p);
        let cdf = cipher.drop_first();
        let x = zc_stream_byte(zc_keys_after_decrypt(table, k2, cdf).2) ^ b;
        assert(cipher.push(b).first() == cipher.first());
        assert(cipher.push(b).drop_first() =~= cdf.push(b));
        lemma_zc_decrypt_snoc(table, k2, cdf, b);
        assert(zc_keys_after_decrypt(table, keys, cipher) == zc_keys_after_decrypt(table, k2, cdf));
        assert(zc_decrypt_seq(table, keys, cipher.push(b)) == seq![p] + zc_decrypt_seq(
            table,
            k2,
            cdf.push(b),
        ));
        assert(zc_decrypt_seq(table, k2, cdf.push(b)) == zc_decrypt_seq(table, k2, cdf).push(x));
        assert(seq![p] + zc_decrypt_seq(table, k2, cdf).push(x) =~= (seq![p] + zc_decrypt_seq(
            table,
            k2,
            cdf,
        )).push(x));
        assert(zc_decrypt_seq(table, keys, cipher) == seq![p] + zc_decrypt_seq(table, k2, cdf));
    }
}

/// Decrypting the encryption of a payload, from the same key state,
/// recovers the payload exactly, whatever the table and starting keys.
pub proof fn lemma_zip_crypto_round_trip(table: Seq<u32>, keys: (u32, u32, u32), plain: Seq<u8>)
    ensures
        zc_decrypt_seq(table, keys, zc_encrypt_seq(table, keys, plain)) == plain,
        zc_keys_after_decrypt(table, keys, zc_encrypt_seq(table, keys, plain))
            == zc_keys_after_encrypt(table, keys, plain),
    decreases plain.len(),
{
    if plain.len() == 0 {
        assert(zc_decrypt_seq(table, keys, zc_encrypt_seq(table, keys, plain)) =~= plain);
    } else {
        let p0 = plain.first();
        let s = zc_stream_byte(keys.2);
        let c0 = s ^ p0;
        assert(s ^ (s ^ p0) == p0) by (bit_vector);
        let cipher = zc_encrypt_seq(table, keys, plain);
        assert(cipher.first() == c0);
        assert(cipher.drop_first() =~= zc_encrypt_seq(
            table,
            zc_update(table, keys, p0),
            plain.drop_first(),
        ));
        lemma_zip_crypto_round_trip(table, zc_update(table, keys, p0), plain.drop_first());
        assert(zc_decrypt_seq(table, keys, cipher) =~= plain);
    }
}

pub proof fn lemma_zc_encrypt_len(table: Seq<u32>, keys: (u32, u32, u32), plain: Seq<u8>)
    ensures
        zc_encrypt_seq(table, keys, plain).len() == plain.len(),
    decreases plain.len(),
{
    if plain.len() > 0 {
        lemma_zc_encrypt_len(table, zc_update(table, keys, plain.first()), plain.drop_first());
    }
}

/// What encryption writes, decryption accepts: for any password, any
/// encryption header whose last byte is the high byte of the entry's
/// checksum, and any payload, the stream made of the encrypted header
/// followed by the encrypted payload decrypts so that the header check
/// passes and the payload comes back exactly.
pub proof fn lemma_zip_crypto_writer_reader_agree(
    table: Seq<u32>,
    password: Seq<u8>,
    hdr: Seq<u8>,
    payload: Seq<u8>,
    file_crc: u32,
)
    requires
        hdr.len() == 12,
        hdr[11] == (file_crc >> 24) as u8,
    ensures
        ({
            let kpw = zc_update_seq(table, zc_initial_keys(), password);
            let cipher = zc_encrypt_seq(table, kpw, hdr) + zc_encrypt_seq(
                table,
                zc_keys_after_encrypt(table, kpw, hdr),
                payload,
            );
            &&& zc_decrypt_seq(table, kpw, cipher.subrange(0, 12))[11] == (file_crc >> 24) as u8
            &&& zc_decrypt_seq(
                table,
                zc_keys_after_decrypt(table, kpw, cipher.subrange(0, 12)),
                cipher.subrange(12, cipher.len() as int),
            ) == payload
        }),
{
    let kpw = zc_update_seq(table, zc_initial_keys(), password);
    let enc_hdr = zc_encrypt_seq(table, kpw, hdr);
    let enc_body = zc_encrypt_seq(table, zc_keys_after_encrypt(table, kpw, hdr), payload);
    let cipher = enc_hdr + enc_body;
    lemma_zc_encrypt_len(table, kpw, hdr);
    lemma_zc_encrypt_len(table, zc_keys_after_encrypt(table, kpw, hdr), payload);
    assert(cipher.subrange(0, 12) =~= enc_hdr);
    assert(cipher.subrange(12, cipher.len() as int) =~= enc_body);
    lemma_zip_crypto_round_trip(table, kpw, hdr);
    assert(zc_decrypt_seq(table, kpw, enc_hdr)[11] == hdr[11]);
    lemma_zip_crypto_round_trip(table, zc_keys_after_encrypt(table, kpw, hdr), payload);
}

#[derive(Debug)]
pub enum ZipCryptoError {
    InvalidPassword(Vec<u8>),
    TruncatedStream,
}

/// The raw cipher state: three key words and the CRC table they are
/// stirred with.
pub struct ZipCrypto {
    key1: u32,
    key2: u32,
    key3: u32,
    zip_crypto_polynomial_table: Vec<u32>,
}

impl ZipCrypto {
    pub closed spec fn wf(&self) -> bool {
        &&& self.zip_crypto_polynomial_table@ == crc_table_of(ZIP_CRYPTO_POLYNOMIAL)
        &&& self.zip_crypto_polynomial_table@.len() == 256
    }

    pub closed spec fn keys(&self) -> (u32, u32, u32) {
        (self.key1, self.key2, self.key3)
    }

    pub closed spec fn table(&self) -> Seq<u32> {
        self.zip_crypto_polynomial_table@
    }


    pub fn new() -> (r: Self)
        ensures
            r.wf(),
            r.keys() == zc_initial_keys(),
    {
        let polynomial_table = make_crc_table(ZIP_CRYPTO_POLYNOMIAL);
        Self {
            key1: PKZIP_INITIAL_KEY_1,
            key2: PKZIP_INITIAL_KEY_2,
            key3: PKZIP_INITIAL_KEY_3,
            zip_crypto_polynomial_table: polynomial_table,
        }
    }

    /// One table-driven CRC step over the given running value.
    pub fn crc32(&self, crc: u32, input: u8) -> (r: u32)
        requires
            self.wf(),
        ensures
            r == zc_step(self.table(), crc, input),
    {
        let idx = ((crc & 0xff) as u8) ^ input;
        (crc >> 8) ^ self.zip_crypto_polynomial_table[idx as usize]
    }

    /// Folds one byte into the three key words.
    pub fn update_keys(&mut self, ch: u8)
        requires
            old(self).wf(),
        ensures
            final(self).wf(),
            final(self).table() == old(self).table(),
            final(self).keys() == zc_update(old(self).table(), old(self).keys(), ch),
    {
        self.key1 = self.crc32(self.key1, ch);
        let k1n = self.key1;
        let k2old = self.key2;
        let sum: u64 = k2old as u64 + ((k1n & 0xff) as u64);
        let low: u32 = (sum % 0x100000000) as u32;
        proof {
            assert((low as u64) * 0x08088405 + 1 <= 0xffffffffffffffff) by (bit_vector);
        }
        let mixed: u64 = (low as u64) * 0x08088405 + 1;
        let k2n: u32 = (mixed % 0x100000000) as u32;
        proof {
            assert(k2n == zc_key2_next(k2old, k1n)) by (bit_vector)
                requires
                    sum == k2old as u64 + ((k1n & 0xff) as u64),
                    low == (sum % 0x100000000) as u32,
                    mixed == (low as u64) * 0x08088405 + 1,
                    k2n == (mixed % 0x100000000) as u32,
            ;
        }
        self.key2 = k2n;
        self.key3 = self.crc32(self.key3, (self.key2 >> 24) as u8);
    }

    /// The cipher byte the current state emits.
    pub fn stream_byte(&self) -> (r: u8)
        ensures
            r == zc_stream_byte(self.keys().2),
    {
        let k3 = self.key3;
        let t: u32 = ((k3 as u16) | 3) as u32;
        proof {
            assert(t * (t ^ 1) < 0x100000000) by (bit_vector)
                requires
                    t == ((k3 as u16) | 3) as u32,
            ;
        }
        ((t * (t ^ 1)) >> 8) as u8
    }

    /// Encrypts one byte: XOR with the stream byte, then fold the
    /// plaintext byte into the keys.
    pub fn encrypt_byte(&mut self, char_byte: u8) -> (r: u8)
        requires
            old(self).wf(),
        ensures
            final(self).wf(),
            final(self).table() == old(self).table(),
            r == zc_stream_byte(old(self).keys().2) ^ char_byte,
            final(self).keys() == zc_update(old(self).table(), old(self).keys(), char_byte),
    {
        let cipher_byte = self.stream_byte() ^ char_byte;
        self.update_keys(char_byte);
        cipher_byte
    }

    /// Decrypts one byte: XOR with the stream byte, then fold the
    /// recovered plaintext byte into the keys.
    pub fn decrypt_byte(&mut self, char_byte: u8) -> (r: u8)
        requires
            old(self).wf(),
        ensures
            final(self).wf(),
            final(self).table() == old(self).table(),
            r == zc_stream_byte(old(self).keys().2) ^ char_byte,
            final(self).keys() == zc_update(old(self).table(), old(self).keys(), r),
    {
        let temp = self.stream_byte() ^ char_byte;
        self.update_keys(temp);
        temp
    }
}

/// The key words after a password has been folded into the fresh state.
pub open spec fn zc_password_keys(password: Seq<u8>) -> (u32, u32, u32) {
    zc_update_seq(crc_table_of(ZIP_CRYPTO_POLYNOMIAL), zc_initial_keys(), password)
}

/// The 12 plaintext bytes of the encryption header at the front of `cipher`,
/// as decryption with `password` recovers them.
pub open spec fn zc_header_plain(password: Seq<u8>, cipher: Seq<u8>) -> Seq<u8>
    recommends
        cipher.len() >= 12,
{
    zc_decrypt_seq(
        crc_table_of(ZIP_CRYPTO_POLYNOMIAL),
        zc_password_keys(password),
        cipher.subrange(0, 12),
    )
}

/// The password check: the last decrypted header byte must equal the high
/// byte of the entry's declared checksum.
pub open spec fn zc_password_check_passes(
    password: Seq<u8>,
    cipher: Seq<u8>,
    file_crc: u32,
) -> bool
    recommends
        cipher.len() >= 12,
{
    zc_header_plain(password, cipher)[11] == (file_crc >> 24) as u8
}

/// The plaintext of a whole encrypted entry body: the 12-byte header is
/// worked through first, then every content byte is decrypted.
pub open spec fn zip_crypto_plaintext(password: Seq<u8>, cipher: Seq<u8>) -> Seq<u8>
    recommends
        cipher.len() >= 12,
{
    let table = crc_table_of(ZIP_CRYPTO_POLYNOMIAL);
    zc_decrypt_seq(
        table,
        zc_keys_after_decrypt(table, zc_password_keys(password), cipher.subrange(0, 12)),
        cipher.subrange(12, cipher.len() as int),
    )
}

/// Folds every byte of `password` into the cipher state, in order.
fn fold_password(zc: &mut ZipCrypto, password: &Vec<u8>)
    requires
        old(zc).wf(),
    ensures
        final(zc).wf(),
        final(zc).table() == old(zc).table(),
        final(zc).keys() == zc_update_seq(old(zc).table(), old(zc).keys(), password@),
{
    let n = password.len();
    let mut i: usize = 0;
    assert(password@.subrange(0, 0) =~= Seq::<u8>::empty());
    while i < n
        invariant
            0 <= i <= n,
            n == password@.len(),
            zc.wf(),
            zc.table() == old(zc).table(),
            zc.keys() == zc_update_seq(old(zc).table(), old(zc).keys(), password@.subrange(
                0,
                i as int,
            )),
        decreases n - i,
    {
        let b = password[i];
        zc.update_keys(b);
        proof {
            lemma_zc_update_seq_snoc(
                old(zc).table(),
                old(zc).keys(),
                password@.subrange(0, i as int),
                b,
            );
            assert(password@.subrange(0, i + 1) =~= password@.subrange(0, i as int).push(b));
        }
        i = i + 1;
    }
    assert(password@.subrange(0, n as int) =~= password@);
}

/// Decrypts one entry body held in memory: the 12-byte encryption header is
/// decrypted and checked on construction, content bytes are served by `read`.
pub struct ZipCryptoReader {
    zip_crypto: ZipCrypto,
    cipher: Vec<u8>,
    pos: usize,
}

impl ZipCryptoReader {
    pub closed spec fn wf(&self) -> bool {
        &&& self.zip_crypto.wf()
        &&& self.pos <= self.cipher@.len()
    }

    pub closed spec fn keys(&self) -> (u32, u32, u32) {
        self.zip_crypto.keys()
    }

    pub closed spec fn cipher_view(&self) -> Seq<u8> {
        self.cipher@
    }

    pub closed spec fn position(&self) -> int {
        self.pos as int
    }

    /// Checks the password against the 12-byte encryption header before any
    /// content byte is decrypted; a failed check returns `InvalidPassword`
    /// and a stream too short for the header returns `TruncatedStream`.
    pub fn new(password: &Vec<u8>, file_crc: u32, cipher: Vec<u8>) -> (r: Result<
        Self,
        ZipCryptoError,
    >)
        ensures
            match r {
                Ok(reader) => {
                    &&& cipher@.len() >= 12
                    &&& zc_password_check_passes(password@, cipher@, file_crc)
                    &&& reader.wf()
                    &&& reader.cipher_view() == cipher@
                    &&& reader.position() == 12
                    &&& reader.keys() == zc_keys_after_decrypt(
                        crc_table_of(ZIP_CRYPTO_POLYNOMIAL),
                        zc_password_keys(password@),
                        cipher@.subrange(0, 12),
                    )
                },
                Err(ZipCryptoError::InvalidPassword(p)) => {
                    &&& cipher@.len() >= 12
                    &&& !zc_password_check_passes(password@, cipher@, file_crc)
                    &&& p@ == password@
                },
                Err(ZipCryptoError::TruncatedStream) => cipher@.len() < 12,
            },
    {
        if cipher.len() < 12 {
            return Err(ZipCryptoError::TruncatedStream);
        }
        let mut self_obj = Self { zip_crypto: ZipCrypto::new(), cipher, pos: 0 };
        let encryption_header = self_obj.decrypt_encryption_header(password);
        let crc_high_order_byte = (file_crc >> 24) as u8;
        if encryption_header[11] != crc_high_order_byte {
            return Err(ZipCryptoError::InvalidPassword(password.clone()));
        }
        Ok(self_obj)
    }

    /// Folds the password in, then decrypts the 12 header bytes in lock
    /// step: each byte is both ciphertext and key-schedule input.
    fn decrypt_encryption_header(&mut self, password: &Vec<u8>) -> (r: Vec<u8>)
        requires
            old(self).zip_crypto.wf(),
            old(self).zip_crypto.keys() == zc_initial_keys(),
            old(self).zip_crypto.table() == crc_table_of(ZIP_CRYPTO_POLYNOMIAL),
            old(self).pos == 0,
            old(self).cipher@.len() >= 12,
        ensures
            final(self).wf(),
            final(self).cipher_view() == old(self).cipher_view(),
            final(self).position() == 12,
            r@ == zc_header_plain(password@, old(self).cipher_view()),
            r@.len() == 12,
            final(self).keys() == zc_keys_after_decrypt(
                crc_table_of(ZIP_CRYPTO_POLYNOMIAL),
                zc_password_keys(password@),
                old(self).cipher_view().subrange(0, 12),
            ),
    {
        fold_password(&mut self.zip_crypto, password);
        let ghost table = crc_table_of(ZIP_CRYPTO_POLYNOMIAL);
        let ghost kpw = zc_password_keys(password@);
        let mut header: Vec<u8> = Vec::new();
        assert(self.cipher@.subrange(0, 0) =~= Seq::<u8>::empty());
        while self.pos < 12
        invariant
            self.zip_crypto.wf(),
            self.zip_crypto.table() == table,
            self.cipher@ == old(self).cipher@,
            self.cipher@.len() >= 12,
            0 <= self.pos <= 12,
            header@ == zc_decrypt_seq(table, kpw, self.cipher@.subrange(0, self.pos as int)),
            header@.len() == self.pos,
            self.zip_crypto.keys() == zc_keys_after_decrypt(
                table,
                kpw,
                self.cipher@.subrange(0, self.pos as int),
            ),
        decreases 12 - self.pos,
        {
            let b = self.cipher[self.pos];
            let p = self.zip_crypto.decrypt_byte(b);
            proof {
                lemma_zc_decrypt_snoc(table, kpw, self.cipher@.subrange(0, self.pos as int), b);
                assert(self.cipher@.subrange(0, self.pos + 1) =~= self.cipher@.subrange(
                    0,
                    self.pos as int,
                ).push(b));
            }
            header.push(p);
            self.pos = self.pos + 1;
        }
        header
    }

    /// Decrypts and returns the next `buf_size` content bytes, or as many
    /// as remain.
    pub fn read(&mut self, buf_size: usize) -> (r: Vec<u8>)
        requires
            old(self).wf(),
        ensures
            final(self).wf(),
            final(self).cipher_view() == old(self).cipher_view(),
            final(self).position() == old(self).position() + r@.len(),
            r@.len() == if buf_size <= old(self).cipher_view().len() - old(self).position() {
                buf_size as int
            } else {
                old(self).cipher_view().len() - old(self).position()
            },
            r@ == zc_decrypt_seq(
                crc_table_of(ZIP_CRYPTO_POLYNOMIAL),
                old(self).keys(),
                old(self).cipher_view().subrange(
                    old(self).position(),
                    old(self).position() + r@.len(),
                ),
            ),
            final(self).keys() == zc_keys_after_decrypt(
                crc_table_of(ZIP_CRYPTO_POLYNOMIAL),
                old(self).keys(),
                old(self).cipher_view().subrange(
                    old(self).position(),
                    old(self).position() + r@.len(),
                ),
            ),
    {
        let remaining = self.cipher.len() - self.pos;
        let count = if buf_size <= remaining {
            buf_size
        } else {
            remaining
        };
        let ghost table = self.zip_crypto.table();
        let ghost k0 = self.zip_crypto.keys();
        let ghost start = self.pos as int;
        let end = self.pos + count;
        let mut out: Vec<u8> = Vec::new();
        assert(self.cipher@.subrange(start, start) =~= Seq::<u8>::empty());
        while self.pos < end
            invariant
                self.zip_crypto.wf(),
                self.zip_crypto.table() == table,
                self.cipher@ == old(self).cipher@,
                0 <= start <= self.pos <= end,
                end <= self.cipher@.len(),
                out@ == zc_decrypt_seq(table, k0, self.cipher@.subrange(start, self.pos as int)),
                out@.len() == self.pos - start,
                self.zip_crypto.keys() == zc_keys_after_decrypt(
                    table,
                    k0,
                    self.cipher@.subrange(start, self.pos as int),
                ),
            decreases end - self.pos,
        {
            let b = self.cipher[self.pos];
            let p = self.zip_crypto.decrypt_byte(b);
            proof {
                lemma_zc_decrypt_snoc(table, k0, self.cipher@.subrange(start, self.pos as int), b);
                assert(self.cipher@.subrange(start, self.pos + 1) =~= self.cipher@.subrange(
                    start,
                    self.pos as int,
                ).push(b));
            }
            out.push(p);
            self.pos = self.pos + 1;
        }
        out
    }

    /// Decrypts everything that remains after the encryption header.
    pub fn read_to_end(&mut self) -> (r: Vec<u8>)
        requires
            old(self).wf(),
        ensures
            final(self).wf(),
            final(self).position() == old(self).cipher_view().len(),
            r@ == zc_decrypt_seq(
                crc_table_of(ZIP_CRYPTO_POLYNOMIAL),
                old(self).keys(),
                old(self).cipher_view().subrange(
                    old(self).position(),
                    old(self).cipher_view().len() as int,
                ),
            ),
    {
        let remaining = self.cipher.len() - self.pos;
        self.read(remaining)
    }
}

/// Encrypts one entry body into an output buffer: construction writes the
/// 12-byte encryption header, `write` encrypts content bytes after it.
pub struct ZipCryptoWriter {
    zip_crypto: ZipCrypto,
}

impl ZipCryptoWriter {
    pub closed spec fn wf(&self) -> bool {
        self.zip_crypto.wf()
    }

    pub closed spec fn keys(&self) -> (u32, u32, u32) {
        self.zip_crypto.keys()
    }

    /// Folds the password in and appends the encrypted 12-byte encryption
    /// header: eleven fresh random bytes and the high byte of the entry's
    /// checksum, which decryption will verify.
    pub fn new(out: &mut Vec<u8>, password: &Vec<u8>, file_crc: u32) -> (r: Self)
        ensures
            r.wf(),
            final(out)@.len() == old(out)@.len() + 12,
            exists|hdr: Seq<u8>|
                {
                    &&& hdr.len() == 12
                    &&& hdr[11] == (file_crc >> 24) as u8
                    &&& final(out)@ == old(out)@ + zc_encrypt_seq(
                        crc_table_of(ZIP_CRYPTO_POLYNOMIAL),
                        zc_password_keys(password@),
                        hdr,
                    )
                    &&& r.keys() == zc_keys_after_encrypt(
                        crc_table_of(ZIP_CRYPTO_POLYNOMIAL),
                        zc_password_keys(password@),
                        hdr,
                    )
                },
    {
        let mut zc = ZipCrypto::new();
        fold_password(&mut zc, password);
        let mut header: Vec<u8> = Vec::new();
        let mut i: usize = 0;
        while i < 11
            invariant
                header@.len() == i,
                0 <= i <= 11,
            decreases 11 - i,
        {
            header.push(rand::random::<u8>());
            i = i + 1;
        }
        header.push((file_crc >> 24) as u8);
        let mut w = Self { zip_crypto: zc };
        let ghost hdr = header@;
        w.write(out, &header);
        proof {
            assert(hdr[11] == (file_crc >> 24) as u8);
        }
        w
    }

    /// Appends the encryption of `data` under the current key state.
    pub fn write(&mut self, out: &mut Vec<u8>, data: &Vec<u8>)
        requires
            old(self).wf(),
        ensures
            final(self).wf(),
            final(out)@.len() == old(out)@.len() + data@.len(),
            final(out)@ == old(out)@ + zc_encrypt_seq(
                crc_table_of(ZIP_CRYPTO_POLYNOMIAL),
                old(self).keys(),
                data@,
            ),
            final(self).keys() == zc_keys_after_encrypt(
                crc_table_of(ZIP_CRYPTO_POLYNOMIAL),
                old(self).keys(),
                data@,
            ),
    {
        let ghost table = self.zip_crypto.table();
        let ghost k0 = self.zip_crypto.keys();
        let ghost base = out@;
        let n = data.len();
        let mut i: usize = 0;
        assert(data@.subrange(0, 0) =~= Seq::<u8>::empty());
        assert(out@ =~= base + zc_encrypt_seq(table, k0, data@.subrange(0, 0)));
        while i < n
            invariant
                0 <= i <= n,
                n == data@.len(),
                self.zip_crypto.wf(),
                self.zip_crypto.table() == table,
                out@ == base + zc_encrypt_seq(table, k0, data@.subrange(0, i as int)),
                self.zip_crypto.keys() == zc_keys_after_encrypt(
                    table,
                    k0,
                    data@.subrange(0, i as int),
                ),
            decreases n - i,
        {
            let b = data[i];
            let c = self.zip_crypto.encrypt_byte(b);
            proof {
                lemma_zc_encrypt_snoc(table, k0, data@.subrange(0, i as int), b);
                assert(data@.subrange(0, i + 1) =~= data@.subrange(0, i as int).push(b));
            }
            out.push(c);
            proof {
                assert(out@ =~= base + zc_encrypt_seq(table, k0, data@.subrange(0, i + 1)));
            }
            i = i + 1;
        }
        proof {
            assert(data@.subrange(0, n as int) =~= data@);
            lemma_zc_encrypt_len(table, k0, data@);
        }
    }
}

} // verus!
