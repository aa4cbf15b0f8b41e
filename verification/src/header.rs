//! The container header: the record of metadata that precedes the ciphertext.
//!
//! A header names the producer and its version, the algorithms, the
//! key-derivation costs, the salt and the initialisation vector, and carries
//! a SHA3-256 digest of all of these. The digest makes changes to the header
//! evident; it does not cover the ciphertext.

use crate::aes::BLOCK_SIZE;
use crate::{APP_NAME, APP_VERSION};
use crate::text::{byte_list, byte_list_string, decimal, decimal_string};
use sha3::Digest;
use vstd::prelude::*;
use vstd::slice::slice_to_vec;
use vstd::utf8::encode_utf8;

verus! {

/// The SHA3-256 digest of a sequence of bytes.
pub uninterp spec fn sha3_256_digest(data: Seq<u8>) -> Seq<u8>;

/// The major, minor and patch numbers that `text` holds as a semantic
/// version, or `None` if it is not one.
pub uninterp spec fn semver_parse(text: Seq<char>) -> Option<(u64, u64, u64)>;

/// Feeds `data` to a fresh `sha3::Sha3_256` with `update` and returns what
/// `finalize` gives: the digest, which is 32 bytes long.
#[verifier::external_body]
fn sha3_256(data: &[u8]) -> (digest: Vec<u8>)
    ensures
        digest@ == sha3_256_digest(data@),
        digest@.len() == 32,
{
    let mut hasher = sha3::Sha3_256::new();
    hasher.update(data);
    hasher.finalize().to_vec()
}

/// Calls `semver::Version::parse` and hands out the three numbers of the
/// version it returns; a pre-release or build tag is parsed and dropped.
/// `None` stands for any parse error.
#[verifier::external_body]
fn parse_version(text: &str) -> (numbers: Option<(u64, u64, u64)>)
    ensures
        numbers == semver_parse(text@),
{
    match semver::Version::parse(text) {
        Ok(version) => Some((version.major, version.minor, version.patch)),
        Err(_) => None,
    }
}

/// The four bytes of `value`, most significant first.
pub open spec fn be_bytes_u32(value: u32) -> Seq<u8> {
    seq![
        (value / 0x100_0000) as u8,
        (value / 0x1_0000 % 0x100) as u8,
        (value / 0x100 % 0x100) as u8,
        (value % 0x100) as u8,
    ]
}

/// The eight bytes of `value`, most significant first.
pub open spec fn be_bytes_u64(value: u64) -> Seq<u8> {
    be_bytes_u32((value / 0x1_0000_0000) as u32) + be_bytes_u32((value % 0x1_0000_0000) as u32)
}

/// A version precedes or equals another by its numbers, compared from major
/// to patch. Between versions that differ in one of the numbers this is the
/// order of semantic versions; tags only order versions whose numbers agree.
pub open spec fn numbers_precede(file: (u64, u64, u64), app: (u64, u64, u64)) -> bool {
    ||| file.0 < app.0
    ||| file.0 == app.0 && file.1 < app.1
    ||| file.0 == app.0 && file.1 == app.1 && file.2 <= app.2
}

/// The compatibility policy: both versions are well-formed, and the file's
/// is on the application's major.minor line or precedes the application's.
pub open spec fn version_supported(
    file: Option<(u64, u64, u64)>,
    app: Option<(u64, u64, u64)>,
) -> bool {
    match (file, app) {
        (Some(f), Some(a)) => (f.0 == a.0 && f.1 == a.1) || numbers_precede(f, a),
        _ => false,
    }
}

/// What a header holds, as plain values.
pub struct HeaderView {
    pub app: Seq<char>,
    pub version: Seq<char>,
    pub cipher: Seq<char>,
    /// Length of the derived key in bits.
    pub key_size: nat,
    pub mode: Seq<char>,
    pub kdf: Seq<char>,
    pub m_cost: u32,
    pub t_cost: u32,
    pub p_cost: u32,
    pub salt: Seq<u8>,
    pub iv: Seq<u8>,
    pub integrity: Seq<u8>,
}

impl HeaderView {
    /// The bytes that the digest covers: every field but the digest itself,
    /// in the order of the record, strings as UTF-8 and numbers big-endian
    /// at fixed width, with nothing between them.
    pub open spec fn digest_input(self) -> Seq<u8> {
        encode_utf8(self.app) + encode_utf8(self.version) + encode_utf8(self.cipher)
            + be_bytes_u64(self.key_size as u64) + encode_utf8(self.mode) + encode_utf8(self.kdf)
            + be_bytes_u32(self.m_cost) + be_bytes_u32(self.t_cost) + be_bytes_u32(self.p_cost)
            + self.salt + self.iv
    }

    /// The stored digest is the digest of the fields.
    pub open spec fn intact(self) -> bool {
        self.integrity == sha3_256_digest(self.digest_input())
    }

    /// The listing of a header: a heading, then label and value of each
    /// field in the order of the record, numbers in decimal and byte strings
    /// as bracketed lists.
    pub open spec fn rows(self) -> Seq<(Seq<char>, Seq<char>)> {
        seq![
            ("FIELD"@, "VALUE"@),
            ("App"@, self.app),
            ("Version"@, self.version),
            ("Cipher"@, self.cipher),
            ("Key Size"@, decimal(self.key_size)),
            ("Mode"@, self.mode),
            ("KDF"@, self.kdf),
            ("Memory"@, decimal(self.m_cost as nat)),
            ("Iterations"@, decimal(self.t_cost as nat)),
            ("Parallelism"@, decimal(self.p_cost as nat)),
            ("Salt"@, byte_list(self.salt)),
            ("IV"@, byte_list(self.iv)),
            ("Integrity"@, byte_list(self.integrity)),
        ]
    }

    /// The version passes the compatibility policy of this build.
    pub open spec fn supported(self) -> bool {
        version_supported(semver_parse(self.version), semver_parse(APP_VERSION@))
    }
}

/// The header that this build stamps on a container made with the given
/// algorithms, key size in bytes, costs, salt and initialisation vector.
pub open spec fn stamped(
    cipher: Seq<char>,
    key_bytes: nat,
    mode: Seq<char>,
    kdf: Seq<char>,
    m_cost: u32,
    t_cost: u32,
    p_cost: u32,
    salt: Seq<u8>,
    iv: Seq<u8>,
) -> HeaderView {
    let fields = HeaderView {
        app: APP_NAME@,
        version: APP_VERSION@,
        cipher,
        key_size: key_bytes * 8,
        mode,
        kdf,
        m_cost,
        t_cost,
        p_cost,
        salt,
        iv,
        integrity: Seq::empty(),
    };
    HeaderView { integrity: sha3_256_digest(fields.digest_input()), ..fields }
}

/// A header on the application's own major.minor line is supported, whatever
/// its patch number; one on a lower line is supported; one on a higher line
/// is not.
pub proof fn lemma_version_gate(file: (u64, u64, u64), app: (u64, u64, u64))
    ensures
        file.0 == app.0 && file.1 == app.1 ==> version_supported(Some(file), Some(app)),
        file.0 < app.0 || (file.0 == app.0 && file.1 < app.1) ==> version_supported(
            Some(file),
            Some(app),
        ),
        file.0 > app.0 || (file.0 == app.0 && file.1 > app.1) ==> !version_supported(
            Some(file),
            Some(app),
        ),
{
}

/// A version that is not well-formed is never supported, on either side.
pub proof fn lemma_malformed_version_unsupported(
    file: Option<(u64, u64, u64)>,
    app: Option<(u64, u64, u64)>,
)
    requires
        file is None || app is None,
    ensures
        !version_supported(file, app),
{
}

/// A freshly stamped header is intact.
pub proof fn lemma_stamped_intact(
    cipher: Seq<char>,
    key_bytes: nat,
    mode: Seq<char>,
    kdf: Seq<char>,
    m_cost: u32,
    t_cost: u32,
    p_cost: u32,
    salt: Seq<u8>,
    iv: Seq<u8>,
)
    ensures
        stamped(cipher, key_bytes, mode, kdf, m_cost, t_cost, p_cost, salt, iv).intact(),
{
}

/// Replacing the stored digest of an intact header by any other value makes
/// the header fail its check.
pub proof fn lemma_altered_digest_detected(header: HeaderView, digest: Seq<u8>)
    requires
        header.intact(),
        digest != header.integrity,
    ensures
        !(HeaderView { integrity: digest, ..header }).intact(),
{
}

/// A change to the covered fields of an intact header is detected exactly
/// when it changes their digest: the check compares digests and nothing else.
pub proof fn lemma_altered_fields_detected(header: HeaderView, altered: HeaderView)
    requires
        header.intact(),
        altered.integrity == header.integrity,
    ensures
        altered.intact() <==> sha3_256_digest(altered.digest_input()) == sha3_256_digest(
            header.digest_input(),
        ),
{
}

/// Applies the compatibility policy to a header's version and the build's
/// own, each as the numbers it parsed to, or `None` where it did not parse.
pub fn version_gate(file: Option<(u64, u64, u64)>, app: Option<(u64, u64, u64)>) -> (supported:
    bool)
    ensures
        supported == version_supported(file, app),
{
    match (file, app) {
        (Some(file), Some(app)) => {
            if file.0 == app.0 && file.1 == app.1 {
                true
            } else {
                file.0 < app.0 || (file.0 == app.0 && file.1 < app.1)
            }
        },
        _ => false,
    }
}

/// Appends the four bytes of `value`, most significant first.
fn push_be_u32(out: &mut Vec<u8>, value: u32)
    ensures
        final(out)@ == old(out)@ + be_bytes_u32(value),
{
    out.push((value / 0x100_0000) as u8);
    out.push((value / 0x1_0000 % 0x100) as u8);
    out.push((value / 0x100 % 0x100) as u8);
    out.push((value % 0x100) as u8);
    assert(out@ =~= old(out)@ + be_bytes_u32(value));
}

/// Appends the eight bytes of `value`, most significant first.
fn push_be_u64(out: &mut Vec<u8>, value: u64)
    ensures
        final(out)@ == old(out)@ + be_bytes_u64(value),
{
    push_be_u32(out, (value / 0x1_0000_0000) as u32);
    push_be_u32(out, (value % 0x1_0000_0000) as u32);
    assert(out@ =~= old(out)@ + be_bytes_u64(value));
}

/// The metadata record of a container.
pub struct Header {
    app: String,
    version: String,
    cipher: String,
    key_size: usize,
    mode: String,
    kdf: String,
    m_cost: u32,
    t_cost: u32,
    p_cost: u32,
    salt: Vec<u8>,
    iv: [u8; BLOCK_SIZE],
    integrity: Vec<u8>,
}

impl View for Header {
    type V = HeaderView;

    closed spec fn view(&self) -> HeaderView {
        HeaderView {
            app: self.app@,
            version: self.version@,
            cipher: self.cipher@,
            key_size: self.key_size as nat,
            mode: self.mode@,
            kdf: self.kdf@,
            m_cost: self.m_cost,
            t_cost: self.t_cost,
            p_cost: self.p_cost,
            salt: self.salt@,
            iv: self.iv@,
            integrity: self.integrity@,
        }
    }
}

impl Header {
    /// Stamps a header with this build's name and version and with the digest
    /// of its fields. `key_size` is given in bytes and recorded in bits.
    pub fn new(
        cipher: &str,
        key_size: usize,
        mode: &str,
        kdf: &str,
        m_cost: &u32,
        t_cost: &u32,
        p_cost: &u32,
        salt: &[u8],
        iv: [u8; BLOCK_SIZE],
    ) -> (header: Self)
        requires
            key_size * 8 <= usize::MAX,
        ensures
            header@ == stamped(
                cipher@,
                key_size as nat,
                mode@,
                kdf@,
                *m_cost,
                *t_cost,
                *p_cost,
                salt@,
                iv@,
            ),
            header@.intact(),
            header@.integrity.len() == 32,
    {
        let mut header = Header {
            app: APP_NAME.to_owned(),
            version: APP_VERSION.to_owned(),
            cipher: cipher.to_owned(),
            key_size: key_size * 8,
            mode: mode.to_owned(),
            kdf: kdf.to_owned(),
            m_cost: *m_cost,
            t_cost: *t_cost,
            p_cost: *p_cost,
            salt: slice_to_vec(salt),
            iv,
            integrity: Vec::new(),
        };
        let integrity = header.calculate_hash();
        header.integrity = integrity;
        header
    }

    /// Rebuilds a header from the fields of a stored record, as they are.
    /// Nothing is checked here: that is what `is_supported` and
    /// `check_integrity` are for.
    pub fn from_parts(
        app: String,
        version: String,
        cipher: String,
        key_size: usize,
        mode: String,
        kdf: String,
        m_cost: u32,
        t_cost: u32,
        p_cost: u32,
        salt: Vec<u8>,
        iv: [u8; BLOCK_SIZE],
        integrity: Vec<u8>,
    ) -> (header: Self)
        ensures
            header@ == (HeaderView {
                app: app@,
                version: version@,
                cipher: cipher@,
                key_size: key_size as nat,
                mode: mode@,
                kdf: kdf@,
                m_cost,
                t_cost,
                p_cost,
                salt: salt@,
                iv: iv@,
                integrity: integrity@,
            }),
    {
        Header {
            app,
            version,
            cipher,
            key_size,
            mode,
            kdf,
            m_cost,
            t_cost,
            p_cost,
            salt,
            iv,
            integrity,
        }
    }

    /// Whether this build may read the container: the header's version and
    /// the build's own are semantic versions, and the header's is on the same
    /// major.minor line or older. A version that does not parse is not
    /// supported.
    pub fn is_supported(&self) -> (supported: bool)
        ensures
            supported == self@.supported(),
    {
        let file_version = parse_version(self.version.as_str());
        let app_version = parse_version(APP_VERSION);
        version_gate(file_version, app_version)
    }

    /// The bytes that the digest covers.
    pub fn digest_input(&self) -> (data: Vec<u8>)
        ensures
            data@ == self@.digest_input(),
    {
        let mut data: Vec<u8> = Vec::new();
        data.extend_from_slice(self.app.as_str().as_bytes());
        data.extend_from_slice(self.version.as_str().as_bytes());
        data.extend_from_slice(self.cipher.as_str().as_bytes());
        push_be_u64(&mut data, self.key_size as u64);
        data.extend_from_slice(self.mode.as_str().as_bytes());
        data.extend_from_slice(self.kdf.as_str().as_bytes());
        push_be_u32(&mut data, self.m_cost);
        push_be_u32(&mut data, self.t_cost);
        push_be_u32(&mut data, self.p_cost);
        data.extend_from_slice(self.salt.as_slice());
        data.extend_from_slice(self.iv.as_slice());
        assert(data@ =~= self@.digest_input());
        data
    }

    /// Whether `digest` is the digest that the header stores.
    pub fn digest_matches(&self, digest: &Vec<u8>) -> (same: bool)
        ensures
            same == (self@.integrity == digest@),
    {
        let same = self.integrity == *digest;
        assert(same ==> self.integrity@ =~= digest@);
        same
    }

    /// The digest of every field but the stored digest.
    fn calculate_hash(&self) -> (digest: Vec<u8>)
        ensures
            digest@ == sha3_256_digest(self@.digest_input()),
            digest@.len() == 32,
    {
        let data = self.digest_input();
        sha3_256(data.as_slice())
    }

    /// Whether the stored digest is the digest of the fields as they are now.
    pub fn check_integrity(&self) -> (intact: bool)
        ensures
            intact == self@.intact(),
    {
        let calculated_hash = self.calculate_hash();
        self.digest_matches(&calculated_hash)
    }

    /// The header as a listing: a heading and one row for each field, each
    /// row a label and the field's value as text.
    pub fn rows(&self) -> (rows: Vec<(String, String)>)
        ensures
            rows@.len() == self@.rows().len(),
            forall|i: int|
                0 <= i < rows@.len() ==> (#[trigger] rows@[i]).0@ == self@.rows()[i].0 && rows@[i].1@
                    == self@.rows()[i].1,
    {
        let mut rows: Vec<(String, String)> = Vec::new();
        rows.push(("FIELD".to_owned(), "VALUE".to_owned()));
        rows.push(("App".to_owned(), self.app.clone()));
        rows.push(("Version".to_owned(), self.version.clone()));
        rows.push(("Cipher".to_owned(), self.cipher.clone()));
        rows.push(("Key Size".to_owned(), decimal_string(self.key_size as u64)));
        rows.push(("Mode".to_owned(), self.mode.clone()));
        rows.push(("KDF".to_owned(), self.kdf.clone()));
        rows.push(("Memory".to_owned(), decimal_string(self.m_cost as u64)));
        rows.push(("Iterations".to_owned(), decimal_string(self.t_cost as u64)));
        rows.push(("Parallelism".to_owned(), decimal_string(self.p_cost as u64)));
        rows.push(("Salt".to_owned(), byte_list_string(self.salt.as_slice())));
        rows.push(("IV".to_owned(), byte_list_string(self.iv.as_slice())));
        rows.push(("Integrity".to_owned(), byte_list_string(self.integrity.as_slice())));
        rows
    }

    /// Name of the producer that stamped the header.
    pub fn get_app(&self) -> (app: String)
        ensures
            app@ == self@.app,
    {
        self.app.clone()
    }

    /// Version of the producer, as text.
    pub fn get_version(&self) -> (version: String)
        ensures
            version@ == self@.version,
    {
        self.version.clone()
    }

    /// Name of the cipher.
    pub fn get_cipher(&self) -> (cipher: String)
        ensures
            cipher@ == self@.cipher,
    {
        self.cipher.clone()
    }

    /// Length of the derived key in bits.
    pub fn get_key_size(&self) -> (key_size: usize)
        ensures
            key_size == self@.key_size,
    {
        self.key_size
    }

    /// Name of the cipher mode.
    pub fn get_mode(&self) -> (mode: String)
        ensures
            mode@ == self@.mode,
    {
        self.mode.clone()
    }

    /// Name of the key-derivation function.
    pub fn get_kdf(&self) -> (kdf: String)
        ensures
            kdf@ == self@.kdf,
    {
        self.kdf.clone()
    }

    /// Memory cost of the key derivation, in KiB.
    pub fn get_m_cost(&self) -> (m_cost: u32)
        ensures
            m_cost == self@.m_cost,
    {
        self.m_cost
    }

    /// Number of passes of the key derivation.
    pub fn get_t_cost(&self) -> (t_cost: u32)
        ensures
            t_cost == self@.t_cost,
    {
        self.t_cost
    }

    /// Degree of parallelism of the key derivation.
    pub fn get_p_cost(&self) -> (p_cost: u32)
        ensures
            p_cost == self@.p_cost,
    {
        self.p_cost
    }

    /// A copy of the salt.
    pub fn get_salt(&self) -> (salt: Vec<u8>)
        ensures
            salt@ == self@.salt,
    {
        self.salt.clone()
    }

    /// A copy of the initialisation vector.
    pub fn get_iv(&self) -> (iv: [u8; BLOCK_SIZE])
        ensures
            iv@ == self@.iv,
    {
        self.iv
    }

    /// A copy of the stored digest.
    pub fn get_integrity(&self) -> (integrity: Vec<u8>)
        ensures
            integrity@ == self@.integrity,
    {
        self.integrity.clone()
    }
}

} // verus!
