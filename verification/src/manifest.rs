//! Update manifests of the cloud manager: which files a release holds and
//! the check of a downloaded file against its entry.
use crate::hex::{hex_bytes, hex_decode};
use crate::paths::{file_name, path_file_name, paths_equal, same_path};
use crate::text::{chars_of, string_of, sub_chars};
use vstd::prelude::*;
use vstd::string::StringSliceAdditionalSpecFns;

verus! {

/// The entry of a file in a manifest.
pub struct Entry {
    size: u64,
    sha256: Vec<u8>,
    signature: Vec<u8>,
}

/// The model of an [`Entry`].
pub struct EntryModel {
    pub size: u64,
    pub sha256: Seq<u8>,
    pub signature: Seq<u8>,
}

impl View for Entry {
    type V = EntryModel;

    closed spec fn view(&self) -> EntryModel {
        EntryModel { size: self.size, sha256: self.sha256@, signature: self.signature@ }
    }
}

impl Entry {
    /// A SHA-256 digest is 32 bytes long.
    #[verifier::type_invariant]
    spec fn inv(self) -> bool {
        self.sha256@.len() == 32
    }

    /// An entry of the given size, SHA-256 digest and signature; a digest
    /// that is not 32 bytes long is refused, as a manifest refuses it.
    pub fn new(size: u64, sha256: Vec<u8>, signature: Vec<u8>) -> (r: Result<Entry, ManifestError>)
        ensures
            sha256@.len() == 32 ==> (r matches Ok(e) && e@ == (EntryModel {
                size,
                sha256: sha256@,
                signature: signature@,
            })),
            sha256@.len() != 32 ==> r == Err::<Entry, ManifestError>(
                ManifestError::InvalidSha256Length,
            ),
    {
        if sha256.len() != 32 {
            return Err(ManifestError::InvalidSha256Length);
        }
        Ok(Entry { size, sha256, signature })
    }

    pub fn size(&self) -> (r: u64)
        ensures
            r == self@.size,
    {
        self.size
    }

    pub fn sha256(&self) -> (r: &[u8])
        ensures
            r@ == self@.sha256,
            r@.len() == 32,
    {
        proof {
            use_type_invariant(self);
        }
        self.sha256.as_slice()
    }

    pub fn signature(&self) -> (r: &[u8])
        ensures
            r@ == self@.signature,
    {
        self.signature.as_slice()
    }
}

/// Whether `signature` is a valid RSA PKCS#1 v1.5 SHA-256 signature (keys
/// of 2048 to 8192 bits) of `message` under the DER public key `key`.
pub uninterp spec fn rsa_signature_valid(message: Seq<u8>, key: Seq<u8>, signature: Seq<u8>) -> bool;

/// Calls `ring::signature::UnparsedPublicKey::verify` with
/// `RSA_PKCS1_2048_8192_SHA256`; the contract names the outcome
/// [`rsa_signature_valid`].
#[verifier::external_body]
fn rsa_verify(message: &[u8], key: &[u8], signature: &[u8]) -> (r: bool)
    ensures
        r == rsa_signature_valid(message@, key@, signature@),
{
    let k = ring::signature::UnparsedPublicKey::new(
        &ring::signature::RSA_PKCS1_2048_8192_SHA256,
        key,
    );
    k.verify(message, signature).is_ok()
}

/// The bytes that a standard-alphabet, padded base64 text stands for, or
/// `None` for an invalid text.
pub uninterp spec fn base64_bytes(text: Seq<u8>) -> Option<Seq<u8>>;

/// Calls `base64::decode` (the standard engine); the contract names the
/// outcome [`base64_bytes`].
#[verifier::external_body]
#[allow(deprecated)]
fn base64_decode(text: &[u8]) -> (r: Option<Vec<u8>>)
    ensures
        match r {
            Some(b) => base64_bytes(text@) == Some(b@),
            None => base64_bytes(text@) is None,
        },
{
    base64::decode(text).ok()
}

/// Why a manifest text field or a file was refused.
#[derive(PartialEq, Eq, Debug, Clone)]
pub enum ManifestError {
    /// the path has no file name
    FileNameUnparsable,
    /// the file is not in the manifest
    NotIncluded(String),
    /// the size differs from the entry
    SizeMismatch(String),
    /// the checksum differs from the entry
    ChecksumMismatch(String),
    /// the signature does not verify
    SignatureInvalid(String),
    /// no public key was set
    NoPublicKey,
    /// the text is not hexadecimal
    InvalidHex,
    /// the digest is not 32 bytes long
    InvalidSha256Length,
    /// the text is not base64
    InvalidBase64,
}

/// The model of a [`ManifestError`].
pub enum SManifestError {
    FileNameUnparsable,
    NotIncluded(Seq<char>),
    SizeMismatch(Seq<char>),
    ChecksumMismatch(Seq<char>),
    SignatureInvalid(Seq<char>),
    NoPublicKey,
    InvalidHex,
    InvalidSha256Length,
    InvalidBase64,
}

impl View for ManifestError {
    type V = SManifestError;

    open spec fn view(&self) -> SManifestError {
        match self {
            ManifestError::FileNameUnparsable => SManifestError::FileNameUnparsable,
            ManifestError::NotIncluded(f) => SManifestError::NotIncluded(f@),
            ManifestError::SizeMismatch(f) => SManifestError::SizeMismatch(f@),
            ManifestError::ChecksumMismatch(f) => SManifestError::ChecksumMismatch(f@),
            ManifestError::SignatureInvalid(f) => SManifestError::SignatureInvalid(f@),
            ManifestError::NoPublicKey => SManifestError::NoPublicKey,
            ManifestError::InvalidHex => SManifestError::InvalidHex,
            ManifestError::InvalidSha256Length => SManifestError::InvalidSha256Length,
            ManifestError::InvalidBase64 => SManifestError::InvalidBase64,
        }
    }
}

/// Reads a SHA-256 digest from its hexadecimal text: it must be hexadecimal
/// and 32 bytes long.
pub fn sha256_from_hex(s: &str) -> (r: Result<Vec<u8>, ManifestError>)
    ensures
        match hex_bytes(s.spec_bytes()) {
            None => r == Err::<Vec<u8>, ManifestError>(ManifestError::InvalidHex),
            Some(b) => if b.len() == 32 {
                r matches Ok(v) && v@ == b
            } else {
                r == Err::<Vec<u8>, ManifestError>(ManifestError::InvalidSha256Length)
            },
        },
{
    match hex_decode(s.as_bytes()) {
        None => Err(ManifestError::InvalidHex),
        Some(b) => if b.len() == 32 {
            Ok(b)
        } else {
            Err(ManifestError::InvalidSha256Length)
        },
    }
}

/// Reads bytes from their base64 text.
pub fn bytes_from_base64(s: &str) -> (r: Result<Vec<u8>, ManifestError>)
    ensures
        match base64_bytes(s.spec_bytes()) {
            None => r == Err::<Vec<u8>, ManifestError>(ManifestError::InvalidBase64),
            Some(b) => r matches Ok(v) && v@ == b,
        },
{
    match base64_decode(s.as_bytes()) {
        None => Err(ManifestError::InvalidBase64),
        Some(b) => Ok(b),
    }
}

/// A release manifest: its version and build, the entries of its files by
/// name, and the public key that signatures are checked with.
pub struct Manifest {
    version: String,
    build: u64,
    content: Vec<(String, Entry)>,
    pub_key: Option<Vec<u8>>,
}

/// The model of a [`Manifest`].
pub struct ManifestModel {
    pub version: Seq<char>,
    pub build: u64,
    pub content: Seq<(Seq<char>, EntryModel)>,
    pub pub_key: Option<Seq<u8>>,
}

pub open spec fn content_view(c: Seq<(String, Entry)>) -> Seq<(Seq<char>, EntryModel)> {
    c.map_values(|e: (String, Entry)| (e.0@, e.1@))
}

pub open spec fn key_view(k: Option<Vec<u8>>) -> Option<Seq<u8>> {
    match k {
        Some(v) => Some(v@),
        None => None,
    }
}

impl View for Manifest {
    type V = ManifestModel;

    closed spec fn view(&self) -> ManifestModel {
        ManifestModel {
            version: self.version@,
            build: self.build,
            content: content_view(self.content@),
            pub_key: key_view(self.pub_key),
        }
    }
}

/// The index of the first entry whose name is the same path as `f`.
pub open spec fn entry_index(content: Seq<(Seq<char>, EntryModel)>, f: Seq<char>) -> Option<int>
    decreases content.len(),
{
    if content.len() == 0 {
        None
    } else {
        match entry_index(content.drop_last(), f) {
            Some(i) => Some(i),
            None => if paths_equal(content.last().0, f) {
                Some(content.len() - 1)
            } else {
                None
            },
        }
    }
}

proof fn lemma_entry_index(content: Seq<(Seq<char>, EntryModel)>, f: Seq<char>)
    ensures
        match entry_index(content, f) {
            Some(i) => 0 <= i < content.len() && paths_equal(content[i].0, f) && forall|j: int|
                0 <= j < i ==> !paths_equal(#[trigger] content[j].0, f),
            None => forall|j: int| 0 <= j < content.len() ==> !paths_equal(#[trigger] content[j].0, f),
        },
    decreases content.len(),
{
    if content.len() > 0 {
        let t = content.drop_last();
        lemma_entry_index(t, f);
        assert forall|j: int| 0 <= j < t.len() implies t[j] == content[j] by {}
    }
}

/// What checking a file named `name`, of `size` bytes and SHA-256 digest
/// `sum`, against a manifest gives.
pub open spec fn spec_verify(m: ManifestModel, name: Seq<char>, size: u64, sum: Seq<u8>) -> Result<
    (),
    SManifestError,
> {
    match path_file_name(name) {
        None => Err(SManifestError::FileNameUnparsable),
        Some(f) => match entry_index(m.content, f) {
            None => Err(SManifestError::NotIncluded(f)),
            Some(i) => {
                let e = m.content[i].1;
                if e.size != size {
                    Err(SManifestError::SizeMismatch(f))
                } else if e.sha256 != sum {
                    Err(SManifestError::ChecksumMismatch(f))
                } else {
                    match m.pub_key {
                        None => Err(SManifestError::NoPublicKey),
                        Some(k) => if rsa_signature_valid(sum, k, e.signature) {
                            Ok(())
                        } else {
                            Err(SManifestError::SignatureInvalid(f))
                        },
                    }
                }
            },
        },
    }
}

pub open spec fn unit_result_view(r: Result<(), ManifestError>) -> Result<(), SManifestError> {
    match r {
        Ok(()) => Ok(()),
        Err(e) => Err(e@),
    }
}

fn slices_eq(a: &[u8], b: &[u8]) -> (r: bool)
    ensures
        r == (a@ == b@),
{
    if a.len() != b.len() {
        return false;
    }
    let mut i: usize = 0;
    while i < a.len()
        invariant
            a.len() == b.len(),
            i <= a.len(),
            forall|j: int| 0 <= j < i ==> a@[j] == b@[j],
        decreases a.len() - i,
    {
        if a[i] != b[i] {
            assert(a@[i as int] != b@[i as int]);
            return false;
        }
        i = i + 1;
    }
    assert(a@ =~= b@);
    true
}

impl Manifest {
    /// A manifest of the given version, build and entries, with no public
    /// key set.
    pub fn new(version: String, build: u64, content: Vec<(String, Entry)>) -> (r: Manifest)
        ensures
            r@ == (ManifestModel {
                version: version@,
                build,
                content: content_view(content@),
                pub_key: None,
            }),
    {
        Manifest { version, build, content, pub_key: None }
    }

    /// The names of the files of the release.
    pub fn files(&self) -> (r: Vec<String>)
        ensures
            r@.map_values(|s: String| s@) == self@.content.map_values(|e: (Seq<char>, EntryModel)| e.0),
    {
        let mut r: Vec<String> = Vec::new();
        let mut i: usize = 0;
        while i < self.content.len()
            invariant
                i <= self.content.len(),
                self@.content == content_view(self.content@),
                r.len() == i,
                forall|j: int| 0 <= j < i ==> #[trigger] r@[j]@ == self@.content[j].0,
            decreases self.content.len() - i,
        {
            let name = self.content[i].0.clone();
            r.push(name);
            i = i + 1;
        }
        assert(r@.map_values(|s: String| s@) =~= self@.content.map_values(
            |e: (Seq<char>, EntryModel)| e.0,
        ));
        r
    }

    /// The release version.
    pub fn version(&self) -> (r: &str)
        ensures
            r@ == self@.version,
    {
        self.version.as_str()
    }

    /// The release build.
    pub fn build(&self) -> (r: u64)
        ensures
            r == self@.build,
    {
        self.build
    }

    /// Sets the public key that signatures are checked with; the rest stays.
    pub fn set_pub_key(&mut self, key: Vec<u8>)
        ensures
            final(self)@ == (ManifestModel { pub_key: Some(key@), ..old(self)@ }),
    {
        self.pub_key = Some(key);
    }

    fn find(&self, f: &str) -> (r: Option<usize>)
        ensures
            match r {
                Some(i) => entry_index(self@.content, f@) == Some(i as int),
                None => entry_index(self@.content, f@) is None,
            },
    {
        let ghost c = self@.content;
        proof {
            lemma_entry_index(c, f@);
        }
        let mut i: usize = 0;
        while i < self.content.len()
            invariant
                i <= self.content.len(),
                c == self@.content,
                c == content_view(self.content@),
                forall|j: int| 0 <= j < i ==> !paths_equal(#[trigger] c[j].0, f@),
                match entry_index(c, f@) {
                    Some(k) => 0 <= k < c.len() && paths_equal(c[k].0, f@) && forall|j: int|
                        0 <= j < k ==> !paths_equal(#[trigger] c[j].0, f@),
                    None => forall|j: int| 0 <= j < c.len() ==> !paths_equal(#[trigger] c[j].0, f@),
                },
            decreases self.content.len() - i,
        {
            if same_path(self.content[i].0.as_str(), f) {
                assert(paths_equal(c[i as int].0, f@));
                return Some(i);
            }
            i = i + 1;
        }
        None
    }

    /// Whether the file name of `file` is in the manifest.
    pub fn contains(&self, file: &str) -> (r: Result<bool, ManifestError>)
        ensures
            match path_file_name(file@) {
                None => r == Err::<bool, ManifestError>(ManifestError::FileNameUnparsable),
                Some(f) => r == Ok::<bool, ManifestError>(entry_index(self@.content, f) is Some),
            },
    {
        match file_name(file) {
            None => Err(ManifestError::FileNameUnparsable),
            Some(f) => Ok(self.find(f.as_str()).is_some()),
        }
    }

    /// Checks a file named `name`, of `size` bytes and SHA-256 digest `sum`,
    /// against its entry: it must be in the manifest, have the entry's size
    /// and digest, and the entry's signature must verify under the public
    /// key.
    pub fn verify(&self, name: &str, size: u64, sum: &[u8]) -> (r: Result<(), ManifestError>)
        ensures
            unit_result_view(r) == spec_verify(self@, name@, size, sum@),
    {
        let f = match file_name(name) {
            None => {
                return Err(ManifestError::FileNameUnparsable);
            },
            Some(f) => f,
        };
        match self.find(f.as_str()) {
            None => Err(ManifestError::NotIncluded(f)),
            Some(i) => {
                proof {
                    lemma_entry_index(self@.content, f@);
                }
                let e = &self.content[i].1;
                assert(self@.content[i as int].1 == e@);
                if e.size != size {
                    Err(ManifestError::SizeMismatch(f))
                } else if !slices_eq(e.sha256.as_slice(), sum) {
                    Err(ManifestError::ChecksumMismatch(f))
                } else {
                    match &self.pub_key {
                        None => Err(ManifestError::NoPublicKey),
                        Some(k) => if rsa_verify(sum, k.as_slice(), e.signature.as_slice()) {
                            Ok(())
                        } else {
                            Err(ManifestError::SignatureInvalid(f))
                        },
                    }
                }
            },
        }
    }
}

/// A file passes the check only when it is in the manifest with its size
/// and digest and the entry's signature verifies under the public key.
pub proof fn law_verified_file_matches_entry(m: ManifestModel, name: Seq<char>, size: u64, sum: Seq<u8>)
    requires
        spec_verify(m, name, size, sum) is Ok,
    ensures
        exists|f: Seq<char>, i: int|
            #![trigger entry_index(m.content, f), m.content[i]]
            {
                &&& path_file_name(name) == Some(f)
                &&& entry_index(m.content, f) == Some(i)
                &&& 0 <= i < m.content.len()
                &&& paths_equal(m.content[i].0, f)
                &&& m.content[i].1.size == size
                &&& m.content[i].1.sha256 == sum
                &&& (m.pub_key matches Some(k) && rsa_signature_valid(sum, k, m.content[i].1.signature))
            },
{
    let f = path_file_name(name)->0;
    let i = entry_index(m.content, f)->0;
    lemma_entry_index(m.content, f);
    assert(m.content[i].1.size == size);
}

} // verus!
