//! The cloud manager's system dump: the name of the file it goes to, and
//! the chunks in which a service request's dump is encrypted with the
//! vendor's public key.
use crate::text::push_str;
use openssl::pkey::Public;
use openssl::rsa::Rsa;
use vstd::prelude::*;

verus! {

/// The bytes that PKCS #1 padding takes of each encrypted block.
pub const PKCS1_PADDING: usize = 11;

/// The data in chunks of `size` bytes, the last one shorter; none where
/// the size is zero.
pub open spec fn chunks_spec(data: Seq<u8>, size: nat) -> Seq<Seq<u8>>
    decreases data.len(),
{
    if size == 0 || data.len() == 0 {
        Seq::empty()
    } else if data.len() <= size {
        seq![data]
    } else {
        seq![data.take(size as int)] + chunks_spec(data.skip(size as int), size)
    }
}

/// The chunks joined in order.
pub open spec fn joined_chunks(c: Seq<Seq<u8>>) -> Seq<u8>
    decreases c.len(),
{
    if c.len() == 0 {
        Seq::empty()
    } else {
        c[0] + joined_chunks(c.drop_first())
    }
}

pub open spec fn chunks_view(v: Seq<Vec<u8>>) -> Seq<Seq<u8>> {
    v.map_values(|c: Vec<u8>| c@)
}

/// The chunks in which a dump is encrypted with a public key of
/// `key_size` bytes: each as long as the key leaves room for besides the
/// padding, the last one shorter.
pub fn dump_chunks(data: &Vec<u8>, key_size: usize) -> (r: Vec<Vec<u8>>)
    requires
        key_size >= PKCS1_PADDING,
    ensures
        chunks_view(r@) == chunks_spec(data@, (key_size - PKCS1_PADDING) as nat),
{
    let size = key_size - PKCS1_PADDING;
    let mut r: Vec<Vec<u8>> = Vec::new();
    if size == 0 {
        return r;
    }
    let mut pos: usize = 0;
    assert(data@.skip(0) =~= data@);
    assert(chunks_view(r@) + chunks_spec(data@, size as nat) =~= chunks_spec(data@, size as nat));
    while pos < data.len()
        invariant
            size > 0,
            size == key_size - PKCS1_PADDING,
            pos <= data.len(),
            chunks_view(r@) + chunks_spec(data@.skip(pos as int), size as nat) == chunks_spec(
                data@,
                size as nat,
            ),
        decreases data.len() - pos,
    {
        let rest = data.len() - pos;
        let end = if rest <= size {
            data.len()
        } else {
            pos + size
        };
        let mut c: Vec<u8> = Vec::new();
        let mut k: usize = pos;
        while k < end
            invariant
                pos <= k <= end <= data.len(),
                c@ == data@.subrange(pos as int, k as int),
            decreases end - k,
        {
            c.push(data[k]);
            assert(data@.subrange(pos as int, k as int + 1) =~= data@.subrange(pos as int, k as int).push(data@[k as int]));
            k = k + 1;
        }
        let ghost tail = data@.skip(pos as int);
        let ghost before = chunks_view(r@);
        r.push(c);
        assert(chunks_view(r@) =~= before.push(c@));
        if rest <= size {
            assert(c@ =~= tail);
            assert(data@.skip(data.len() as int) =~= Seq::<u8>::empty());
            assert(before.push(c@) =~= before + seq![tail]);
        } else {
            assert(c@ =~= tail.take(size as int));
            assert(tail.skip(size as int) =~= data@.skip((pos + size) as int));
            assert(before + (seq![tail.take(size as int)] + chunks_spec(tail.skip(size as int), size as nat))
                =~= before.push(c@) + chunks_spec(data@.skip((pos + size) as int), size as nat));
        }
        pos = end;
    }
    assert(data@.skip(pos as int) =~= Seq::<u8>::empty());
    assert(chunks_view(r@) + Seq::<Seq<u8>>::empty() =~= chunks_view(r@));
    r
}

/// Chunking keeps the data: the chunks are nonempty, none is longer than
/// the chunk size, and joined in order they give the data back.
pub proof fn law_chunks_rejoin(data: Seq<u8>, size: nat)
    requires
        size > 0,
    ensures
        joined_chunks(chunks_spec(data, size)) == data,
        forall|i: int|
            0 <= i < chunks_spec(data, size).len() ==> 0 < (#[trigger] chunks_spec(data, size)[i]).len()
                <= size,
    decreases data.len(),
{
    let c = chunks_spec(data, size);
    if data.len() == 0 {
        assert(data =~= Seq::<u8>::empty());
    } else if data.len() <= size {
        assert(c =~= seq![data]);
        assert(c[0] == data);
        assert(c.drop_first() =~= Seq::<Seq<u8>>::empty());
        assert(joined_chunks(c.drop_first()) == Seq::<u8>::empty());
        assert(data + Seq::<u8>::empty() =~= data);
    } else {
        let rest = data.skip(size as int);
        law_chunks_rejoin(rest, size);
        assert(c[0] == data.take(size as int));
        assert(c.drop_first() =~= chunks_spec(rest, size));
        assert(data.take(size as int) + rest =~= data);
        assert forall|i: int| 0 <= i < c.len() implies 0 < (#[trigger] c[i]).len() <= size by {
            if i > 0 {
                assert(c[i] == chunks_spec(rest, size)[i - 1]);
            }
        }
    }
}

/// The file that a dump is written to, under the EVA ICS directory: by
/// its time stamp, a service request's with the suffix `.sr`, a plain
/// compressed dump's with `.dump.bz2`.
pub fn dump_file_name(stamp: &str, service_request: bool) -> (r: String)
    ensures
        r@ == "var/"@ + stamp@ + (if service_request {
            ".sr"@
        } else {
            ".dump.bz2"@
        }),
{
    let mut r = String::new();
    push_str(&mut r, "var/");
    push_str(&mut r, stamp);
    if service_request {
        push_str(&mut r, ".sr");
    } else {
        push_str(&mut r, ".dump.bz2");
    }
    r
}

#[verifier::external_type_specification]
#[verifier::external_body]
pub struct ExPublic(Public);

#[verifier::external_type_specification]
#[verifier::external_body]
#[verifier::reject_recursive_types(T)]
pub struct ExRsa<T>(Rsa<T>);

/// An RSA public key with the PKCS #1 DER bytes that it was read from.
pub struct DumpKey {
    key: Rsa<Public>,
    der: Vec<u8>,
}

impl DumpKey {
    /// The DER bytes that the key was read from.
    pub closed spec fn der_bytes(&self) -> Seq<u8> {
        self.der@
    }
}

/// Whether the bytes are a PKCS #1 DER RSA public key, as
/// `Rsa::public_key_from_der_pkcs1` reads them.
pub uninterp spec fn der_holds_key(der: Seq<u8>) -> bool;

/// The size in bytes (`RsaRef::size`) of the RSA public key that the
/// PKCS #1 DER bytes hold.
pub uninterp spec fn der_key_size(der: Seq<u8>) -> nat;

/// The message that an encrypted block stands for under the RSA public key
/// that the DER bytes hold: what decryption with the matching private key
/// and PKCS #1 padding gives.
pub uninterp spec fn rsa_plaintext(der: Seq<u8>, block: Seq<u8>) -> Seq<u8>;

/// Calls `Rsa::public_key_from_der_pkcs1`: the key that the DER bytes hold,
/// kept with those bytes; the contract names when it succeeds
/// [`der_holds_key`].
#[verifier::external_body]
fn rsa_public_key(der: &[u8]) -> (r: Option<DumpKey>)
    ensures
        r is Some <==> der_holds_key(der@),
        r matches Some(k) ==> k.der_bytes() == der@,
{
    Rsa::public_key_from_der_pkcs1(der).ok().map(|key| DumpKey { key, der: der.to_vec() })
}

/// Calls `RsaRef::size`: the key's size in bytes, named [`der_key_size`]
/// of the bytes the key was read from.
#[verifier::external_body]
fn rsa_size(key: &DumpKey) -> (r: u32)
    ensures
        r as nat == der_key_size(key.der_bytes()),
{
    key.key.size()
}

/// Calls `RsaRef::public_encrypt` with PKCS #1 padding, into a buffer of
/// the key's size, and gives the bytes it wrote. Where it succeeds, they
/// are one block of the key's size, which stands for the input under the
/// key ([`rsa_plaintext`]); the block's bytes themselves rest on random
/// padding and are not stated, nor is when the encryption fails.
#[verifier::external_body]
fn rsa_encrypt_block(key: &DumpKey, block: &[u8]) -> (r: Option<Vec<u8>>)
    requires
        block@.len() <= i32::MAX,
    ensures
        r matches Some(c) ==> c@.len() == der_key_size(key.der_bytes()) && rsa_plaintext(
            key.der_bytes(),
            c@,
        ) == block@,
{
    let mut out = vec![0u8; key.key.size() as usize];
    let len = key.key.public_encrypt(block, &mut out, openssl::rsa::Padding::PKCS1).ok()?;
    out.truncate(len);
    Some(out)
}

/// Why a service request could not be sealed.
#[derive(PartialEq, Eq, Structural, Copy, Clone, Debug)]
pub enum SealError {
    /// the bytes hold no RSA public key
    BadKey,
    /// the key is too small to hold the padding
    KeyTooSmall,
    /// a block could not be encrypted
    Encrypt,
}

/// Whether `blocks` encrypt, one by one and in order, the chunks that a key
/// of `key_size` bytes takes of `data`, under the key that `der` holds;
/// each block is as long as the key.
pub open spec fn blocks_seal(blocks: Seq<Seq<u8>>, der: Seq<u8>, data: Seq<u8>, key_size: nat) -> bool {
    let chunks = chunks_spec(data, (key_size - PKCS1_PADDING) as nat);
    &&& blocks.len() == chunks.len()
    &&& forall|i: int|
        0 <= i < blocks.len() ==> (#[trigger] blocks[i]).len() == key_size && rsa_plaintext(
            der,
            blocks[i],
        ) == chunks[i]
}

/// Whether `sealed` is the data sealed with the key that `der` holds: the
/// joined blocks that encrypt its chunks.
pub open spec fn sealed_with(sealed: Seq<u8>, der: Seq<u8>, data: Seq<u8>) -> bool {
    exists|blocks: Seq<Seq<u8>>|
        #[trigger] blocks_seal(blocks, der, data, der_key_size(der)) && sealed == joined_chunks(blocks)
}

proof fn lemma_joined_push(c: Seq<Seq<u8>>, x: Seq<u8>)
    ensures
        joined_chunks(c.push(x)) == joined_chunks(c) + x,
    decreases c.len(),
{
    if c.len() == 0 {
        assert(c.push(x).drop_first() =~= Seq::<Seq<u8>>::empty());
        assert(c.push(x)[0] == x);
        assert(joined_chunks(Seq::<Seq<u8>>::empty()) == Seq::<u8>::empty());
        assert(joined_chunks(c) == Seq::<u8>::empty());
        assert(x + Seq::<u8>::empty() =~= x);
        assert(Seq::<u8>::empty() + x =~= x);
    } else {
        assert(c.push(x)[0] == c[0]);
        assert(c.push(x).drop_first() =~= c.drop_first().push(x));
        lemma_joined_push(c.drop_first(), x);
        assert(c[0] + (joined_chunks(c.drop_first()) + x) =~= (c[0] + joined_chunks(c.drop_first())) + x);
    }
}

/// A service request: the compressed dump encrypted chunk by chunk with
/// the RSA public key that `public_key_der` holds (PKCS #1 DER). Bytes that
/// hold no key and a key smaller than the padding are refused; a key too
/// large for openssl's block lengths (over `i32::MAX` bytes) is refused as
/// an encryption failure. Otherwise a sealed request is the joined blocks
/// that encrypt the chunks of [`dump_chunks`] in order, and the only other
/// outcome is an encryption failure.
pub fn seal_dump(public_key_der: &[u8], compressed: &Vec<u8>) -> (r: Result<Vec<u8>, SealError>)
    ensures
        !der_holds_key(public_key_der@) ==> r == Err::<Vec<u8>, SealError>(SealError::BadKey),
        der_holds_key(public_key_der@) && der_key_size(public_key_der@) < PKCS1_PADDING ==> r
            == Err::<Vec<u8>, SealError>(SealError::KeyTooSmall),
        der_holds_key(public_key_der@) && PKCS1_PADDING <= der_key_size(public_key_der@) ==> match r {
            Ok(sealed) => sealed_with(sealed@, public_key_der@, compressed@),
            Err(e) => e == SealError::Encrypt,
        },
{
    let key = match rsa_public_key(public_key_der) {
        Some(k) => k,
        None => return Err(SealError::BadKey),
    };
    let size = rsa_size(&key);
    if size < 11 {
        return Err(SealError::KeyTooSmall);
    }
    if size > 2147483647 {
        return Err(SealError::Encrypt);
    }
    let key_size = size as usize;
    let chunks = dump_chunks(compressed, key_size);
    let ghost der = public_key_der@;
    let ghost cs = chunks_spec(compressed@, (key_size - PKCS1_PADDING) as nat);
    proof {
        if key_size > PKCS1_PADDING {
            law_chunks_rejoin(compressed@, (key_size - PKCS1_PADDING) as nat);
        }
    }
    let mut sealed: Vec<u8> = Vec::new();
    let ghost mut blocks: Seq<Seq<u8>> = Seq::empty();
    let mut i: usize = 0;
    while i < chunks.len()
        invariant
            i <= chunks.len(),
            key.der_bytes() == der,
            der == public_key_der@,
            der_holds_key(der),
            size as nat == der_key_size(der),
            key_size == size,
            11 <= size <= 2147483647,
            chunks_view(chunks@) == cs,
            forall|k: int| 0 <= k < cs.len() ==> (#[trigger] cs[k]).len() <= key_size - PKCS1_PADDING,
            blocks.len() == i,
            forall|k: int|
                0 <= k < i ==> (#[trigger] blocks[k]).len() == key_size && rsa_plaintext(der, blocks[k])
                    == cs[k],
            sealed@ == joined_chunks(blocks),
        decreases chunks.len() - i,
    {
        assert(chunks_view(chunks@)[i as int] == chunks@[i as int]@);
        assert(cs[i as int].len() <= key_size - PKCS1_PADDING);
        let b = match rsa_encrypt_block(&key, chunks[i].as_slice()) {
            Some(b) => b,
            None => return Err(SealError::Encrypt),
        };
        proof {
            lemma_joined_push(blocks, b@);
            blocks = blocks.push(b@);
        }
        let mut bb = b;
        sealed.append(&mut bb);
        i = i + 1;
    }
    assert(blocks_seal(blocks, der, compressed@, der_key_size(der)));
    assert(sealed_with(sealed@, der, compressed@));
    Ok(sealed)
}

} // verus!
