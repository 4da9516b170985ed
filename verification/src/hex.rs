//! Hexadecimal text of byte strings, through the `hex` crate.
use vstd::prelude::*;

verus! {

/// The lowercase hexadecimal digit of `n` (`n < 16`).
pub open spec fn hex_digit(n: int) -> char {
    if n < 10 {
        (n + 48) as char
    } else {
        (n + 87) as char
    }
}

/// The lowercase hexadecimal text of `data`: two digits per byte, the high
/// half first.
pub open spec fn hex_text(data: Seq<u8>) -> Seq<char>
    decreases data.len(),
{
    if data.len() == 0 {
        Seq::empty()
    } else {
        hex_text(data.drop_last()) + seq![
            hex_digit(data.last() as int / 16),
            hex_digit(data.last() as int % 16),
        ]
    }
}

/// The value of a hexadecimal digit byte, either case.
pub open spec fn hex_value(b: u8) -> Option<u8> {
    if 48 <= b <= 57 {
        Some((b - 48) as u8)
    } else if 65 <= b <= 70 {
        Some((b - 55) as u8)
    } else if 97 <= b <= 102 {
        Some((b - 87) as u8)
    } else {
        None
    }
}

/// The bytes that a hexadecimal text stands for, or `None` for a text of
/// odd length or with a byte that is not a hexadecimal digit.
pub open spec fn hex_bytes(text: Seq<u8>) -> Option<Seq<u8>>
    decreases text.len(),
{
    if text.len() % 2 != 0 {
        None
    } else if text.len() == 0 {
        Some(Seq::empty())
    } else {
        let n = text.len() as int;
        match (hex_bytes(text.subrange(0, n - 2)), hex_value(text[n - 2]), hex_value(text[n - 1])) {
            (Some(prefix), Some(hi), Some(lo)) => Some(prefix.push((hi * 16 + lo) as u8)),
            _ => None,
        }
    }
}

/// Calls `hex::encode`: the lowercase hexadecimal text of the bytes.
#[verifier::external_body]
pub fn hex_encode(data: &[u8]) -> (r: String)
    ensures
        r@ == hex_text(data@),
{
    hex::encode(data)
}

/// Calls `hex::decode` on the bytes of a text: the bytes that it stands for,
/// or an error where [`hex_bytes`] has none.
#[verifier::external_body]
pub fn hex_decode(text: &[u8]) -> (r: Option<Vec<u8>>)
    ensures
        match r {
            Some(b) => hex_bytes(text@) == Some(b@),
            None => hex_bytes(text@) is None,
        },
{
    hex::decode(text).ok()
}

/// The hexadecimal text of a byte string, read back byte by byte, is the
/// byte string.
pub proof fn lemma_hex_roundtrip(data: Seq<u8>)
    ensures
        hex_text(data).len() == 2 * data.len(),
        hex_bytes(hex_text(data).map_values(|c: char| c as u8)) == Some(data),
    decreases data.len(),
{
    if data.len() > 0 {
        let prev = data.drop_last();
        lemma_hex_roundtrip(prev);
        let t = hex_text(data);
        let b = t.map_values(|c: char| c as u8);
        let pb = hex_text(prev).map_values(|c: char| c as u8);
        let x = data.last();
        let n = t.len() as int;
        assert(b.subrange(0, n - 2) =~= pb);
        let hi = x as int / 16;
        let lo = x as int % 16;
        assert(hex_value(hex_digit(hi) as u8) == Some(hi as u8));
        assert(hex_value(hex_digit(lo) as u8) == Some(lo as u8));
        assert(b[n - 2] == hex_digit(hi) as u8);
        assert(b[n - 1] == hex_digit(lo) as u8);
        assert((hi * 16 + lo) as u8 == x);
        assert(prev.push(x) =~= data);
    }
}

/// Every character of a hexadecimal text is ASCII.
pub proof fn lemma_hex_text_ascii(data: Seq<u8>)
    ensures
        forall|i: int| 0 <= i < hex_text(data).len() ==> '\0' <= #[trigger] hex_text(data)[i] <= '\u{7f}',
    decreases data.len(),
{
    if data.len() > 0 {
        lemma_hex_text_ascii(data.drop_last());
        let t = hex_text(data);
        let p = hex_text(data.drop_last());
        assert forall|i: int| 0 <= i < t.len() implies '\0' <= #[trigger] t[i] <= '\u{7f}' by {
            if i < p.len() {
                assert(t[i] == p[i]);
            }
        }
    }
}


/// A hexadecimal text stands for half as many bytes as it has.
pub proof fn lemma_hex_bytes_len(text: Seq<u8>)
    ensures
        hex_bytes(text) matches Some(u) ==> u.len() * 2 == text.len(),
    decreases text.len(),
{
    if text.len() % 2 == 0 && text.len() > 0 {
        lemma_hex_bytes_len(text.subrange(0, text.len() - 2));
    }
}

} // verus!
