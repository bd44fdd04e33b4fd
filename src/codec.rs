use crate::error::ErrorCode;
use byteorder::{ByteOrder, LittleEndian};
use vstd::prelude::*;

verus! {

/// The UTF-16 code units of one Unicode scalar value.
pub open spec fn scalar_units(v: u32) -> Seq<u16> {
    if v < 0x10000 {
        seq![v as u16]
    } else {
        seq![
            (0xD800 + (v - 0x10000) / 0x400) as u16,
            (0xDC00 + (v - 0x10000) % 0x400) as u16,
        ]
    }
}

/// The UTF-16 code units of a text, without a terminating unit.
pub open spec fn utf16_of(chars: Seq<char>) -> Seq<u16>
    decreases chars.len(),
{
    if chars.len() == 0 {
        seq![]
    } else {
        scalar_units(chars[0] as u32) + utf16_of(chars.drop_first())
    }
}

/// Each code unit as two bytes, least significant first.
pub open spec fn le_bytes_of(units: Seq<u16>) -> Seq<u8> {
    Seq::new(
        2 * units.len(),
        |i: int|
            if i % 2 == 0 {
                (units[i / 2] % 256) as u8
            } else {
                (units[i / 2] / 256) as u8
            },
    )
}

/// Each pair of bytes, least significant first, as a code unit.
pub open spec fn units_of_le(bytes: Seq<u8>) -> Seq<u16> {
    Seq::new(bytes.len() / 2, |i: int| (bytes[2 * i] + 256 * bytes[2 * i + 1]) as u16)
}

/// A stored blob is the encoding of `text`.
pub open spec fn decodes_to(blob: Seq<u8>, text: Seq<char>) -> bool {
    blob.len() % 2 == 0 && units_of_le(blob) == utf16_of(text)
}

/// The outcome of decoding `blob`: the text it encodes, when there is one,
/// else the bytes themselves as a `BadEncoding` error.
pub open spec fn password_outcome(r: Result<String, ErrorCode>, blob: Seq<u8>) -> bool {
    &&& r matches Ok(t) ==> decodes_to(blob, t@)
    &&& forall|s: Seq<char>| #[trigger] decodes_to(blob, s) ==> (r matches Ok(t) && t@ == s)
    &&& r matches Err(e) ==> (e matches ErrorCode::BadEncoding(b) && b@ == blob)
}

/// Relies on `str::encode_utf16`: the UTF-16 code units of the text.
#[verifier::external_body]
fn utf16_units(s: &str) -> (r: Vec<u16>)
    ensures
        r@ == utf16_of(s@),
{
    s.encode_utf16().collect()
}

/// The outcome of a decoding is the text `s`.
pub open spec fn decoded_as(r: Option<String>, s: Seq<char>) -> bool {
    r matches Some(t) && t@ == s
}

/// Relies on `String::from_utf16`: it gives back the text whose UTF-16 code
/// units are `units`, and fails where no text has them.
#[verifier::external_body]
fn text_of_utf16(units: &[u16]) -> (r: Option<String>)
    ensures
        r matches Some(t) ==> utf16_of(t@) == units@,
        forall|s: Seq<char>| utf16_of(s) == units@ ==> #[trigger] decoded_as(r, s),
{
    String::from_utf16(units).ok()
}

/// The text that `String::from_utf16_lossy` makes of code units: valid
/// units decoded, each invalid one replaced by U+FFFD.
pub uninterp spec fn lossy_text_of(units: Seq<u16>) -> Seq<char>;

/// Relies on `String::from_utf16_lossy`: the result depends on the units
/// alone, and on the UTF-16 code units of a text it gives back that text.
#[verifier::external_body]
pub(crate) fn text_of_utf16_lossy(units: &[u16]) -> (r: String)
    ensures
        r@ == lossy_text_of(units@),
        forall|s: Seq<char>| #[trigger] utf16_of(s) == units@ ==> r@ == s,
{
    String::from_utf16_lossy(units)
}

/// Relies on `byteorder`'s `LittleEndian::write_u16_into`, which panics
/// unless the destination has two bytes for each unit.
#[verifier::external_body]
fn write_units_le(src: &[u16], dst: &mut Vec<u8>)
    requires
        old(dst)@.len() == 2 * src@.len(),
    ensures
        final(dst)@ == le_bytes_of(src@),
{
    LittleEndian::write_u16_into(src, dst.as_mut_slice())
}

/// Relies on `byteorder`'s `LittleEndian::read_u16_into`, which panics
/// unless the source has two bytes for each unit.
#[verifier::external_body]
fn read_units_le(src: &[u8], dst: &mut Vec<u16>)
    requires
        src@.len() == 2 * old(dst)@.len(),
    ensures
        final(dst)@ == units_of_le(src@),
{
    LittleEndian::read_u16_into(src, dst.as_mut_slice())
}

/// A vector of `2 * n` zero bytes.
fn zero_pairs(n: usize) -> (r: Vec<u8>)
    ensures
        r@.len() == 2 * n,
{
    let mut v: Vec<u8> = Vec::new();
    let mut i: usize = 0;
    while i < n
        invariant
            i <= n,
            v@.len() == 2 * i,
        decreases n - i,
    {
        v.push(0);
        v.push(0);
        i = i + 1;
    }
    v
}

/// A copy of the bytes.
fn copy_bytes(b: &[u8]) -> (r: Vec<u8>)
    ensures
        r@ == b@,
{
    let mut v: Vec<u8> = Vec::with_capacity(b.len());
    let mut i: usize = 0;
    while i < b.len()
        invariant
            i <= b@.len(),
            v@ == b@.subrange(0, i as int),
        decreases b@.len() - i,
    {
        v.push(b[i]);
        i = i + 1;
    }
    v
}

/// A vector of `n` zero code units.
fn zero_units(n: usize) -> (r: Vec<u16>)
    ensures
        r@.len() == n,
{
    let mut v: Vec<u16> = Vec::with_capacity(n);
    let mut i: usize = 0;
    while i < n
        invariant
            i <= n,
            v@.len() == i,
        decreases n - i,
    {
        v.push(0);
        i = i + 1;
    }
    v
}

/// The text as a wide string for the vault: its UTF-16 code units and a
/// terminating zero unit.
pub fn to_wstr(s: &str) -> (r: Vec<u16>)
    ensures
        r@ == utf16_of(s@).push(0),
{
    let mut units = utf16_units(s);
    units.push(0);
    units
}

/// The UTF-16 code units of the text, without a terminating unit.
pub fn to_wstr_no_null(s: &str) -> (r: Vec<u16>)
    ensures
        r@ == utf16_of(s@),
{
    utf16_units(s)
}

/// `k` is where a wide string ends: at its first zero unit, or at its
/// length where it has none.
pub open spec fn ends_at_nul(ws: Seq<u16>, k: int) -> bool {
    &&& 0 <= k <= ws.len()
    &&& k == ws.len() || ws[k] == 0
    &&& forall|j: int| 0 <= j < k ==> ws[j] != 0
}

/// Reads a wide string from the vault: the text of its units up to the first
/// zero unit, with invalid units replaced.
pub fn from_wstr(ws: &[u16]) -> (r: String)
    ensures
        forall|k: int| #[trigger] ends_at_nul(ws@, k) ==> r@ == lossy_text_of(ws@.subrange(0, k)),
        forall|s: Seq<char>| #[trigger] utf16_of(s) == ws@ && !utf16_of(s).contains(0) ==> r@ == s,
{
    let mut len: usize = 0;
    while len < ws.len() && ws[len] != 0
        invariant
            len <= ws@.len(),
            forall|j: int| 0 <= j < len ==> ws@[j] != 0,
        decreases ws@.len() - len,
    {
        len = len + 1;
    }
    assert forall|k: int| #[trigger] ends_at_nul(ws@, k) implies k == len by {
        if k < len {
            assert(ws@[k] != 0);
        } else if k > len {
            assert(ws@[len as int] != 0);
        }
    }
    if len == ws.len() {
        assert(ws@.subrange(0, len as int) =~= ws@);
        text_of_utf16_lossy(ws)
    } else {
        let ghost w = ws@;
        assert forall|s: Seq<char>| #[trigger] utf16_of(s) == w implies utf16_of(s).contains(0) by {
            assert(utf16_of(s)[len as int] == 0);
        }
        let head = slice_prefix(ws, len);
        text_of_utf16_lossy(head.as_slice())
    }
}

/// The first `n` units of a wide string.
fn slice_prefix(ws: &[u16], n: usize) -> (r: Vec<u16>)
    requires
        n <= ws@.len(),
    ensures
        r@ == ws@.subrange(0, n as int),
{
    let mut v: Vec<u16> = Vec::with_capacity(n);
    let mut i: usize = 0;
    while i < n
        invariant
            i <= n <= ws@.len(),
            v@ == ws@.subrange(0, i as int),
        decreases n - i,
    {
        v.push(ws[i]);
        i = i + 1;
    }
    v
}

/// The blob stored for a secret: its UTF-16 code units, two bytes each,
/// least significant first.
pub fn encode_password(password: &str) -> (r: Vec<u8>)
    ensures
        r@ == le_bytes_of(utf16_of(password@)),
{
    let units = to_wstr_no_null(password);
    let mut blob = zero_pairs(units.len());
    write_units_le(units.as_slice(), &mut blob);
    blob
}

/// Decodes a stored blob as text. An odd-length blob, or one whose units are
/// not the UTF-16 encoding of any text, fails with the bytes as stored.
pub fn extract_password(blob: &[u8]) -> (r: Result<String, ErrorCode>)
    ensures
        password_outcome(r, blob@),
        blob@.len() % 2 == 1 ==> r is Err,
{
    if blob.len() % 2 != 0 {
        return Err(ErrorCode::BadEncoding(copy_bytes(blob)));
    }
    let mut units = zero_units(blob.len() / 2);
    read_units_le(blob, &mut units);
    let decoded = text_of_utf16(units.as_slice());
    assert forall|s: Seq<char>| #[trigger] decodes_to(blob@, s) implies decoded_as(decoded, s) by {
        assert(utf16_of(s) == units@);
    }
    match decoded {
        Some(t) => Ok(t),
        None => Err(ErrorCode::BadEncoding(copy_bytes(blob))),
    }
}

/// A blob made by `encode_password` is the encoding of the same text.
pub proof fn encoding_round_trips(text: Seq<char>)
    ensures
        decodes_to(le_bytes_of(utf16_of(text)), text),
{
    let u = utf16_of(text);
    let b = le_bytes_of(u);
    assert forall|i: int| 0 <= i < u.len() implies #[trigger] units_of_le(b)[i] == u[i] by {
        assert(b[2 * i] == (u[i] % 256) as u8);
        assert(b[2 * i + 1] == (u[i] / 256) as u8);
    }
    assert(units_of_le(b) =~= u);
}

/// Decoding inverts encoding: whatever `extract_password` returns on the
/// blob that `encode_password` made of a text is that text.
pub proof fn decode_inverts_encode(text: Seq<char>, r: Result<String, ErrorCode>)
    requires
        password_outcome(r, le_bytes_of(utf16_of(text))),
    ensures
        r matches Ok(t) && t@ == text,
{
    encoding_round_trips(text);
}

} // verus!
