use vstd::prelude::*;

verus! {

/// Little-endian 16-bit value of the two bytes at offset `i`.
pub open spec fn le16_at(b: Seq<u8>, i: int) -> u16
    recommends
        0 <= i,
        i + 2 <= b.len(),
{
    (b[i] + b[i + 1] * 0x100) as u16
}

/// Little-endian 32-bit value of the four bytes at offset `i`.
pub open spec fn le32_at(b: Seq<u8>, i: int) -> u32
    recommends
        0 <= i,
        i + 4 <= b.len(),
{
    (b[i] + b[i + 1] * 0x100 + b[i + 2] * 0x1_0000 + b[i + 3] * 0x100_0000) as u32
}

/// Big-endian 32-bit value of the four bytes at offset `i`.
pub open spec fn be32_at(b: Seq<u8>, i: int) -> u32
    recommends
        0 <= i,
        i + 4 <= b.len(),
{
    (b[i] * 0x100_0000 + b[i + 1] * 0x1_0000 + b[i + 2] * 0x100 + b[i + 3]) as u32
}

/// Value of the 4-byte big-endian field at offset `i` with its most-significant
/// byte forced to zero: only the low three bytes contribute.
pub open spec fn be32_masked_at(b: Seq<u8>, i: int) -> u32
    recommends
        0 <= i,
        i + 4 <= b.len(),
{
    (b[i + 1] * 0x1_0000 + b[i + 2] * 0x100 + b[i + 3]) as u32
}

pub fn read_u16_le(b: &[u8], i: usize) -> (r: u16)
    requires
        i + 2 <= b@.len(),
    ensures
        r == le16_at(b@, i as int),
{
    b[i] as u16 + (b[i + 1] as u16) * 0x100
}

pub fn read_u32_le(b: &[u8], i: usize) -> (r: u32)
    requires
        i + 4 <= b@.len(),
    ensures
        r == le32_at(b@, i as int),
{
    b[i] as u32 + (b[i + 1] as u32) * 0x100 + (b[i + 2] as u32) * 0x1_0000 + (b[i + 3] as u32)
        * 0x100_0000
}

pub fn read_u32_be(b: &[u8], i: usize) -> (r: u32)
    requires
        i + 4 <= b@.len(),
    ensures
        r == be32_at(b@, i as int),
{
    (b[i] as u32) * 0x100_0000 + (b[i + 1] as u32) * 0x1_0000 + (b[i + 2] as u32) * 0x100 + b[i
        + 3] as u32
}

pub fn read_u32_be_masked(b: &[u8], i: usize) -> (r: u32)
    requires
        i + 4 <= b@.len(),
    ensures
        r == be32_masked_at(b@, i as int),
{
    let n: usize = b.len();
    proof {
        assert(i + 4 <= n);
    }
    (b[i + 1] as u32) * 0x1_0000 + (b[i + 2] as u32) * 0x100 + b[i + 3] as u32
}

/// The 16-bit little-endian code units packed in `b`, two bytes each; a
/// trailing odd byte is dropped.
pub open spec fn utf16le_units(b: Seq<u8>) -> Seq<u16> {
    Seq::new((b.len() / 2) as nat, |i: int| le16_at(b, 2 * i))
}

pub fn collect_utf16le_units(b: &[u8]) -> (r: Vec<u16>)
    ensures
        r@ == utf16le_units(b@),
{
    let n = b.len() / 2;
    let mut units: Vec<u16> = Vec::new();
    let mut j: usize = 0;
    while j < n
        invariant
            j <= n,
            n == b@.len() / 2,
            b@.len() <= usize::MAX,
            units@.len() == j,
            forall|k: int| 0 <= k < j ==> units@[k] == le16_at(b@, 2 * k),
        decreases n - j,
    {
        let u = read_u16_le(b, 2 * j);
        units.push(u);
        j = j + 1;
    }
    proof {
        assert(units@ =~= utf16le_units(b@));
    }
    units
}

/// The characters that lossy UTF-16 decoding yields for a sequence of code
/// units; malformed units become replacement characters, never a failure.
pub uninterp spec fn utf16_lossy(units: Seq<u16>) -> Seq<char>;

/// Relies on String::from_utf16_lossy: infallible, and its result depends on
/// the code units alone.
#[verifier::external_body]
pub(crate) fn utf16_lossy_string(units: &Vec<u16>) -> (r: String)
    ensures
        r@ == utf16_lossy(units@),
{
    String::from_utf16_lossy(units.as_slice())
}

/// The characters that lossy UTF-8 decoding yields for a byte sequence;
/// invalid sequences become replacement characters, never a failure.
pub uninterp spec fn utf8_lossy(bytes: Seq<u8>) -> Seq<char>;

/// Relies on String::from_utf8_lossy: infallible, and its result depends on
/// the bytes alone.
#[verifier::external_body]
pub(crate) fn utf8_lossy_string(bytes: &[u8]) -> (r: String)
    ensures
        r@ == utf8_lossy(bytes@),
{
    String::from_utf8_lossy(bytes).into_owned()
}

/// Lossy UTF-16LE decoding of a raw byte run: pair the bytes into
/// little-endian code units, then decode them lossily.
pub fn utf16le_lossy_string(b: &[u8]) -> (r: String)
    ensures
        r@ == utf16_lossy(utf16le_units(b@)),
{
    let units = collect_utf16le_units(b);
    utf16_lossy_string(&units)
}

} // verus!
