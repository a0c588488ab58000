//! The in-memory form of a firmware variable: a sequence of 16-bit code units,
//! with its conversions to and from strings, packed integers and raw bytes.
use byteorder::{ByteOrder, NativeEndian};
use vstd::prelude::*;

verus! {

/// The UTF-16 code units of one Unicode scalar value.
pub open spec fn char_utf16(c: char) -> Seq<u16> {
    let v = c as u32 as int;
    if v < 0x10000 {
        seq![v as u16]
    } else {
        let w = v - 0x10000;
        seq![(0xD800 + w / 0x400) as u16, (0xDC00 + w % 0x400) as u16]
    }
}

/// The UTF-16 encoding of a string, without byte-order mark or terminator.
pub open spec fn utf16_of(s: Seq<char>) -> Seq<u16>
    decreases s.len(),
{
    if s.len() == 0 {
        seq![]
    } else {
        char_utf16(s[0]) + utf16_of(s.drop_first())
    }
}

/// True when `u` is the UTF-16 encoding of some string.
pub open spec fn is_utf16(u: Seq<u16>) -> bool {
    exists|t: Seq<char>| utf16_of(t) == u
}

/// The units that are parsed as text: a trailing zero terminator, if any, is dropped.
pub open spec fn strip_terminator(u: Seq<u16>) -> Seq<u16> {
    if u.len() > 0 && u.last() == 0 {
        u.drop_last()
    } else {
        u
    }
}

/// The value of four little-endian 16-bit limbs, least significant first.
pub open spec fn packed_u64(u: Seq<u16>) -> int {
    u[0] + u[1] * 0x1_0000 + u[2] * 0x1_0000_0000 + u[3] * 0x1_0000_0000_0000
}

/// The 16-bit unit made of a low and a high byte.
pub open spec fn unit_of(lo: u8, hi: u8) -> u16 {
    (lo + hi * 0x100) as u16
}

/// The units that a byte sequence of even length holds, read in little-endian
/// order when `little` holds and in big-endian order otherwise.
pub open spec fn units_from_bytes(b: Seq<u8>, little: bool) -> Seq<u16> {
    Seq::new(
        (b.len() / 2) as nat,
        |i: int|
            if little {
                unit_of(b[2 * i], b[2 * i + 1])
            } else {
                unit_of(b[2 * i + 1], b[2 * i])
            },
    )
}

proof fn lemma_char_utf16_shape(c: char)
    ensures
        char_utf16(c).len() == 1 ==> !(0xD800 <= char_utf16(c)[0] <= 0xDBFF),
        char_utf16(c).len() == 2 ==> 0xD800 <= char_utf16(c)[0] <= 0xDBFF,
        char_utf16(c).len() == 1 || char_utf16(c).len() == 2,
{
}

proof fn lemma_char_utf16_injective(a: char, b: char)
    requires
        char_utf16(a) == char_utf16(b),
    ensures
        a == b,
{
    let va = a as u32 as int;
    let vb = b as u32 as int;
    assert(va >= 0x10000 <==> vb >= 0x10000);
    if va >= 0x10000 {
        let wa = va - 0x10000;
        let wb = vb - 0x10000;
        assert(char_utf16(a)[0] == char_utf16(b)[0]);
        assert(char_utf16(a)[1] == char_utf16(b)[1]);
        assert(0 <= wa / 0x400 < 0x400 && 0 <= wb / 0x400 < 0x400);
        assert(((0xD800 + wa / 0x400) as u16) == 0xD800 + wa / 0x400);
        assert(((0xD800 + wb / 0x400) as u16) == 0xD800 + wb / 0x400);
        assert(((0xDC00 + wa % 0x400) as u16) == 0xDC00 + wa % 0x400);
        assert(((0xDC00 + wb % 0x400) as u16) == 0xDC00 + wb % 0x400);
        assert(wa / 0x400 == wb / 0x400);
        assert(wa % 0x400 == wb % 0x400);
        assert(wa == 0x400 * (wa / 0x400) + wa % 0x400);
        assert(wb == 0x400 * (wb / 0x400) + wb % 0x400);
        assert(wa == wb);
    } else {
        assert(char_utf16(a)[0] == char_utf16(b)[0]);
        assert((va as u16) == va);
        assert((vb as u16) == vb);
        assert(char_utf16(a)[0] == va);
        assert(char_utf16(b)[0] == vb);
    }
    assert(va == vb);
}

/// Distinct strings have distinct UTF-16 encodings, so a decoded string is
/// fully determined by the units it came from.
pub proof fn lemma_utf16_injective(a: Seq<char>, b: Seq<char>)
    requires
        utf16_of(a) == utf16_of(b),
    ensures
        a == b,
    decreases a.len(),
{
    if a.len() == 0 {
        if b.len() > 0 {
            lemma_char_utf16_shape(b[0]);
            assert(utf16_of(b).len() == char_utf16(b[0]).len() + utf16_of(b.drop_first()).len());
        }
    } else {
        if b.len() == 0 {
            lemma_char_utf16_shape(a[0]);
            assert(utf16_of(a).len() == char_utf16(a[0]).len() + utf16_of(a.drop_first()).len());
            assert(utf16_of(b).len() == 0);
        } else {
            let ca = char_utf16(a[0]);
            let cb = char_utf16(b[0]);
            let u = utf16_of(a);
            lemma_char_utf16_shape(a[0]);
            lemma_char_utf16_shape(b[0]);
            assert(u[0] == ca[0]);
            assert(u[0] == cb[0]);
            assert(ca.len() == cb.len());
            assert(ca =~= u.subrange(0, ca.len() as int));
            assert(cb =~= u.subrange(0, ca.len() as int));
            lemma_char_utf16_injective(a[0], b[0]);
            assert(utf16_of(a.drop_first()) =~= u.subrange(ca.len() as int, u.len() as int));
            assert(utf16_of(b.drop_first()) =~= u.subrange(ca.len() as int, u.len() as int));
            lemma_utf16_injective(a.drop_first(), b.drop_first());
            assert(a =~= seq![a[0]] + a.drop_first());
            assert(b =~= seq![b[0]] + b.drop_first());
        }
    }
}

/// Decoding what `EfiVar::encode` produces gives back the string: the units
/// of a string plus a zero terminator are, once the terminator is dropped,
/// well-formed UTF-16 whose only decoding is that string.
pub proof fn lemma_string_round_trip(s: Seq<char>)
    ensures
        is_utf16(strip_terminator(utf16_of(s).push(0))),
        forall|t: Seq<char>|
            utf16_of(t) == strip_terminator(utf16_of(s).push(0)) ==> t == s,
{
    assert(strip_terminator(utf16_of(s).push(0)) =~= utf16_of(s));
    assert forall|t: Seq<char>|
        utf16_of(t) == strip_terminator(utf16_of(s).push(0)) implies t == s by {
        lemma_utf16_injective(t, s);
    }
}

/// Why an operation on a firmware variable failed. `code` is the platform's
/// error code, taken where the failing call returned.
#[derive(Debug, Clone, Copy, PartialEq, Eq, Structural)]
pub enum EfiError {
    /// A read buffer must have a positive, even size that fits in 32 bits.
    InvalidBufferSize,
    /// The platform read no bytes: the variable is missing or cannot be read.
    VariableRead { code: u32 },
    /// The platform did not accept the write.
    VariableWrite { code: u32 },
    /// The units are not well-formed UTF-16.
    Encoding,
    /// The value is too large to be handed to the platform in one write.
    ValueTooLarge,
}

/// The payload of a firmware variable while it is in memory.
pub struct EfiVar {
    data: Vec<u16>,
}

impl View for EfiVar {
    type V = Seq<u16>;

    closed spec fn view(&self) -> Seq<u16> {
        self.data@
    }
}

/// Relies on `str::encode_utf16`, collected into a vector: the UTF-16 units of `s`.
#[verifier::external_body]
fn encode_utf16_units(s: &str) -> (r: Vec<u16>)
    ensures
        r@ == utf16_of(s@),
{
    s.encode_utf16().collect()
}

/// Relies on `String::from_utf16`: the string whose UTF-16 encoding is `v`, or
/// `None` when `v` is not well-formed UTF-16.
#[verifier::external_body]
fn decode_utf16_units(v: &[u16]) -> (r: Option<String>)
    ensures
        r matches Some(s) ==> utf16_of(s@) == v@,
        r is None <==> !is_utf16(v@),
{
    String::from_utf16(v).ok()
}

/// Relies on byteorder's `NativeEndian::read_u16_into`: each pair of bytes of
/// `src` becomes one unit of `dst`, in the byte order of the machine.
#[verifier::external_body]
pub(crate) fn read_native_units(src: &[u8], dst: &mut Vec<u16>)
    requires
        src@.len() == 2 * old(dst)@.len(),
    ensures
        final(dst)@ == units_from_bytes(src@, true) || final(dst)@ == units_from_bytes(src@, false),
{
    NativeEndian::read_u16_into(src, dst.as_mut_slice())
}

impl EfiVar {
    /// A variable holding exactly the given units.
    pub fn from_units(data: Vec<u16>) -> (r: EfiVar)
        ensures
            r@ == data@,
    {
        EfiVar { data }
    }

    /// The units of the variable.
    pub fn units(&self) -> (r: &Vec<u16>)
        ensures
            r@ == self@,
    {
        &self.data
    }

    /// The value to write for a string: its UTF-16 units followed by a zero terminator.
    pub fn encode(s: &str) -> (r: EfiVar)
        ensures
            r@ == utf16_of(s@).push(0),
    {
        let mut data = encode_utf16_units(s);
        data.push(0);
        EfiVar { data }
    }

    /// The string that the variable holds: a trailing zero terminator is dropped
    /// and the rest is parsed strictly as UTF-16.
    pub fn decode_as_string(&self) -> (r: Result<String, EfiError>)
        ensures
            r is Ok <==> is_utf16(strip_terminator(self@)),
            r matches Ok(s) ==> utf16_of(s@) == strip_terminator(self@),
            r is Err ==> r == Err::<String, EfiError>(EfiError::Encoding),
    {
        let n = self.data.len();
        let end: usize = if n > 0 && self.data[n - 1] == 0 {
            n - 1
        } else {
            n
        };
        let mut text: Vec<u16> = Vec::new();
        let mut i: usize = 0;
        while i < end
            invariant
                end <= n == self.data@.len(),
                i <= end,
                text@ == self.data@.take(i as int),
            decreases end - i,
        {
            text.push(self.data[i]);
            i += 1;
            assert(text@ =~= self.data@.take(i as int));
        }
        assert(text@ =~= strip_terminator(self@));
        match decode_utf16_units(text.as_slice()) {
            Some(s) => Ok(s),
            None => Err(EfiError::Encoding),
        }
    }

    /// The first four units read as little-endian 16-bit limbs of one 64-bit value.
    pub fn decode_as_u64(&self) -> (r: u64)
        requires
            self@.len() >= 4,
        ensures
            r == packed_u64(self@),
    {
        let a: u64 = self.data[0] as u64;
        let b: u64 = self.data[1] as u64;
        let c: u64 = self.data[2] as u64;
        let d: u64 = self.data[3] as u64;
        assert(b << 16 == b * 0x1_0000) by (bit_vector)
            requires
                b < 0x1_0000,
        ;
        assert(c << 32 == c * 0x1_0000_0000) by (bit_vector)
            requires
                c < 0x1_0000,
        ;
        assert(d << 48 == d * 0x1_0000_0000_0000) by (bit_vector)
            requires
                d < 0x1_0000,
        ;
        a + (b << 16) + (c << 32) + (d << 48)
    }

    /// The number of bytes handed to the platform when the variable is written:
    /// two for each unit, or `None` when that does not fit in 32 bits.
    pub fn byte_len(&self) -> (r: Option<u32>)
        ensures
            r == (if 2 * self@.len() <= u32::MAX {
                Some((2 * self@.len()) as u32)
            } else {
                None::<u32>
            }),
    {
        let n = self.data.len();
        if n <= 0x7FFF_FFFF {
            Some((2 * n) as u32)
        } else {
            None
        }
    }
}

} // verus!
