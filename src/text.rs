use vstd::prelude::*;
use vstd::std_specs::iter::IteratorSpec;
use vstd::string::StringSliceAdditionalSpecFns;
use crate::error::ConfigError;

verus! {

/// UTF-16 code units of one character: one unit inside the basic
/// multilingual plane, a high/low surrogate pair above it.
pub open spec fn char_utf16(c: char) -> Seq<u16> {
    let v = c as u32 as int;
    if v < 0x10000 {
        seq![v as u16]
    } else {
        let w = v - 0x10000;
        seq![(0xD800 + w / 0x400) as u16, (0xDC00 + w % 0x400) as u16]
    }
}

/// UTF-16 encoding of a character sequence.
pub open spec fn utf16_of(s: Seq<char>) -> Seq<u16>
    decreases s.len(),
{
    if s.len() == 0 {
        Seq::empty()
    } else {
        utf16_of(s.drop_last()) + char_utf16(s.last())
    }
}

/// A NUL-terminated wide string as the native boundary takes paths.
pub open spec fn wide_string(s: Seq<char>) -> Seq<u16> {
    utf16_of(s).push(0)
}

/// A NUL-terminated byte string as the native boundary takes names.
pub open spec fn c_string(bytes: Seq<u8>) -> Seq<u8> {
    bytes.push(0)
}

/// Encodes `s` as NUL-terminated UTF-16, the form of a shader path.
pub fn to_utf16(s: &str) -> (r: Vec<u16>)
    ensures
        r@ == wide_string(s@),
{
    let mut out: Vec<u16> = Vec::new();
    proof {
        broadcast use vstd::string::axiom_spec_iter;
    }
    let ghost mut seen: Seq<char> = Seq::empty();
    for c in it: s.chars()
        invariant
            it.seq() == s@,
            seen == s@.subrange(0, it.index() as int),
            out@ == utf16_of(seen),
    {
        proof {
            assert(s@.subrange(0, it.index() + 1).drop_last() =~= seen);
            vstd::utf8::char_is_scalar(c);
        }
        let v: u32 = c as u32;
        if v < 0x10000 {
            out.push(v as u16);
        } else {
            let w: u32 = v - 0x10000;
            out.push((0xD800 + w / 0x400) as u16);
            out.push((0xDC00 + w % 0x400) as u16);
        }
        proof {
            assert(seen.push(c).drop_last() =~= seen);
            assert(out@ =~= utf16_of(seen) + char_utf16(c));
            seen = seen.push(c);
        }
    }
    proof {
        assert(seen =~= s@);
    }
    out.push(0);
    out
}

} // verus!

verus! {

/// Copies the UTF-8 bytes of `s` and appends a NUL, the form of an entry
/// point or semantic name; fails when `s` already holds a NUL byte.
pub fn to_c_string(s: &str) -> (r: Result<Vec<u8>, ConfigError>)
    ensures
        r is Ok <==> !s.spec_bytes().contains(0u8),
        r is Ok ==> r->Ok_0@ == c_string(s.spec_bytes()),
        r is Err ==> r->Err_0 == ConfigError::InteriorNul,
{
    let bytes: &[u8] = s.as_bytes();
    let mut out: Vec<u8> = Vec::new();
    let mut i: usize = 0;
    while i < bytes.len()
        invariant
            bytes@ == s.spec_bytes(),
            i <= bytes@.len(),
            out@ == bytes@.subrange(0, i as int),
            forall|j: int| 0 <= j < i ==> bytes@[j] != 0u8,
        decreases bytes@.len() - i,
    {
        if bytes[i] == 0 {
            return Err(ConfigError::InteriorNul);
        }
        out.push(bytes[i]);
        i = i + 1;
    }
    assert(out@ =~= bytes@);
    out.push(0);
    Ok(out)
}

} // verus!
