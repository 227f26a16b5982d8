use vstd::prelude::*;
use vstd::string::StringSliceAdditionalSpecFns;
use crate::error::ConfigError;
use crate::text::{c_string, to_c_string};

verus! {

/// Vertex element formats understood by the input-layout builder.
#[derive(Copy, Clone, Debug, PartialEq, Eq, Structural)]
pub enum DxgiFormat {
    /// Three 32-bit floats (`DXGI_FORMAT_R32G32B32_FLOAT`).
    R32G32B32Float,
    /// Two 32-bit floats (`DXGI_FORMAT_R32G32_FLOAT`).
    R32G32Float,
}

/// The numeric `DXGI_FORMAT` value of a format.
pub open spec fn format_code(f: DxgiFormat) -> u32 {
    match f {
        DxgiFormat::R32G32B32Float => 6,
        DxgiFormat::R32G32Float => 16,
    }
}

/// Number of bytes one element of the format occupies in a vertex.
pub open spec fn format_bytes(f: DxgiFormat) -> nat {
    match f {
        DxgiFormat::R32G32B32Float => 12,
        DxgiFormat::R32G32Float => 8,
    }
}

/// Sum of the element sizes of a layout: the byte stride of one vertex.
pub open spec fn layout_bytes(fs: Seq<DxgiFormat>) -> nat
    decreases fs.len(),
{
    if fs.len() == 0 {
        0
    } else {
        layout_bytes(fs.drop_last()) + format_bytes(fs.last())
    }
}

impl DxgiFormat {
    /// The value passed across the native boundary for this format.
    pub fn code(&self) -> (r: u32)
        ensures
            r == format_code(*self),
    {
        match self {
            DxgiFormat::R32G32B32Float => 6,
            DxgiFormat::R32G32Float => 16,
        }
    }

    /// Size in bytes of one element of this format.
    pub fn byte_size(&self) -> (r: u32)
        ensures
            r as nat == format_bytes(*self),
    {
        match self {
            DxgiFormat::R32G32B32Float => 12,
            DxgiFormat::R32G32Float => 8,
        }
    }
}

proof fn lemma_layout_bytes_bound(fs: Seq<DxgiFormat>)
    ensures
        layout_bytes(fs) <= 12 * fs.len(),
    decreases fs.len(),
{
    if fs.len() > 0 {
        lemma_layout_bytes_bound(fs.drop_last());
    }
}

/// Byte stride of a vertex laid out as `formats`, in order.
pub fn layout_stride(formats: &[DxgiFormat]) -> (r: u32)
    requires
        formats@.len() <= 0x1000_0000,
    ensures
        r as nat == layout_bytes(formats@),
{
    let mut total: u32 = 0;
    let mut i: usize = 0;
    while i < formats.len()
        invariant
            i <= formats@.len(),
            formats@.len() <= 0x1000_0000,
            total as nat == layout_bytes(formats@.subrange(0, i as int)),
        decreases formats@.len() - i,
    {
        proof {
            let pre = formats@.subrange(0, i as int);
            let next = formats@.subrange(0, i + 1);
            assert(next.drop_last() =~= pre);
            lemma_layout_bytes_bound(pre);
        }
        total = total + formats[i].byte_size();
        i = i + 1;
    }
    assert(formats@.subrange(0, i as int) =~= formats@);
    total
}

} // verus!

verus! {

/// One input-layout element in the form the device takes it: a
/// NUL-terminated semantic name and a numeric format.
pub struct ElementDesc {
    pub semantic_name: Vec<u8>,
    pub format: u32,
}

/// Whether every semantic name of a layout can be passed as a C string.
pub open spec fn names_are_c_strings(desc: Seq<(&str, DxgiFormat)>) -> bool {
    forall|i: int| 0 <= i < desc.len() ==> !(#[trigger] desc[i]).0.spec_bytes().contains(0u8)
}

/// Whether `out` is the device form of the layout `desc`, element by element.
pub open spec fn describes_layout(out: Seq<ElementDesc>, desc: Seq<(&str, DxgiFormat)>) -> bool {
    &&& out.len() == desc.len()
    &&& forall|i: int|
        0 <= i < desc.len() ==> {
            &&& (#[trigger] out[i]).semantic_name@ == c_string(desc[i].0.spec_bytes())
            &&& out[i].format == format_code(desc[i].1)
        }
}

/// Converts an ordered list of `(semantic name, format)` pairs into the
/// element descriptions handed to input-layout creation. The order of the
/// list is kept: it is the order of the fields within each vertex.
pub fn layout_descriptors(desc: &[(&str, DxgiFormat)]) -> (r: Result<Vec<ElementDesc>, ConfigError>)
    ensures
        r is Ok <==> desc@.len() <= u32::MAX && names_are_c_strings(desc@),
        r is Ok ==> describes_layout(r->Ok_0@, desc@),
        r is Err ==> r->Err_0 == (if desc@.len() > u32::MAX {
            ConfigError::SizeOverflow
        } else {
            ConfigError::InteriorNul
        }),
{
    if desc.len() > 0xFFFF_FFFF {
        return Err(ConfigError::SizeOverflow);
    }
    let mut out: Vec<ElementDesc> = Vec::new();
    let mut i: usize = 0;
    while i < desc.len()
        invariant
            i <= desc@.len() <= u32::MAX,
            describes_layout(out@, desc@.subrange(0, i as int)),
            names_are_c_strings(desc@.subrange(0, i as int)),
        decreases desc@.len() - i,
    {
        let (name, format) = desc[i];
        match to_c_string(name) {
            Ok(bytes) => {
                out.push(ElementDesc { semantic_name: bytes, format: format.code() });
            },
            Err(e) => {
                assert(!names_are_c_strings(desc@)) by {
                    assert(desc@[i as int].0.spec_bytes().contains(0u8));
                }
                return Err(e);
            },
        }
        proof {
            let next = desc@.subrange(0, i + 1);
            assert forall|j: int| 0 <= j < next.len() implies !(#[trigger] next[j]).0.spec_bytes().contains(0u8) by {
                if j < i {
                    assert(next[j] == desc@.subrange(0, i as int)[j]);
                }
            }
            assert forall|j: int| 0 <= j < next.len() implies {
                &&& (#[trigger] out@[j]).semantic_name@ == c_string(next[j].0.spec_bytes())
                &&& out@[j].format == format_code(next[j].1)
            } by {
                if j < i {
                    assert(next[j] == desc@.subrange(0, i as int)[j]);
                }
            }
        }
        i = i + 1;
    }
    assert(desc@.subrange(0, i as int) =~= desc@);
    Ok(out)
}

} // verus!
