use vstd::prelude::*;
use crate::error::ConfigError;

verus! {

/// Number of values in the model transform.
pub const TRANSFORM_LEN: usize = 16;

/// Number of values in the projection matrix.
pub const PROJECTION_LEN: usize = 16;

/// Number of values in the light vector.
pub const LIGHT_LEN: usize = 3;

/// Number of values in one constant-buffer write: transform, projection, light.
pub const CONSTANTS_LEN: usize = 35;

/// Size in bytes of a buffer holding `count` elements of `element_bytes` each,
/// as the device's 32-bit size field takes it.
pub fn buffer_bytes(count: usize, element_bytes: u32) -> (r: Result<u32, ConfigError>)
    ensures
        r is Ok <==> count * element_bytes <= u32::MAX,
        r is Ok ==> r->Ok_0 == count * element_bytes,
        r is Err ==> r->Err_0 == ConfigError::SizeOverflow,
{
    if element_bytes == 0 {
        return Ok(0);
    }
    if count as u64 > 0xFFFF_FFFFu64 / element_bytes as u64 {
        assert(count * element_bytes > u32::MAX) by (nonlinear_arith)
            requires
                count > u32::MAX as int / element_bytes as int,
                element_bytes > 0,
        ;
        return Err(ConfigError::SizeOverflow);
    }
    assert(count * element_bytes <= u32::MAX) by (nonlinear_arith)
        requires
            count <= u32::MAX as int / element_bytes as int,
            element_bytes > 0,
    ;
    Ok((count as u64 * element_bytes as u64) as u32)
}

/// Number of whole vertices in `byte_len` bytes of vertex data laid out with
/// `stride` bytes per vertex; fails on a zero stride or a partial vertex.
pub fn vertex_count(byte_len: u32, stride: u32) -> (r: Result<u32, ConfigError>)
    ensures
        r is Ok <==> stride > 0 && byte_len % stride == 0,
        r is Ok ==> r->Ok_0 * stride == byte_len,
        r is Err ==> r->Err_0 == ConfigError::PartialVertex,
{
    if stride == 0 || byte_len % stride != 0 {
        return Err(ConfigError::PartialVertex);
    }
    let n: u32 = byte_len / stride;
    assert(n * stride == byte_len) by (nonlinear_arith)
        requires
            stride > 0,
            byte_len % stride == 0,
            n == byte_len / stride,
    ;
    Ok(n)
}

/// Checks that texture data holds exactly one texel per pixel of a
/// `width` by `height` image.
pub fn check_texture(texel_count: usize, width: u32, height: u32) -> (r: Result<(), ConfigError>)
    ensures
        r is Ok <==> texel_count == width * height,
        r is Err ==> r->Err_0 == ConfigError::TextureSizeMismatch,
{
    assert(width * height <= u32::MAX * u32::MAX) by (nonlinear_arith)
        requires
            width <= u32::MAX,
            height <= u32::MAX,
    ;
    let pixels: u64 = width as u64 * height as u64;
    if texel_count as u64 != pixels {
        return Err(ConfigError::TextureSizeMismatch);
    }
    Ok(())
}

/// Concatenation of the three parts of one constant-buffer write.
pub open spec fn constants_of<T>(transform: Seq<T>, projection: Seq<T>, light: Seq<T>) -> Seq<T> {
    transform + projection + light
}

/// Lays out the values of one constant-buffer write: the model transform,
/// then the projection, then the light vector.
pub fn constant_payload<T: Copy>(transform: &[T; 16], projection: &[T; 16], light: &[T; 3]) -> (r: Vec<T>)
    ensures
        r@ == constants_of(transform@, projection@, light@),
        r@.len() == CONSTANTS_LEN,
{
    let mut out: Vec<T> = Vec::new();
    let mut i: usize = 0;
    while i < TRANSFORM_LEN
        invariant
            i <= 16,
            out@ == transform@.subrange(0, i as int),
        decreases 16 - i,
    {
        out.push(transform[i]);
        i = i + 1;
    }
    let mut j: usize = 0;
    while j < PROJECTION_LEN
        invariant
            j <= 16,
            out@ == transform@ + projection@.subrange(0, j as int),
        decreases 16 - j,
    {
        out.push(projection[j]);
        j = j + 1;
    }
    let mut k: usize = 0;
    while k < LIGHT_LEN
        invariant
            k <= 3,
            out@ == transform@ + projection@ + light@.subrange(0, k as int),
        decreases 3 - k,
    {
        out.push(light[k]);
        k = k + 1;
    }
    assert(light@.subrange(0, 3) =~= light@);
    out
}

/// The constant buffer's write size: unset until the first write, then fixed.
pub struct ConstantBufferSize {
    pub bytes: Option<u32>,
}

impl ConstantBufferSize {
    /// A buffer that has not been written yet.
    pub fn new() -> (r: ConstantBufferSize)
        ensures
            r.bytes is None,
    {
        ConstantBufferSize { bytes: None }
    }

    /// Records a write of `len` four-byte values and returns its size in
    /// bytes. The first write fixes the size; a later write of another size
    /// fails and leaves the record as it was.
    pub fn record_write(&mut self, len: usize) -> (r: Result<u32, ConfigError>)
        ensures
            r is Ok <==> len * 4 <= u32::MAX && (old(self).bytes is None || old(
                self,
            ).bytes->Some_0 == len * 4),
            r is Ok ==> r->Ok_0 == len * 4 && final(self).bytes == Some(r->Ok_0),
            r is Err ==> *final(self) == *old(self),
            r is Err ==> r->Err_0 == (if len * 4 > u32::MAX {
                ConfigError::SizeOverflow
            } else {
                ConfigError::MapSizeMismatch
            }),
    {
        let bytes = match buffer_bytes(len, 4) {
            Ok(b) => b,
            Err(e) => {
                return Err(e);
            },
        };
        match self.bytes {
            None => {
                self.bytes = Some(bytes);
                Ok(bytes)
            },
            Some(fixed) => {
                if fixed == bytes {
                    Ok(bytes)
                } else {
                    Err(ConfigError::MapSizeMismatch)
                }
            },
        }
    }
}

} // verus!
