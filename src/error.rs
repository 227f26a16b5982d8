use vstd::prelude::*;

verus! {

/// Configuration errors detected before anything is handed to the device.
#[derive(Copy, Clone, Debug, PartialEq, Eq, Structural)]
pub enum ConfigError {
    /// A name holds a NUL byte and cannot be passed as a C string.
    InteriorNul,
    /// A byte size or an element count does not fit the device's 32-bit fields.
    SizeOverflow,
    /// Texture data does not hold exactly `width * height` texels.
    TextureSizeMismatch,
    /// A vertex stride of zero, or vertex data that is not a whole number of vertices.
    PartialVertex,
    /// A constant-buffer write whose size differs from the first write.
    MapSizeMismatch,
}

} // verus!
