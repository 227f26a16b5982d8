//! Verified core of a small Direct3D 11 rendering frontend: vertex element
//! formats and input-layout strides, the byte sizes handed to buffer and
//! texture creation, the text encodings the native boundary expects, the
//! constant-buffer payload, and the per-frame binding sequence together with
//! the frame-loop state machine that drives it.
pub mod error;
pub mod format;
pub mod frame;
pub mod resources;
pub mod text;
