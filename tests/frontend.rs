use dx_frontend::error::ConfigError;
use dx_frontend::format::{layout_descriptors, layout_stride, DxgiFormat};
use dx_frontend::frame::{frame_ops, FrameLoop, FrameOp, LoopAction, LoopState, Rotation};
use dx_frontend::resources::{
    buffer_bytes, check_texture, constant_payload, vertex_count, ConstantBufferSize, CONSTANTS_LEN,
};
use dx_frontend::text::{to_c_string, to_utf16};

fn mesh_layout() -> Vec<DxgiFormat> {
    vec![
        DxgiFormat::R32G32B32Float,
        DxgiFormat::R32G32B32Float,
        DxgiFormat::R32G32Float,
        DxgiFormat::R32G32B32Float,
    ]
}

fn expected_frame(index_count: u32) -> Vec<FrameOp> {
    vec![
        FrameOp::WriteConstants,
        FrameOp::ClearTarget,
        FrameOp::BindInputAssembler,
        FrameOp::BindVertexShader,
        FrameOp::BindRasterizer,
        FrameOp::BindPixelShader,
        FrameOp::BindRenderTarget,
        FrameOp::DrawIndexed { index_count },
        FrameOp::Present,
    ]
}

#[test]
fn format_codes_and_sizes() {
    assert_eq!(DxgiFormat::R32G32B32Float.code(), 6);
    assert_eq!(DxgiFormat::R32G32Float.code(), 16);
    assert_eq!(DxgiFormat::R32G32B32Float.byte_size(), 12);
    assert_eq!(DxgiFormat::R32G32Float.byte_size(), 8);
}

#[test]
fn mesh_layout_stride_is_eleven_floats() {
    assert_eq!(layout_stride(&mesh_layout()), 11 * 4);
    assert_eq!(layout_stride(&[]), 0);
}

#[test]
fn layout_descriptors_keep_order_and_terminate_names() {
    let desc = [
        ("POS", DxgiFormat::R32G32B32Float),
        ("NOR", DxgiFormat::R32G32B32Float),
        ("TEX", DxgiFormat::R32G32Float),
        ("COL", DxgiFormat::R32G32B32Float),
    ];
    let out = layout_descriptors(&desc).unwrap();
    assert_eq!(out.len(), 4);
    assert_eq!(out[0].semantic_name, vec![b'P', b'O', b'S', 0]);
    assert_eq!(out[0].format, 6);
    assert_eq!(out[2].semantic_name, vec![b'T', b'E', b'X', 0]);
    assert_eq!(out[2].format, 16);
    assert_eq!(out[3].semantic_name, vec![b'C', b'O', b'L', 0]);
}

#[test]
fn layout_descriptors_reject_nul_in_name() {
    let desc = [("POS", DxgiFormat::R32G32B32Float), ("N\0R", DxgiFormat::R32G32Float)];
    assert_eq!(layout_descriptors(&desc).err(), Some(ConfigError::InteriorNul));
}

#[test]
fn utf16_path_is_nul_terminated() {
    let expected: Vec<u16> = "shaders/shaders.hlsl".encode_utf16().chain([0u16]).collect();
    assert_eq!(to_utf16("shaders/shaders.hlsl"), expected);
    assert_eq!(to_utf16(""), vec![0u16]);
}

#[test]
fn utf16_encodes_surrogate_pairs() {
    assert_eq!(to_utf16("\u{1F600}"), vec![0xD83D, 0xDE00, 0]);
    assert_eq!(to_utf16("\u{e9}x"), vec![0xE9, 0x78, 0]);
    assert_eq!(to_utf16("\u{10FFFF}"), vec![0xDBFF, 0xDFFF, 0]);
}

#[test]
fn c_string_appends_nul() {
    assert_eq!(to_c_string("vs_main").unwrap(), b"vs_main\0".to_vec());
    assert_eq!(to_c_string("").unwrap(), vec![0u8]);
    assert_eq!(to_c_string("\u{e9}").unwrap(), vec![0xC3, 0xA9, 0]);
}

#[test]
fn c_string_rejects_interior_nul() {
    assert_eq!(to_c_string("ps\0main"), Err(ConfigError::InteriorNul));
}

#[test]
fn buffer_sizes() {
    assert_eq!(buffer_bytes(3, 4), Ok(12));
    assert_eq!(buffer_bytes(0, 4), Ok(0));
    assert_eq!(buffer_bytes(0x3FFF_FFFF, 4), Ok(0xFFFF_FFFC));
    assert_eq!(buffer_bytes(0x4000_0000, 4), Err(ConfigError::SizeOverflow));
}

#[test]
fn vertex_counts() {
    assert_eq!(vertex_count(44 * 3, 44), Ok(3));
    assert_eq!(vertex_count(0, 44), Ok(0));
    assert_eq!(vertex_count(45, 44), Err(ConfigError::PartialVertex));
    assert_eq!(vertex_count(44, 0), Err(ConfigError::PartialVertex));
}

#[test]
fn texture_sizes() {
    assert_eq!(check_texture(6, 2, 3), Ok(()));
    assert_eq!(check_texture(0, 0, 5), Ok(()));
    assert_eq!(check_texture(5, 2, 3), Err(ConfigError::TextureSizeMismatch));
    assert_eq!(check_texture(1, 0xFFFF_FFFF, 0xFFFF_FFFF), Err(ConfigError::TextureSizeMismatch));
}

#[test]
fn constant_payload_concatenates_in_order() {
    let transform: [f32; 16] = core::array::from_fn(|i| i as f32);
    let projection: [f32; 16] = core::array::from_fn(|i| 100.0 + i as f32);
    let light: [f32; 3] = [1.0, -1.0, 1.0];
    let p = constant_payload(&transform, &projection, &light);
    assert_eq!(p.len(), 35);
    assert_eq!(CONSTANTS_LEN, 35);
    assert_eq!(&p[0..16], &transform[..]);
    assert_eq!(&p[16..32], &projection[..]);
    assert_eq!(&p[32..35], &light[..]);
}

#[test]
fn constant_buffer_size_is_fixed_by_first_write() {
    let mut size = ConstantBufferSize::new();
    assert_eq!(size.bytes, None);
    assert_eq!(size.record_write(35), Ok(140));
    assert_eq!(size.record_write(35), Ok(140));
    assert_eq!(size.record_write(36), Err(ConfigError::MapSizeMismatch));
    assert_eq!(size.bytes, Some(140));
    assert_eq!(size.record_write(0x4000_0000), Err(ConfigError::SizeOverflow));
}

#[test]
fn frame_ops_follow_pipeline_order() {
    assert_eq!(frame_ops(36), expected_frame(36));
}

#[test]
fn loop_stops_on_fifth_poll_after_four_frames() {
    let polls = [false, false, false, false, true, false, false];
    let mut l = FrameLoop::new();
    let mut frames = 0;
    for (i, &p) in polls.iter().enumerate() {
        match l.on_poll(p) {
            LoopAction::Draw { .. } => {
                assert!(i < 4);
                frames += 1;
            }
            LoopAction::Exit => assert!(i >= 4),
        }
    }
    assert_eq!(frames, 4);
    assert_eq!(l.frames_drawn, 4);
    assert_eq!(l.state, LoopState::Terminated);
}

#[test]
fn rotation_after_hundred_frames() {
    let mut l = FrameLoop::new();
    let first = l.on_poll(false);
    assert_eq!(first, LoopAction::Draw { rotation: Rotation { x_mrad: 5, y_mrad: 9, z_mrad: 1 } });
    let mut last = first;
    for _ in 1..100 {
        last = l.on_poll(false);
    }
    let hundredth = Rotation { x_mrad: 500, y_mrad: 900, z_mrad: 100 };
    assert_eq!(last, LoopAction::Draw { rotation: hundredth });
    assert_eq!(l.rotation, hundredth);
    let radians = [
        hundredth.x_mrad as f32 / 1000.0,
        hundredth.y_mrad as f32 / 1000.0,
        hundredth.z_mrad as f32 / 1000.0,
    ];
    assert!((radians[0] - 0.5).abs() < 1e-5);
    assert!((radians[1] - 0.9).abs() < 1e-5);
    assert!((radians[2] - 0.1).abs() < 1e-5);
}

#[test]
fn ten_frame_run_records_pipeline_order_and_payload_size() {
    let mut l = FrameLoop::new();
    let mut size = ConstantBufferSize::new();
    let mut recorded: Vec<FrameOp> = Vec::new();
    let mut writes: Vec<usize> = Vec::new();
    for _ in 0..10 {
        match l.on_poll(false) {
            LoopAction::Draw { rotation } => {
                let transform = [rotation.x_mrad as f32; 16];
                let projection = [0.5f32; 16];
                let light = [1.0f32, -1.0, 1.0];
                for op in frame_ops(36) {
                    if op == FrameOp::WriteConstants {
                        let payload = constant_payload(&transform, &projection, &light);
                        assert_eq!(size.record_write(payload.len()), Ok(140));
                        writes.push(payload.len());
                    }
                    recorded.push(op);
                }
            }
            LoopAction::Exit => panic!("loop stopped without a request"),
        }
    }
    assert_eq!(l.on_poll(true), LoopAction::Exit);
    assert_eq!(recorded.len(), 90);
    for frame in recorded.chunks(9) {
        assert_eq!(frame, &expected_frame(36)[..]);
    }
    assert_eq!(writes, vec![35; 10]);
}
