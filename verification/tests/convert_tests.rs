use voip_core::convert::{
    align_to_16, bgra_to_i420, copy_i420_data, I420Frame, BGRA_BYTES_PER_PIXEL, MAX_BUFFERS,
    TARGET_FPS,
};
use voip_core::errors::CoreError;
use voip_core::scale::bgra_to_i420_scaled;
use voip_core::yuv::{yuv_u, yuv_v, yuv_y};

fn solid_bgra_buffer(width: u32, height: u32, b: u8, g: u8, r: u8, a: u8) -> Vec<u8> {
    let n = (width as usize) * (height as usize);
    let mut out = Vec::with_capacity(n * 4);
    for _ in 0..n {
        out.push(b);
        out.push(g);
        out.push(r);
        out.push(a);
    }
    out
}

#[test]
fn test_i420_sizes() {
    let width = 1920u32;
    let height = 1080u32;

    let y_size = width * height;
    let uv_size = width * height / 4;
    let total = y_size + uv_size * 2;

    // I420: Y + U/4 + V/4 = 1.5 * width * height
    assert_eq!(total, (width * height * 3) / 2);
}

#[test]
fn test_bgra_buffer_size() {
    let width = 1280u32;
    let height = 720u32;
    let expected = (width * height * BGRA_BYTES_PER_PIXEL) as usize;

    assert_eq!(expected, 1280 * 720 * 4);
    assert_eq!(expected, 3_686_400);
}

#[test]
fn test_copy_i420_data_bounds() {
    let width = 640u32;
    let height = 480u32;

    let y_size = (width * height) as usize;
    let uv_size = (width * height / 4) as usize;
    let total_size = y_size + uv_size * 2;

    let data = vec![0u8; total_size];

    // Should not panic
    let frame = copy_i420_data(&data, width, height);
    assert!(frame.is_ok());
}

#[test]
fn test_const_values() {
    assert_eq!(TARGET_FPS, 60);
    assert_eq!(MAX_BUFFERS, 2);
    assert_eq!(BGRA_BYTES_PER_PIXEL, 4);
}

#[test]
fn test_bgra_to_i420_size() {
    let width = 1920u32;
    let height = 1080u32;
    let bgra = vec![0u8; (width * height * 4) as usize];

    let i420 = bgra_to_i420(&bgra, width, height).unwrap();

    assert_eq!(i420.y.len(), (width * height) as usize);
    assert_eq!(i420.u.len(), (width * height / 4) as usize);
    assert_eq!(i420.v.len(), (width * height / 4) as usize);
}

#[test]
fn test_red_frame_values() {
    // Pure red in BGRA is (0, 0, 255, 255).
    let width = 1920u32;
    let height = 1080u32;
    let bgra = solid_bgra_buffer(width, height, 0, 0, 255, 255);

    let i420 = bgra_to_i420(&bgra, width, height).unwrap();

    assert_eq!(i420.y[0], 82);
    assert_eq!(i420.u[0], 90);
    assert_eq!(i420.v[0], 240);
    // Solid input gives constant planes.
    assert_eq!(i420.y[i420.y.len() - 1], 82);
    assert_eq!(i420.u[i420.u.len() - 1], 90);
    assert_eq!(i420.v[i420.v.len() - 1], 240);
}

#[test]
fn test_solid_color_small_frame() {
    // Pure green: Y = 144, U = 54, V = 34 under BT.601.
    let bgra = solid_bgra_buffer(2, 2, 0, 255, 0, 255);
    let i420 = bgra_to_i420(&bgra, 2, 2).unwrap();
    assert_eq!(i420.y, vec![144, 144, 144, 144]);
    assert_eq!(i420.u, vec![54]);
    assert_eq!(i420.v, vec![34]);

    // White and black keep neutral chroma.
    let white = bgra_to_i420(&solid_bgra_buffer(2, 2, 255, 255, 255, 255), 2, 2).unwrap();
    assert_eq!(white.y, vec![235, 235, 235, 235]);
    assert_eq!(white.u, vec![128]);
    assert_eq!(white.v, vec![128]);
    let black = bgra_to_i420(&solid_bgra_buffer(2, 2, 0, 0, 0, 255), 2, 2).unwrap();
    assert_eq!(black.y, vec![16, 16, 16, 16]);
    assert_eq!(black.u, vec![128]);
    assert_eq!(black.v, vec![128]);
}

#[test]
fn test_yuv_pixel_formulas() {
    assert_eq!(yuv_y(255, 0, 0), 82);
    assert_eq!(yuv_u(255, 0, 0), 90);
    assert_eq!(yuv_v(255, 0, 0), 240);
    assert_eq!(yuv_y(0, 0, 0), 16);
    assert_eq!(yuv_u(0, 0, 0), 128);
    assert_eq!(yuv_v(0, 0, 0), 128);
    assert_eq!(yuv_y(255, 255, 255), 235);
    assert_eq!(yuv_u(255, 255, 255), 128);
    assert_eq!(yuv_v(255, 255, 255), 128);
    assert_eq!(yuv_y(0, 255, 0), 144);
    assert_eq!(yuv_u(0, 255, 0), 54);
    assert_eq!(yuv_v(0, 255, 0), 34);
}

#[test]
fn test_bgra_size_mismatch() {
    // Too short for the claimed size.
    let bgra = vec![0u8; 16];
    assert_eq!(
        bgra_to_i420(&bgra, 4, 4).unwrap_err(),
        CoreError::BufferSizeMismatch
    );
    // Odd dimensions are rejected even with a matching byte count.
    let bgra = vec![0u8; 3 * 3 * 4];
    assert_eq!(
        bgra_to_i420(&bgra, 3, 3).unwrap_err(),
        CoreError::BufferSizeMismatch
    );
}

#[test]
fn test_copy_i420_short_buffer() {
    let data = vec![0u8; 10];
    assert_eq!(
        copy_i420_data(&data, 640, 480).unwrap_err(),
        CoreError::BufferSizeMismatch
    );
}

#[test]
fn test_copy_i420_planes() {
    // 2x2 frame: Y plane 4 bytes, U and V one byte each.
    let data = vec![1u8, 2, 3, 4, 5, 6];
    let frame = copy_i420_data(&data, 2, 2).unwrap();
    assert_eq!(frame.y, vec![1, 2, 3, 4]);
    assert_eq!(frame.u, vec![5]);
    assert_eq!(frame.v, vec![6]);
}

#[test]
fn test_downscale_sizes() {
    let src_w = 3840u32;
    let src_h = 2160u32;
    let bgra = vec![0u8; (src_w as usize) * (src_h as usize) * 4];

    let i420 = bgra_to_i420_scaled(&bgra, src_w, src_h, 1280, 720).unwrap();

    assert_eq!(i420.y.len(), 921_600);
    assert_eq!(i420.u.len(), 230_400);
    assert_eq!(i420.v.len(), 230_400);
}

#[test]
fn test_downscale_values() {
    // A solid frame stays solid through nearest-neighbor downscaling.
    let bgra = solid_bgra_buffer(8, 8, 0, 0, 255, 255);
    let i420 = bgra_to_i420_scaled(&bgra, 8, 8, 4, 4).unwrap();
    assert_eq!(i420.y, vec![82u8; 16]);
    assert_eq!(i420.u, vec![90u8; 4]);
    assert_eq!(i420.v, vec![240u8; 4]);
}

#[test]
fn test_downscale_invalid() {
    let bgra = vec![0u8; 4 * 4];
    // Upscaling is not offered.
    assert_eq!(
        bgra_to_i420_scaled(&bgra, 2, 2, 4, 4).unwrap_err(),
        CoreError::BufferSizeMismatch
    );
    // Zero target dimension.
    assert_eq!(
        bgra_to_i420_scaled(&bgra, 2, 2, 0, 2).unwrap_err(),
        CoreError::BufferSizeMismatch
    );
}

#[test]
fn test_align_to_16_values() {
    assert_eq!(align_to_16(1080), 1088);
    assert_eq!(align_to_16(720), 720);
    assert_eq!(align_to_16(854), 864);
}

#[test]
fn test_align_to_16_edges() {
    assert_eq!(align_to_16(0), 0);
    assert_eq!(align_to_16(1), 16);
    assert_eq!(align_to_16(16), 16);
    assert_eq!(align_to_16(17), 32);
}

#[test]
fn test_frame_struct_planes() {
    let frame = I420Frame {
        width: 2,
        height: 2,
        y: vec![0; 4],
        u: vec![0; 1],
        v: vec![0; 1],
    };
    assert_eq!(frame.width, 2);
    assert_eq!(frame.y.len(), 4);
}
