//! The QR pipeline against the real outside encoders: the rendered pixels,
//! the PNG round trip, and the data-URL shape.

use lanshare::qr::{generate_qr_code, qr_to_data_url, render_qr_pixels};
use lanshare::netinfo::{select_lan_ip, InterfaceInfo};
use lanshare::storage::upload_dir_under;
use lanshare::page::get_html_template;
use lanshare::text::u64_to_string;

fn pixel(pixels: &[u8], side: usize, x: usize, y: usize) -> [u8; 4] {
    let i = (y * side + x) * 4;
    [pixels[i], pixels[i + 1], pixels[i + 2], pixels[i + 3]]
}

const BLACK: [u8; 4] = [0, 0, 0, 255];
const WHITE: [u8; 4] = [255, 255, 255, 255];

#[test]
fn render_single_dark_module() {
    let modules = vec![true];
    let pixels = render_qr_pixels(&modules, 1);
    let side = (1 + 4) * 4;
    assert_eq!(pixels.len(), side * side * 4);
    // The quiet zone is white, the scaled module block is black.
    assert_eq!(pixel(&pixels, side, 0, 0), WHITE);
    assert_eq!(pixel(&pixels, side, side - 1, side - 1), WHITE);
    assert_eq!(pixel(&pixels, side, 7, 8), WHITE);
    for x in 8..12 {
        for y in 8..12 {
            assert_eq!(pixel(&pixels, side, x, y), BLACK);
        }
    }
    assert_eq!(pixel(&pixels, side, 12, 8), WHITE);
}

#[test]
fn render_matches_matrix() {
    // A 2x2 checker: module (0,0) and (1,1) dark.
    let modules = vec![true, false, false, true];
    let pixels = render_qr_pixels(&modules, 2);
    let side = (2 + 4) * 4;
    assert_eq!(pixel(&pixels, side, 8, 8), BLACK);
    assert_eq!(pixel(&pixels, side, 12, 8), WHITE);
    assert_eq!(pixel(&pixels, side, 8, 12), WHITE);
    assert_eq!(pixel(&pixels, side, 12, 12), BLACK);
}

#[test]
fn generated_qr_decodes_to_the_expected_image() {
    let url = "http://192.168.1.5:8080";
    let b64 = generate_qr_code(url).unwrap();
    let png_bytes =
        base64::Engine::decode(&base64::engine::general_purpose::STANDARD, &b64).unwrap();
    assert_eq!(&png_bytes[0..4], &[0x89u8, b'P', b'N', b'G']);

    // Decode the PNG and hold it against the matrix the QR library reports.
    let code = qrcode::QrCode::new(url).unwrap();
    let width = code.width();
    let side = ((width + 4) * 4) as u32;
    let decoder = png::Decoder::new(std::io::Cursor::new(&png_bytes));
    let mut reader = decoder.read_info().unwrap();
    let mut buf = vec![0u8; reader.output_buffer_size().unwrap()];
    let info = reader.next_frame(&mut buf).unwrap();
    assert_eq!(info.width, side);
    assert_eq!(info.height, side);
    let colors = code.to_colors();
    for my in 0..width {
        for mx in 0..width {
            let px = (mx + 2) * 4 + 1;
            let py = (my + 2) * 4 + 1;
            let got = pixel(&buf, side as usize, px, py);
            let dark = colors[my * width + mx] == qrcode::Color::Dark;
            assert_eq!(got, if dark { BLACK } else { WHITE });
        }
    }
}

#[test]
fn qr_rejects_text_too_long() {
    let long = "x".repeat(5000);
    assert!(generate_qr_code(&long).is_err());
    assert!(qr_to_data_url(&long).is_err());
}

#[test]
fn data_url_has_png_prefix() {
    let s = qr_to_data_url("http://10.0.0.7:4123").unwrap();
    assert!(s.starts_with("data:image/png;base64,"));
    let b64 = &s["data:image/png;base64,".len()..];
    let png_bytes =
        base64::Engine::decode(&base64::engine::general_purpose::STANDARD, b64).unwrap();
    assert_eq!(&png_bytes[0..4], &[0x89u8, b'P', b'N', b'G']);
}

#[test]
fn select_lan_ip_picks_first_usable() {
    let ifaces = vec![
        InterfaceInfo { is_loopback: true, ipv4: Some("127.0.0.1".to_string()) },
        InterfaceInfo { is_loopback: false, ipv4: None },
        InterfaceInfo { is_loopback: false, ipv4: Some("127.0.0.53".to_string()) },
        InterfaceInfo { is_loopback: false, ipv4: Some("192.168.1.7".to_string()) },
        InterfaceInfo { is_loopback: false, ipv4: Some("10.0.0.9".to_string()) },
    ];
    assert_eq!(select_lan_ip(&ifaces), Some("192.168.1.7".to_string()));
}

#[test]
fn select_lan_ip_none_when_nothing_usable() {
    let ifaces = vec![
        InterfaceInfo { is_loopback: true, ipv4: Some("127.0.0.1".to_string()) },
        InterfaceInfo { is_loopback: false, ipv4: Some("127.1.2.3".to_string()) },
    ];
    assert_eq!(select_lan_ip(&ifaces), None);
}

#[test]
fn upload_dir_appends_fixed_subdirectory() {
    assert_eq!(upload_dir_under("/home/u/Downloads"), "/home/u/Downloads/LocalSend");
}

#[test]
fn html_template_is_a_page_with_the_upload_route() {
    let page = get_html_template();
    assert!(page.contains("<!DOCTYPE html>"));
    assert!(page.contains("/upload"));
}

#[test]
fn decimal_rendering_is_exact() {
    assert_eq!(u64_to_string(0), "0");
    assert_eq!(u64_to_string(7), "7");
    assert_eq!(u64_to_string(40), "40");
    assert_eq!(u64_to_string(12345), "12345");
    assert_eq!(u64_to_string(u64::MAX), "18446744073709551615");
}
