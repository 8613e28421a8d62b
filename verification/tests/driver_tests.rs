use st7789v2::bus::Action;
use st7789v2::common::{ColorMode, Commands, DrawError, Error};
use st7789v2::driver::ST7789V2;
use st7789v2::rect::Rect;

type Driver = ST7789V2<(), ()>;

fn driver(width: u16, height: u16, y_offset: u16, cap: usize) -> Driver {
    ST7789V2::new(
        (),
        (),
        vec![0u8; 1],
        vec![0u8; 1],
        vec![0u8; 4],
        vec![0u8; 4],
        vec![0u8; cap],
        width,
        height,
        y_offset,
    )
}

fn cmd_frame_actions(opcode: u8, settle_ms: u32) -> Vec<Action> {
    vec![
        Action::DcLow,
        Action::CsLow,
        Action::Transfer(vec![opcode]),
        Action::DelayMs(settle_ms),
        Action::CsHigh,
    ]
}

fn data_frame_actions(payload: Vec<u8>, settle_ms: u32) -> Vec<Action> {
    vec![
        Action::DcHigh,
        Action::CsLow,
        Action::Transfer(payload),
        Action::DelayMs(settle_ms),
        Action::CsHigh,
    ]
}

fn cmd_data_frame_actions(opcode: u8, payload: Vec<u8>) -> Vec<Action> {
    vec![
        Action::DcLow,
        Action::CsLow,
        Action::Transfer(vec![opcode]),
        Action::DelayMs(1),
        Action::DcHigh,
        Action::Transfer(payload),
        Action::DelayMs(1),
        Action::CsHigh,
    ]
}

fn window_actions(caset: Vec<u8>, raset: Vec<u8>) -> Vec<Action> {
    let mut v = cmd_data_frame_actions(0x2A, caset);
    v.extend(cmd_data_frame_actions(0x2B, raset));
    v
}

fn transfers(actions: &[Action]) -> Vec<Vec<u8>> {
    let mut r = Vec::new();
    for a in actions {
        if let Action::Transfer(b) = a {
            r.push(b.clone());
        }
    }
    r
}

#[test]
fn command_opcodes_match_the_controller_command_set() {
    assert_eq!(Commands::SoftwareReset.to_byte(), 0x01);
    assert_eq!(Commands::SleepOut.to_byte(), 0x11);
    assert_eq!(Commands::SetColorMode.to_byte(), 0x3A);
    assert_eq!(Commands::MemoryDataAccessControl.to_byte(), 0x36);
    assert_eq!(Commands::DisplayOn.to_byte(), 0x29);
    assert_eq!(Commands::DisplayOff.to_byte(), 0x28);
    assert_eq!(Commands::CASET.to_byte(), 0x2A);
    assert_eq!(Commands::RASET.to_byte(), 0x2B);
    assert_eq!(Commands::RAMWR.to_byte(), 0x2C);
    assert_eq!(Commands::InversionOn.to_byte(), 0x21);
    assert_eq!(Commands::InversionOff.to_byte(), 0x20);
    assert_eq!(ColorMode::RGB565.to_byte(), 0x55);
}

#[test]
fn init_emits_the_fixed_sequence() {
    let mut d = driver(240, 280, 20, 4096);
    let got = d.init();

    let mut expected = vec![
        Action::RstLow,
        Action::DelayMs(120),
        Action::RstHigh,
        Action::DelayMs(150),
    ];
    expected.extend(cmd_frame_actions(0x01, 150));
    expected.extend(cmd_frame_actions(0x11, 120));
    expected.extend(cmd_frame_actions(0x3A, 1));
    expected.extend(data_frame_actions(vec![0x55], 10));
    expected.extend(cmd_frame_actions(0x36, 1));
    expected.extend(data_frame_actions(vec![0x00], 10));
    expected.extend(cmd_frame_actions(0x21, 1));
    expected.extend(cmd_frame_actions(0x29, 50));

    assert_eq!(got, expected);
}

#[test]
fn init_drives_exactly_the_known_opcode_bytes() {
    let mut d = driver(240, 280, 20, 4096);
    let got = d.init();
    let wire: Vec<u8> = transfers(&got).concat();
    assert_eq!(wire, vec![0x01, 0x11, 0x3A, 0x55, 0x36, 0x00, 0x21, 0x29]);
}

#[test]
fn init_twice_emits_identical_sequences() {
    let mut d = driver(240, 280, 20, 4096);
    let first = d.init();
    let second = d.init();
    assert_eq!(first, second);
}

#[test]
fn caset_payload_for_full_width_is_big_endian() {
    let mut d = driver(240, 280, 20, 4096);
    let got = d.set_size(0, 239, 0, 279);
    let bursts = transfers(&got);
    assert_eq!(bursts[0], vec![0x2A]);
    assert_eq!(bursts[1], vec![0x00, 0x00, 0x00, 0xEF]);
}

#[test]
fn raset_payload_applies_the_vertical_offset() {
    let mut d = driver(240, 280, 20, 4096);
    let got = d.set_size(0, 239, 0, 279);
    let bursts = transfers(&got);
    assert_eq!(bursts[2], vec![0x2B]);
    // y range [0, 279] with offset 20 becomes [20, 299]
    assert_eq!(bursts[3], vec![0x00, 0x14, 0x01, 0x2B]);
}

#[test]
fn address_bounds_use_both_bytes_big_endian() {
    let mut d = driver(0xFFFF, 1, 0, 8);
    let got = d.set_size(0x1234, 0xFEDC, 0, 0);
    let bursts = transfers(&got);
    assert_eq!(bursts[1], vec![0x12, 0x34, 0xFE, 0xDC]);
    assert_eq!(bursts[3], vec![0x00, 0x00, 0x00, 0x00]);
}

#[test]
fn fill_clips_at_the_bottom_right_edge() {
    // 4x3 panel; request hangs over the bottom-right corner
    let mut d = driver(4, 3, 0, 64);
    let area = Rect { x: 3, y: 2, width: 5, height: 5 };
    let colors = vec![0x0101u16, 0x0202];
    let got = d.fill_contiguous(&area, &colors);
    let bursts = transfers(&got);
    // only the single corner pixel (3, 2) remains
    assert_eq!(bursts[1], vec![0x00, 0x03, 0x00, 0x03]);
    assert_eq!(bursts[3], vec![0x00, 0x02, 0x00, 0x02]);
    assert_eq!(bursts[5], vec![0x01, 0x01]);
}

#[test]
fn set_size_frames_each_address_command_in_one_chip_select() {
    let mut d = driver(240, 280, 20, 4096);
    let got = d.set_size(3, 10, 5, 6);
    let expected = window_actions(vec![0x00, 0x03, 0x00, 0x0A], vec![0x00, 0x19, 0x00, 0x1A]);
    assert_eq!(got, expected);
}

#[test]
fn stream_of_exactly_one_capacity_is_one_burst() {
    let mut d = driver(240, 280, 0, 8);
    let payload = [1u8, 2, 3, 4, 5, 6, 7, 8];
    let got = d.send_frame(&payload);
    assert_eq!(
        got,
        vec![
            Action::DcHigh,
            Action::CsLow,
            Action::Transfer(payload.to_vec()),
            Action::CsHigh,
        ]
    );
}

#[test]
fn stream_of_capacity_plus_one_is_two_bursts_with_short_tail() {
    let mut d = driver(240, 280, 0, 8);
    let payload = [1u8, 2, 3, 4, 5, 6, 7, 8, 9];
    let got = d.send_frame(&payload);
    assert_eq!(
        got,
        vec![
            Action::DcHigh,
            Action::CsLow,
            Action::Transfer(vec![1, 2, 3, 4, 5, 6, 7, 8]),
            Action::Transfer(vec![9]),
            Action::CsHigh,
        ]
    );
}

#[test]
fn stream_of_empty_payload_has_no_burst() {
    let mut d = driver(240, 280, 0, 8);
    let got = d.send_frame(&[]);
    assert_eq!(got, vec![Action::DcHigh, Action::CsLow, Action::CsHigh]);
}

#[test]
fn fill_inside_sends_window_write_ram_then_pixels() {
    // 4x3 panel, 2 hidden rows, bursts of 8 bytes
    let mut d = driver(4, 3, 2, 8);
    let area = Rect { x: 1, y: 1, width: 2, height: 2 };
    let colors = vec![0x1234u16, 0x5678, 0x9ABC, 0xDEF0];
    let got = d.fill_contiguous(&area, &colors);

    let mut expected = window_actions(
        vec![0x00, 0x01, 0x00, 0x02],
        // rows 1..=2 with offset 2 become 3..=4
        vec![0x00, 0x03, 0x00, 0x04],
    );
    expected.extend(cmd_frame_actions(0x2C, 10));
    expected.extend(vec![
        Action::DcHigh,
        Action::CsLow,
        Action::Transfer(vec![0x12, 0x34, 0x56, 0x78, 0x9A, 0xBC, 0xDE, 0xF0]),
        Action::CsHigh,
    ]);
    assert_eq!(got, expected);
}

#[test]
fn fill_transmits_two_bytes_per_pixel_in_ceil_count_bursts() {
    // 6x4 panel, no offset, bursts of 16 bytes; full-panel fill:
    // 24 pixels, 48 bytes, so three bursts of 16
    let mut d = driver(6, 4, 0, 16);
    let area = Rect { x: 0, y: 0, width: 6, height: 4 };
    let colors = vec![0x0F0Fu16; 24];
    let got = d.fill_contiguous(&area, &colors);
    let bursts = transfers(&got);
    // CASET payload, RASET payload, RAMWR opcode come first
    let pixel_bursts = &bursts[5..];
    assert_eq!(pixel_bursts.len(), 3);
    assert!(pixel_bursts.iter().all(|b| b.len() == 16));
    let total: usize = pixel_bursts.iter().map(|b| b.len()).sum();
    assert_eq!(total, 6 * 4 * 2);
}

#[test]
fn fill_clips_to_the_panel_and_consumes_only_the_clipped_count() {
    // 4x3 panel; request hangs over the top-left corner
    let mut d = driver(4, 3, 0, 64);
    let area = Rect { x: -1, y: -1, width: 3, height: 3 };
    let colors = vec![0xAAAAu16, 0xBBBB, 0xCCCC, 0xDDDD, 0xEEEE];
    let got = d.fill_contiguous(&area, &colors);

    let bursts = transfers(&got);
    // transmitted rectangle is the intersection (0, 0, 2, 2)
    assert_eq!(bursts[1], vec![0x00, 0x00, 0x00, 0x01]);
    assert_eq!(bursts[3], vec![0x00, 0x00, 0x00, 0x01]);
    // four clipped pixels: the first four source colors, fifth untouched
    assert_eq!(
        bursts[5],
        vec![0xAA, 0xAA, 0xBB, 0xBB, 0xCC, 0xCC, 0xDD, 0xDD]
    );
}

#[test]
fn fill_entirely_off_panel_transmits_nothing() {
    let mut d = driver(4, 3, 0, 64);
    let area = Rect { x: 10, y: 10, width: 2, height: 2 };
    let colors: Vec<u16> = Vec::new();
    let got = d.fill_contiguous(&area, &colors);
    assert_eq!(got, Vec::<Action>::new());
}

#[test]
fn fill_solid_repeats_the_color_for_every_clipped_pixel() {
    let mut d = driver(2, 2, 0, 64);
    let area = Rect { x: 0, y: 0, width: 2, height: 2 };
    let got = d.fill_solid(&area, 0xABCD);
    let bursts = transfers(&got);
    assert_eq!(
        bursts[5],
        vec![0xAB, 0xCD, 0xAB, 0xCD, 0xAB, 0xCD, 0xAB, 0xCD]
    );
}

#[test]
fn clear_fills_the_whole_visible_area() {
    let mut d = driver(2, 2, 3, 8);
    let got = d.clear(0x0102);
    let bursts = transfers(&got);
    assert_eq!(bursts[0], vec![0x2A]);
    assert_eq!(bursts[1], vec![0x00, 0x00, 0x00, 0x01]);
    assert_eq!(bursts[2], vec![0x2B]);
    // rows 0..=1 with offset 3 become 3..=4
    assert_eq!(bursts[3], vec![0x00, 0x03, 0x00, 0x04]);
    assert_eq!(bursts[4], vec![0x2C]);
    assert_eq!(bursts[5], vec![0x01, 0x02, 0x01, 0x02, 0x01, 0x02, 0x01, 0x02]);
}

#[test]
fn draw_entire_screen_streams_the_frame_buffer() {
    let mut d = driver(2, 2, 0, 4);
    let frame = [1u8, 2, 3, 4, 5, 6, 7, 8];
    let got = d.draw_entire_screen(&frame);
    let bursts = transfers(&got);
    assert_eq!(bursts[0], vec![0x2A]);
    assert_eq!(bursts[1], vec![0x00, 0x00, 0x00, 0x01]);
    assert_eq!(bursts[2], vec![0x2B]);
    assert_eq!(bursts[3], vec![0x00, 0x00, 0x00, 0x01]);
    assert_eq!(bursts[4], vec![0x2C]);
    assert_eq!(bursts[5], vec![1, 2, 3, 4]);
    assert_eq!(bursts[6], vec![5, 6, 7, 8]);
}

#[test]
fn draw_iter_is_rejected_as_unsupported() {
    let mut d = driver(240, 280, 20, 4096);
    let pixels = vec![(1i32, 1i32, 0xFFFFu16)];
    let r = d.draw_iter(&pixels);
    assert_eq!(r, Err(DrawError::Unsupported));
}

#[test]
fn resources_are_back_after_streaming() {
    let mut d = driver(4, 3, 0, 8);
    let payload = [0u8; 20];
    let _ = d.send_frame(&payload);
    assert!(d.bus_present());
    // the handle is usable again at once
    let again = d.send_frame(&payload);
    assert_eq!(transfers(&again).len(), 3);
    let _ = d.init();
    assert!(d.bus_present());
}

#[test]
fn bus_checkout_and_checkin_toggle_presence() {
    let mut d = driver(4, 3, 0, 8);
    assert!(d.bus_present());
    let (tx, ch) = d.take_bus();
    assert!(!d.bus_present());
    d.return_bus(tx, ch);
    assert!(d.bus_present());
}

#[test]
fn release_hands_the_bus_back_for_good() {
    let d = driver(4, 3, 0, 8);
    let ((), ()) = d.release();
}

#[test]
fn frame_primitives_leave_chip_select_low() {
    let mut d = driver(4, 3, 0, 8);
    let c = d.send_command(Commands::SleepOut);
    assert_eq!(
        c,
        vec![Action::DcLow, Action::CsLow, Action::Transfer(vec![0x11])]
    );
    let data = [9u8, 8, 7];
    let v = d.send_data(&data);
    assert_eq!(
        v,
        vec![Action::DcHigh, Action::CsLow, Action::Transfer(vec![9, 8, 7])]
    );
    assert_eq!(d.deselect(), vec![Action::CsHigh]);
    assert_eq!(d.select(), vec![Action::CsLow]);
}

#[test]
fn begin_draw_and_off_are_single_framed_commands() {
    let mut d = driver(4, 3, 0, 8);
    assert_eq!(d.begin_draw(), cmd_frame_actions(0x2C, 10));
    assert_eq!(d.off(), cmd_frame_actions(0x28, 50));
}

#[test]
fn bounding_box_covers_the_panel() {
    let d = driver(240, 280, 20, 4096);
    assert_eq!(d.size(), (240, 280));
    assert_eq!(
        d.bounding_box(),
        Rect { x: 0, y: 0, width: 240, height: 280 }
    );
}

#[test]
fn error_variants_carry_the_underlying_failures() {
    let spi: Error<u8, u8, u8, u8> = Error::Spi(1);
    let cs: Error<u8, u8, u8, u8> = Error::CS(2);
    let dc: Error<u8, u8, u8, u8> = Error::DC(3);
    let rst: Error<u8, u8, u8, u8> = Error::RST(4);
    assert!(matches!(spi, Error::Spi(1)));
    assert!(matches!(cs, Error::CS(2)));
    assert!(matches!(dc, Error::DC(3)));
    assert!(matches!(rst, Error::RST(4)));
}
