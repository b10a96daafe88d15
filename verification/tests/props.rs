use hexdump::ascii::filter;
use hexdump::cli::Cli;
use hexdump::driver::print_canonical;
use hexdump::driver::skip_bytes;
use hexdump::encode::byte_to_arr;
use hexdump::encode::hex;
use hexdump::row::render_bytes;
use hexdump::row::render_line;
use hexdump::squeeze::squeeze_decide;
use hexdump::squeeze::SqueezeState;

#[test]
fn filter_boundaries() {
    assert_eq!(filter(0x1f), b'.');
    assert_eq!(filter(0x20), b' ');
    assert_eq!(filter(b'!'), b'!');
    assert_eq!(filter(0x7e), b'~');
    assert_eq!(filter(0x7f), b'.');
    assert_eq!(filter(0x80), b'.');
    assert_eq!(filter(0xff), b'.');
}

#[test]
fn pair_extremes() {
    assert_eq!(byte_to_arr(0x00), [b'0', b'0']);
    assert_eq!(byte_to_arr(0xff), [b'f', b'f']);
    assert_eq!(byte_to_arr(0xa5), [b'a', b'5']);
}

#[test]
fn hex_truncates_to_32_bits() {
    let mut v = Vec::new();
    hex(&mut v, usize::MAX);
    assert_eq!(v, b"ffffffff");
    let mut w = Vec::new();
    hex(&mut w, 0x123456789a);
    assert_eq!(w, b"3456789a");
}

#[test]
fn render_twice_identical() {
    let b = b"abcdefghijklmnop";
    let mut first = Vec::new();
    print_canonical(&mut first, b, 0, usize::MAX, false);
    let mut second = Vec::new();
    print_canonical(&mut second, b, 0, usize::MAX, false);
    assert_eq!(first, second);
}

#[test]
fn short_final_row_not_squeezed() {
    // 16 bytes of 'a', then 8 more: the short row matches the full row
    // byte for byte as far as it goes, yet it is rendered, and its ASCII
    // field is 8 characters wide, not 16.
    let b = [b'a'; 24];
    let mut s = Vec::new();
    print_canonical(&mut s, &b, 0, usize::MAX, true);

    let mut expected = String::new();
    expected.push_str("00000000  61 61 61 61 61 61 61 61  61 61 61 61 61 61 61 61  |aaaaaaaaaaaaaaaa|\n");
    expected.push_str("00000010  61 61 61 61 61 61 61 61  ");
    for _ in 0..8 {
        expected.push_str("   ");
    }
    expected.push_str(" |aaaaaaaa|\n");
    expected.push_str("00000018\n");
    assert_eq!(s, expected.as_bytes());
}

#[test]
fn skip_beyond_input() {
    let mut s = Vec::new();
    print_canonical(&mut s, b"abc", 100, usize::MAX, true);
    assert_eq!(s, b"00000003\n");
}

#[test]
fn length_zero() {
    let mut s = Vec::new();
    print_canonical(&mut s, b"abcdefghijklmnop", 0, 0, true);
    assert_eq!(s, b"00000000\n");
}

#[test]
fn length_clamps_final_row() {
    // 32 bytes available, but only 20 interpreted: one full row, one
    // 4-byte row, and the boundary terminates the dump.
    let b = [b'x'; 32];
    let mut s = Vec::new();
    print_canonical(&mut s, &b, 0, 20, true);

    let mut expected = String::new();
    expected.push_str("00000000  78 78 78 78 78 78 78 78  78 78 78 78 78 78 78 78  |xxxxxxxxxxxxxxxx|\n");
    expected.push_str("00000010  78 78 78 78 ");
    for _ in 0..4 {
        expected.push_str("   ");
    }
    expected.push(' ');
    for _ in 0..8 {
        expected.push_str("   ");
    }
    expected.push_str(" |xxxx|\n");
    expected.push_str("00000014\n");
    assert_eq!(s, expected.as_bytes());
}

#[test]
fn skip_offsets_first_row() {
    // Skipping 3 bytes: the first row starts at offset 3 and reads the
    // bytes after the skipped prefix.
    let b = b"0123456789abcdefXYZ";
    let mut s = Vec::new();
    print_canonical(&mut s, b, 3, usize::MAX, true);

    let mut expected = String::from("00000003  ");
    for (k, byte) in b[3..19].iter().enumerate() {
        expected.push_str(&format!("{:02x} ", byte));
        if k == 7 {
            expected.push(' ');
        }
    }
    expected.push_str(" |3456789abcdefXYZ|\n");
    expected.push_str("00000013\n");
    assert_eq!(s, expected.as_bytes());
}

#[test]
fn two_identical_rows_suppress_without_marker() {
    // The first duplicate row is suppressed silently; the marker appears
    // only when a third identical row follows (see the squeeze test).
    let b = [b'q'; 32];
    let mut s = Vec::new();
    print_canonical(&mut s, &b, 0, usize::MAX, true);

    let mut expected = String::new();
    expected.push_str("00000000  71 71 71 71 71 71 71 71  71 71 71 71 71 71 71 71  |qqqqqqqqqqqqqqqq|\n");
    expected.push_str("00000020\n");
    assert_eq!(s, expected.as_bytes());
}

#[test]
fn squeeze_runs_reset_on_differing_row() {
    // Three identical rows start a squeeze run; a differing row ends it and
    // is rendered; a second run of three identical rows gets a marker of
    // its own — exactly one marker line per squeeze run.
    let mut b = Vec::new();
    b.extend_from_slice(&[b'a'; 48]);
    b.extend_from_slice(&[b'b'; 16]);
    b.extend_from_slice(&[b'a'; 48]);
    let mut s = Vec::new();
    print_canonical(&mut s, &b, 0, usize::MAX, true);

    let mut expected = String::new();
    expected.push_str("00000000  61 61 61 61 61 61 61 61  61 61 61 61 61 61 61 61  |aaaaaaaaaaaaaaaa|\n");
    expected.push_str("*\n");
    expected.push_str("00000030  62 62 62 62 62 62 62 62  62 62 62 62 62 62 62 62  |bbbbbbbbbbbbbbbb|\n");
    expected.push_str("00000040  61 61 61 61 61 61 61 61  61 61 61 61 61 61 61 61  |aaaaaaaaaaaaaaaa|\n");
    expected.push_str("*\n");
    expected.push_str("00000070\n");
    assert_eq!(s, expected.as_bytes());
}

#[test]
fn squeeze_disabled_is_total_bypass() {
    let b = "abcdefghijklmnop".repeat(7);
    let mut s = Vec::new();
    print_canonical(&mut s, b.as_bytes(), 0, usize::MAX, false);

    let mut expected = String::new();
    for r in 0..7 {
        expected.push_str(&format!(
            "{:08x}  61 62 63 64 65 66 67 68  69 6a 6b 6c 6d 6e 6f 70  |abcdefghijklmnop|\n",
            r * 16
        ));
    }
    expected.push_str("00000070\n");
    assert_eq!(s, expected.as_bytes());
}

#[test]
fn render_bytes_pads_past_count() {
    let mut v = Vec::new();
    render_bytes(&mut v, b"ab", 0, 4, 2);
    assert_eq!(v, b"61 62       ");
}

#[test]
fn render_line_full_row_width() {
    let mut v = Vec::new();
    render_line(&mut v, b"abcdefghijklmnop", 0x10);
    assert_eq!(v.len(), 79);
    assert_eq!(
        v,
        b"00000010  61 62 63 64 65 66 67 68  69 6a 6b 6c 6d 6e 6f 70  |abcdefghijklmnop|\n"
    );
}

#[test]
fn skip_bytes_clamps() {
    assert_eq!(skip_bytes(b"abc", 0), 0);
    assert_eq!(skip_bytes(b"abc", 2), 2);
    assert_eq!(skip_bytes(b"abc", 5), 3);
}

#[test]
fn squeeze_transitions() {
    // A duplicate row walks the detector through its three states, with
    // the marker emitted exactly on the second suppressed row.
    let st = SqueezeState::NotSqueezing;
    let (st, visible, marker) = squeeze_decide(st, true);
    assert!(matches!(st, SqueezeState::PendingMarker));
    assert!(!visible);
    assert!(!marker);
    let (st, visible, marker) = squeeze_decide(st, true);
    assert!(matches!(st, SqueezeState::Squeezing));
    assert!(!visible);
    assert!(marker);
    let (st, visible, marker) = squeeze_decide(st, true);
    assert!(matches!(st, SqueezeState::Squeezing));
    assert!(!visible);
    assert!(!marker);
    // Any non-duplicate row resets the detector and is visible.
    let (st, visible, marker) = squeeze_decide(st, false);
    assert!(matches!(st, SqueezeState::NotSqueezing));
    assert!(visible);
    assert!(!marker);
}

#[test]
fn cli_squeeze_inversion() {
    let cli = Cli {
        file: None,
        canonical: false,
        length: usize::MAX,
        skip: 0,
        no_squeeze: true,
        color: String::from("never"),
    };
    assert!(!cli.squeeze_enabled());
    let cli = Cli {
        file: Some(String::from("input.bin")),
        canonical: true,
        length: 10,
        skip: 2,
        no_squeeze: false,
        color: String::from("never"),
    };
    assert!(cli.squeeze_enabled());
}
