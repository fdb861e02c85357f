use wasmcloud_test_util::encoding::{encode_line, fits_base64};

#[test]
fn lines_of_known_bytes() {
    assert_eq!(encode_line(b""), "\r\n");
    assert_eq!(encode_line(b"f"), "Zg\r\n");
    assert_eq!(encode_line(b"fo"), "Zm8\r\n");
    assert_eq!(encode_line(b"foo"), "Zm9v\r\n");
    assert_eq!(encode_line(b"foob"), "Zm9vYg\r\n");
    assert_eq!(encode_line(b"fooba"), "Zm9vYmE\r\n");
    assert_eq!(encode_line(b"foobar"), "Zm9vYmFy\r\n");
    assert_eq!(encode_line(b"{\"host_id\":\"_TEST_\"}"), "eyJob3N0X2lkIjoiX1RFU1RfIn0\r\n");
    assert_eq!(encode_line(&[0xfb, 0xff, 0xbf]), "+/+/\r\n");
}

#[test]
fn all_bytes_in_turn() {
    let bytes: Vec<u8> = (0..=255u8).collect();
    assert_eq!(
        encode_line(&bytes),
        "AAECAwQFBgcICQoLDA0ODxAREhMUFRYXGBkaGxwdHh8gISIjJCUmJygpKissLS4vMDEyMzQ1Njc4OTo7PD0+P0BB\
         QkNERUZHSElKS0xNTk9QUVJTVFVWV1hZWltcXV5fYGFiY2RlZmdoaWprbG1ub3BxcnN0dXZ3eHl6e3x9fn+AgYKD\
         hIWGh4iJiouMjY6PkJGSk5SVlpeYmZqbnJ2en6ChoqOkpaanqKmqq6ytrq+wsbKztLW2t7i5uru8vb6/wMHCw8TF\
         xsfIycrLzM3Oz9DR0tPU1dbX2Nna29zd3t/g4eLj5OXm5+jp6uvs7e7v8PHy8/T19vf4+fr7/P3+/w\r\n"
    );
}

#[test]
fn line_breaks_only_at_its_end() {
    for n in 0..100usize {
        let bytes: Vec<u8> = (0..n).map(|i| (i * 7 + n) as u8).collect();
        let line = encode_line(&bytes);
        assert_eq!(line.len(), (4 * n + 2) / 3 + 2);
        assert_eq!(line.find('\r'), Some(line.len() - 2));
        assert_eq!(line.find('\n'), Some(line.len() - 1));
        let decoded = base64::decode_config(line.trim_end(), base64::STANDARD_NO_PAD).unwrap();
        assert_eq!(decoded, bytes);
    }
}

#[test]
fn what_fits_in_a_string() {
    assert!(fits_base64(0));
    assert!(fits_base64(1_000_000));
    assert!(!fits_base64(usize::MAX));
    assert!(!fits_base64(isize::MAX as usize));
    assert!(fits_base64(isize::MAX as usize / 4 * 3));
}
