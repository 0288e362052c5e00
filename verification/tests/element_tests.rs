use dfuse::elements::Image;
use dfuse::elements::ImageElement;
use dfuse::elements::Prefix;
use dfuse::elements::Suffix;
use dfuse::elements::TargetPrefix;

fn assert_element_write_reported_size(data: Vec<u8>) {
    let element = ImageElement::new(0xAABBCCDD, data);
    let reported = element.size();
    let mut buf: Vec<u8> = Vec::with_capacity(reported);
    element.write_to(&mut buf);
    assert_eq!(reported, buf.len());
}

#[test]
fn test_image_element_write_reported_size() {
    assert_element_write_reported_size(vec![0x01, 0x02, 0x03, 0x04]);
    assert_element_write_reported_size(vec![0x03, 0x06, 0x08, 0x09]);
}

#[test]
fn test_image_element_write_correct_data() {
    let element = ImageElement::new(0x008CFFFF, vec![0x33, 0x44, 0x55]);
    let mut buf: Vec<u8> = Vec::with_capacity(element.size());

    element.write_to(&mut buf);

    assert_eq!(buf.len(), 11);

    // Address, big-endian.
    assert_eq!([0x00, 0x8C, 0xFF, 0xFF], buf[0..4]);

    // Payload length, big-endian.
    assert_eq!([0x00, 0x00, 0x00, 0x03], buf[4..8]);

    // Raw payload.
    assert_eq!([0x33, 0x44, 0x55], buf[8..11]);
}

#[test]
fn test_prefix_write_reported_size() {
    let prefix = Prefix::new(0, 0);
    let reported = Prefix::size();

    let mut buf = vec![];
    prefix.write_to(&mut buf);
    assert_eq!(reported, buf.len());
}

#[test]
fn prefix_write_layout() {
    let prefix = Prefix::new(0x00FFAA55, 0x33);
    let mut buf = vec![];
    prefix.write_to(&mut buf);

    assert_eq!(buf.len(), 11);
    // Signature.
    assert_eq!(*b"DfuSe", buf[0..5]);
    // Format version.
    assert_eq!(0x01, buf[5]);
    // Total size, little-endian.
    assert_eq!([0x55, 0xAA, 0xFF, 0x00], buf[6..10]);
    // Image count.
    assert_eq!(0x33, buf[10]);
}

fn assert_suffix_write_reported_size(suffix: Suffix) {
    let reported = Suffix::size();
    let mut buf: Vec<u8> = Vec::with_capacity(reported);
    suffix.write_to(&mut buf);
    assert_eq!(reported, buf.len());
}

#[test]
fn test_suffix_element_write_reported_size() {
    assert_suffix_write_reported_size(Suffix::new());
    assert_suffix_write_reported_size(Suffix {
        fw_version: 0x3344,
        usb_pid: 0x4433,
        usb_vid: 0xFF00,
    });
}

#[test]
fn test_suffix_write_correct_data() {
    let suffix = Suffix {
        fw_version: 0x3344,
        usb_pid: 0x4433,
        usb_vid: 0xFF00,
    };

    let mut buf: Vec<u8> = Vec::with_capacity(Suffix::size());

    suffix.write_to(&mut buf);

    assert_eq!(buf.len(), 12);

    // fw_version, little-endian.
    assert_eq!([0x44, 0x33], buf[0..2]);

    // usb_pid, little-endian.
    assert_eq!([0x33, 0x44], buf[2..4]);

    // usb_vid, little-endian.
    assert_eq!([0x00, 0xFF], buf[4..6]);

    // DFU sub-format version constant, little-endian.
    assert_eq!([0x1A, 0x01], buf[6..8]);

    // Magic marker.
    assert_eq!([0x55, 0x46, 0x44], buf[8..11]);

    // Trailer size including the checksum.
    assert_eq!(16, buf[11]);
}

fn get_writed_size_for_name(name: Option<String>) -> usize {
    let prefix = TargetPrefix::new(name, 0xAA, 0x55555555, 0x33333333);

    let mut buf: Vec<u8> = Vec::with_capacity(TargetPrefix::size());
    prefix.write_to(&mut buf);
    buf.len()
}

#[test]
fn test_target_prefix_write_reported_size() {
    let reported = TargetPrefix::size();

    let tiny = get_writed_size_for_name(None);
    let small = get_writed_size_for_name(Some("test".to_string()));
    let big = get_writed_size_for_name(
        Some(
            "aaaaaaaaaaaaaaaaaaaaaaaaaaaaaaaaaaaaaaaaaaaaaaaaaaaaaaaaaaaaaaaaaaaaaaaaaaaaaaaaaaaaaaaaaaaaaaaaaaaaaaaaaaaaaaaaaaaaaaaaaaaaaaaaaaaaaaaaaaaaaaaaaaaaaaaaaaaaaaaaaaaaaaaaaaaaaaaaaaaaaaaaaaaaaaaaaaaaaaaaaaaaaaaaaaaaaaaaaaaaaaaaaaaaaaaaaaaaaaaaaaaaaaaaaaaaaaaaaaaaaaaaaaaaaaaaaaaaaaaa"
        .to_string()),
    );

    assert_eq!(reported, tiny);
    assert_eq!(reported, small);
    assert_eq!(reported, big);
}

#[test]
fn target_prefix_named_layout() {
    let prefix = TargetPrefix::new(Some("ab".to_string()), 0xAB, 0x00FF10FF, 0x00000002);
    let mut buf = vec![];
    prefix.write_to(&mut buf);

    assert_eq!(buf.len(), 274);
    // Signature.
    assert_eq!(*b"Target", buf[0..6]);
    // Alternate setting.
    assert_eq!(0xAB, buf[6]);
    // Named flag: a 32-bit big-endian one.
    assert_eq!([0x00, 0x00, 0x00, 0x01], buf[7..11]);
    // Name, zero-padded to 255 bytes.
    assert_eq!(*b"ab", buf[11..13]);
    for i in 13..266 {
        assert_eq!(0u8, buf[i]);
    }
    // Payload size, little-endian.
    assert_eq!([0xFF, 0x10, 0xFF, 0x00], buf[266..270]);
    // Element count, little-endian.
    assert_eq!([0x02, 0x00, 0x00, 0x00], buf[270..274]);
}

#[test]
fn target_prefix_unnamed_layout() {
    let prefix = TargetPrefix::new(None, 0x01, 0x0000000C, 0x00000001);
    let mut buf = vec![];
    prefix.write_to(&mut buf);

    assert_eq!(buf.len(), 274);
    assert_eq!(*b"Target", buf[0..6]);
    assert_eq!(0x01, buf[6]);
    // Named flag: a 32-bit big-endian zero, and an all-zero name field.
    for i in 7..266 {
        assert_eq!(0u8, buf[i]);
    }
    assert_eq!([0x0C, 0x00, 0x00, 0x00], buf[266..270]);
    assert_eq!([0x01, 0x00, 0x00, 0x00], buf[270..274]);
}

#[test]
fn target_prefix_truncates_long_name() {
    // 300 name bytes: only the first 254 fit the 255-byte field, and the
    // field still ends with a zero byte.
    let name: String = "x".repeat(300);
    let prefix = TargetPrefix::new(Some(name), 0x00, 0, 0);
    let mut buf = vec![];
    prefix.write_to(&mut buf);

    assert_eq!(buf.len(), 274);
    for i in 11..265 {
        assert_eq!(b'x', buf[i]);
    }
    assert_eq!(0u8, buf[265]);
}

#[test]
fn image_write_reported_size() {
    let image = Image {
        name: Some("two blobs".to_string()),
        alternate: 3,
        elements: vec![
            ImageElement::new(0x08000000, vec![1, 2, 3]),
            ImageElement::new(0x08000100, vec![4, 5, 6, 7, 8]),
        ],
    };

    let reported = image.size();
    assert_eq!(reported, 274 + 8 + 3 + 8 + 5);

    let mut buf: Vec<u8> = Vec::new();
    image.write_to(&mut buf);
    assert_eq!(reported, buf.len());
}
