use dfuse::DfuseFile;
use dfuse::tools::CRC32;

#[test]
fn it_works() {}

#[test]
fn can_create_empty_file() {
    let file: DfuseFile = DfuseFile::new();
    drop(file);
}

#[test]
fn empty_file_layout() {
    let file = DfuseFile::new();
    assert_eq!(file.size(), 11 + 12 + 4);

    let mut buf: Vec<u8> = Vec::new();
    file.write_to(&mut buf);

    assert_eq!(buf.len(), 27);
    // Header: signature, format version, total size (little-endian), no
    // images.
    assert_eq!(*b"DfuSe", buf[0..5]);
    assert_eq!(0x01, buf[5]);
    assert_eq!([27, 0x00, 0x00, 0x00], buf[6..10]);
    assert_eq!(0x00, buf[10]);
    // Trailer defaults: three 0xFFFF fields, the sub-format constant, the
    // magic marker, the trailer-size byte.
    assert_eq!([0xFF, 0xFF, 0xFF, 0xFF, 0xFF, 0xFF], buf[11..17]);
    assert_eq!([0x1A, 0x01], buf[17..19]);
    assert_eq!([0x55, 0x46, 0x44], buf[19..22]);
    assert_eq!(16, buf[22]);
}

fn crc_of(bytes: &[u8]) -> u32 {
    let mut crc = CRC32::new_jam();
    for b in bytes {
        crc.add(*b);
    }
    crc.finalize()
}

#[test]
fn write_matches_size_and_ends_with_crc() {
    // One unnamed image with a 12-byte payload.
    let mut file = DfuseFile::new();
    let payload: Vec<u8> = vec![0, 1, 2, 3, 4, 5, 6, 7, 8, 9, 10, 11];
    file.add_unamed_image(1, 0x1FFFF800, payload);

    let total = file.size();
    assert_eq!(total, 11 + 274 + 8 + 12 + 12 + 4);

    let mut buf: Vec<u8> = Vec::new();
    file.write_to(&mut buf);

    // The file is exactly as long as the builder reported.
    assert_eq!(buf.len(), total);

    // Its final 4 bytes are the little-endian check value of every byte
    // before them.
    let crc = crc_of(&buf[0..total - 4]);
    assert_eq!(crc.to_le_bytes(), buf[total - 4..total]);
}

#[test]
fn size_and_write_are_idempotent() {
    let mut file = DfuseFile::new();
    file.add_image("demo", 2, 0x08000000, vec![0xDE, 0xAD, 0xBE, 0xEF]);
    file.set_vendor_id(0x0483);

    // Two size computations without mutation in between agree.
    assert_eq!(file.size(), file.size());

    // Two writes into fresh buffers without mutation in between are
    // byte-identical.
    let mut first: Vec<u8> = Vec::new();
    file.write_to(&mut first);
    let mut second: Vec<u8> = Vec::new();
    file.write_to(&mut second);
    assert_eq!(first, second);
}

#[test]
fn total_size_ignores_name_length() {
    let payload: Vec<u8> = vec![0xAA; 16];

    let mut unnamed = DfuseFile::new();
    unnamed.add_unamed_image(0, 0x08000000, payload.clone());

    let mut short_name = DfuseFile::new();
    short_name.add_image("a", 0, 0x08000000, payload.clone());

    let mut long_name = DfuseFile::new();
    long_name.add_image(&"b".repeat(285), 0, 0x08000000, payload);

    assert_eq!(unnamed.size(), short_name.size());
    assert_eq!(short_name.size(), long_name.size());
}

#[test]
fn option_bytes_file_round() {
    // A minimal option-byte image for an STM32F042-style device.
    let mut file = DfuseFile::new();

    let adress = 0x1FFFF800u32;
    let ob_word: Vec<u32> = vec![0x00FF55AA, 0x00FF00FF, 0x00FF00FF, 0x00FF00FF];
    let mut ob: Vec<u8> = Vec::new();
    for word in ob_word {
        ob.extend_from_slice(&word.to_le_bytes());
    }

    file.add_image("Option Bytes  ", 1, adress, ob);

    file.set_vendor_id(0x0483);
    file.set_product_id(0xDF11);
    file.set_version(0x2200);

    let mut buf: Vec<u8> = Vec::new();
    file.write_to(&mut buf);

    let total = file.size();
    assert_eq!(buf.len(), total);
    assert_eq!(total, 11 + 274 + 8 + 16 + 12 + 4);

    // Header carries the total size and one image.
    assert_eq!((total as u32).to_le_bytes(), buf[6..10]);
    assert_eq!(1, buf[10]);

    // The sub-header is named and carries the name text.
    assert_eq!([0x00, 0x00, 0x00, 0x01], buf[18..22]);
    assert_eq!(*b"Option Bytes  ", buf[22..36]);

    // The element address is big-endian.
    assert_eq!([0x1F, 0xFF, 0xF8, 0x00], buf[285..289]);

    // The trailer carries the configured identifiers, little-endian.
    let t = total - 16;
    assert_eq!([0x00, 0x22], buf[t..t + 2]);
    assert_eq!([0x11, 0xDF], buf[t + 2..t + 4]);
    assert_eq!([0x83, 0x04], buf[t + 4..t + 6]);

    // And the checksum closes the file.
    let crc = crc_of(&buf[0..total - 4]);
    assert_eq!(crc.to_le_bytes(), buf[total - 4..total]);
}
