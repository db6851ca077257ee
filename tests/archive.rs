use doomwad::error::WadError;
use doomwad::wad::WadFile;

fn name_field(name: &str, pad: u8) -> [u8; 8] {
    let mut field = [pad; 8];
    for (i, b) in name.bytes().enumerate() {
        field[i] = b;
    }
    field
}

/// Lays out an archive: header, lump bytes, then the directory.
fn build_wad(magic: &[u8; 4], lumps: &[(&str, Vec<u8>)]) -> Vec<u8> {
    let mut data = Vec::new();
    data.extend_from_slice(magic);
    data.extend_from_slice(&(lumps.len() as u32).to_le_bytes());
    data.extend_from_slice(&[0, 0, 0, 0]);
    let mut entries = Vec::new();
    for (name, bytes) in lumps {
        entries.push((data.len() as u32, bytes.len() as u32, name_field(name, 0)));
        data.extend_from_slice(bytes);
    }
    let dir = data.len() as u32;
    data[8..12].copy_from_slice(&dir.to_le_bytes());
    for (offset, size, name) in entries {
        data.extend_from_slice(&offset.to_le_bytes());
        data.extend_from_slice(&size.to_le_bytes());
        data.extend_from_slice(&name);
    }
    data
}

fn palette_lump() -> Vec<u8> {
    (0..768).map(|i| (i % 256) as u8).collect()
}

fn one_pixel_picture(index: u8) -> Vec<u8> {
    vec![1, 0, 1, 0, 0, 0, 0, 0, 12, 0, 0, 0, 0, 1, 0, index, 0, 0xFF]
}

#[test]
fn last_entry_wins_on_equal_names() {
    let data = build_wad(b"IWAD", &[("FOO", vec![1, 2, 3]), ("BAR", vec![9]), ("FOO", vec![4, 5])]);
    let wad = WadFile::load(&data).unwrap();
    assert_eq!(wad.get_lump("FOO"), Some(&vec![4, 5]));
    assert_eq!(wad.get_lump("BAR"), Some(&vec![9]));
}

#[test]
fn missing_lump_is_none() {
    let data = build_wad(b"IWAD", &[("FOO", vec![1])]);
    let wad = WadFile::load(&data).unwrap();
    assert_eq!(wad.get_lump("BAR"), None);
    assert_eq!(wad.get_lump("foo"), None);
    assert_eq!(wad.get_lump(""), None);
}

#[test]
fn names_are_trimmed_of_spaces_and_nuls() {
    let mut data = build_wad(b"PWAD", &[("AB", vec![7])]);
    let dir = u32::from_le_bytes([data[8], data[9], data[10], data[11]]) as usize;
    data[dir + 8..dir + 16].copy_from_slice(&name_field("AB", b' '));
    let wad = WadFile::load(&data).unwrap();
    assert_eq!(wad.get_lump("AB"), Some(&vec![7]));
    assert_eq!(wad.get_lump("AB "), None);
}

#[test]
fn full_eight_byte_name() {
    let data = build_wad(b"IWAD", &[("M_SKULL1", vec![1, 1])]);
    let wad = WadFile::load(&data).unwrap();
    assert_eq!(wad.get_lump("M_SKULL1"), Some(&vec![1, 1]));
}

#[test]
fn empty_lump_and_empty_directory() {
    let data = build_wad(b"IWAD", &[("EMPTY", vec![])]);
    let wad = WadFile::load(&data).unwrap();
    assert_eq!(wad.get_lump("EMPTY"), Some(&vec![]));
    let data = build_wad(b"IWAD", &[]);
    let wad = WadFile::load(&data).unwrap();
    assert_eq!(wad.get_lump("EMPTY"), None);
}

#[test]
fn lump_offsets_past_one_byte_are_read() {
    let big: Vec<u8> = (0..300).map(|i| (i % 7) as u8).collect();
    let data = build_wad(b"IWAD", &[("BIG", big.clone()), ("SMALL", vec![42])]);
    let wad = WadFile::load(&data).unwrap();
    assert_eq!(wad.get_lump("BIG"), Some(&big));
    assert_eq!(wad.get_lump("SMALL"), Some(&vec![42]));
}

#[test]
fn bad_magic_is_format_error() {
    let data = build_wad(b"XWAD", &[("FOO", vec![1])]);
    assert!(matches!(WadFile::load(&data), Err(WadError::FormatError)));
}

#[test]
fn short_header_is_io_error() {
    assert!(matches!(WadFile::load(&[]), Err(WadError::IoError)));
    assert!(matches!(WadFile::load(b"IWAD\x00\x00\x00"), Err(WadError::IoError)));
}

#[test]
fn directory_past_end_is_io_error() {
    let mut data = build_wad(b"IWAD", &[("FOO", vec![1])]);
    data.truncate(data.len() - 1);
    assert!(matches!(WadFile::load(&data), Err(WadError::IoError)));
}

#[test]
fn lump_past_end_fails_whole_load() {
    let mut data = build_wad(b"IWAD", &[("FOO", vec![1]), ("BAR", vec![2, 3])]);
    let dir = u32::from_le_bytes([data[8], data[9], data[10], data[11]]) as usize;
    // the second entry's size now runs past the end of the archive
    let size = (data.len() as u32).to_le_bytes();
    data[dir + 16 + 4..dir + 16 + 8].copy_from_slice(&size);
    assert!(matches!(WadFile::load(&data), Err(WadError::FormatError)));
}

#[test]
fn loading_twice_gives_same_lumps() {
    let data = build_wad(b"IWAD", &[("FOO", vec![1, 2]), ("FOO", vec![3]), ("BAR", vec![])]);
    let a = WadFile::load(&data).unwrap();
    let b = WadFile::load(&data).unwrap();
    for name in ["FOO", "BAR", "BAZ"] {
        assert_eq!(a.get_lump(name), b.get_lump(name));
    }
}

#[test]
fn get_image_decodes_with_playpal() {
    let data = build_wad(
        b"IWAD",
        &[("PLAYPAL", palette_lump()), ("PIC", one_pixel_picture(5))],
    );
    let wad = WadFile::load(&data).unwrap();
    let img = wad.get_image("PIC").unwrap();
    assert_eq!(img.width(), 1);
    assert_eq!(img.height(), 1);
    assert_eq!(img.pixel(0, 0), Some([15, 16, 17]));
}

#[test]
fn get_image_missing_picture_or_palette() {
    let data = build_wad(b"IWAD", &[("PLAYPAL", palette_lump())]);
    let wad = WadFile::load(&data).unwrap();
    assert!(matches!(wad.get_image("PIC"), Err(WadError::NotFound)));
    let data = build_wad(b"IWAD", &[("PIC", one_pixel_picture(5))]);
    let wad = WadFile::load(&data).unwrap();
    assert!(matches!(wad.get_image("PIC"), Err(WadError::NotFound)));
}

#[test]
fn get_image_short_palette_or_bad_picture() {
    let data = build_wad(b"IWAD", &[("PLAYPAL", vec![0; 767]), ("PIC", one_pixel_picture(5))]);
    let wad = WadFile::load(&data).unwrap();
    assert!(matches!(wad.get_image("PIC"), Err(WadError::FormatError)));
    let data = build_wad(b"IWAD", &[("PLAYPAL", palette_lump()), ("PIC", vec![1, 0, 1])]);
    let wad = WadFile::load(&data).unwrap();
    assert!(matches!(wad.get_image("PIC"), Err(WadError::FormatError)));
}
