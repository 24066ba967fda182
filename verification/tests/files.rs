use linnstrument_cli::crc::crc32;
use linnstrument_cli::files::{build_file, FileError, ProjectFile, SettingsFile};

#[test]
fn a_file_is_laid_out_as_header_data_crc() {
    let file = build_file(17, b"123456789");
    let mut expected = vec![17, 9, 0, 0, 0];
    expected.extend_from_slice(b"123456789");
    expected.extend_from_slice(&[0x26, 0x39, 0xf4, 0xcb]);
    assert_eq!(file, expected);
}

#[test]
fn a_built_file_parses_back() {
    for size in [0usize, 1, 95, 96, 97, 1000] {
        let data: Vec<u8> = (0..size).map(|i| (i * 7) as u8).collect();
        let file = build_file(10, &data);
        let project = ProjectFile::parse(&file).unwrap();
        assert_eq!(project.version, 10);
        assert_eq!(project.data, &data[..]);
        let settings = SettingsFile::parse(&file).unwrap();
        assert_eq!(settings.version, 10);
        assert_eq!(settings.data, &data[..]);
    }
}

#[test]
fn a_file_without_room_for_header_and_crc_is_too_small() {
    for length in 0..9usize {
        let file = vec![17u8; length];
        assert_eq!(ProjectFile::parse(&file).unwrap_err(), FileError::TooSmall { length });
        assert_eq!(SettingsFile::parse(&file).unwrap_err(), FileError::TooSmall { length });
    }
}

#[test]
fn version_nine_cannot_be_restored() {
    let file = build_file(9, b"abc");
    let error = FileError::UnsupportedVersion { version: 9 };
    assert_eq!(ProjectFile::parse(&file).unwrap_err(), error);
    assert_eq!(SettingsFile::parse(&file).unwrap_err(), error);
}

#[test]
fn a_negative_size_is_refused() {
    let mut file = build_file(17, b"abc");
    file[4] = 0x80;
    assert_eq!(ProjectFile::parse(&file).unwrap_err(), FileError::NegativeSize);
    assert_eq!(SettingsFile::parse(&file).unwrap_err(), FileError::NegativeSize);
}

#[test]
fn a_size_that_does_not_fit_the_file_is_refused() {
    let mut file = build_file(17, b"abc");
    file.push(0);
    let error = FileError::SizeMismatch { declared: 3, length: 13 };
    assert_eq!(ProjectFile::parse(&file).unwrap_err(), error);
    assert_eq!(SettingsFile::parse(&file).unwrap_err(), error);
}

#[test]
fn damaged_data_is_refused_for_its_crc() {
    let mut file = build_file(17, b"abc");
    file[5] = b'x';
    let error = FileError::CrcMismatch { stored: crc32(b"abc"), calculated: crc32(b"xbc") };
    assert_eq!(ProjectFile::parse(&file).unwrap_err(), error);
    assert_eq!(SettingsFile::parse(&file).unwrap_err(), error);
}

#[test]
fn any_damaged_byte_behind_the_version_is_noticed() {
    let file = build_file(17, &[3u8; 50]);
    for place in 1..file.len() {
        for flip in [1u8, 0x10, 0x80, 0xff] {
            let mut damaged = file.clone();
            damaged[place] ^= flip;
            assert!(ProjectFile::parse(&damaged).is_err());
        }
    }
}
