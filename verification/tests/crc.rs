use linnstrument_cli::crc::{crc32, crc_update, RESIDUE};

#[test]
fn crc_of_the_standard_check_string() {
    assert_eq!(crc32(b"123456789"), 0xcbf4_3926);
}

#[test]
fn crc_of_nothing_is_zero() {
    assert_eq!(crc32(b""), 0);
}

#[test]
fn crc_update_mixes_one_byte() {
    assert_eq!(!crc_update(!0, b'a'), 0xe8b7_be43);
    assert_eq!(crc32(b"a"), 0xe8b7_be43);
}

#[test]
fn crc_of_two_runs_is_that_of_their_concatenation() {
    let mut register = !0u32;
    for byte in b"12345" {
        register = crc_update(register, *byte);
    }
    for byte in b"6789" {
        register = crc_update(register, *byte);
    }
    assert_eq!(!register, 0xcbf4_3926);
}

#[test]
fn every_single_damaged_byte_changes_the_crc() {
    let data: Vec<u8> = (0..40u8).collect();
    let crc = crc32(&data);
    for place in 0..data.len() {
        for flip in 1..=255u8 {
            let mut damaged = data.clone();
            damaged[place] ^= flip;
            assert_ne!(crc32(&damaged), crc);
        }
    }
}

#[test]
fn damage_within_four_bytes_in_a_row_changes_the_crc() {
    let data: Vec<u8> = (0..40u8).collect();
    let crc = crc32(&data);
    for place in 0..data.len() - 3 {
        for flips in [0x0000_0101u32, 0x8000_0001, 0xedb8_8320, 0xffff_ffff, 0x0100_0000] {
            let mut damaged = data.clone();
            for (i, flip) in flips.to_le_bytes().iter().enumerate() {
                damaged[place + i] ^= flip;
            }
            assert_ne!(crc32(&damaged), crc);
        }
    }
}

#[test]
fn data_followed_by_its_crc_has_a_fixed_crc() {
    for data in [&b""[..], &b"a"[..], &b"123456789"[..], &[0u8; 200][..]] {
        let mut sealed = data.to_vec();
        sealed.extend_from_slice(&crc32(data).to_le_bytes());
        assert_eq!(crc32(&sealed), 0x2144_df1c);
        assert_eq!(crc32(&sealed), RESIDUE);
    }
}
