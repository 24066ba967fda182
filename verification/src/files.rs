//! Backup files: `[version: 1 byte] [size: 4 bytes] [data] [crc32: 4 bytes]`,
//! the numbers least significant byte first.

use vstd::prelude::*;

use crate::crc::crc32;
use crate::little_endian::{i32_from_le_bytes, u32_from_le_bytes, u32_to_le_bytes};

#[allow(unused_imports)]
use crate::crc::{crc32_of, differ_only_from, law_damaged_burst_shows};
#[allow(unused_imports)]
use crate::device::number_of;
#[allow(unused_imports)]
use crate::little_endian::{
    i32_from_le, law_read_after_write, law_write_after_read, u32_from_le, u32_le,
};

verus! {

/// The oldest version whose files can be restored.
pub const OLDEST_RESTORABLE: u8 = 10;

/// The bytes that a file holds beside its data.
pub const OVERHEAD: usize = 9;

/// Why a file cannot be restored.
#[derive(Clone, Copy, Debug, PartialEq, Eq, Structural)]
pub enum FileError {
    /// The file is too short to hold a header and a CRC.
    TooSmall { length: usize },
    /// The version is older than any that can be restored.
    UnsupportedVersion { version: u8 },
    /// The size field is negative.
    NegativeSize,
    /// The size field does not agree with the length of the file.
    SizeMismatch { declared: usize, length: usize },
    /// The data is not what the CRC was made of.
    CrcMismatch { stored: u32, calculated: u32 },
}

/// The file that holds `data` under `version`.
pub open spec fn file_of(version: u8, data: Seq<u8>) -> Seq<u8> {
    seq![version] + u32_le(data.len() as u32) + data + u32_le(crc32_of(data))
}

/// What a file says its size is.
pub open spec fn declared_size(file: Seq<u8>) -> i32 {
    i32_from_le(file.subrange(1, 5))
}

/// The bytes between header and CRC.
pub open spec fn data_of(file: Seq<u8>) -> Seq<u8> {
    file.subrange(5, file.len() - 4)
}

/// The CRC that a file carries.
pub open spec fn stored_crc(file: Seq<u8>) -> u32 {
    u32_from_le(file.subrange(file.len() - 4, file.len() as int))
}

/// The first thing that is wrong with a file, if anything is.
pub open spec fn defect(file: Seq<u8>) -> Option<FileError> {
    if file.len() < OVERHEAD {
        Some(FileError::TooSmall { length: file.len() as usize })
    } else if file[0] < OLDEST_RESTORABLE {
        Some(FileError::UnsupportedVersion { version: file[0] })
    } else if declared_size(file) < 0 {
        Some(FileError::NegativeSize)
    } else if file.len() != declared_size(file) + OVERHEAD {
        Some(
            FileError::SizeMismatch {
                declared: declared_size(file) as usize,
                length: file.len() as usize,
            },
        )
    } else if stored_crc(file) != crc32_of(data_of(file)) {
        Some(
            FileError::CrcMismatch {
                stored: stored_crc(file),
                calculated: crc32_of(data_of(file)),
            },
        )
    } else {
        None
    }
}

/// A project file that can be restored.
#[derive(Clone, Copy, Debug)]
pub struct ProjectFile<'a> {
    pub version: u8,
    pub data: &'a [u8],
}

impl<'a> ProjectFile<'a> {
    /// Reads a project file, or says what is wrong with it.
    pub fn parse(file: &'a [u8]) -> (result: Result<Self, FileError>)
        ensures
            match result {
                Ok(project) => {
                    &&& defect(file@) is None
                    &&& project.version == file@[0]
                    &&& project.data@ == data_of(file@)
                },
                Err(error) => defect(file@) == Some(error),
            },
    {
        match split_file(file) {
            Ok((version, data)) => Ok(ProjectFile { version, data }),
            Err(error) => Err(error),
        }
    }
}

/// A settings file that can be restored.
#[derive(Clone, Copy, Debug)]
pub struct SettingsFile<'a> {
    pub version: u8,
    pub data: &'a [u8],
}

impl<'a> SettingsFile<'a> {
    /// Reads a settings file, or says what is wrong with it.
    pub fn parse(file: &'a [u8]) -> (result: Result<Self, FileError>)
        ensures
            match result {
                Ok(settings) => {
                    &&& defect(file@) is None
                    &&& settings.version == file@[0]
                    &&& settings.data@ == data_of(file@)
                },
                Err(error) => defect(file@) == Some(error),
            },
    {
        match split_file(file) {
            Ok((version, data)) => Ok(SettingsFile { version, data }),
            Err(error) => Err(error),
        }
    }
}

/// Takes a file apart into its version and its data.
fn split_file(file: &[u8]) -> (result: Result<(u8, &[u8]), FileError>)
    ensures
        match result {
            Ok((version, data)) => {
                &&& defect(file@) is None
                &&& version == file@[0]
                &&& data@ == data_of(file@)
            },
            Err(error) => defect(file@) == Some(error),
        },
{
    let length: usize = file.len();
    if length < OVERHEAD {
        return Err(FileError::TooSmall { length });
    }
    let version: u8 = file[0];
    if version < OLDEST_RESTORABLE {
        return Err(FileError::UnsupportedVersion { version });
    }
    let declared: i32 = i32_from_le_bytes(&file[1..5]);
    if declared < 0 {
        return Err(FileError::NegativeSize);
    }
    let declared: usize = declared as usize;
    if length != declared + OVERHEAD {
        return Err(FileError::SizeMismatch { declared, length });
    }
    let data = &file[5..length - 4];
    let stored: u32 = u32_from_le_bytes(&file[length - 4..length]);
    let calculated: u32 = crc32(data);
    if stored != calculated {
        return Err(FileError::CrcMismatch { stored, calculated });
    }
    Ok((version, data))
}

/// Builds the file that holds `data` under `version`.
pub fn build_file(version: u8, data: &[u8]) -> (file: Vec<u8>)
    requires
        data@.len() <= i32::MAX,
    ensures
        file@ == file_of(version, data@),
{
    let crc: u32 = crc32(data);
    let mut file: Vec<u8> = Vec::new();
    file.push(version);
    let mut size: Vec<u8> = u32_to_le_bytes(data.len() as u32);
    file.append(&mut size);
    file.extend_from_slice(data);
    let mut trailer: Vec<u8> = u32_to_le_bytes(crc);
    file.append(&mut trailer);
    assert(file@ == file_of(version, data@));
    file
}

/// What was saved can be read back: a file that was built from a version that
/// can be restored and from data whose size fits the size field is whole, and
/// holds that version and that data.
pub proof fn law_saved_file_reads_back(version: u8, data: Seq<u8>)
    requires
        version >= OLDEST_RESTORABLE,
        data.len() <= i32::MAX,
    ensures
        defect(file_of(version, data)) is None,
        file_of(version, data)[0] == version,
        data_of(file_of(version, data)) == data,
{
    let file = file_of(version, data);
    let crc = crc32_of(data);
    law_read_after_write(data.len() as u32);
    law_read_after_write(crc);
    assert(file.subrange(1, 5) == u32_le(data.len() as u32));
    assert(data_of(file) == data);
    assert(file.subrange(file.len() - 4, file.len() as int) == u32_le(crc));
}

/// There is no other file: one that can be restored is, byte for byte, the file
/// that is built from its version and its data.
pub proof fn law_whole_file_is_the_built_one(file: Seq<u8>)
    requires
        defect(file) is None,
    ensures
        file == file_of(file[0], data_of(file)),
        file[0] >= OLDEST_RESTORABLE,
        data_of(file).len() <= i32::MAX,
{
    let data = data_of(file);
    law_write_after_read(file.subrange(1, 5));
    law_write_after_read(file.subrange(file.len() - 4, file.len() as int));
    assert(file == seq![file[0]] + file.subrange(1, 5) + data + file.subrange(
        file.len() - 4,
        file.len() as int,
    ));
}

/// A file whose data was damaged, within four bytes in a row, is refused for its
/// CRC.
pub proof fn law_damaged_data_is_refused(file: Seq<u8>, damaged: Seq<u8>, place: int)
    requires
        defect(file) is None,
        damaged != file,
        differ_only_from(damaged, file, place),
        forall|i: int| #![trigger damaged[i]]
            0 <= i < file.len() && !(5 <= i < file.len() - 4) ==> damaged[i] == file[i],
    ensures
        defect(damaged) == Some(
            FileError::CrcMismatch {
                stored: stored_crc(file),
                calculated: crc32_of(data_of(damaged)),
            },
        ),
{
    let end = file.len() as int;
    assert(damaged.subrange(1, 5) == file.subrange(1, 5));
    assert(damaged.subrange(end - 4, end) == file.subrange(end - 4, end));
    assert(damaged[0] == file[0]);
    if data_of(damaged) == data_of(file) {
        assert forall|i: int| 0 <= i < end implies damaged[i] == file[i] by {
            if 5 <= i < end - 4 {
                assert(damaged[i] == data_of(damaged)[i - 5]);
                assert(file[i] == data_of(file)[i - 5]);
            }
        }
        assert(damaged == file);
    }
    law_damaged_burst_shows(data_of(damaged), data_of(file), place - 5);
}

/// No single damaged byte behind the version byte goes unnoticed, wherever in
/// the file it is.
pub proof fn law_damaged_file_is_refused(file: Seq<u8>, place: int, byte: u8)
    requires
        defect(file) is None,
        1 <= place < file.len(),
        byte != file[place],
    ensures
        defect(file.update(place, byte)) is Some,
{
    let damaged = file.update(place, byte);
    let end = file.len() as int;
    if place < 5 {
        law_write_after_read(file.subrange(1, 5));
        law_write_after_read(damaged.subrange(1, 5));
        assert(file.subrange(1, 5)[place - 1] != damaged.subrange(1, 5)[place - 1]);
        assert(declared_size(file) != declared_size(damaged));
    } else if place < end - 4 {
        assert(damaged[place] == byte);
        law_damaged_data_is_refused(file, damaged, place);
    } else {
        assert(damaged.subrange(1, 5) == file.subrange(1, 5));
        assert(data_of(damaged) == data_of(file));
        law_write_after_read(file.subrange(end - 4, end));
        law_write_after_read(damaged.subrange(end - 4, end));
        assert(file.subrange(end - 4, end)[place - (end - 4)] != damaged.subrange(end - 4, end)[
        place - (end - 4)]);
    }
}

/// Where everything is in a file: the version first, then the size of the data in
/// four bytes, the data, and the CRC of the data in four bytes, with the lowest
/// byte first in both.
pub proof fn law_layout_of_a_file(version: u8, data: Seq<u8>)
    requires
        data.len() <= 0x7fff_ffff,
    ensures
        ({
            let file = file_of(version, data);
            let end = data.len() as int + 5;
            &&& file.len() == data.len() + 9
            &&& file[0] == version
            &&& number_of(file.subrange(1, 5)) == data.len()
            &&& file.subrange(5, end) == data
            &&& number_of(file.subrange(end, end + 4)) == crc32_of(data)
        }),
{
    let file = file_of(version, data);
    let end = data.len() as int + 5;
    assert(file.subrange(1, 5) =~= u32_le(data.len() as u32));
    assert(file.subrange(5, end) =~= data);
    assert(file.subrange(end, end + 4) =~= u32_le(crc32_of(data)));
}

/// What makes a file whole, and what is said of one that is not: it is shorter
/// than nine bytes, or its version is below ten, or its size is negative, or it
/// is not nine bytes longer than its size says, or its last four bytes are not
/// the CRC of the data. The first of these that holds is said.
pub proof fn law_what_is_wrong_with_a_file(file: Seq<u8>)
    requires
        file.len() <= usize::MAX,
    ensures
        ({
            let size = number_of(file.subrange(1, 5));
            let end = file.len() as int - 4;
            let data = file.subrange(5, end);
            let stored = number_of(file.subrange(end, end + 4));
            if file.len() < 9 {
                defect(file) == Some(FileError::TooSmall { length: file.len() as usize })
            } else if file[0] < 10 {
                defect(file) == Some(FileError::UnsupportedVersion { version: file[0] })
            } else if size >= 0x8000_0000 {
                defect(file) == Some(FileError::NegativeSize)
            } else if file.len() != size + 9 {
                defect(file) == Some(
                    FileError::SizeMismatch {
                        declared: size as usize,
                        length: file.len() as usize,
                    },
                )
            } else if stored != crc32_of(data) {
                defect(file) == Some(
                    FileError::CrcMismatch {
                        stored: stored as u32,
                        calculated: crc32_of(data),
                    },
                )
            } else {
                defect(file) is None && data_of(file) == data
            }
        }),
{
}

} // verus!
