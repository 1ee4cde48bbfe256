//! Program images: the four marker bytes, and behind them the bytes that go
//! into memory.

use crate::machine::{Machine, MachineState, MEMORY_SIZE};
use vstd::prelude::*;
use vstd::slice::slice_subrange;

verus! {

/// The number of marker bytes in front of a program.
pub const MAGIC_SIZE: usize = 4;

/// The marker bytes in front of a program.
pub open spec fn magic() -> Seq<u8> {
    seq![0xDEu8, 0xADu8, 0xBEu8, 0xEFu8]
}

/// Why an image holds no program.
#[derive(Clone, Copy, Debug, PartialEq, Eq)]
pub enum ImageError {
    /// The image is shorter than the marker.
    TooShort,
    /// The image does not start with the marker.
    BadMagic,
    /// The program is longer than memory.
    TooLong,
}

/// What an image holds: the program behind the marker, or why there is none.
/// The length is checked first, then the marker, then the program's size.
pub open spec fn program_of(image: Seq<u8>) -> Result<Seq<u8>, ImageError> {
    if image.len() < MAGIC_SIZE {
        Err(ImageError::TooShort)
    } else if image.subrange(0, MAGIC_SIZE as int) != magic() {
        Err(ImageError::BadMagic)
    } else if image.len() - MAGIC_SIZE > MEMORY_SIZE {
        Err(ImageError::TooLong)
    } else {
        Ok(image.skip(MAGIC_SIZE as int))
    }
}

/// Checks an image and hands out the program behind its marker.
pub fn program(image: &[u8]) -> (r: Result<&[u8], ImageError>)
    ensures
        match r {
            Ok(bytes) => program_of(image@) == Ok::<Seq<u8>, ImageError>(bytes@),
            Err(e) => program_of(image@) == Err::<Seq<u8>, ImageError>(e),
        },
{
    if image.len() < MAGIC_SIZE {
        return Err(ImageError::TooShort);
    }
    let ghost head = image@.subrange(0, MAGIC_SIZE as int);
    if image[0] != 0xDE || image[1] != 0xAD || image[2] != 0xBE || image[3] != 0xEF {
        return Err(ImageError::BadMagic);
    }
    assert(head =~= magic());
    if image.len() - MAGIC_SIZE > MEMORY_SIZE {
        return Err(ImageError::TooLong);
    }
    let bytes: &[u8] = slice_subrange(image, MAGIC_SIZE, image.len());
    Ok(bytes)
}

/// Makes a machine with the program of an image in its memory.
pub fn boot(image: &[u8]) -> (r: Result<Machine, ImageError>)
    ensures
        match r {
            Ok(machine) => match program_of(image@) {
                Ok(bytes) => machine@ == (MachineState {
                    ram: MachineState::initial().ram_loaded(bytes),
                    boundary: bytes.len() as int,
                    ..MachineState::initial()
                }),
                Err(_) => false,
            },
            Err(e) => program_of(image@) == Err::<Seq<u8>, ImageError>(e),
        },
{
    match program(image) {
        Ok(bytes) => {
            let mut machine: Machine = Machine::new();
            machine.load_bytes(bytes);
            Ok(machine)
        },
        Err(e) => Err(e),
    }
}

} // verus!
