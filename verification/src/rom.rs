//! Loading a ROM: the path has to be put into the form that the engine
//! reads, and the engine's verdict on the image has to reach the user.

use crate::sameboy::SameBoy;
use vstd::prelude::*;

verus! {

/// Why a ROM was not loaded.
#[derive(Debug, Clone, Copy, PartialEq, Eq, Structural)]
pub enum LoadRomError {
    /// The path cannot be written as text that ends with a zero byte,
    /// because it has a zero byte in it.
    PathNotRepresentable,
    /// The engine read the file and turned it down, with this status.
    Rejected { status: i32 },
}

/// The path as the engine reads it: the bytes of the path and a zero byte
/// after them. A path with a zero byte in it has no such form.
pub open spec fn engine_path(path: Seq<u8>) -> Result<Seq<u8>, LoadRomError> {
    if path.contains(0u8) {
        Err(LoadRomError::PathNotRepresentable)
    } else {
        Ok(path.push(0u8))
    }
}

/// What the engine's status says of a load: zero is success.
pub open spec fn load_outcome(status: i32) -> Result<(), LoadRomError> {
    if status == 0 {
        Ok(())
    } else {
        Err(LoadRomError::Rejected { status })
    }
}

/// The bytes of a result that holds a buffer.
pub open spec fn path_bytes(encoded: Result<Vec<u8>, LoadRomError>) -> Result<
    Seq<u8>,
    LoadRomError,
> {
    match encoded {
        Ok(bytes) => Ok(bytes@),
        Err(error) => Err(error),
    }
}

impl SameBoy {
    /// The first half of loading a ROM: the path in the form in which the
    /// engine reads it, or the reason why it has none. The worker hands the
    /// path to the engine and reads the status that comes back with
    /// `rom_loaded`.
    pub fn load_rom(&mut self, path: &[u8]) -> (encoded: Result<Vec<u8>, LoadRomError>)
        ensures
            path_bytes(encoded) == engine_path(path@),
            final(self)@ == old(self)@,
    {
        let mut bytes: Vec<u8> = Vec::new();
        let mut i: usize = 0;
        while i < path.len()
            invariant
                i <= path.len(),
                bytes@ == path@.take(i as int),
                forall|j: int| 0 <= j < i ==> path@[j] != 0u8,
            decreases path.len() - i,
        {
            if path[i] == 0 {
                assert(path@.contains(0u8));
                return Err(LoadRomError::PathNotRepresentable);
            }
            bytes.push(path[i]);
            assert(path@.take(i + 1) =~= path@.take(i as int).push(path@[i as int]));
            i += 1;
        }
        assert(path@.take(i as int) =~= path@);
        bytes.push(0);
        Ok(bytes)
    }

    /// The second half of loading a ROM: what the engine's status says.
    pub fn rom_loaded(&mut self, status: i32) -> (outcome: Result<(), LoadRomError>)
        ensures
            outcome == load_outcome(status),
            final(self)@ == old(self)@,
    {
        if status == 0 {
            Ok(())
        } else {
            Err(LoadRomError::Rejected { status })
        }
    }
}

} // verus!
