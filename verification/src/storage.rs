//! Where a value is kept between two runs.

use std::marker::PhantomData;
use std::path::PathBuf;
use vstd::prelude::*;

verus! {

/// `std::path::PathBuf`, which a storage carries and never looks into.
#[verifier::external_type_specification]
#[verifier::external_body]
pub struct ExPathBuf(PathBuf);

/// The place of a file that holds a value of type `T`, or no place at all:
/// then nothing is kept. The type is part of the place, so that what is
/// saved at a place is loaded from it at the same type.
pub struct Storage<T> {
    path: Option<PathBuf>,
    _phantom: PhantomData<T>,
}

impl<T> Storage<T> {
    /// The place that the storage stands for.
    pub closed spec fn place(&self) -> Option<PathBuf> {
        self.path
    }

    /// A storage at `path`; with `None`, one that keeps nothing.
    pub fn new(path: Option<PathBuf>) -> (r: Storage<T>)
        ensures
            r.place() == path,
    {
        Storage { path, _phantom: PhantomData }
    }

    /// The path of the file, where the storage keeps anything.
    pub fn path(&self) -> (r: Option<&PathBuf>)
        ensures
            match r {
                Some(p) => self.place() == Some(*p),
                None => self.place() is None,
            },
    {
        match &self.path {
            Some(p) => Some(p),
            None => None,
        }
    }
}

/// The name of the file that keeps the snapshot of the drive `drive_id`:
/// `drive`, the number of the format, `_`, the id of the drive and `.cbor`.
/// The number changes with the format of the file, so that a file in
/// another format is never read.
pub open spec fn cache_name(drive_id: Seq<char>) -> Seq<char> {
    "drive3_"@ + drive_id + ".cbor"@
}

/// Builds the name of the file that keeps the snapshot of a drive.
pub fn cache_filename(drive_id: &str) -> (r: String)
    ensures
        r@ == cache_name(drive_id@),
{
    let mut name = String::from_str("drive3_");
    name.append(drive_id);
    name.append(".cbor");
    name
}

} // verus!
