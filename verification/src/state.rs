use vstd::prelude::*;

verus! {

/// Fixed capacity of a record's storage object, in bytes.  An encoded record
/// must always fit below this bound; the remainder of the buffer is padding.
pub const STORAGE_CAPACITY: usize = 1000;

/// Mathematical model of a record: the initialized flag and the raw UTF-8
/// bytes of the name and the message.
#[verifier::ext_equal]
pub ghost struct RecordModel {
    pub initialized: bool,
    pub name: Seq<u8>,
    pub message: Seq<u8>,
}

/// Number of bytes the fixed binary layout spends on a record: one flag byte
/// and two byte strings, each prefixed by a 4-byte little-endian length.
pub open spec fn spec_encoded_len(m: RecordModel) -> int {
    9 + m.name.len() as int + m.message.len() as int
}

/// A per-identity record.  `name` and `message` hold UTF-8 bytes; the codec
/// never interprets them.  A record is either absent (no storage object) or
/// present with `initialized == true`; an all-zero buffer decodes to
/// `initialized == false`.
#[derive(Clone, Debug, PartialEq, Eq)]
pub struct Record {
    pub initialized: bool,
    pub name: Vec<u8>,
    pub message: Vec<u8>,
}

impl Record {
    /// The mathematical value of this record.
    pub open spec fn model(self) -> RecordModel {
        RecordModel {
            initialized: self.initialized,
            name: self.name@,
            message: self.message@,
        }
    }
}

} // verus!
