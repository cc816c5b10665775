use vstd::prelude::*;

use crate::codec::{copy_range, read_le32, spec_le32_at};
use crate::error::RecordError;
use crate::utf8::{is_utf8, spec_is_utf8};

verus! {

/// Mathematical model of a decoded instruction: which of the two operations
/// it selects and the raw UTF-8 bytes of its name and message payload.
#[verifier::ext_equal]
pub ghost struct InstructionModel {
    pub update: bool,
    pub name: Seq<u8>,
    pub message: Seq<u8>,
}

/// A decoded instruction: add a new record or update an existing one.
#[derive(Clone, Debug, PartialEq, Eq)]
pub enum Instruction {
    AddRecord { name: Vec<u8>, message: Vec<u8> },
    UpdateRecord { name: Vec<u8>, message: Vec<u8> },
}

impl Instruction {
    /// The mathematical value of this instruction.
    pub open spec fn model(self) -> InstructionModel {
        match self {
            Instruction::AddRecord { name, message } => InstructionModel {
                update: false,
                name: name@,
                message: message@,
            },
            Instruction::UpdateRecord { name, message } => InstructionModel {
                update: true,
                name: name@,
                message: message@,
            },
        }
    }
}

/// Wire format of an instruction: byte 0 is the opcode (0 adds a record, 1
/// updates one); the rest is exactly a name and a message, each prefixed by
/// its 4-byte little-endian length and holding valid UTF-8.  `None` means
/// the opcode is unrecognized or the payload is truncated, followed by stray
/// bytes, or not valid UTF-8 where a string is expected.
pub open spec fn spec_unpack(b: Seq<u8>) -> Option<InstructionModel> {
    if b.len() < 9 {
        None
    } else if b[0] != 0 && b[0] != 1 {
        None
    } else {
        let l1 = spec_le32_at(b, 1);
        if b.len() < 9 + l1 {
            None
        } else {
            let l2 = spec_le32_at(b, 5 + l1);
            if b.len() != 9 + l1 + l2 {
                None
            } else {
                let name = b.subrange(5, 5 + l1);
                let message = b.subrange(9 + l1, 9 + l1 + l2);
                if !spec_is_utf8(name) || !spec_is_utf8(message) {
                    None
                } else {
                    Some(InstructionModel { update: b[0] == 1, name, message })
                }
            }
        }
    }
}

impl Instruction {
    /// Parse raw instruction bytes.  Fails with `InvalidInstruction` exactly
    /// when the bytes are not the wire format above; parsing has no side
    /// effects and never panics.
    pub fn unpack(data: &Vec<u8>) -> (r: Result<Instruction, RecordError>)
        ensures
            r matches Ok(inst) ==> spec_unpack(data@) == Some(inst.model()),
            r is Err <==> spec_unpack(data@) is None,
            r matches Err(e) ==> e == RecordError::InvalidInstruction,
    {
        if data.len() < 9 {
            return Err(RecordError::InvalidInstruction);
        }
        let opcode = data[0];
        if opcode != 0 && opcode != 1 {
            return Err(RecordError::InvalidInstruction);
        }
        let l1 = read_le32(data, 1);
        if (data.len() as u64) < 9 + l1 {
            return Err(RecordError::InvalidInstruction);
        }
        let l1s = l1 as usize;
        let l2 = read_le32(data, 5 + l1s);
        if (data.len() as u64) != 9 + l1 + l2 {
            return Err(RecordError::InvalidInstruction);
        }
        let l2s = l2 as usize;
        let name = copy_range(data, 5, 5 + l1s);
        let message = copy_range(data, 9 + l1s, 9 + l1s + l2s);
        if !is_utf8(&name) || !is_utf8(&message) {
            return Err(RecordError::InvalidInstruction);
        }
        let inst = if opcode == 1 {
            Instruction::UpdateRecord { name, message }
        } else {
            Instruction::AddRecord { name, message }
        };
        proof {
            assert(spec_unpack(data@) == Some(inst.model()));
        }
        Ok(inst)
    }
}

} // verus!
