use vstd::prelude::*;

use crate::address::{bytes_eq, derive_record_address, find_pda, Address};
use crate::codec::{
    copy_range, decode, encode, lemma_encode_decode_padded, spec_decode, spec_encode,
};
use crate::error::RecordError;
use crate::instruction::{spec_unpack, Instruction};
use crate::state::{spec_encoded_len, Record, RecordModel, STORAGE_CAPACITY};

verus! {

/// The authority on whose behalf an invocation runs: its identity and
/// whether it carries a transaction-level signature.
#[derive(Clone, Debug)]
pub struct AuthorityAccount {
    pub identity: Address,
    pub is_signer: bool,
}

impl AuthorityAccount {
    pub open spec fn wf(self) -> bool {
        self.identity.wf()
    }
}

/// The storage object an invocation targets: its address, the program that
/// owns it, and its current bytes.  For a creation the object does not exist
/// yet, and only the address is consulted.
#[derive(Clone, Debug)]
pub struct StorageAccount {
    pub address: Address,
    pub owner: Address,
    pub data: Vec<u8>,
}

impl StorageAccount {
    pub open spec fn wf(self) -> bool {
        self.address.wf() && self.owner.wf()
    }
}

/// What the hosting environment must do to create a record: allocate a
/// storage object of `space` bytes at the target address, funded to stay
/// persistent, authorized by the disambiguator `bump` as proof of
/// derivation, and then copy `data` into its first bytes.
#[derive(Clone, Debug)]
pub struct CreatePlan {
    pub space: u64,
    pub bump: u8,
    pub data: Vec<u8>,
}

/// The single mutation a successful invocation asks of the hosting
/// environment: create a storage object, or overwrite the bytes of the
/// targeted one.
#[derive(Clone, Debug)]
pub enum Effect {
    Create(CreatePlan),
    Update(Vec<u8>),
}

/// Outcome of the create path.  The checks run in order: the authority must
/// sign; the target must equal the address derived from the authority and
/// the requested name; the encoded record must fit the fixed capacity.  On
/// success the result carries the bytes to write and the disambiguator.
pub open spec fn spec_add(
    program: Seq<u8>,
    authority: Seq<u8>,
    signer: bool,
    target: Seq<u8>,
    name: Seq<u8>,
    message: Seq<u8>,
) -> Result<(Seq<u8>, u8), RecordError> {
    if !signer {
        Err(RecordError::MissingSignature)
    } else if find_pda(authority, name, program).0 != target {
        Err(RecordError::InvalidPda)
    } else if 9 + name.len() as int + message.len() as int > STORAGE_CAPACITY as int {
        Err(RecordError::InvalidDataLength)
    } else {
        Ok(
            (
                spec_encode(RecordModel { initialized: true, name, message }),
                find_pda(authority, name, program).1,
            ),
        )
    }
}

/// Outcome of the update path.  The checks run in order: the storage must be
/// owned by the program; the authority must sign; the address must equal the
/// one derived from the authority and the name currently stored in the
/// record, anchoring the update to the original record rather than to the
/// new payload; the record must be initialized; the size check then follows
/// the stored name's length, not the new name's, so only the final capacity
/// test stops an overlong new name from being persisted.  On success the
/// result is the full new contents of the storage: the re-encoded record,
/// followed by whatever bytes already stood past it.
pub open spec fn spec_update(
    program: Seq<u8>,
    owner: Seq<u8>,
    authority: Seq<u8>,
    signer: bool,
    target: Seq<u8>,
    data: Seq<u8>,
    name: Seq<u8>,
    message: Seq<u8>,
) -> Result<Seq<u8>, RecordError> {
    if owner != program {
        Err(RecordError::IllegalOwner)
    } else if !signer {
        Err(RecordError::MissingSignature)
    } else {
        let old_rec = spec_decode(data)->Some_0;
        if find_pda(authority, old_rec.name, program).0 != target {
            Err(RecordError::InvalidPda)
        } else if !old_rec.initialized {
            Err(RecordError::UninitializedAccount)
        } else if 9 + old_rec.name.len() as int + message.len() as int > STORAGE_CAPACITY as int {
            Err(RecordError::InvalidDataLength)
        } else {
            let new_rec = RecordModel { initialized: true, name, message };
            if spec_encoded_len(new_rec) > data.len() as int {
                Err(RecordError::InvalidDataLength)
            } else {
                Ok(spec_encode(new_rec) + data.skip(spec_encoded_len(new_rec)))
            }
        }
    }
}

/// Validate a creation and produce the plan the hosting environment must
/// run.  This function mutates nothing: a failed check aborts with the first
/// violated precondition's error and yields no plan at all.
pub fn add_student_intro(
    program_id: &Address,
    authority: &AuthorityAccount,
    target: &Address,
    name: &Vec<u8>,
    message: &Vec<u8>,
) -> (r: Result<CreatePlan, RecordError>)
    requires
        program_id.wf(),
        authority.wf(),
        target.wf(),
        authority.is_signer ==> name@.len() <= 32,
    ensures
        ({
            let s = spec_add(
                program_id@,
                authority.identity@,
                authority.is_signer,
                target@,
                name@,
                message@,
            );
            match s {
                Result::Err(e) => r matches Err(e2) && e2 == e,
                Result::Ok(p) => r matches Ok(plan) && plan.data@ == p.0 && plan.bump == p.1
                    && plan.space == STORAGE_CAPACITY as u64,
            }
        }),
{
    if !authority.is_signer {
        return Err(RecordError::MissingSignature);
    }
    let (pda, bump) = derive_record_address(&authority.identity, name, program_id);
    if !bytes_eq(&pda.bytes, &target.bytes) {
        return Err(RecordError::InvalidPda);
    }
    if name.len() > STORAGE_CAPACITY - 9 || message.len() > STORAGE_CAPACITY - 9 - name.len() {
        return Err(RecordError::InvalidDataLength);
    }
    let record = Record {
        initialized: true,
        name: copy_range(name, 0, name.len()),
        message: copy_range(message, 0, message.len()),
    };
    let data = encode(&record);
    Ok(CreatePlan { space: STORAGE_CAPACITY as u64, bump, data })
}

/// Validate an update and produce the full new contents of the storage.
/// This function mutates nothing: a failed check aborts with the first
/// violated precondition's error, and the stored bytes are then unchanged.
pub fn update_student_intro(
    program_id: &Address,
    authority: &AuthorityAccount,
    storage: &StorageAccount,
    name: &Vec<u8>,
    message: &Vec<u8>,
) -> (r: Result<Vec<u8>, RecordError>)
    requires
        program_id.wf(),
        authority.wf(),
        storage.wf(),
        storage.data@.len() <= STORAGE_CAPACITY,
        (storage.owner@ == program_id@ && authority.is_signer) ==> (spec_decode(storage.data@)
            matches Some(old_rec) && old_rec.name.len() <= 32),
    ensures
        ({
            let s = spec_update(
                program_id@,
                storage.owner@,
                authority.identity@,
                authority.is_signer,
                storage.address@,
                storage.data@,
                name@,
                message@,
            );
            match s {
                Result::Err(e) => r matches Err(e2) && e2 == e,
                Result::Ok(d) => r matches Ok(nd) && nd@ == d,
            }
        }),
{
    if !bytes_eq(&storage.owner.bytes, &program_id.bytes) {
        return Err(RecordError::IllegalOwner);
    }
    if !authority.is_signer {
        return Err(RecordError::MissingSignature);
    }
    let old_rec = decode(&storage.data).unwrap();
    let (pda, _bump) = derive_record_address(&authority.identity, &old_rec.name, program_id);
    if !bytes_eq(&pda.bytes, &storage.address.bytes) {
        return Err(RecordError::InvalidPda);
    }
    if !old_rec.initialized {
        return Err(RecordError::UninitializedAccount);
    }
    proof {
        assert(old_rec.name@.len() + 9 <= storage.data@.len());
    }
    if old_rec.name.len() > STORAGE_CAPACITY - 9 || message.len() > STORAGE_CAPACITY - 9
        - old_rec.name.len() {
        return Err(RecordError::InvalidDataLength);
    }
    let cap = storage.data.len();
    if name.len() > cap - 9 || message.len() > cap - 9 - name.len() {
        return Err(RecordError::InvalidDataLength);
    }
    let new_rec = Record {
        initialized: true,
        name: copy_range(name, 0, name.len()),
        message: copy_range(message, 0, message.len()),
    };
    let mut out = encode(&new_rec);
    let mut suffix = copy_range(&storage.data, out.len(), storage.data.len());
    out.append(&mut suffix);
    proof {
        assert(out@ =~= spec_encode(new_rec.model()) + storage.data@.skip(
            spec_encoded_len(new_rec.model()),
        ));
    }
    Ok(out)
}

/// Decode the instruction bytes and route them to the create or update path.
/// Fails with `InvalidInstruction` when the bytes are malformed; otherwise
/// behaves exactly as the selected path does.
pub fn process_instruction(
    program_id: &Address,
    authority: &AuthorityAccount,
    storage: &StorageAccount,
    instruction_data: &Vec<u8>,
) -> (r: Result<Effect, RecordError>)
    requires
        program_id.wf(),
        authority.wf(),
        storage.wf(),
        storage.data@.len() <= STORAGE_CAPACITY,
        ({
            let u = spec_unpack(instruction_data@);
            &&& (u is Some && !u->Some_0.update && authority.is_signer) ==> u->Some_0.name.len()
                <= 32
            &&& (u is Some && u->Some_0.update && storage.owner@ == program_id@
                && authority.is_signer) ==> (spec_decode(storage.data@) matches Some(old_rec)
                && old_rec.name.len() <= 32)
        }),
    ensures
        ({
            match spec_unpack(instruction_data@) {
                Option::None => r matches Err(e) && e == RecordError::InvalidInstruction,
                Option::Some(inst) => if !inst.update {
                    match spec_add(
                        program_id@,
                        authority.identity@,
                        authority.is_signer,
                        storage.address@,
                        inst.name,
                        inst.message,
                    ) {
                        Result::Err(e) => r matches Err(e2) && e2 == e,
                        Result::Ok(p) => r matches Ok(eff) && (eff matches Effect::Create(plan)
                            && plan.data@ == p.0 && plan.bump == p.1 && plan.space
                            == STORAGE_CAPACITY as u64),
                    }
                } else {
                    match spec_update(
                        program_id@,
                        storage.owner@,
                        authority.identity@,
                        authority.is_signer,
                        storage.address@,
                        storage.data@,
                        inst.name,
                        inst.message,
                    ) {
                        Result::Err(e) => r matches Err(e2) && e2 == e,
                        Result::Ok(d) => r matches Ok(eff) && (eff matches Effect::Update(nd)
                            && nd@ == d),
                    }
                },
            }
        }),
{
    let inst = match Instruction::unpack(instruction_data) {
        Ok(inst) => inst,
        Err(e) => {
            return Err(e);
        },
    };
    match inst {
        Instruction::AddRecord { name, message } => {
            match add_student_intro(program_id, authority, &storage.address, &name, &message) {
                Ok(plan) => Ok(Effect::Create(plan)),
                Err(e) => Err(e),
            }
        },
        Instruction::UpdateRecord { name, message } => {
            match update_student_intro(program_id, authority, storage, &name, &message) {
                Ok(data) => Ok(Effect::Update(data)),
                Err(e) => Err(e),
            }
        },
    }
}

/// An invocation whose authority lacks a signature fails with
/// `MissingSignature` before any other check runs: unconditionally on the
/// create path, and as soon as the owner check is satisfied on the update
/// path, whatever the rest of the input holds.
pub proof fn lemma_missing_signature(
    program: Seq<u8>,
    owner: Seq<u8>,
    authority: Seq<u8>,
    target: Seq<u8>,
    data: Seq<u8>,
    name: Seq<u8>,
    message: Seq<u8>,
)
    ensures
        spec_add(program, authority, false, target, name, message) == Err::<
            (Seq<u8>, u8),
            RecordError,
        >(RecordError::MissingSignature),
        owner == program ==> spec_update(program, owner, authority, false, target, data, name, message)
            == Err::<Seq<u8>, RecordError>(RecordError::MissingSignature),
{
}

/// A pair whose encoded size exceeds the fixed capacity is rejected with
/// `InvalidDataLength` once the signature and derived-address checks pass,
/// and the create path then yields no bytes to store at all.
pub proof fn lemma_add_size_rejected(
    program: Seq<u8>,
    authority: Seq<u8>,
    target: Seq<u8>,
    name: Seq<u8>,
    message: Seq<u8>,
)
    requires
        find_pda(authority, name, program).0 == target,
        9 + name.len() as int + message.len() as int > STORAGE_CAPACITY as int,
    ensures
        spec_add(program, authority, true, target, name, message) == Err::<
            (Seq<u8>, u8),
            RecordError,
        >(RecordError::InvalidDataLength),
{
}

/// Updating storage that was never written — its bytes decode to an
/// uninitialized record — fails with `UninitializedAccount`.
pub proof fn lemma_update_uninitialized(
    program: Seq<u8>,
    authority: Seq<u8>,
    target: Seq<u8>,
    data: Seq<u8>,
    name: Seq<u8>,
    message: Seq<u8>,
)
    requires
        spec_decode(data) matches Some(old_rec) && !old_rec.initialized && find_pda(
            authority,
            old_rec.name,
            program,
        ).0 == target,
    ensures
        spec_update(program, program, authority, true, target, data, name, message) == Err::<
            Seq<u8>,
            RecordError,
        >(RecordError::UninitializedAccount),
{
}

/// An authority whose derived address differs from the record's storage
/// address cannot touch it: the update fails with `InvalidPda` and the
/// stored bytes stay as they are.
pub proof fn lemma_update_wrong_authority(
    program: Seq<u8>,
    authority: Seq<u8>,
    target: Seq<u8>,
    data: Seq<u8>,
    name: Seq<u8>,
    message: Seq<u8>,
)
    requires
        spec_decode(data) matches Some(old_rec) && find_pda(authority, old_rec.name, program).0
            != target,
    ensures
        spec_update(program, program, authority, true, target, data, name, message) == Err::<
            Seq<u8>,
            RecordError,
        >(RecordError::InvalidPda),
{
}

/// Create then read: the bytes a successful creation writes decode, under
/// whatever padding fills the rest of the storage, to exactly the
/// initialized record that was requested.
pub proof fn lemma_create_then_read(
    program: Seq<u8>,
    authority: Seq<u8>,
    target: Seq<u8>,
    name: Seq<u8>,
    message: Seq<u8>,
    pad: Seq<u8>,
)
    requires
        spec_add(program, authority, true, target, name, message) is Ok,
    ensures
        spec_decode((spec_add(program, authority, true, target, name, message)->Ok_0).0 + pad)
            == Some(RecordModel { initialized: true, name, message }),
{
    lemma_encode_decode_padded(RecordModel { initialized: true, name, message }, pad);
}

/// Applying the identical update twice is idempotent: once an update has
/// produced the stored bytes `d1`, repeating it with the same name and
/// message either returns exactly `d1` again, or is rejected and leaves the
/// bytes alone.  The repetition is guaranteed to be accepted when the
/// address derived from the new name still matches the storage and the pair
/// fits the capacity.
#[verifier::rlimit(100)]
pub proof fn lemma_update_idempotent(
    program: Seq<u8>,
    owner: Seq<u8>,
    authority: Seq<u8>,
    target: Seq<u8>,
    data: Seq<u8>,
    name: Seq<u8>,
    message: Seq<u8>,
    d1: Seq<u8>,
)
    requires
        data.len() <= STORAGE_CAPACITY as int,
        spec_update(program, owner, authority, true, target, data, name, message) == Ok::<
            Seq<u8>,
            RecordError,
        >(d1),
    ensures
        spec_update(program, owner, authority, true, target, d1, name, message) is Ok
            ==> spec_update(program, owner, authority, true, target, d1, name, message) == Ok::<
            Seq<u8>,
            RecordError,
        >(d1),
        (find_pda(authority, name, program).0 == target && 9 + name.len() as int
            + message.len() as int <= STORAGE_CAPACITY as int) ==> spec_update(
            program,
            owner,
            authority,
            true,
            target,
            d1,
            name,
            message,
        ) == Ok::<Seq<u8>, RecordError>(d1),
{
    let new_rec = RecordModel { initialized: true, name, message };
    let el = spec_encoded_len(new_rec);
    let enc = spec_encode(new_rec);
    let suffix = data.skip(el);
    assert(owner == program);
    assert(el <= data.len());
    assert(d1 == enc + suffix);
    assert(enc.len() == el);
    lemma_encode_decode_padded(new_rec, suffix);
    assert(spec_decode(d1) == Some(new_rec));
    assert(d1.len() == data.len());
    assert(d1.skip(el) =~= suffix);
    let second = spec_update(program, owner, authority, true, target, d1, name, message);
    if find_pda(authority, name, program).0 == target && 9 + name.len() as int
        + message.len() as int <= STORAGE_CAPACITY as int {
        assert(second == Ok::<Seq<u8>, RecordError>(enc + d1.skip(el)));
        assert(enc + d1.skip(el) == d1);
    }
    if second is Ok {
        assert(second->Ok_0 == enc + d1.skip(el));
        assert(enc + d1.skip(el) == d1);
    }
}

} // verus!
