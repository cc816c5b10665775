use vstd::prelude::*;

verus! {

/// A 32-byte value: an identity that can sign transactions, the processing
/// program's own identity, or a derived storage address.
#[derive(Clone, Debug, PartialEq, Eq)]
pub struct Address {
    pub bytes: Vec<u8>,
}

impl View for Address {
    type V = Seq<u8>;

    open spec fn view(&self) -> Seq<u8> {
        self.bytes@
    }
}

impl Address {
    /// A well-formed address holds exactly 32 bytes.
    pub open spec fn wf(self) -> bool {
        self.bytes@.len() == 32
    }

    /// Wrap raw bytes as an address; rejects any length other than 32.
    pub fn new(bytes: Vec<u8>) -> (r: Option<Address>)
        ensures
            bytes@.len() == 32 ==> (r matches Some(a) && a@ == bytes@ && a.wf()),
            bytes@.len() != 32 ==> r is None,
    {
        if bytes.len() == 32 {
            Some(Address { bytes })
        } else {
            None
        }
    }
}

/// Byte-for-byte equality of two byte vectors.
pub fn bytes_eq(a: &Vec<u8>, b: &Vec<u8>) -> (r: bool)
    ensures
        r == (a@ == b@),
{
    if a.len() != b.len() {
        return false;
    }
    let mut i: usize = 0;
    while i < a.len()
        invariant
            i <= a.len(),
            a@.len() == b@.len(),
            forall|j: int| 0 <= j < i ==> a@[j] == b@[j],
        decreases a.len() - i,
    {
        if a[i] != b[i] {
            return false;
        }
        i = i + 1;
    }
    proof {
        assert(a@ =~= b@);
    }
    true
}

/// The address and disambiguator byte that the hosting environment derives
/// from the seeds `(authority, name)` under a given program identity.  The
/// result is a deterministic function of those arguments alone.
pub uninterp spec fn find_pda(authority: Seq<u8>, name: Seq<u8>, program: Seq<u8>) -> (Seq<u8>, u8);

/// Relies on `solana_program::pubkey::Pubkey::find_program_address` with the
/// seeds `[authority, name]`: the derived address and bump seed are computed
/// by hashing the seeds and the program id alone, so the result is a
/// deterministic 32-byte function of the arguments; the derived address is
/// guaranteed to lie off the ed25519 curve, so no signing key can exist for
/// it.  A seed longer than 32 bytes makes the call panic, so such seeds are
/// excluded here; the call also panics in the statistically improbable event
/// that no bump seed yields an off-curve address.
#[verifier::external_body]
fn solana_find_program_address(authority: &Vec<u8>, name: &Vec<u8>, program: &Vec<u8>) -> (r: (
    Vec<u8>,
    u8,
))
    requires
        authority@.len() == 32,
        program@.len() == 32,
        name@.len() <= 32,
    ensures
        (r.0@, r.1) == find_pda(authority@, name@, program@),
        r.0@.len() == 32,
{
    let program_id = solana_program::pubkey::Pubkey::try_from(program.as_slice()).unwrap();
    let (pda, bump) = solana_program::pubkey::Pubkey::find_program_address(
        &[authority.as_slice(), name.as_slice()],
        &program_id,
    );
    (pda.to_bytes().to_vec(), bump)
}

/// Derive the storage address and disambiguator for `(authority, name)` under
/// `program_id`.  The result depends on the arguments alone, so two calls on
/// identical inputs return identical values.
pub fn derive_record_address(authority: &Address, name: &Vec<u8>, program_id: &Address) -> (r: (
    Address,
    u8,
))
    requires
        authority.wf(),
        program_id.wf(),
        name@.len() <= 32,
    ensures
        r.0.wf(),
        (r.0@, r.1) == find_pda(authority@, name@, program_id@),
{
    let (bytes, bump) = solana_find_program_address(&authority.bytes, name, &program_id.bytes);
    (Address { bytes }, bump)
}

} // verus!
