//! Where the accounts of a round live.
//!
//! The address of an account is derived from the program and from what the
//! account is about, so that anyone can tell which account is the right one.
use vstd::prelude::*;
use crate::key::Pubkey;
use crate::state::Round;

verus! {

/// The bytes of the address of the program.
pub open spec fn program_id() -> Seq<u8> {
    seq![
        5u8, 62, 255, 13, 201, 31, 200, 182, 221, 233, 23, 168, 225, 69, 118, 250,
        26, 209, 10, 133, 179, 170, 53, 80, 133, 223, 121, 191, 195, 4, 175, 149,
    ]
}

/// Returns the address of the program.
pub fn id() -> (r: Pubkey)
    ensures
        r@ == program_id(),
        r.bytes@ == seq![
            5u8, 62, 255, 13, 201, 31, 200, 182, 221, 233, 23, 168, 225, 69, 118, 250,
            26, 209, 10, 133, 179, 170, 53, 80, 133, 223, 121, 191, 195, 4, 175, 149,
        ],
{
    Pubkey {
        bytes: [
            5, 62, 255, 13, 201, 31, 200, 182, 221, 233, 23, 168, 225, 69, 118, 250,
            26, 209, 10, 133, 179, 170, 53, 80, 133, 223, 121, 191, 195, 4, 175, 149,
        ],
    }
}

/// What `Pubkey::try_find_program_address` of the Solana SDK finds for three
/// seeds and a program: the address, or `None` where there is none.
pub uninterp spec fn program_address(
    kind: Seq<u8>,
    first: Seq<u8>,
    second: Seq<u8>,
    program: Seq<u8>,
) -> Option<Seq<u8>>;

/// Calls `Pubkey::try_find_program_address` of the Solana SDK (as re-exported
/// by `anchor_lang`) and drops the bump seed. Trusted: the call is a function
/// of the bytes of the seeds and of the program alone, named
/// [`program_address`]. It hashes the seeds, so nothing else is said of which
/// address comes out. It returns `None`, and does not panic, where no bump seed
/// gives an address or where a seed is too long.
#[verifier::external_body]
fn find_address(kind: &[u8], first: &[u8], second: &[u8], program: &Pubkey) -> (r: Option<Pubkey>)
    ensures
        match r {
            Some(k) => program_address(kind@, first@, second@, program@) == Some(k@),
            None => program_address(kind@, first@, second@, program@) is None,
        },
{
    let program = anchor_lang::prelude::Pubkey::new_from_array(program.bytes);
    anchor_lang::prelude::Pubkey::try_find_program_address(&[kind, first, second], &program).map(
        |found| Pubkey { bytes: found.0.to_bytes() },
    )
}

/// The bytes of `x`, the lowest first.
pub open spec fn le_bytes(x: u64) -> Seq<u8> {
    seq![
        (x % 0x100) as u8,
        (x / 0x100 % 0x100) as u8,
        (x / 0x1_0000 % 0x100) as u8,
        (x / 0x100_0000 % 0x100) as u8,
        (x / 0x1_0000_0000 % 0x100) as u8,
        (x / 0x100_0000_0000 % 0x100) as u8,
        (x / 0x1_0000_0000_0000 % 0x100) as u8,
        (x / 0x100_0000_0000_0000 % 0x100) as u8,
    ]
}

/// Returns the bytes of `x`, the lowest first.
fn u64_le_bytes(x: u64) -> (r: [u8; 8])
    ensures
        r@ == le_bytes(x),
        x == r[0] + r[1] * 0x100 + r[2] * 0x1_0000 + r[3] * 0x100_0000 + r[4] * 0x1_0000_0000
            + r[5] * 0x100_0000_0000 + r[6] * 0x1_0000_0000_0000 + r[7] * 0x100_0000_0000_0000,
{
    proof {
        law_bytes_make_up_the_number(x);
    }
    [
        (x % 0x100) as u8,
        (x / 0x100 % 0x100) as u8,
        (x / 0x1_0000 % 0x100) as u8,
        (x / 0x100_0000 % 0x100) as u8,
        (x / 0x1_0000_0000 % 0x100) as u8,
        (x / 0x100_0000_0000 % 0x100) as u8,
        (x / 0x1_0000_0000_0000 % 0x100) as u8,
        (x / 0x100_0000_0000_0000 % 0x100) as u8,
    ]
}

/// There are eight bytes, and each counts 256 times as much as the one before it.
pub proof fn law_bytes_make_up_the_number(x: u64)
    ensures
        ({
            let b = le_bytes(x);
            &&& b.len() == 8
            &&& x == b[0] + b[1] * 0x100 + b[2] * 0x1_0000 + b[3] * 0x100_0000 + b[4]
                * 0x1_0000_0000 + b[5] * 0x100_0000_0000 + b[6] * 0x1_0000_0000_0000 + b[7]
                * 0x100_0000_0000_0000
        }),
{
    let x1 = x / 0x100;
    let x2 = x1 / 0x100;
    let x3 = x2 / 0x100;
    let x4 = x3 / 0x100;
    let x5 = x4 / 0x100;
    let x6 = x5 / 0x100;
    let x7 = x6 / 0x100;
    assert(x / 0x1_0000 == x2);
    assert(x / 0x100_0000 == x3);
    assert(x / 0x1_0000_0000 == x4);
    assert(x / 0x100_0000_0000 == x5);
    assert(x / 0x1_0000_0000_0000 == x6);
    assert(x / 0x100_0000_0000_0000 == x7);
    assert(x7 / 0x100 == 0);
    let b = le_bytes(x);
    assert(b[7] == x7);
    assert(x6 == b[6] + b[7] * 0x100);
    assert(x5 == b[5] + x6 * 0x100);
    assert(x4 == b[4] + x5 * 0x100);
    assert(x3 == b[3] + x4 * 0x100);
    assert(x2 == b[2] + x3 * 0x100);
    assert(x1 == b[1] + x2 * 0x100);
    assert(x == b[0] + x1 * 0x100);
}

/// Different numbers have different bytes, so one creator can start a round
/// under each number.
pub proof fn law_round_ids_have_distinct_bytes(x: u64, y: u64)
    requires
        le_bytes(x) == le_bytes(y),
    ensures
        x == y,
{
    let (a, b) = (le_bytes(x), le_bytes(y));
    assert(a[0] == b[0] && a[1] == b[1] && a[2] == b[2] && a[3] == b[3]);
    assert(a[4] == b[4] && a[5] == b[5] && a[6] == b[6] && a[7] == b[7]);
    assert(x == y) by (bit_vector)
        requires
            x % 0x100u64 == y % 0x100u64,
            (x / 0x100u64) % 0x100u64 == (y / 0x100u64) % 0x100u64,
            (x / 0x1_0000u64) % 0x100u64 == (y / 0x1_0000u64) % 0x100u64,
            (x / 0x100_0000u64) % 0x100u64 == (y / 0x100_0000u64) % 0x100u64,
            (x / 0x1_0000_0000u64) % 0x100u64 == (y / 0x1_0000_0000u64) % 0x100u64,
            (x / 0x100_0000_0000u64) % 0x100u64 == (y / 0x100_0000_0000u64) % 0x100u64,
            (x / 0x1_0000_0000_0000u64) % 0x100u64 == (y / 0x1_0000_0000_0000u64) % 0x100u64,
            (x / 0x100_0000_0000_0000u64) % 0x100u64 == (y / 0x100_0000_0000_0000u64) % 0x100u64,
    ;
}

/// `b"round"`
pub open spec fn round_seed() -> Seq<u8> {
    seq![0x72u8, 0x6f, 0x75, 0x6e, 0x64]
}

/// `b"project"`
pub open spec fn project_seed() -> Seq<u8> {
    seq![0x70u8, 0x72, 0x6f, 0x6a, 0x65, 0x63, 0x74]
}

/// `b"contribution"`
pub open spec fn contribution_seed() -> Seq<u8> {
    seq![0x63u8, 0x6f, 0x6e, 0x74, 0x72, 0x69, 0x62, 0x75, 0x74, 0x69, 0x6f, 0x6e]
}

/// `address` is what was found under the name `found`.
pub open spec fn is_found(address: Option<Pubkey>, found: Option<Seq<u8>>) -> bool {
    match address {
        Some(k) => found == Some(k@),
        None => found is None,
    }
}

/// The address of the round that `creator` started under `round_id`.
pub open spec fn round_address(creator: Pubkey, round_id: u64) -> Option<Seq<u8>> {
    program_address(round_seed(), creator@, le_bytes(round_id), program_id())
}

/// The address of the project of `owner` in `round`.
pub open spec fn project_address(round: Pubkey, owner: Pubkey) -> Option<Seq<u8>> {
    program_address(project_seed(), round@, owner@, program_id())
}

/// The address of what `donor` has given to `project`.
pub open spec fn contribution_address(project: Pubkey, donor: Pubkey) -> Option<Seq<u8>> {
    program_address(contribution_seed(), project@, donor@, program_id())
}

/// Returns the address of the round that `creator` started under `round_id`,
/// or `None` where there is no such address.
pub fn round_pda(creator: &Pubkey, round_id: u64) -> (r: Option<Pubkey>)
    ensures
        is_found(r, round_address(*creator, round_id)),
        r is Some <==> round_address(*creator, round_id) is Some,
        r is Some ==> round_address(*creator, round_id) == Some(r->0.bytes@),
{
    let kind: [u8; 5] = [0x72, 0x6f, 0x75, 0x6e, 0x64];
    let number = u64_le_bytes(round_id);
    assert(kind@ =~= round_seed());
    find_address(kind.as_slice(), creator.bytes.as_slice(), number.as_slice(), &id())
}

/// Returns the address of the project of `owner` in `round`, or `None` where
/// there is no such address.
pub fn project_pda(round: &Pubkey, owner: &Pubkey) -> (r: Option<Pubkey>)
    ensures
        is_found(r, project_address(*round, *owner)),
        r is Some <==> project_address(*round, *owner) is Some,
        r is Some ==> project_address(*round, *owner) == Some(r->0.bytes@),
{
    let kind: [u8; 7] = [0x70, 0x72, 0x6f, 0x6a, 0x65, 0x63, 0x74];
    assert(kind@ =~= project_seed());
    find_address(kind.as_slice(), round.bytes.as_slice(), owner.bytes.as_slice(), &id())
}

/// Returns the address of what `donor` has given to `project`, or `None` where
/// there is no such address.
pub fn contribution_pda(project: &Pubkey, donor: &Pubkey) -> (r: Option<Pubkey>)
    ensures
        is_found(r, contribution_address(*project, *donor)),
        r is Some <==> contribution_address(*project, *donor) is Some,
        r is Some ==> contribution_address(*project, *donor) == Some(r->0.bytes@),
{
    let kind: [u8; 12] = [
        0x63, 0x6f, 0x6e, 0x74, 0x72, 0x69, 0x62, 0x75, 0x74, 0x69, 0x6f, 0x6e,
    ];
    assert(kind@ =~= contribution_seed());
    find_address(kind.as_slice(), project.bytes.as_slice(), donor.bytes.as_slice(), &id())
}

/// Under the program, a round is found from the word `round`, its creator and
/// its number; a project from the word `project`, its round and its owner; a
/// contribution from the word `contribution`, its project and its donor.
pub proof fn law_addresses_are_found_from_their_seeds(a: Pubkey, b: Pubkey, round_id: u64)
    ensures
        ({
            let program = seq![
                5u8, 62, 255, 13, 201, 31, 200, 182, 221, 233, 23, 168, 225, 69, 118, 250,
                26, 209, 10, 133, 179, 170, 53, 80, 133, 223, 121, 191, 195, 4, 175, 149,
            ];
            let round = seq![0x72u8, 0x6f, 0x75, 0x6e, 0x64];
            let project = seq![0x70u8, 0x72, 0x6f, 0x6a, 0x65, 0x63, 0x74];
            let contribution = seq![
                0x63u8, 0x6f, 0x6e, 0x74, 0x72, 0x69, 0x62, 0x75, 0x74, 0x69, 0x6f, 0x6e,
            ];
            &&& program_id() == program
            &&& round_address(a, round_id) == program_address(
                round,
                a.bytes@,
                le_bytes(round_id),
                program,
            )
            &&& project_address(a, b) == program_address(project, a.bytes@, b.bytes@, program)
            &&& contribution_address(a, b) == program_address(
                contribution,
                a.bytes@,
                b.bytes@,
                program,
            )
        }),
{
}

/// Every registered project of the round has an address.
pub open spec fn projects_have_addresses(round_key: Pubkey, round: Round) -> bool {
    forall|i: int|
        0 <= i < round.owners().len() ==> (#[trigger] project_address(
            round_key,
            round.owners()[i],
        )) is Some
}

/// The addresses of the registered projects, in order of registration.
pub open spec fn project_addresses(round_key: Pubkey, round: Round) -> Seq<Seq<u8>> {
    round.owners().map_values(|owner: Pubkey| project_address(round_key, owner)->0)
}

/// The bytes of each of some addresses.
pub open spec fn key_bytes(keys: Seq<Pubkey>) -> Seq<Seq<u8>> {
    keys.map_values(|k: Pubkey| k@)
}

/// `found` are the addresses of the first registered projects, in order of
/// registration: of all, or of those before the first that has none.
pub open spec fn is_derived_prefix(
    round_key: Pubkey,
    round: Round,
    found: Seq<Seq<u8>>,
) -> bool {
    &&& found.len() <= round.owners().len()
    &&& forall|j: int|
        0 <= j < found.len() ==> (#[trigger] project_address(round_key, round.owners()[j])) == Some(
            found[j],
        )
    &&& found.len() < round.owners().len() ==> project_address(
        round_key,
        round.owners()[found.len() as int],
    ) is None
}

/// Returns the addresses of the registered projects, in order of registration,
/// up to the first project that has none.
pub fn derive_project_pdas(round_key: &Pubkey, round: &Round) -> (r: Vec<Pubkey>)
    requires
        round.well_formed(),
    ensures
        is_derived_prefix(*round_key, *round, key_bytes(r@)),
        r@.len() <= round.project_count,
        forall|i: int|
            0 <= i < r@.len() ==> project_address(*round_key, round.project_owners[i]) == Some(
                (#[trigger] r@[i]).bytes@,
            ),
        r@.len() < round.project_count ==> project_address(
            *round_key,
            round.project_owners[r@.len() as int],
        ) is None,
{
    let owners = round.registered_owners();
    let mut r: Vec<Pubkey> = Vec::new();
    let mut i: usize = 0;
    while i < owners.len()
        invariant
            owners@ == round.owners(),
            i <= owners.len(),
            r.len() == i,
            forall|j: int|
                0 <= j < i ==> (#[trigger] project_address(*round_key, round.owners()[j])) == Some(
                    r@[j]@,
                ),
            forall|j: int|
                0 <= j < i ==> project_address(*round_key, round.project_owners[j]) == Some(
                    (#[trigger] r@[j]).bytes@,
                ),
            owners@.len() == round.project_count,
            forall|j: int|
                0 <= j < owners@.len() ==> #[trigger] owners@[j] == round.project_owners[j],
        decreases owners.len() - i,
    {
        match project_pda(round_key, &owners[i]) {
            Some(k) => r.push(k),
            None => return r,
        }
        i += 1;
    }
    r
}

/// Returns the addresses of the registered projects, in order of registration,
/// or `None` where a project has no address.
pub fn project_pdas(round_key: &Pubkey, round: &Round) -> (r: Option<Vec<Pubkey>>)
    requires
        round.well_formed(),
    ensures
        r is Some <==> projects_have_addresses(*round_key, *round),
        r is Some ==> key_bytes(r->0@) == project_addresses(*round_key, *round),
        r is Some <==> forall|i: int|
            0 <= i < round.project_count ==> project_address(
                *round_key,
                #[trigger] round.project_owners[i],
            ) is Some,
        r is Some ==> r->0@.len() == round.project_count && forall|i: int|
            0 <= i < round.project_count ==> project_address(*round_key, round.project_owners[i])
                == Some((#[trigger] r->0@[i]).bytes@),
{
    let found = derive_project_pdas(round_key, round);
    if found.len() < round.project_count as usize {
        return None;
    }
    assert forall|i: int| 0 <= i < round.owners().len() implies (#[trigger] project_address(
        *round_key,
        round.owners()[i],
    )) == Some(key_bytes(found@)[i]) by {}
    assert(key_bytes(found@) =~= project_addresses(*round_key, *round)) by {
        assert forall|j: int| 0 <= j < found.len() implies key_bytes(found@)[j]
            == project_addresses(*round_key, *round)[j] by {
            assert(project_address(*round_key, round.owners()[j]) == Some(key_bytes(found@)[j]));
        }
    }
    assert forall|i: int| 0 <= i < round.project_count implies project_address(
        *round_key,
        #[trigger] round.project_owners[i],
    ) is Some by {
        assert(project_address(*round_key, round.project_owners[i]) == Some(found@[i].bytes@));
    }
    Some(found)
}

/// The addresses of the registered projects stand in order of registration.
pub proof fn law_project_addresses_stand_in_order(round_key: Pubkey, round: Round, i: int)
    requires
        round.well_formed(),
        0 <= i < round.project_count,
    ensures
        project_addresses(round_key, round).len() == round.project_count,
        project_addresses(round_key, round)[i] == project_address(
            round_key,
            round.project_owners[i],
        )->0,
        key_bytes(round.owners()).len() == round.project_count,
        key_bytes(round.owners())[i] == round.project_owners[i].bytes@,
{
}

} // verus!
