//! What the accounts of a round hold.
use vstd::prelude::*;

use crate::key::Pubkey;

verus! {

/// How many projects a round can hold.
pub const MAX_PROJECTS: u8 = 10;

/// How many bytes the name of a project can have.
pub const MAX_NAME_LEN: usize = 50;

/// How many bytes a name has when it is stored.
pub open spec fn name_len(name: Seq<char>) -> nat {
    vstd::utf8::encode_utf8(name).len()
}

/// A funding round.
#[derive(Clone, Copy, Debug)]
pub struct Round {
    pub creator: Pubkey,
    pub round_id: u64,
    /// Registration and donations are open before this second.
    pub deadline_unix: i64,
    /// The owners of the registered projects, in order of registration; only
    /// the first `project_count` slots are in use.
    pub project_owners: [Pubkey; 10],
    pub project_count: u8,
    /// What sponsors have added, in lamports.
    pub matching_pool_total: u64,
    /// The sum of the scores of all projects, once the round is finalized.
    pub total_qf_score: u128,
    pub finalized: bool,
    pub bump: u8,
}

impl Round {
    /// The space that the account of a round takes.
    pub const MAX_SIZE: usize = 8 // tag
        + 32 // creator
        + 8 // round_id
        + 8 // deadline_unix
        + 32 * 10 // project_owners
        + 1 // project_count
        + 8 // matching_pool_total
        + 16 // total_qf_score
        + 1 // finalized
        + 1; // bump

    /// The slots in use exist.
    pub open spec fn well_formed(self) -> bool {
        self.project_count <= MAX_PROJECTS
    }

    /// The owners of the registered projects, in order of registration.
    pub open spec fn owners(self) -> Seq<Pubkey> {
        self.project_owners@.take(self.project_count as int)
    }

    /// Returns the owners of the registered projects, in order of registration.
    pub fn registered_owners(&self) -> (r: Vec<Pubkey>)
        requires
            self.well_formed(),
        ensures
            r@ == self.owners(),
            r@.len() == self.project_count,
            forall|i: int| 0 <= i < self.project_count ==> #[trigger] r@[i] == self.project_owners[i],
    {
        let mut r: Vec<Pubkey> = Vec::new();
        let mut i: usize = 0;
        while i < self.project_count as usize
            invariant
                self.well_formed(),
                i <= self.project_count,
                r@ == self.project_owners@.take(i as int),
            decreases self.project_count - i,
        {
            r.push(self.project_owners[i]);
            i += 1;
        }
        r
    }
}

/// A project in a round.
#[derive(Debug)]
pub struct Project {
    pub round: Pubkey,
    pub owner: Pubkey,
    pub name: String,
    /// What donors have given, in lamports.
    pub total_donated: u64,
    /// The sum, over the donors, of the root of what each has given in all.
    pub sqrt_sum: u128,
    pub donor_count: u32,
    /// The square of `sqrt_sum`, once the round is finalized.
    pub qf_score: u128,
    pub claimed: bool,
    pub bump: u8,
}

impl Project {
    /// The space that the account of a project takes.
    pub const MAX_SIZE: usize = 8 // tag
        + 32 // round
        + 32 // owner
        + 4 + 50 // name
        + 8 // total_donated
        + 16 // sqrt_sum
        + 4 // donor_count
        + 16 // qf_score
        + 1 // claimed
        + 1; // bump

    /// How many bytes the project takes when it is stored: a tag, then the
    /// fields, each at its full width, and the name behind its length.
    pub open spec fn stored_size(self) -> nat {
        8 + 32 + 32 + (4 + name_len(self.name@)) + 8 + 16 + 4 + 16 + 1 + 1
    }
}

impl Clone for Project {
    fn clone(&self) -> (r: Self)
        ensures
            r == *self,
    {
        Project {
            round: self.round,
            owner: self.owner,
            name: self.name.clone(),
            total_donated: self.total_donated,
            sqrt_sum: self.sqrt_sum,
            donor_count: self.donor_count,
            qf_score: self.qf_score,
            claimed: self.claimed,
            bump: self.bump,
        }
    }
}

/// What one donor has given to one project.
#[derive(Clone, Copy, Debug)]
pub struct Contribution {
    pub donor: Pubkey,
    pub project: Pubkey,
    /// All that the donor has given to the project, in lamports.
    pub amount: u64,
    pub bump: u8,
}

impl Contribution {
    /// The space that the account of a contribution takes.
    pub const MAX_SIZE: usize = 8 // tag
        + 32 // donor
        + 32 // project
        + 8 // amount
        + 1; // bump
}

/// A project fits in the space of its account just where its name is not too
/// long.
pub proof fn law_project_fits_its_account(project: Project)
    ensures
        project.stored_size() <= Project::MAX_SIZE <==> name_len(project.name@) <= MAX_NAME_LEN,
{
}

/// A name has at least as many bytes as characters, and just as many where all
/// of them are ASCII. So a name of more than fifty characters is too long, and
/// an ASCII name of fifty characters or fewer is not.
pub proof fn law_name_limit_in_characters(name: Seq<char>)
    ensures
        name.len() <= name_len(name),
        vstd::utf8::is_ascii_chars(name) ==> name.len() == name_len(name),
    decreases name.len(),
{
    if vstd::utf8::is_ascii_chars(name) {
        vstd::utf8::is_ascii_chars_encode_utf8(name);
    }
    if name.len() > 0 {
        law_name_limit_in_characters(name.drop_first());
    }
}

/// The owners of a round are those in its first slots, as many as its count says;
/// the count may be ten at most.
pub proof fn law_owners_are_in_the_first_slots(round: Round)
    ensures
        round.well_formed() <==> round.project_count <= 10,
        round.well_formed() ==> round.owners().len() == round.project_count,
        round.well_formed() ==> forall|i: int|
            0 <= i < round.project_count ==> #[trigger] round.owners()[i]
                == round.project_owners[i],
{
}

/// The length of a name is that of its UTF-8 encoding, and the limit is fifty
/// bytes.
pub proof fn law_name_is_measured_in_bytes(name: Seq<char>)
    ensures
        name_len(name) <= MAX_NAME_LEN <==> vstd::utf8::encode_utf8(name).len() <= 50,
        name_len(name) == vstd::utf8::encode_utf8(name).len(),
{
}

/// What is stored of a project besides its name takes 122 bytes, and the space of
/// its account holds fifty more.
pub proof fn law_project_is_stored_with_its_name(project: Project)
    ensures
        project.stored_size() == 122 + vstd::utf8::encode_utf8(project.name@).len(),
        Project::MAX_SIZE == 122 + 50,
        Round::MAX_SIZE == 83 + 10 * 32,
        Contribution::MAX_SIZE == 81,
{
}

} // verus!
