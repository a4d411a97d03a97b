//! Why an instruction is refused.
use vstd::prelude::*;

verus! {

/// The reasons for which the instructions of a round are refused.
#[derive(Clone, Copy, Debug, PartialEq, Eq, Structural)]
pub enum QfError {
    InvalidProjectCount,
    RoundFinalized,
    RoundNotFinalized,
    DeadlinePassed,
    DeadlineNotReached,
    AlreadyClaimed,
    InvalidProjectAccount,
    InvalidAmount,
    InsufficientFunds,
    NameTooLong,
    MathOverflow,
}

impl QfError {
    /// The text shown to the caller whose instruction was refused.
    pub open spec fn spec_message(self) -> Seq<char> {
        match self {
            QfError::InvalidProjectCount => "Round already has the maximum number of projects"@,
            QfError::RoundFinalized => "Round has already been finalized"@,
            QfError::RoundNotFinalized => "Round has not been finalized yet"@,
            QfError::DeadlinePassed => "This round's deadline has already passed"@,
            QfError::DeadlineNotReached => "This round's deadline has not been reached yet"@,
            QfError::AlreadyClaimed => "This project has already claimed its payout"@,
            QfError::InvalidProjectAccount =>
                "Provided project account does not match the expected address"@,
            QfError::InvalidAmount => "Amount must be greater than zero"@,
            QfError::InsufficientFunds => "Round does not have enough funds for this payout"@,
            QfError::NameTooLong => "Project name must be 50 characters or fewer"@,
            QfError::MathOverflow => "Arithmetic overflow"@,
        }
    }

    /// Returns the text shown to the caller whose instruction was refused.
    pub fn message(&self) -> (r: &'static str)
        ensures
            r@ == self.spec_message(),
    {
        match self {
            QfError::InvalidProjectCount => "Round already has the maximum number of projects",
            QfError::RoundFinalized => "Round has already been finalized",
            QfError::RoundNotFinalized => "Round has not been finalized yet",
            QfError::DeadlinePassed => "This round's deadline has already passed",
            QfError::DeadlineNotReached => "This round's deadline has not been reached yet",
            QfError::AlreadyClaimed => "This project has already claimed its payout",
            QfError::InvalidProjectAccount =>
                "Provided project account does not match the expected address",
            QfError::InvalidAmount => "Amount must be greater than zero",
            QfError::InsufficientFunds => "Round does not have enough funds for this payout",
            QfError::NameTooLong => "Project name must be 50 characters or fewer",
            QfError::MathOverflow => "Arithmetic overflow",
        }
    }
}

/// No two reasons are shown with the same text.
pub proof fn law_texts_tell_reasons_apart(a: QfError, b: QfError)
    requires
        a.spec_message() == b.spec_message(),
    ensures
        a == b,
{
    reveal_strlit("Round already has the maximum number of projects");
    reveal_strlit("Round has already been finalized");
    reveal_strlit("Round has not been finalized yet");
    reveal_strlit("This round's deadline has already passed");
    reveal_strlit("This round's deadline has not been reached yet");
    reveal_strlit("This project has already claimed its payout");
    reveal_strlit("Provided project account does not match the expected address");
    reveal_strlit("Amount must be greater than zero");
    reveal_strlit("Round does not have enough funds for this payout");
    reveal_strlit("Project name must be 50 characters or fewer");
    reveal_strlit("Arithmetic overflow");
    let (s, t) = (a.spec_message(), b.spec_message());
    assert(s.len() == t.len() && s[0] == t[0] && s[10] == t[10] && s[6] == t[6]);
}

} // verus!
