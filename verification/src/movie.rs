//! Movie reviews: the instruction a user sends, its decoder, and the
//! handler that validates a review before it is stored.

use crate::account::AccountInfo;
use crate::program::{ProgramError, ProgramResult};
use crate::pubkey::{derived_address, find_program_address, Pubkey};
use vstd::prelude::*;
use vstd::string::StrSliceExecFns;

verus! {

/// A user operation on movie reviews.
#[derive(Clone, PartialEq, Eq, Debug)]
pub enum MovieInstruction {
    /// Adds a new review.
    AddMovieReview { title: String, rating: u8, description: String },
    /// Updates an existing review.
    UpdateMovieReview { title: String, rating: u8, description: String },
}

/// What went wrong while validating a review.
#[derive(Clone, Copy, PartialEq, Eq, Structural, Debug)]
pub enum ReviewError {
    /// The rating is outside one to five.
    InvalidRating,
    /// The derived account does not match the handed one.
    InvalidPDA,
    /// The review does not fit in the account.
    InvalidDataLength,
}

impl From<ReviewError> for ProgramError {
    /// Each review error maps to a distinct custom program error code.
    fn from(e: ReviewError) -> (r: ProgramError) {
        match e {
            ReviewError::InvalidRating => ProgramError::Custom(1),
            ReviewError::InvalidPDA => ProgramError::Custom(2),
            ReviewError::InvalidDataLength => ProgramError::Custom(3),
        }
    }
}

impl vstd::std_specs::convert::FromSpecImpl<ReviewError> for ProgramError {
    open spec fn obeys_from_spec() -> bool {
        true
    }

    open spec fn from_spec(e: ReviewError) -> ProgramError {
        match e {
            ReviewError::InvalidRating => ProgramError::Custom(1),
            ReviewError::InvalidPDA => ProgramError::Custom(2),
            ReviewError::InvalidDataLength => ProgramError::Custom(3),
        }
    }
}

/// The rating byte of an instruction payload: its second byte, or zero
/// where the payload is too short to carry one.
pub open spec fn payload_rating(input: Seq<u8>) -> u8 {
    if input.len() >= 2 {
        input[1]
    } else {
        0
    }
}

/// Decodes an instruction payload: the first byte selects the operation,
/// the second carries the rating, and the texts start out empty.
pub fn unpack(input: &[u8]) -> (r: Result<MovieInstruction, ProgramError>)
    ensures
        input@.len() == 0 ==> r == Err::<MovieInstruction, ProgramError>(
            ProgramError::InvalidInstructionData,
        ),
        input@.len() >= 1 && input@[0] == 0 ==> (r matches Ok(m) && (m matches
            MovieInstruction::AddMovieReview { title, rating, description } && title@.len() == 0
            && rating == payload_rating(input@) && description@.len() == 0)),
        input@.len() >= 1 && input@[0] == 1 ==> (r matches Ok(m) && (m matches
            MovieInstruction::UpdateMovieReview { title, rating, description } && title@.len()
            == 0 && rating == payload_rating(input@) && description@.len() == 0)),
        input@.len() >= 1 && input@[0] != 0 && input@[0] != 1 ==> r == Err::<
            MovieInstruction,
            ProgramError,
        >(ProgramError::InvalidInstructionData),
{
    if input.len() == 0 {
        return Err(ProgramError::InvalidInstructionData);
    }
    let variant = input[0];
    let rating = if input.len() >= 2 {
        input[1]
    } else {
        0
    };
    match variant {
        0 => Ok(
            MovieInstruction::AddMovieReview {
                title: String::new(),
                rating,
                description: String::new(),
            },
        ),
        1 => Ok(
            MovieInstruction::UpdateMovieReview {
                title: String::new(),
                rating,
                description: String::new(),
            },
        ),
        _ => Err(ProgramError::InvalidInstructionData),
    }
}

/// The outcome the review handler owes: the first failed check decides,
/// and a review passing all of them is accepted.
pub open spec fn review_outcome(
    program_id: Seq<u8>,
    initializer_key: Seq<u8>,
    initializer_signed: bool,
    pda_key: Seq<u8>,
    rating: u8,
    title_len: int,
    description_len: int,
) -> ProgramResult {
    if rating > 5 || rating < 1 {
        Err(ProgramError::Custom(1))
    } else if !initializer_signed {
        Err(ProgramError::MissingRequiredSignature)
    } else if derived_address(seq![initializer_key], program_id) != pda_key {
        Err(ProgramError::Custom(2))
    } else if 10 + title_len + description_len > 1000 {
        Err(ProgramError::Custom(3))
    } else {
        Ok(())
    }
}

/// Validates a review: the rating must lie between one and five, the
/// first account must have signed, the second must be the program
/// address derived from the first, and the review must fit in a thousand
/// bytes.
pub fn add_movie_review(
    program_id: &Pubkey,
    accounts: &Vec<AccountInfo>,
    title: String,
    rating: u8,
    description: String,
) -> (r: ProgramResult)
    requires
        accounts@.len() >= 2,
        program_id.valid(),
        title@.len() + description@.len() + 10 <= u64::MAX,
    ensures
        r == review_outcome(
            program_id@,
            accounts@[0].key@,
            accounts@[0].is_signer,
            accounts@[1].key@,
            rating,
            title@.len() as int,
            description@.len() as int,
        ),
{
    if rating > 5 || rating < 1 {
        return Err(ProgramError::from(ReviewError::InvalidRating));
    }
    if !accounts[0].is_signer {
        return Err(ProgramError::MissingRequiredSignature);
    }
    let mut seeds: Vec<Vec<u8>> = Vec::new();
    seeds.push(accounts[0].key.bytes_copy());
    proof {
        assert(crate::pubkey::seeds_view(seeds@) =~= seq![accounts@[0].key@]);
    }
    let (pda, _bump) = find_program_address(&seeds, program_id);
    if !pda.same_as(&accounts[1].key) {
        return Err(ProgramError::from(ReviewError::InvalidPDA));
    }
    let title_len = title.as_str().unicode_len() as u64;
    let description_len = description.as_str().unicode_len() as u64;
    let total_len: u64 = 1 + 1 + (4 + title_len) + (4 + description_len);
    if total_len > 1000 {
        return Err(ProgramError::from(ReviewError::InvalidDataLength));
    }
    Ok(())
}

} // verus!
