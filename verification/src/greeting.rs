//! A greeting counter: the account state and the instruction processor
//! that increments it in place.

use crate::account::AccountInfo;
use crate::program::{ProgramError, ProgramResult};
use crate::pubkey::Pubkey;
use vstd::prelude::*;

verus! {

/// The state a greeting account stores: how often it was greeted.
#[derive(Clone, Copy, PartialEq, Eq, Structural, Debug)]
pub struct GreetingAccount {
    /// The number of greetings received.
    pub counter: u32,
}

/// The counter encoded in the first four bytes of account data, least
/// significant byte first.
pub open spec fn le_word(b: Seq<u8>) -> int {
    b[0] + 256 * (b[1] + 256 * (b[2] + 256 * b[3]))
}

/// The four-byte encoding of a counter value, least significant byte
/// first.
pub open spec fn le_bytes_of(v: int) -> Seq<u8> {
    seq![
        (v % 256) as u8,
        ((v / 256) % 256) as u8,
        ((v / 65536) % 256) as u8,
        ((v / 16777216) % 256) as u8,
    ]
}

/// Processes one greeting: decodes the counter stored in the first
/// account's data, adds one, and writes it back. The rest of the data
/// and every other field stay as they were.
pub fn process_instruction(
    program_id: &Pubkey,
    accounts: &mut Vec<AccountInfo>,
    _instruction_data: &[u8],
) -> (r: ProgramResult)
    requires
        old(accounts)@.len() >= 1 && old(accounts)@[0].data@.len() >= 4 ==> le_word(
            old(accounts)@[0].data@,
        ) + 1 <= u32::MAX,
    ensures
        old(accounts)@.len() == 0 ==> r == Err::<(), ProgramError>(ProgramError::InvalidArgument)
            && final(accounts)@ == old(accounts)@,
        old(accounts)@.len() >= 1 && old(accounts)@[0].data@.len() < 4 ==> r == Err::<
            (),
            ProgramError,
        >(ProgramError::InvalidInstructionData) && final(accounts)@ == old(accounts)@,
        old(accounts)@.len() >= 1 && old(accounts)@[0].data@.len() >= 4 ==> ({
            &&& r == Ok::<(), ProgramError>(())
            &&& final(accounts)@.len() == old(accounts)@.len()
            &&& final(accounts)@[0].data@ == le_bytes_of(le_word(old(accounts)@[0].data@) + 1)
                + old(accounts)@[0].data@.skip(4)
            &&& final(accounts)@[0].key == old(accounts)@[0].key
            &&& final(accounts)@[0].lamports == old(accounts)@[0].lamports
            &&& final(accounts)@[0].owner == old(accounts)@[0].owner
            &&& final(accounts)@[0].rent_epoch == old(accounts)@[0].rent_epoch
            &&& final(accounts)@[0].is_signer == old(accounts)@[0].is_signer
            &&& final(accounts)@[0].is_writable == old(accounts)@[0].is_writable
            &&& final(accounts)@[0].executable == old(accounts)@[0].executable
            &&& forall|i: int|
                1 <= i < old(accounts)@.len() ==> final(accounts)@[i] == old(accounts)@[i]
        }),
{
    if accounts.len() == 0 {
        return Err(ProgramError::InvalidArgument);
    }
    if accounts[0].data.len() < 4 {
        return Err(ProgramError::InvalidInstructionData);
    }
    let b0 = accounts[0].data[0];
    let b1 = accounts[0].data[1];
    let b2 = accounts[0].data[2];
    let b3 = accounts[0].data[3];
    let counter: u32 = b0 as u32 + 256 * (b1 as u32) + 65536 * (b2 as u32) + 16777216 * (
    b3 as u32);
    proof {
        assert(counter == le_word(accounts@[0].data@));
    }
    let next: u32 = counter + 1;
    let mut fresh: Vec<u8> = Vec::new();
    fresh.push((next % 256) as u8);
    fresh.push(((next / 256) % 256) as u8);
    fresh.push(((next / 65536) % 256) as u8);
    fresh.push(((next / 16777216) % 256) as u8);
    let n = accounts[0].data.len();
    let mut i: usize = 4;
    while i < n
        invariant
            accounts@.len() >= 1,
            n == accounts@[0].data@.len(),
            accounts@ == old(accounts)@,
            4 <= i <= n,
            fresh@ == le_bytes_of(le_word(old(accounts)@[0].data@) + 1) + old(
                accounts,
            )@[0].data@.subrange(4, i as int),
        decreases n - i,
    {
        let b = accounts[0].data[i];
        fresh.push(b);
        proof {
            assert(fresh@ =~= le_bytes_of(le_word(old(accounts)@[0].data@) + 1) + old(
                accounts,
            )@[0].data@.subrange(4, (i + 1) as int));
        }
        i += 1;
    }
    proof {
        assert(old(accounts)@[0].data@.subrange(4, n as int) =~= old(accounts)@[0].data@.skip(4));
    }
    accounts[0].data = fresh;
    Ok(())
}

} // verus!
