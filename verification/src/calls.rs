//! Calls into other contracts: a payment service to defer to, a helper
//! whose reply is summed up, and the swap of a token pair with its
//! constant-product check.
//!
//! A call that leaves the program travels through a caller-provided
//! implementation or arrives as its reply; the library decides, the
//! caller carries the messages.

use crate::token::Address;
use vstd::prelude::*;

verus! {

/// Why a payment was refused.
#[derive(Clone, Copy, PartialEq, Eq, Structural, Debug)]
pub enum PaymentError {
    /// The service did not accept the payment.
    Refused,
}

/// A payment service another contract provides; the caller supplies the
/// implementation.
pub trait Service {
    /// Makes a payment on behalf of `user` and describes the outcome.
    fn make_payment(&mut self, user: Address) -> Result<String, PaymentError>;
}

/// Defers a payment to the given service and hands its answer through.
pub fn do_call<S: Service>(account: &mut S, user: Address) -> Result<String, PaymentError> {
    account.make_payment(user)
}

/// Accepts a helper's reply to a summation request: the reply must carry
/// the summation tag, and its value is the result.
#[allow(unused_variables)]
pub fn sum_with_helper(reply_text: &String, reply_sum: u64) -> (r: Result<u64, Vec<u8>>)
    requires
        reply_text@ == "sum"@,
    ensures
        r == Ok::<u64, Vec<u8>>(reply_sum),
{
    Ok(reply_sum)
}

/// The four-byte selector of the transfer-from entry point.
pub open spec fn transfer_from_selector() -> Seq<u8> {
    seq![0x23u8, 0xb8u8, 0x72u8, 0xddu8]
}

/// A 64-bit value as one 32-byte word, big endian: twenty-four zero
/// bytes, then the value's eight bytes, most significant first.
pub open spec fn be_word(v: u64) -> Seq<u8> {
    Seq::new(24, |i: int| 0u8) + seq![
        ((v / 0x100000000000000) % 256) as u8,
        ((v / 0x1000000000000) % 256) as u8,
        ((v / 0x10000000000) % 256) as u8,
        ((v / 0x100000000) % 256) as u8,
        ((v / 0x1000000) % 256) as u8,
        ((v / 0x10000) % 256) as u8,
        ((v / 0x100) % 256) as u8,
        (v % 256) as u8,
    ]
}

/// Appends the 32-byte big-endian word of `v`.
fn push_be_word(out: &mut Vec<u8>, v: u64)
    ensures
        final(out)@ == old(out)@ + be_word(v),
{
    let mut k: usize = 0;
    while k < 24
        invariant
            0 <= k <= 24,
            out@ == old(out)@ + Seq::new(k as nat, |i: int| 0u8),
        decreases 24 - k,
    {
        out.push(0);
        proof {
            assert(out@ =~= old(out)@ + Seq::new((k + 1) as nat, |i: int| 0u8));
        }
        k += 1;
    }
    out.push(((v / 0x100000000000000) % 256) as u8);
    out.push(((v / 0x1000000000000) % 256) as u8);
    out.push(((v / 0x10000000000) % 256) as u8);
    out.push(((v / 0x100000000) % 256) as u8);
    out.push(((v / 0x1000000) % 256) as u8);
    out.push(((v / 0x10000) % 256) as u8);
    out.push(((v / 0x100) % 256) as u8);
    out.push((v % 256) as u8);
    proof {
        assert(out@ =~= old(out)@ + be_word(v));
    }
}

/// A contract that forwards deposits from a sender to a fixed recipient
/// through a low-level call on a target token.
pub struct Forwarder {
    /// The token the call goes to.
    pub target: Address,
    /// Who the deposit is forwarded to.
    pub recipient: Address,
}

/// The call data of a deposit: the transfer-from selector, then the
/// sender, the recipient and the amount, each as a 32-byte word.
pub open spec fn deposit_calldata(sender: Address, recipient: Address, amount: u64) -> Seq<u8> {
    transfer_from_selector() + be_word(sender.value) + be_word(recipient.value) + be_word(amount)
}

impl Forwarder {
    /// Builds the call data that deposits `amount` from `sender` with the
    /// fixed recipient. Sending it to the target is the caller's
    /// business.
    pub fn deposit(&self, sender: Address, amount: u64) -> (data: Vec<u8>)
        ensures
            data@ == deposit_calldata(sender, self.recipient, amount),
    {
        let mut data: Vec<u8> = Vec::new();
        data.push(0x23);
        data.push(0xb8);
        data.push(0x72);
        data.push(0xdd);
        proof {
            assert(data@ =~= transfer_from_selector());
        }
        push_be_word(&mut data, sender.value);
        push_be_word(&mut data, self.recipient.value);
        push_be_word(&mut data, amount);
        proof {
            assert(data@ =~= deposit_calldata(sender, self.recipient, amount));
        }
        data
    }
}

/// A pair of pooled tokens: their addresses, the booked reserves, and
/// the actual balances.
pub struct Pair {
    /// The first pooled token.
    pub token0: Address,
    /// The second pooled token.
    pub token1: Address,
    /// The booked reserve of the first token.
    pub reserve0: u64,
    /// The booked reserve of the second token.
    pub reserve1: u64,
    /// The actual balance of the first token.
    pub balance0: u64,
    /// The actual balance of the second token.
    pub balance1: u64,
}

/// Whether paying the two amounts out keeps the constant product: the
/// adjusted remaining balances must multiply to at least the booked
/// product.
pub open spec fn keeps_product(p: Pair, amount0_out: u64, amount1_out: u64) -> bool {
    ((p.balance0 - amount0_out) * 1000) * ((p.balance1 - amount1_out) * 1000) >= p.reserve0
        * p.reserve1 * 1000
}

impl Pair {
    /// Pays the two amounts out of the pool if the constant product
    /// stands, and books the new balances as reserves; otherwise the
    /// pool is untouched and the product failure reported. Forwarding
    /// the paid amounts and the callback data is the caller's business.
    #[allow(unused_variables)]
    pub fn swap(&mut self, amount0_out: u64, amount1_out: u64, to: Address, data: Vec<u8>) -> (r:
        Result<(), Vec<u8>>)
        requires
            amount0_out <= old(self).balance0,
            amount1_out <= old(self).balance1,
            old(self).reserve0 * old(self).reserve1 * 1000 <= u64::MAX,
            (old(self).balance0 - amount0_out) * 1000 <= u64::MAX,
            (old(self).balance1 - amount1_out) * 1000 <= u64::MAX,
            ((old(self).balance0 - amount0_out) * 1000) * ((old(self).balance1 - amount1_out)
                * 1000) <= u64::MAX,
        ensures
            !keeps_product(*old(self), amount0_out, amount1_out) ==> (r matches Err(e) && e@
                == seq![75u8] && *final(self) == *old(self)),
            keeps_product(*old(self), amount0_out, amount1_out) ==> {
                &&& r is Ok
                &&& final(self).balance0 == old(self).balance0 - amount0_out
                &&& final(self).balance1 == old(self).balance1 - amount1_out
                &&& final(self).reserve0 == final(self).balance0
                &&& final(self).reserve1 == final(self).balance1
                &&& final(self).token0 == old(self).token0
                &&& final(self).token1 == old(self).token1
            },
    {
        proof {
            assert(self.reserve0 * self.reserve1 >= 0);
            assert(self.reserve0 * self.reserve1 <= self.reserve0 * self.reserve1 * 1000)
                by (nonlinear_arith);
        }
        let k0: u64 = self.reserve0 * self.reserve1;
        let k: u64 = k0 * 1000;
        let new_balance0: u64 = self.balance0 - amount0_out;
        let new_balance1: u64 = self.balance1 - amount1_out;
        let adjusted0: u64 = new_balance0 * 1000;
        let adjusted1: u64 = new_balance1 * 1000;
        if adjusted0 * adjusted1 < k {
            let mut e: Vec<u8> = Vec::new();
            e.push(75u8);
            proof {
                assert(e@ =~= seq![75u8]);
            }
            return Err(e);
        }
        self.balance0 = new_balance0;
        self.balance1 = new_balance1;
        self.reserve0 = new_balance0;
        self.reserve1 = new_balance1;
        Ok(())
    }
}

} // verus!
