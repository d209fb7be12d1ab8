//! Small verified utilities: byte-string copies and comparisons, whitelist
//! membership, and validation of the coins attached to an operation.

use vstd::prelude::*;

use crate::error::ContractError;
use crate::state::Coin;

verus! {

/// An owned copy of a byte string, equal to the original as a sequence.
pub fn clone_bytes(v: &Vec<u8>) -> (r: Vec<u8>)
    ensures
        r@ == v@,
{
    let mut r: Vec<u8> = Vec::new();
    let mut i: usize = 0;
    while i < v.len()
        invariant
            i <= v@.len(),
            r@ == v@.subrange(0, i as int),
        decreases v@.len() - i,
    {
        r.push(v[i]);
        proof {
            assert(r@ =~= v@.subrange(0, i + 1));
        }
        i = i + 1;
    }
    proof {
        assert(v@.subrange(0, v@.len() as int) =~= v@);
    }
    r
}

/// An owned copy of a coin.
pub fn clone_coin(c: &Coin) -> (r: Coin)
    ensures
        r.denom@ == c.denom@,
        r.amount == c.amount,
{
    Coin { denom: clone_bytes(&c.denom), amount: c.amount }
}

/// Whether two byte strings hold the same bytes.
pub fn bytes_eq(a: &Vec<u8>, b: &Vec<u8>) -> (r: bool)
    ensures
        r == (a@ == b@),
{
    if a.len() != b.len() {
        return false;
    }
    let mut i: usize = 0;
    while i < a.len()
        invariant
            a@.len() == b@.len(),
            i <= a@.len(),
            forall|j: int| 0 <= j < i ==> a@[j] == b@[j],
        decreases a@.len() - i,
    {
        if a[i] != b[i] {
            return false;
        }
        i = i + 1;
    }
    proof {
        assert(a@ =~= b@);
    }
    true
}

/// Whether `addr` occurs in the whitelist `wl`.
pub open spec fn spec_whitelisted(wl: Seq<Vec<u8>>, addr: Seq<u8>) -> bool {
    exists|i: int| 0 <= i < wl.len() && (#[trigger] wl[i])@ == addr
}

/// Linear scan for whitelist membership.
pub fn addr_in_list(wl: &Vec<Vec<u8>>, addr: &Vec<u8>) -> (r: bool)
    ensures
        r == spec_whitelisted(wl@, addr@),
{
    let mut i: usize = 0;
    while i < wl.len()
        invariant
            i <= wl@.len(),
            forall|j: int| 0 <= j < i ==> (#[trigger] wl@[j])@ != addr@,
        decreases wl@.len() - i,
    {
        if bytes_eq(&wl[i], addr) {
            return true;
        }
        i = i + 1;
    }
    false
}

/// The big-endian bytes of a 64-bit integer, most significant byte first.
pub open spec fn spec_u64_be_bytes(x: u64) -> Seq<u8> {
    seq![
        ((x as int / 0x100000000000000) % 256) as u8,
        ((x as int / 0x1000000000000) % 256) as u8,
        ((x as int / 0x10000000000) % 256) as u8,
        ((x as int / 0x100000000) % 256) as u8,
        ((x as int / 0x1000000) % 256) as u8,
        ((x as int / 0x10000) % 256) as u8,
        ((x as int / 0x100) % 256) as u8,
        (x as int % 256) as u8,
    ]
}

/// Encodes a 64-bit integer as its eight big-endian bytes.
pub fn u64_to_be_bytes(x: u64) -> (r: Vec<u8>)
    ensures
        r@ == spec_u64_be_bytes(x),
        r@.len() == 8,
{
    let mut r: Vec<u8> = Vec::new();
    r.push(((x / 0x100000000000000u64) % 256) as u8);
    r.push(((x / 0x1000000000000u64) % 256) as u8);
    r.push(((x / 0x10000000000u64) % 256) as u8);
    r.push(((x / 0x100000000u64) % 256) as u8);
    r.push(((x / 0x1000000u64) % 256) as u8);
    r.push(((x / 0x10000u64) % 256) as u8);
    r.push(((x / 0x100u64) % 256) as u8);
    r.push((x % 256u64) as u8);
    proof {
        assert(r@ =~= spec_u64_be_bytes(x));
    }
    r
}

/// The single coin attached to an operation: exactly one coin must have been
/// sent, whatever its denomination.
pub fn extract_funding_coin(sent_funds: &Vec<Coin>) -> (r: Result<Coin, ContractError>)
    ensures
        sent_funds@.len() == 0 ==> r == Err::<Coin, ContractError>(
            ContractError::ExpectedCoinNotSent,
        ),
        sent_funds@.len() > 1 ==> r == Err::<Coin, ContractError>(ContractError::MultipleCoinsSent),
        sent_funds@.len() == 1 ==> (r matches Ok(c) && c.denom@ == sent_funds@[0].denom@
            && c.amount == sent_funds@[0].amount),
{
    if sent_funds.len() == 0 {
        return Err(ContractError::ExpectedCoinNotSent);
    }
    if sent_funds.len() > 1 {
        return Err(ContractError::MultipleCoinsSent);
    }
    Ok(clone_coin(&sent_funds[0]))
}

/// The single coin attached to an operation, which must be of the round's
/// budget denomination: exactly one coin, of denomination `denom`.
pub fn extract_budget_coin(sent_funds: &Vec<Coin>, denom: &Vec<u8>) -> (r: Result<
    Coin,
    ContractError,
>)
    ensures
        sent_funds@.len() == 0 ==> r == Err::<Coin, ContractError>(
            ContractError::ExpectedCoinNotSent,
        ),
        sent_funds@.len() > 1 ==> r == Err::<Coin, ContractError>(ContractError::MultipleCoinsSent),
        sent_funds@.len() == 1 && sent_funds@[0].denom@ != denom@ ==> (r matches Err(e)
            && e matches ContractError::WrongFundCoin { expected, got } && expected@ == denom@
            && got@ == sent_funds@[0].denom@),
        sent_funds@.len() == 1 && sent_funds@[0].denom@ == denom@ ==> (r matches Ok(c) && c.denom@
            == denom@ && c.amount == sent_funds@[0].amount),
{
    let coin = match extract_funding_coin(sent_funds) {
        Ok(c) => c,
        Err(e) => {
            return Err(e);
        },
    };
    if !bytes_eq(&coin.denom, denom) {
        return Err(
            ContractError::WrongFundCoin {
                expected: clone_bytes(denom),
                got: coin.denom,
            },
        );
    }
    Ok(coin)
}

} // verus!
