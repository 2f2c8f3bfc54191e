//! A handle on a liquidity contract.

use vstd::prelude::*;
use crate::msgs::{coins_view, Coin};
use crate::response::{Instruction, InstructionView};

verus! {

/// The address of a liquidity contract, with what is needed to call it.
#[derive(Clone, Debug, PartialEq, Eq)]
pub struct LiquidityContract(pub String);

impl LiquidityContract {
    pub fn addr(&self) -> (address: String)
        ensures
            address@ == self.0@,
    {
        self.0.clone()
    }

    /// The instruction that hands the serialised message `msg` to the
    /// contract, with `funds`.
    pub fn call(&self, msg: Vec<u8>, funds: Vec<Coin>) -> (instruction: Instruction)
        ensures
            instruction@ == (InstructionView::Execute {
                contract_addr: self.0@,
                msg: msg@,
                funds: coins_view(funds@),
            }),
    {
        Instruction::Execute { contract_addr: self.addr(), msg, funds }
    }
}

} // verus!
