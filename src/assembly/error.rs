use vstd::prelude::*;

verus! {

/// Why a program could not be encoded or linked.
#[derive(Debug, Clone, PartialEq, Eq)]
pub enum AsmError {
    /// The mnemonic does not accept this shape of operand.
    UnsupportedOperand,
    /// A branch or a data reference names a label that does not exist.
    UnresolvedLabel(String),
}

} // verus!
