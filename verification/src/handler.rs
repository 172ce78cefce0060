//! The instruction handler over the runtime's own types.
//!
//! The runtime hands the handler a caller identity, an ordered list of
//! account references and an opaque payload. The handler binds the first
//! three references, in order, as source, destination and privileged
//! sub-program, builds a transfer request over the fixed amount, delegates
//! it, and relays the outcome. The account references are opaque handles:
//! the handler never inspects their contents, and every balance mutation is
//! the privileged sub-program's.

use vstd::prelude::*;
use crate::REQUIRED_ACCOUNTS;
use crate::TRANSFER_AMOUNT;
use solana_program::account_info::AccountInfo;
use solana_program::instruction::Instruction;
use solana_program::program_error::ProgramError;
use solana_program::pubkey::Pubkey;

verus! {

/// The runtime's account address: an opaque fixed-length identifier.
#[verifier::external_type_specification]
#[verifier::external_body]
pub struct ExPubkey(Pubkey);

/// The runtime's handle to a ledger account; the handler never inspects it.
#[verifier::external_type_specification]
#[verifier::external_body]
pub struct ExAccountInfo<'a>(AccountInfo<'a>);

/// The runtime's delegation request, carried through to the delegated call.
#[verifier::external_type_specification]
#[verifier::external_body]
pub struct ExInstruction(Instruction);

/// The runtime's failure reason, relayed to the caller unchanged.
#[verifier::external_type_specification]
#[verifier::external_body]
pub struct ExProgramError(ProgramError);

/// Why an invocation of the handler failed.
pub enum TransferError {
    /// Fewer than the required three account references were supplied;
    /// detected before any delegation, so nothing was touched.
    MissingAccount,
    /// The privileged sub-program rejected the request; its reason is
    /// opaque to the handler and surfaces unchanged.
    DelegatedCallFailed(ProgramError),
}

// The address an account reference carries: what reading its key field of
// the runtime's account handle yields.
pub uninterp spec fn key_of(account: AccountInfo) -> Pubkey;

// The native transfer request that the privileged sub-program's interface
// builds from a source address, a destination address and an amount. It is a
// function of those arguments alone.
pub uninterp spec fn transfer_instruction_of(
    source: Pubkey,
    destination: Pubkey,
    lamports: u64,
) -> Instruction;

/// Relies on solana_system_interface::instruction::transfer: builds the
/// native transfer request addressed to the runtime's privileged transfer
/// sub-program, from the source's address, the destination's address and the
/// amount, and nothing else — named `transfer_instruction_of`.
#[verifier::external_body]
fn build_transfer_instruction<'a>(
    source: &AccountInfo<'a>,
    destination: &AccountInfo<'a>,
    lamports: u64,
) -> (r: Instruction)
    ensures
        r == transfer_instruction_of(key_of(*source), key_of(*destination), lamports),
{
    solana_system_interface::instruction::transfer(source.key, destination.key, lamports)
}

/// Relies on solana_program::program::invoke: synchronously delegates the
/// instruction to the runtime, re-exposing the first three account
/// references, in their given order, as capabilities the callee may read or
/// mutate. The caller must hand over exactly the native transfer of the
/// fixed amount from the first reference's address to the second's. The
/// outcome depends on the ledger state the runtime holds, so nothing is
/// promised of it.
#[verifier::external_body]
fn invoke_transfer<'a>(instruction: &Instruction, accounts: &[AccountInfo<'a>]) -> Result<
    (),
    ProgramError,
>
    requires
        accounts@.len() >= REQUIRED_ACCOUNTS,
        *instruction == transfer_instruction_of(
            key_of(accounts@[0]),
            key_of(accounts@[1]),
            TRANSFER_AMOUNT,
        ),
{
    solana_program::program::invoke(
        instruction,
        &[accounts[0].clone(), accounts[1].clone(), accounts[2].clone()],
    )
}

/// Relays the privileged sub-program's outcome: success stays success, and
/// any rejection surfaces unchanged as `DelegatedCallFailed` carrying the
/// callee's own reason.
pub fn relay_outcome(outcome: Result<(), ProgramError>) -> (r: Result<(), TransferError>)
    ensures
        outcome matches Ok(_) ==> r == Ok::<(), TransferError>(()),
        outcome matches Err(e) ==> r == Err::<(), TransferError>(
            TransferError::DelegatedCallFailed(e),
        ),
{
    match outcome {
        Ok(()) => Ok(()),
        Err(e) => Err(TransferError::DelegatedCallFailed(e)),
    }
}

/// The instruction handler.
///
/// The caller's identity and the instruction payload are accepted for
/// protocol conformance only and never consulted. The handler fails with
/// `MissingAccount`, before any delegation, exactly when fewer than three
/// account references are supplied; otherwise it delegates one transfer of
/// the fixed amount from the first reference to the second and relays the
/// sub-program's outcome.
pub fn process_instruction<'a>(
    _program_id: &Pubkey,
    accounts: &[AccountInfo<'a>],
    _instruction_data: &[u8],
) -> (r: Result<(), TransferError>)
    ensures
        accounts@.len() < REQUIRED_ACCOUNTS <==> r matches Err(
            TransferError::MissingAccount,
        ),
        accounts@.len() >= REQUIRED_ACCOUNTS ==> (r matches Ok(_) || (r matches Err(e)
            && e is DelegatedCallFailed)),
{
    if accounts.len() < REQUIRED_ACCOUNTS {
        return Err(TransferError::MissingAccount);
    }
    let source = &accounts[0];
    let destination = &accounts[1];
    let instruction = build_transfer_instruction(source, destination, TRANSFER_AMOUNT);
    let outcome = invoke_transfer(&instruction, accounts);
    relay_outcome(outcome)
}

} // verus!
