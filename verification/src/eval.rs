//! The slot-location evaluator: each virtual method's table position is
//! stored as a small encoded location-expression program, not a literal
//! number. It is run to completion with no register or frame state; only a
//! single plain-address result is a supported shape for a table slot, and
//! that acceptance rule is applied here, in verified code, over the pieces
//! the evaluator hands back.

use crate::entries::UnitEncoding;
use crate::error::ExtractError;
use vstd::prelude::*;

verus! {

/// One piece of a completed evaluation, reduced to what the slot rule
/// reads: a plain address, or any other location kind (a register, an
/// implicit value, an empty piece).
#[derive(Debug, Clone, Copy, PartialEq, Eq, Structural)]
pub enum SlotPiece {
    Address { address: u64 },
    Other,
}

/// What the location-expression evaluator yields for the given expression
/// bytes under the given encoding: the result pieces where evaluation runs
/// to completion in a single step, nothing where it errs, pauses for
/// external state, or exhausts the fixed iteration cap. The outcome is a
/// function of these arguments alone.
pub uninterp spec fn slot_pieces(
    expr: Seq<u8>,
    address_size: u8,
    version: u16,
    is_64: bool,
    little_endian: bool,
) -> Option<Seq<SlotPiece>>;

/// A piece list as the named outcome: the sequence view of what a run
/// handed back, or nothing where it completed no run.
pub open spec fn pieces_view(r: Option<Vec<SlotPiece>>) -> Option<Seq<SlotPiece>> {
    match r {
        Some(pieces) => Some(pieces@),
        None => None,
    }
}

/// Relies on gimli's expression evaluation (`Expression::evaluation`,
/// `Evaluation::set_max_iterations`, `Evaluation::evaluate`,
/// `Evaluation::result`): run with no external state, so the outcome
/// depends on the expression bytes and the encoding alone. Each result
/// piece is reduced to whether its location is a plain address. Two
/// defenses against malformed bytes: `Evaluation::new` masks addresses
/// with `(1 << (8 * address_size)) - 1`, which overflows beyond eight
/// bytes, so the width is bounded here; and bytecode can branch backward
/// and loop forever, so the evaluation runs under a fixed iteration cap,
/// whose exhaustion errs and maps to nothing like every other incomplete
/// run.
#[verifier::external_body]
fn eval_slot_expr(expr: &[u8], address_size: u8, version: u16, is_64: bool, little_endian: bool) -> (r:
    Option<Vec<SlotPiece>>)
    requires
        1 <= address_size <= 8,
    ensures
        pieces_view(r) == slot_pieces(expr@, address_size, version, is_64, little_endian),
{
    let format = if is_64 { gimli::Format::Dwarf64 } else { gimli::Format::Dwarf32 };
    let encoding = gimli::Encoding { address_size, format, version };
    let endian = if little_endian { gimli::RunTimeEndian::Little } else { gimli::RunTimeEndian::Big };
    let mut eval = gimli::Expression(gimli::EndianSlice::new(expr, endian)).evaluation(encoding);
    eval.set_max_iterations(4096);
    match eval.evaluate() {
        Ok(gimli::EvaluationResult::Complete) => {}
        _ => return None,
    }
    Some(eval.result().into_iter().map(|piece| match piece.location {
        gimli::Location::Address { address } => SlotPiece::Address { address },
        _ => SlotPiece::Other,
    }).collect())
}

/// What a slot expression denotes under an encoding: the address, where
/// evaluation completes with exactly one piece whose location is a plain
/// address; nothing for every other shape.
pub open spec fn slot_eval(
    expr: Seq<u8>,
    address_size: u8,
    version: u16,
    is_64: bool,
    little_endian: bool,
) -> Option<u64> {
    match slot_pieces(expr, address_size, version, is_64, little_endian) {
        Some(pieces) => {
            if pieces.len() == 1 {
                match pieces[0] {
                    SlotPiece::Address { address } => Some(address),
                    SlotPiece::Other => None,
                }
            } else {
                None
            }
        },
        None => None,
    }
}

/// Evaluate one virtual-table-slot location expression to the slot's byte
/// position. Every outcome other than a single plain address is fatal: it
/// indicates a format or version mismatch.
pub fn slot_position(expr: &Vec<u8>, enc: UnitEncoding) -> (r: Result<u64, ExtractError>)
    requires
        enc.wf(),
    ensures
        match slot_eval(expr@, enc.address_size, enc.version, enc.is_64, enc.little_endian) {
            Some(address) => r == Ok::<u64, ExtractError>(address),
            None => r == Err::<u64, ExtractError>(ExtractError::UnsupportedLocation),
        },
{
    match eval_slot_expr(expr.as_slice(), enc.address_size, enc.version, enc.is_64,
        enc.little_endian) {
        Some(pieces) => {
            if pieces.len() == 1 {
                match pieces[0] {
                    SlotPiece::Address { address } => Ok(address),
                    SlotPiece::Other => Err(ExtractError::UnsupportedLocation),
                }
            } else {
                Err(ExtractError::UnsupportedLocation)
            }
        },
        None => Err(ExtractError::UnsupportedLocation),
    }
}

} // verus!
