//! Translation of an arithmetic circuit over a generic prime field into the
//! constraint representation of a backend bound to the BN254 scalar field,
//! and an estimate of the number of rank-1 constraints that the circuit
//! takes.

pub mod circuit;
pub mod field;
pub mod serializer;

use crate::circuit::{
    all_supported, is_supported, lemma_supported_prefix_grows, reports_first_unsupported, Circuit,
    Opcode, OpcodeModel, TranslateError,
};
use vstd::prelude::*;

verus! {

/// What the arithmetic opcodes add to the estimate beyond the one constraint
/// that every opcode counts for: one for each multiplication term, and one
/// for its linear combination.
pub open spec fn arithmetic_surcharge(opcodes: Seq<OpcodeModel>) -> nat
    decreases opcodes.len(),
{
    if opcodes.len() == 0 {
        0
    } else {
        arithmetic_surcharge(opcodes.drop_last()) + match opcodes.last() {
            OpcodeModel::Arithmetic(gate) => gate.mul_terms.len() + 1,
            _ => 0,
        }
    }
}

/// The estimated number of rank-1 constraints of a sequence of opcodes.
pub open spec fn constraint_estimate(opcodes: Seq<OpcodeModel>) -> nat {
    opcodes.len() + arithmetic_surcharge(opcodes)
}

/// The surcharge of a sequence that differs from another in one arithmetic
/// opcode, which has one multiplication term more, is greater by one.
proof fn lemma_surcharge_of_longer_gate(
    smaller: Seq<OpcodeModel>,
    larger: Seq<OpcodeModel>,
    index: int,
)
    requires
        smaller.len() == larger.len(),
        0 <= index < smaller.len(),
        forall|j: int| 0 <= j < smaller.len() && j != index ==> smaller[j] == larger[j],
        smaller[index] is Arithmetic,
        larger[index] is Arithmetic,
        larger[index]->Arithmetic_0.mul_terms.len() == smaller[index]->Arithmetic_0.mul_terms.len()
            + 1,
    ensures
        arithmetic_surcharge(larger) == arithmetic_surcharge(smaller) + 1,
    decreases smaller.len(),
{
    if index == smaller.len() - 1 {
        assert(smaller.drop_last() =~= larger.drop_last());
    } else {
        lemma_surcharge_of_longer_gate(smaller.drop_last(), larger.drop_last(), index);
    }
}

/// Of two circuits that are the same but for one gate, which has one
/// multiplication term more in the second, the second's estimate is greater
/// by exactly one, whatever the term and wherever it stands among the others.
pub proof fn lemma_estimate_grows_with_mul_terms(
    smaller: Seq<OpcodeModel>,
    larger: Seq<OpcodeModel>,
    index: int,
)
    requires
        smaller.len() == larger.len(),
        0 <= index < smaller.len(),
        forall|j: int| 0 <= j < smaller.len() && j != index ==> smaller[j] == larger[j],
        smaller[index] is Arithmetic,
        larger[index] is Arithmetic,
        larger[index]->Arithmetic_0.mul_terms.len() == smaller[index]->Arithmetic_0.mul_terms.len()
            + 1,
    ensures
        constraint_estimate(larger) == constraint_estimate(smaller) + 1,
        all_supported(larger) == all_supported(smaller),
{
    lemma_surcharge_of_longer_gate(smaller, larger, index);
    if all_supported(smaller) {
        assert forall|j: int| 0 <= j < larger.len() implies is_supported(#[trigger] larger[j]) by {
            assert(is_supported(smaller[j]));
        }
    }
    if all_supported(larger) {
        assert forall|j: int| 0 <= j < smaller.len() implies is_supported(
            #[trigger] smaller[j],
        ) by {
            assert(is_supported(larger[j]));
        }
    }
}

/// Extends the surcharge of a prefix of the opcodes by one opcode.
proof fn lemma_surcharge_step(opcodes: Seq<OpcodeModel>, index: int)
    requires
        0 <= index < opcodes.len(),
    ensures
        arithmetic_surcharge(opcodes.take(index + 1)) == arithmetic_surcharge(opcodes.take(index))
            + match opcodes[index] {
            OpcodeModel::Arithmetic(gate) => gate.mul_terms.len() + 1,
            _ => 0,
        },
{
    assert(opcodes.take(index + 1).drop_last() =~= opcodes.take(index));
}

/// Estimates the number of rank-1 constraints that a circuit takes, without
/// building them: one for every opcode, and for every arithmetic opcode one
/// more for each of its multiplication terms and one for its linear
/// combination.
///
/// The first opcode that the backend cannot model ends the estimate with an
/// error that carries its description.
pub fn compute_num_constraints(circuit: &Circuit) -> (result: Result<u128, TranslateError>)
    ensures
        result is Ok <==> all_supported(circuit@.opcodes),
        match result {
            Ok(count) => count == constraint_estimate(circuit@.opcodes),
            Err(error) => reports_first_unsupported(circuit@.opcodes, error),
        },
{
    let ghost opcodes = circuit@.opcodes;
    let mut count: u128 = circuit.opcodes.len() as u128;
    let mut i: usize = 0;
    while i < circuit.opcodes.len()
        invariant
            opcodes == circuit@.opcodes,
            i <= circuit.opcodes@.len(),
            all_supported(opcodes.take(i as int)),
            count == opcodes.len() + arithmetic_surcharge(opcodes.take(i as int)),
            arithmetic_surcharge(opcodes.take(i as int)) <= i * 0x1_0000_0000_0000_0000,
        decreases circuit.opcodes@.len() - i,
    {
        proof {
            lemma_surcharge_step(opcodes, i as int);
        }
        match &circuit.opcodes[i] {
            Opcode::Arithmetic(expression) => {
                count = count + (expression.num_mul_terms() as u128 + 1);
            },
            Opcode::Directive => {},
            Opcode::Unsupported(description) => {
                return Err(TranslateError::UnsupportedOpcode(description.clone()));
            },
        }
        proof {
            lemma_supported_prefix_grows(opcodes, i as int);
        }
        i += 1;
    }
    assert(opcodes.take(i as int) =~= opcodes);
    Ok(count)
}

} // verus!
