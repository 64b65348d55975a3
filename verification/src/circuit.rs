//! The circuit that is translated: opcodes over numbered variables, with
//! coefficients in the circuit field, and the mathematical model of each part.

use crate::field::FieldValue;
use std::collections::BTreeSet;
use vstd::prelude::*;

verus! {

/// The name of a variable: the index of its slot in the witness.
#[derive(Clone, Copy, Debug, PartialEq, Eq, PartialOrd, Ord, Hash)]
pub struct Witness(pub u32);

/// The constraint `sum of c * l * r + sum of c * v + constant = 0`.
#[derive(Clone, Debug, PartialEq, Eq)]
pub struct Expression {
    /// The multiplication terms: coefficient, left variable, right variable.
    pub mul_terms: Vec<(FieldValue, Witness, Witness)>,
    /// The linear terms: coefficient, variable.
    pub linear_combinations: Vec<(FieldValue, Witness)>,
    /// The constant term.
    pub q_c: FieldValue,
}

impl Expression {
    /// The number of multiplication terms.
    pub fn num_mul_terms(&self) -> (count: usize)
        ensures
            count == self@.mul_terms.len(),
    {
        self.mul_terms.len()
    }
}

/// One step of a circuit.
#[derive(Clone, Debug, PartialEq, Eq)]
pub enum Opcode {
    /// A constraint on the witness.
    Arithmetic(Expression),
    /// A hint for computing the witness, which constrains nothing.
    Directive,
    /// An opcode of a kind that the backend cannot model, by its description.
    Unsupported(String),
}

/// A circuit as the translation reads it.
#[derive(Clone, Debug, PartialEq, Eq)]
pub struct Circuit {
    /// The opcodes, in program order.
    pub opcodes: Vec<Opcode>,
    /// The number of variables: every variable's index is below it.
    pub num_variables: u32,
    /// The indices of the variables that the verifier is given.
    pub public_inputs: BTreeSet<u32>,
}

/// The model of a gate, before or after translation: its coefficients are
/// natural numbers, its variables are indices.
#[verifier::ext_equal]
pub struct Gate {
    /// Coefficient, left variable, right variable of each multiplication term.
    pub mul_terms: Seq<(nat, u32, u32)>,
    /// Coefficient and variable of each linear term.
    pub linear_terms: Seq<(nat, u32)>,
    /// The constant term.
    pub constant: nat,
}

/// The model of an opcode.
#[verifier::ext_equal]
pub enum OpcodeModel {
    Arithmetic(Gate),
    Directive,
    Unsupported(Seq<char>),
}

/// The model of a circuit.
#[verifier::ext_equal]
pub struct CircuitModel {
    pub opcodes: Seq<OpcodeModel>,
    pub num_variables: nat,
    pub public_inputs: Set<u32>,
}

impl View for Expression {
    type V = Gate;

    open spec fn view(&self) -> Gate {
        Gate {
            mul_terms: Seq::new(
                self.mul_terms@.len(),
                |i: int| (self.mul_terms@[i].0@, self.mul_terms@[i].1.0, self.mul_terms@[i].2.0),
            ),
            linear_terms: Seq::new(
                self.linear_combinations@.len(),
                |i: int| (self.linear_combinations@[i].0@, self.linear_combinations@[i].1.0),
            ),
            constant: self.q_c@,
        }
    }
}

impl View for Opcode {
    type V = OpcodeModel;

    open spec fn view(&self) -> OpcodeModel {
        match self {
            Opcode::Arithmetic(expression) => OpcodeModel::Arithmetic(expression@),
            Opcode::Directive => OpcodeModel::Directive,
            Opcode::Unsupported(description) => OpcodeModel::Unsupported(description@),
        }
    }
}

impl View for Circuit {
    type V = CircuitModel;

    open spec fn view(&self) -> CircuitModel {
        CircuitModel {
            opcodes: Seq::new(self.opcodes@.len(), |i: int| self.opcodes@[i]@),
            num_variables: self.num_variables as nat,
            public_inputs: self.public_inputs@,
        }
    }
}

/// Whether the backend can model the opcode.
pub open spec fn is_supported(opcode: OpcodeModel) -> bool {
    !(opcode is Unsupported)
}

/// Whether the backend can model every opcode.
pub open spec fn all_supported(opcodes: Seq<OpcodeModel>) -> bool {
    forall|i: int| 0 <= i < opcodes.len() ==> is_supported(#[trigger] opcodes[i])
}

/// Whether `index` is the place of the first opcode that the backend cannot
/// model.
pub open spec fn is_first_unsupported(opcodes: Seq<OpcodeModel>, index: int) -> bool {
    &&& 0 <= index < opcodes.len()
    &&& !is_supported(opcodes[index])
    &&& all_supported(opcodes.take(index))
}

/// A prefix of supported opcodes stays one when a supported opcode follows it.
pub proof fn lemma_supported_prefix_grows(opcodes: Seq<OpcodeModel>, index: int)
    requires
        0 <= index < opcodes.len(),
        all_supported(opcodes.take(index)),
        is_supported(opcodes[index]),
    ensures
        all_supported(opcodes.take(index + 1)),
{
    assert forall|j: int| 0 <= j < index + 1 implies is_supported(
        #[trigger] opcodes.take(index + 1)[j],
    ) by {
        if j < index {
            assert(is_supported(opcodes.take(index)[j]));
        }
    }
}

/// Why a circuit cannot be translated.
#[derive(Clone, Debug, PartialEq, Eq)]
pub enum TranslateError {
    /// The circuit holds an opcode of a kind that the backend cannot model;
    /// the description is that of the first such opcode.
    UnsupportedOpcode(String),
}

/// Whether `error` reports the first opcode of `opcodes` that the backend
/// cannot model.
pub open spec fn reports_first_unsupported(
    opcodes: Seq<OpcodeModel>,
    error: TranslateError,
) -> bool {
    exists|index: int|
        #![trigger opcodes[index]]
        is_first_unsupported(opcodes, index) && match error {
            TranslateError::UnsupportedOpcode(description) => opcodes[index]
                == OpcodeModel::Unsupported(description@),
        }
}

} // verus!
