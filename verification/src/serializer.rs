//! The translation of a circuit into what the backend consumes: its gates
//! with coefficients in the scalar field, a value for every variable, and the
//! public inputs.

use crate::circuit::{
    all_supported, lemma_supported_prefix_grows, reports_first_unsupported, Circuit, CircuitModel,
    Expression, Gate, Opcode, OpcodeModel, TranslateError, Witness,
};
use crate::field::{scalar_of, to_backend, CurveScalar, FieldValue};
use std::collections::{BTreeMap, BTreeSet};
use vstd::prelude::*;

verus! {

/// An arithmetic gate with its coefficients in the backend's scalar field.
#[derive(Clone, Debug, PartialEq, Eq)]
pub struct CurveAcirArithGate {
    /// The multiplication terms: coefficient, left variable, right variable.
    pub mul_terms: Vec<(CurveScalar, Witness, Witness)>,
    /// The linear terms: coefficient, variable.
    pub add_terms: Vec<(CurveScalar, Witness)>,
    /// The constant term.
    pub constant_term: CurveScalar,
}

/// A circuit as the backend consumes it.
#[derive(Clone, Debug, PartialEq, Eq)]
pub struct CurveAcir {
    /// The gates, in the order of the arithmetic opcodes they come from.
    pub gates: Vec<CurveAcirArithGate>,
    /// The value of every variable, at the variable's index.
    pub values: Vec<CurveScalar>,
    /// The indices of the variables that the verifier is given.
    pub public_inputs: BTreeSet<u32>,
}

/// The model of a translated circuit.
#[verifier::ext_equal]
pub struct CurveAcirModel {
    pub gates: Seq<Gate>,
    pub values: Seq<nat>,
    pub public_inputs: Set<u32>,
}

impl View for CurveAcirArithGate {
    type V = Gate;

    open spec fn view(&self) -> Gate {
        Gate {
            mul_terms: Seq::new(
                self.mul_terms@.len(),
                |i: int| (self.mul_terms@[i].0@, self.mul_terms@[i].1.0, self.mul_terms@[i].2.0),
            ),
            linear_terms: Seq::new(
                self.add_terms@.len(),
                |i: int| (self.add_terms@[i].0@, self.add_terms@[i].1.0),
            ),
            constant: self.constant_term@,
        }
    }
}

/// The models of a sequence of translated gates.
pub open spec fn gate_models(gates: Seq<CurveAcirArithGate>) -> Seq<Gate> {
    Seq::new(gates.len(), |i: int| gates[i]@)
}

/// The numbers that a sequence of scalars stands for.
pub open spec fn scalar_values(scalars: Seq<CurveScalar>) -> Seq<nat> {
    Seq::new(scalars.len(), |i: int| scalars[i]@)
}

impl View for CurveAcir {
    type V = CurveAcirModel;

    open spec fn view(&self) -> CurveAcirModel {
        CurveAcirModel {
            gates: gate_models(self.gates@),
            values: scalar_values(self.values@),
            public_inputs: self.public_inputs@,
        }
    }
}

/// A gate with every coefficient taken into the scalar field: the terms
/// stay in their order and keep their variables.
pub open spec fn backend_gate(gate: Gate) -> Gate {
    Gate {
        mul_terms: Seq::new(
            gate.mul_terms.len(),
            |i: int| (scalar_of(gate.mul_terms[i].0), gate.mul_terms[i].1, gate.mul_terms[i].2),
        ),
        linear_terms: Seq::new(
            gate.linear_terms.len(),
            |i: int| (scalar_of(gate.linear_terms[i].0), gate.linear_terms[i].1),
        ),
        constant: scalar_of(gate.constant),
    }
}

/// The gates of the arithmetic opcodes, in the order of the opcodes.
pub open spec fn arithmetic_gates(opcodes: Seq<OpcodeModel>) -> Seq<Gate> {
    opcodes.filter(|opcode: OpcodeModel| opcode is Arithmetic).map_values(
        |opcode: OpcodeModel| opcode->Arithmetic_0,
    )
}

/// The gates that the backend is given for a sequence of opcodes: those of
/// the arithmetic opcodes, each taken into the scalar field.
pub open spec fn backend_gates(opcodes: Seq<OpcodeModel>) -> Seq<Gate> {
    arithmetic_gates(opcodes).map_values(|gate: Gate| backend_gate(gate))
}

/// The value of every variable below `num_variables`: that of the mapping,
/// taken into the scalar field, and zero where the mapping has none.
pub open spec fn resolved_values(num_variables: nat, witness: Map<u32, FieldValue>) -> Seq<nat> {
    Seq::new(
        num_variables,
        |i: int|
            if witness.contains_key(i as u32) {
                scalar_of(witness[i as u32]@)
            } else {
                0
            },
    )
}

/// What a circuit and a mapping of its witness translate to.
pub open spec fn serialized(circuit: CircuitModel, witness: Map<u32, FieldValue>) -> CurveAcirModel {
    CurveAcirModel {
        gates: backend_gates(circuit.opcodes),
        values: resolved_values(circuit.num_variables, witness),
        public_inputs: circuit.public_inputs,
    }
}

impl CurveAcirArithGate {
    /// Takes an arithmetic gate of the circuit into the scalar field, term by
    /// term.
    pub fn from_expression(expression: &Expression) -> (gate: CurveAcirArithGate)
        ensures
            gate@ == backend_gate(expression@),
    {
        let mut mul_terms: Vec<(CurveScalar, Witness, Witness)> = Vec::new();
        let mut i: usize = 0;
        while i < expression.mul_terms.len()
            invariant
                i <= expression.mul_terms@.len(),
                mul_terms@.len() == i,
                forall|j: int|
                    0 <= j < i ==> {
                        &&& (#[trigger] mul_terms@[j]).0@ == scalar_of(expression.mul_terms@[j].0@)
                        &&& mul_terms@[j].1 == expression.mul_terms@[j].1
                        &&& mul_terms@[j].2 == expression.mul_terms@[j].2
                    },
            decreases expression.mul_terms@.len() - i,
        {
            let term = &expression.mul_terms[i];
            mul_terms.push((to_backend(&term.0), term.1, term.2));
            i += 1;
        }
        let mut add_terms: Vec<(CurveScalar, Witness)> = Vec::new();
        let mut k: usize = 0;
        while k < expression.linear_combinations.len()
            invariant
                k <= expression.linear_combinations@.len(),
                add_terms@.len() == k,
                forall|j: int|
                    0 <= j < k ==> {
                        &&& (#[trigger] add_terms@[j]).0@ == scalar_of(
                            expression.linear_combinations@[j].0@,
                        )
                        &&& add_terms@[j].1 == expression.linear_combinations@[j].1
                    },
            decreases expression.linear_combinations@.len() - k,
        {
            let term = &expression.linear_combinations[k];
            add_terms.push((to_backend(&term.0), term.1));
            k += 1;
        }
        let gate = CurveAcirArithGate {
            mul_terms,
            add_terms,
            constant_term: to_backend(&expression.q_c),
        };
        gate
    }
}

/// Extends the gates of a prefix of the opcodes by one opcode.
proof fn lemma_arithmetic_gates_step(opcodes: Seq<OpcodeModel>, index: int)
    requires
        0 <= index < opcodes.len(),
    ensures
        arithmetic_gates(opcodes.take(index + 1)) == match opcodes[index] {
            OpcodeModel::Arithmetic(gate) => arithmetic_gates(opcodes.take(index)).push(gate),
            _ => arithmetic_gates(opcodes.take(index)),
        },
{
    reveal(Seq::filter);
    assert(opcodes.take(index + 1).drop_last() =~= opcodes.take(index));
}

/// Translates the opcodes of a circuit into the backend's gates, and hands
/// out the circuit's public inputs beside them.
///
/// Every arithmetic opcode gives one gate, in the order of the opcodes;
/// directives give none. The first opcode that the backend cannot model ends
/// the translation with an error that carries its description.
pub fn translate(circuit: &Circuit) -> (result: Result<
    (Vec<CurveAcirArithGate>, BTreeSet<u32>),
    TranslateError,
>)
    ensures
        result is Ok <==> all_supported(circuit@.opcodes),
        match result {
            Ok((gates, public_inputs)) => {
                &&& gate_models(gates@) == backend_gates(circuit@.opcodes)
                &&& public_inputs@ == circuit@.public_inputs
            },
            Err(error) => reports_first_unsupported(circuit@.opcodes, error),
        },
{
    let ghost opcodes = circuit@.opcodes;
    let mut gates: Vec<CurveAcirArithGate> = Vec::new();
    let mut i: usize = 0;
    while i < circuit.opcodes.len()
        invariant
            opcodes == circuit@.opcodes,
            i <= circuit.opcodes@.len(),
            all_supported(opcodes.take(i as int)),
            gate_models(gates@) == backend_gates(opcodes.take(i as int)),
        decreases circuit.opcodes@.len() - i,
    {
        proof {
            lemma_arithmetic_gates_step(opcodes, i as int);
        }
        let ghost before = gates@;
        match &circuit.opcodes[i] {
            Opcode::Arithmetic(expression) => {
                gates.push(CurveAcirArithGate::from_expression(expression));
                assert(gate_models(gates@) =~= gate_models(before).push(
                    backend_gate(expression@),
                ));
            },
            Opcode::Directive => {},
            Opcode::Unsupported(description) => {
                return Err(TranslateError::UnsupportedOpcode(description.clone()));
            },
        }
        proof {
            lemma_supported_prefix_grows(opcodes, i as int);
        }
        i += 1;
    }
    assert(opcodes.take(i as int) =~= opcodes);
    Ok((gates, circuit.public_inputs.clone()))
}

/// Gives every variable of the circuit a value in the scalar field: the
/// mapping's value where it has one, and zero where it has none. Entries of
/// the mapping for indices that are no variable of the circuit are ignored.
pub fn resolve(circuit: &Circuit, witness_map: &BTreeMap<u32, FieldValue>) -> (values: Vec<
    CurveScalar,
>)
    ensures
        values@.len() == circuit.num_variables,
        scalar_values(values@) == resolved_values(circuit@.num_variables, witness_map@),
{
    let mut values: Vec<CurveScalar> = Vec::new();
    let mut index: u32 = 0;
    while index < circuit.num_variables
        invariant
            index <= circuit.num_variables,
            values@.len() == index,
            forall|j: int|
                0 <= j < index ==> (#[trigger] values@[j])@ == resolved_values(
                    circuit@.num_variables,
                    witness_map@,
                )[j],
        decreases circuit.num_variables - index,
    {
        let value: FieldValue = match witness_map.get(&index) {
            Some(known) => *known,
            None => FieldValue::zero(),
        };
        values.push(to_backend(&value));
        index += 1;
    }
    values
}

/// Translates a circuit and a mapping of its witness into what the backend
/// consumes, or fails on the first opcode that the backend cannot model.
pub fn serialize(circuit: &Circuit, witness_map: BTreeMap<u32, FieldValue>) -> (result: Result<
    CurveAcir,
    TranslateError,
>)
    ensures
        result is Ok <==> all_supported(circuit@.opcodes),
        match result {
            Ok(acir) => acir@ == serialized(circuit@, witness_map@),
            Err(error) => reports_first_unsupported(circuit@.opcodes, error),
        },
{
    match translate(circuit) {
        Ok((gates, public_inputs)) => {
            let values = resolve(circuit, &witness_map);
            Ok(CurveAcir { gates, values, public_inputs })
        },
        Err(error) => Err(error),
    }
}

} // verus!
