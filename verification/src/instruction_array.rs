//! The outcome of a conversion: instructions, or the diagnostics that
//! stood in their way.

use crate::instruction::Instruction;
use vstd::prelude::*;

verus! {

/// What an [`InstructionArray`] holds, as a mathematical value.
pub enum Contents {
    Instructions(Seq<Instruction>),
    Errors(Seq<Seq<char>>),
}

/// The characters of each message.
pub open spec fn texts(messages: Seq<String>) -> Seq<Seq<char>> {
    messages.map_values(|m: String| m@)
}

enum Held {
    Instructions(Vec<Instruction>),
    Errors(Vec<String>),
}

/// Either a sequence of instructions or a non-empty list of diagnostics,
/// never both and never neither. It does not change once made.
pub struct InstructionArray {
    held: Held,
}

impl View for InstructionArray {
    type V = Contents;

    closed spec fn view(&self) -> Contents {
        match self.held {
            Held::Instructions(instructions) => Contents::Instructions(instructions@),
            Held::Errors(errors) => Contents::Errors(texts(errors@)),
        }
    }
}

impl InstructionArray {
    #[verifier::type_invariant]
    spec fn inv(self) -> bool {
        self.held matches Held::Errors(errors) ==> errors@.len() > 0
    }

    /// The diagnostics, none where instructions are held.
    pub open spec fn messages(&self) -> Seq<Seq<char>> {
        match self@ {
            Contents::Instructions(_) => Seq::empty(),
            Contents::Errors(messages) => messages,
        }
    }

    /// An array that holds `instructions`.
    pub fn new_instructions(instructions: Vec<Instruction>) -> (array: Self)
        ensures
            array@ == Contents::Instructions(instructions@),
    {
        InstructionArray { held: Held::Instructions(instructions) }
    }

    /// An array that holds `errors`, of which there is at least one.
    pub fn new_errors(errors: Vec<String>) -> (array: Self)
        requires
            errors@.len() > 0,
        ensures
            array@ == Contents::Errors(texts(errors@)),
    {
        InstructionArray { held: Held::Errors(errors) }
    }

    /// Whether diagnostics are held in place of instructions.
    pub fn has_errors(&self) -> (held: bool)
        ensures
            held == (self@ is Errors),
            held == (self.messages().len() > 0),
    {
        proof {
            use_type_invariant(self);
        }
        match &self.held {
            Held::Instructions(_) => false,
            Held::Errors(_) => true,
        }
    }

    /// The instructions, where no diagnostics are held.
    pub fn instructions(&self) -> (held: Option<&Vec<Instruction>>)
        ensures
            match self@ {
                Contents::Instructions(instructions) => held matches Some(v) && v@
                    == instructions,
                Contents::Errors(_) => held is None,
            },
    {
        match &self.held {
            Held::Instructions(instructions) => Some(instructions),
            Held::Errors(_) => None,
        }
    }

    /// The text of every diagnostic, in order; empty where instructions are held.
    pub fn get_errors(&self) -> (messages: Vec<String>)
        ensures
            texts(messages@) == self.messages(),
    {
        let mut messages: Vec<String> = Vec::new();
        match &self.held {
            Held::Instructions(_) => {
                assert(texts(messages@) =~= self.messages());
            },
            Held::Errors(errors) => {
                let mut i: usize = 0;
                while i < errors.len()
                    invariant
                        i <= errors.len(),
                        messages@ == errors@.subrange(0, i as int),
                    decreases errors.len() - i,
                {
                    messages.push(errors[i].clone());
                    i += 1;
                    assert(messages@ =~= errors@.subrange(0, i as int));
                }
                assert(messages@ =~= errors@);
            },
        }
        messages
    }
}

/// An array holds instructions or diagnostics: exactly one of the two.
pub proof fn lemma_exactly_one(array: InstructionArray)
    ensures
        (array@ is Instructions) != (array@ is Errors),
{
}

} // verus!
