//! Programs as bytes: big-endian 16-bit words, one instruction each.

use crate::instruction::{Condition, Instruction, Location};
use crate::instruction_array::{texts, Contents, InstructionArray};
use crate::text::{decimal, push_decimal};
use batpu_assembly::components::condition::Condition as AsmCondition;
use batpu_assembly::components::location::Location as AsmLocation;
use batpu_assembly::instruction::Instruction as AsmInstruction;
use byteorder::{BigEndian, ByteOrder};
use vstd::prelude::*;
use vstd::slice::slice_subrange;
use vstd::string::*;

verus! {

/// What decoding one word gave: the instruction, or the text of a diagnostic.
pub open spec fn outcome_view(outcome: Result<Instruction, String>) -> Result<
    Instruction,
    Seq<char>,
> {
    match outcome {
        Ok(instruction) => Ok(instruction),
        Err(message) => Err(message@),
    }
}

/// `outcome_view` of each outcome.
pub open spec fn outcome_views(outcomes: Seq<Result<Instruction, String>>) -> Seq<
    Result<Instruction, Seq<char>>,
> {
    outcomes.map_values(|outcome: Result<Instruction, String>| outcome_view(outcome))
}

/// The instructions among `outcomes`, in order.
pub open spec fn instructions_of(outcomes: Seq<Result<Instruction, Seq<char>>>) -> Seq<
    Instruction,
>
    decreases outcomes.len(),
{
    if outcomes.len() == 0 {
        Seq::empty()
    } else {
        match outcomes.last() {
            Ok(instruction) => instructions_of(outcomes.drop_last()).push(instruction),
            Err(_) => instructions_of(outcomes.drop_last()),
        }
    }
}

/// The diagnostics among `outcomes`, in order.
pub open spec fn errors_of(outcomes: Seq<Result<Instruction, Seq<char>>>) -> Seq<Seq<char>>
    decreases outcomes.len(),
{
    if outcomes.len() == 0 {
        Seq::empty()
    } else {
        match outcomes.last() {
            Ok(_) => errors_of(outcomes.drop_last()),
            Err(message) => errors_of(outcomes.drop_last()).push(message),
        }
    }
}

/// Every diagnostic where there is one, and then no instruction at all;
/// else every instruction.
pub open spec fn collected(outcomes: Seq<Result<Instruction, Seq<char>>>) -> Contents {
    if errors_of(outcomes).len() > 0 {
        Contents::Errors(errors_of(outcomes))
    } else {
        Contents::Instructions(instructions_of(outcomes))
    }
}

/// Whether every outcome is an instruction.
pub open spec fn all_decoded(outcomes: Seq<Result<Instruction, Seq<char>>>) -> bool {
    forall|i: int| 0 <= i < outcomes.len() ==> (#[trigger] outcomes[i]) is Ok
}

/// Collecting sorts the outcomes and loses none: every outcome is among the
/// instructions or among the diagnostics. There is a diagnostic exactly
/// where some outcome is one, and the result then holds no instruction;
/// where none is, the instructions are the outcomes themselves, in order.
pub proof fn lemma_collected(outcomes: Seq<Result<Instruction, Seq<char>>>)
    ensures
        instructions_of(outcomes).len() + errors_of(outcomes).len() == outcomes.len(),
        collected(outcomes) is Instructions <==> all_decoded(outcomes),
        collected(outcomes) is Errors <==> !all_decoded(outcomes),
        all_decoded(outcomes) ==> collected(outcomes) == Contents::Instructions(
            outcomes.map_values(|outcome: Result<Instruction, Seq<char>>| outcome->Ok_0),
        ),
    decreases outcomes.len(),
{
    if outcomes.len() > 0 {
        let earlier = outcomes.drop_last();
        lemma_collected(earlier);
        if all_decoded(outcomes) {
            assert forall|i: int| 0 <= i < earlier.len() implies (#[trigger] earlier[i]) is Ok by {
                assert(earlier[i] == outcomes[i]);
            }
            assert(outcomes.last() is Ok);
            assert(instructions_of(outcomes) =~= outcomes.map_values(
                |outcome: Result<Instruction, Seq<char>>| outcome->Ok_0,
            ));
        } else if all_decoded(earlier) {
            assert(outcomes.last() is Err) by {
                if outcomes.last() is Ok {
                    assert forall|i: int| 0 <= i < outcomes.len() implies (
                    #[trigger] outcomes[i]) is Ok by {
                        if i < earlier.len() {
                            assert(earlier[i] == outcomes[i]);
                        }
                    }
                }
            }
        }
    } else {
        assert(instructions_of(outcomes) =~= outcomes.map_values(
            |outcome: Result<Instruction, Seq<char>>| outcome->Ok_0,
        ));
    }
}

/// Gathers per-word outcomes into one array: the diagnostics of all words
/// that failed, or, where none failed, the instructions.
pub fn collect(outcomes: Vec<Result<Instruction, String>>) -> (array: InstructionArray)
    ensures
        array@ == collected(outcome_views(outcomes@)),
        array@ is Instructions <==> all_decoded(outcome_views(outcomes@)),
{
    proof {
        lemma_collected(outcome_views(outcomes@));
    }
    let mut instructions: Vec<Instruction> = Vec::new();
    let mut errors: Vec<String> = Vec::new();
    let ghost all = outcomes@;
    for outcome in it: outcomes
        invariant
            it.seq() == all,
            instructions@ == instructions_of(outcome_views(all.take(it.index()))),
            texts(errors@) == errors_of(outcome_views(all.take(it.index()))),
    {
        proof {
            let done = outcome_views(all.take(it.index()));
            let next = outcome_views(all.take(it.index() + 1));
            assert(next.drop_last() =~= done);
            assert(next.last() == outcome_view(outcome));
        }
        match outcome {
            Ok(instruction) => {
                instructions.push(instruction);
            },
            Err(message) => {
                errors.push(message);
                assert(texts(errors@) =~= errors_of(outcome_views(all.take(it.index() + 1))));
            },
        }
    }
    assert(all.take(all.len() as int) =~= all);
    if errors.len() > 0 {
        InstructionArray::new_errors(errors)
    } else {
        InstructionArray::new_instructions(instructions)
    }
}

/// The instruction that a word encodes, if it encodes one: what
/// `batpu_assembly::instruction::Instruction::from_binary` makes of the word,
/// written with this crate's types. Nothing more is assumed of it than that
/// the same word always gives the same answer.
pub uninterp spec fn decoded(word: u16) -> Option<Instruction>;

/// The families in which the decoder is asked for an instruction.
#[derive(Clone, Copy, Debug, PartialEq, Eq, Structural)]
pub enum Family {
    /// `add`, `sub`, `nor`, `and`.
    Arithmetic,
    /// `xor`, the right shift, `ldi`, `adi`.
    Logic,
    /// `jmp`, `brh`, `cal`, `ret`.
    Flow,
    /// `nop`, `hlt`, `lod`, `str`.
    Memory,
}

/// The family of each instruction.
pub open spec fn family_of(instruction: Instruction) -> Family {
    match instruction {
        Instruction::Addition(..) | Instruction::Subtraction(..) | Instruction::BitwiseNOR(..)
        | Instruction::BitwiseAND(..) => Family::Arithmetic,
        Instruction::BitwiseXOR(..) | Instruction::RightShift(..) | Instruction::LoadImmediate(
            ..,
        ) | Instruction::AddImmediate(..) => Family::Logic,
        Instruction::Jump(..) | Instruction::Branch(..) | Instruction::Call(..)
        | Instruction::Return => Family::Flow,
        Instruction::NoOperation | Instruction::Halt | Instruction::MemoryLoad(..)
        | Instruction::MemoryStore(..) => Family::Memory,
    }
}

/// `found`, where it is an instruction of `family`.
pub open spec fn within(found: Option<Instruction>, family: Family) -> Option<Instruction> {
    match found {
        Some(instruction) if family_of(instruction) == family => found,
        _ => None,
    }
}

/// Calls `batpu_assembly::instruction::Instruction::from_binary` and hands
/// back what it gave where that is an `add`, `sub`, `nor` or `and`, each
/// register as its number; nothing for any other instruction. Trusted: that
/// the decoder's answer depends on the word alone, so that it is `decoded`.
#[verifier::external_body]
fn decode_arithmetic(word: u16) -> (found: Option<Instruction>)
    ensures
        found == within(decoded(word), Family::Arithmetic),
{
    match AsmInstruction::from_binary(word) {
        AsmInstruction::Addition(a, b, c) => Some(Instruction::Addition(a.0.value(), b.0.value(), c.0.value())),
        AsmInstruction::Subtraction(a, b, c) => Some(Instruction::Subtraction(a.0.value(), b.0.value(), c.0.value())),
        AsmInstruction::BitwiseNOR(a, b, c) => Some(Instruction::BitwiseNOR(a.0.value(), b.0.value(), c.0.value())),
        AsmInstruction::BitwiseAND(a, b, c) => Some(Instruction::BitwiseAND(a.0.value(), b.0.value(), c.0.value())),
        _ => None,
    }
}

/// Calls `batpu_assembly::instruction::Instruction::from_binary` and hands
/// back what it gave where that is an `xor`, a right shift, an `ldi` or an
/// `adi`, each register as its number and the immediate as it stands;
/// nothing for any other instruction. Trusted: that the decoder's answer
/// depends on the word alone, so that it is `decoded`.
#[verifier::external_body]
fn decode_logic(word: u16) -> (found: Option<Instruction>)
    ensures
        found == within(decoded(word), Family::Logic),
{
    match AsmInstruction::from_binary(word) {
        AsmInstruction::BitwiseXOR(a, b, c) => Some(Instruction::BitwiseXOR(a.0.value(), b.0.value(), c.0.value())),
        AsmInstruction::RightShift(a, c) => Some(Instruction::RightShift(a.0.value(), c.0.value())),
        AsmInstruction::LoadImmediate(a, i) => Some(Instruction::LoadImmediate(a.0.value(), i.0)),
        AsmInstruction::AddImmediate(a, i) => Some(Instruction::AddImmediate(a.0.value(), i.0)),
        _ => None,
    }
}

/// Calls `batpu_assembly::instruction::Instruction::from_binary` and hands
/// back what it gave where that is a `jmp`, `brh`, `cal` or `ret`, the
/// condition under its own name and the target, which the decoder always
/// gives as an absolute address, as that address; nothing for any other
/// instruction. Trusted: that the decoder's answer depends on the word
/// alone, so that it is `decoded`.
#[verifier::external_body]
fn decode_flow(word: u16) -> (found: Option<Instruction>)
    ensures
        found == within(decoded(word), Family::Flow),
{
    match AsmInstruction::from_binary(word) {
        AsmInstruction::Jump(AsmLocation::Address(t)) => Some(Instruction::Jump(Location::Address(t.0.value()))),
        AsmInstruction::Call(AsmLocation::Address(t)) => Some(Instruction::Call(Location::Address(t.0.value()))),
        AsmInstruction::Return => Some(Instruction::Return),
        AsmInstruction::Branch(c, AsmLocation::Address(t)) => Some(Instruction::Branch(match c {
            AsmCondition::Zero => Condition::Zero,
            AsmCondition::NotZero => Condition::NotZero,
            AsmCondition::Carry => Condition::Carry,
            AsmCondition::NotCarry => Condition::NotCarry,
        }, Location::Address(t.0.value()))),
        _ => None,
    }
}

/// Calls `batpu_assembly::instruction::Instruction::from_binary` and hands
/// back what it gave where that is a `nop`, `hlt`, `lod` or `str`, each
/// register as its number and the offset as the signed number that the
/// decoder made of it; nothing for any other instruction. Trusted: that the
/// decoder's answer depends on the word alone, so that it is `decoded`.
#[verifier::external_body]
fn decode_memory(word: u16) -> (found: Option<Instruction>)
    ensures
        found == within(decoded(word), Family::Memory),
{
    match AsmInstruction::from_binary(word) {
        AsmInstruction::NoOperation => Some(Instruction::NoOperation),
        AsmInstruction::Halt => Some(Instruction::Halt),
        AsmInstruction::MemoryLoad(a, b, o) => Some(Instruction::MemoryLoad(a.0.value(), b.0.value(), o.0.value())),
        AsmInstruction::MemoryStore(a, b, o) => Some(Instruction::MemoryStore(a.0.value(), b.0.value(), o.0.value())),
        _ => None,
    }
}

/// The diagnostic for a word that encodes no instruction.
pub open spec fn invalid_word_text(word: u16) -> Seq<char> {
    "Invalid instruction "@ + decimal(word as nat)
}

/// What decoding `word` comes to.
pub open spec fn word_outcome(word: u16) -> Result<Instruction, Seq<char>> {
    match decoded(word) {
        Some(instruction) => Ok(instruction),
        None => Err(invalid_word_text(word)),
    }
}

/// Decodes one word: the instruction that it encodes, or a diagnostic that
/// names the word.
pub fn decode_word(word: u16) -> (outcome: Result<Instruction, String>)
    ensures
        outcome_view(outcome) == word_outcome(word),
{
    if let Some(instruction) = decode_arithmetic(word) {
        return Ok(instruction);
    }
    if let Some(instruction) = decode_logic(word) {
        return Ok(instruction);
    }
    if let Some(instruction) = decode_flow(word) {
        return Ok(instruction);
    }
    if let Some(instruction) = decode_memory(word) {
        return Ok(instruction);
    }
    let mut message = String::from_str("Invalid instruction ");
    push_decimal(&mut message, word as u32);
    Err(message)
}

/// The outcome of decoding each of `words`.
pub open spec fn word_outcomes(words: Seq<u16>) -> Seq<Result<Instruction, Seq<char>>> {
    words.map_values(|word: u16| word_outcome(word))
}

/// Decodes every word. One word that encodes no instruction makes the
/// result the diagnostics of all such words, and no instruction is kept.
pub fn words_to_instructions(words: &[u16]) -> (array: InstructionArray)
    ensures
        array@ == collected(word_outcomes(words@)),
        array@ is Instructions <==> all_decoded(word_outcomes(words@)),
{
    proof {
        lemma_collected(word_outcomes(words@));
    }
    let mut outcomes: Vec<Result<Instruction, String>> = Vec::new();
    let mut i: usize = 0;
    while i < words.len()
        invariant
            i <= words.len(),
            outcomes@.len() == i,
            outcome_views(outcomes@) == word_outcomes(words@.take(i as int)),
        decreases words.len() - i,
    {
        let ghost before = outcomes@;
        let outcome = decode_word(words[i]);
        outcomes.push(outcome);
        i += 1;
        proof {
            let got = outcome_views(outcomes@);
            let want = word_outcomes(words@.take(i as int));
            assert forall|j: int| 0 <= j < got.len() implies got[j] == want[j] by {
                if j < i - 1 {
                    assert(got[j] == outcome_views(before)[j]);
                    assert(want[j] == word_outcomes(words@.take(i - 1))[j]);
                }
            }
            assert(got =~= want);
        }
    }
    assert(words@.take(i as int) =~= words@);
    collect(outcomes)
}

/// The word that two bytes make, the high byte first.
pub open spec fn big_endian_word(high: u8, low: u8) -> u16 {
    (high as int * 256 + low as int) as u16
}

/// The whole words of `binary`. A last odd byte belongs to no word.
pub open spec fn words_of(binary: Seq<u8>) -> Seq<u16> {
    Seq::new(
        (binary.len() / 2) as nat,
        |i: int| big_endian_word(binary[2 * i], binary[2 * i + 1]),
    )
}

/// Calls `byteorder::ByteOrder::read_u16` of `byteorder::BigEndian`.
/// Trusted: it reads the first two bytes of `bytes` as one number, the
/// first byte the high one; it panics on fewer than two bytes.
#[verifier::external_body]
fn read_word(bytes: &[u8]) -> (word: u16)
    requires
        bytes@.len() >= 2,
    ensures
        word == big_endian_word(bytes@[0], bytes@[1]),
{
    BigEndian::read_u16(bytes)
}

/// Decodes a program from its bytes: big-endian 16-bit words, one
/// instruction each. A trailing odd byte is not read. Decoding goes on past
/// a word that encodes no instruction, so that the result names every such
/// word; it then holds no instruction.
pub fn binary_to_instructions(binary: &[u8]) -> (array: InstructionArray)
    ensures
        array@ == collected(word_outcomes(words_of(binary@))),
        array@ is Instructions <==> all_decoded(word_outcomes(words_of(binary@))),
{
    proof {
        lemma_collected(word_outcomes(words_of(binary@)));
    }
    let count: usize = binary.len() / 2;
    let mut outcomes: Vec<Result<Instruction, String>> = Vec::new();
    let mut i: usize = 0;
    while i < count
        invariant
            count == binary@.len() / 2,
            2 * count <= binary.len(),
            i <= count,
            outcomes@.len() == i,
            outcome_views(outcomes@) == word_outcomes(words_of(binary@).take(i as int)),
        decreases count - i,
    {
        let ghost before = outcomes@;
        let pair = slice_subrange(binary, 2 * i, 2 * i + 2);
        let outcome = decode_word(read_word(pair));
        outcomes.push(outcome);
        i += 1;
        proof {
            let got = outcome_views(outcomes@);
            let want = word_outcomes(words_of(binary@).take(i as int));
            assert forall|j: int| 0 <= j < got.len() implies got[j] == want[j] by {
                if j < i - 1 {
                    assert(got[j] == outcome_views(before)[j]);
                    assert(want[j] == word_outcomes(words_of(binary@).take(i - 1))[j]);
                }
            }
            assert(got =~= want);
        }
    }
    assert(words_of(binary@).take(i as int) =~= words_of(binary@));
    collect(outcomes)
}

/// What an assembler's run comes to: its diagnostics where it failed, else
/// what its words decode to.
pub open spec fn assembled(outcome: Result<Vec<u16>, Vec<String>>) -> Contents {
    match outcome {
        Ok(words) => collected(word_outcomes(words@)),
        Err(errors) => Contents::Errors(texts(errors@)),
    }
}

/// Turns the outcome of assembling a text into an array: the assembler's
/// diagnostics, unchanged, where it failed (it then names at least one), else
/// the instructions that its words decode to.
pub fn from_assembly(outcome: Result<Vec<u16>, Vec<String>>) -> (array: InstructionArray)
    requires
        outcome matches Err(errors) ==> errors@.len() > 0,
    ensures
        array@ == assembled(outcome),
{
    match outcome {
        Ok(words) => words_to_instructions(words.as_slice()),
        Err(errors) => InstructionArray::new_errors(errors),
    }
}

} // verus!
