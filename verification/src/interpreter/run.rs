//! The interpreter: a program, its buffers, and where it stands.
use vstd::prelude::*;
use crate::bytecode::{Bytecode, BytecodeView, UNSET_INSTR};
use crate::compiler::layout::Program;
use crate::error::{fail, Error, ErrorKind};
use crate::event::{tokens_of, Event, Token};
use crate::interpreter::buffers::{push_to, Buffers, BuffersView};
use crate::interpreter::machine::{key_step, step, MachineView};
use crate::structure::{Structure, StructureView};

verus! {

/// Runs a program over the events of a batch.
#[derive(Debug, PartialEq)]
pub struct Interpreter {
    /// The position of the instruction that gets the next event.
    pub program_counter: usize,
    pub structure: Structure,
    pub buffers: Buffers,
    /// While the value of an unknown key is passed over: the number of
    /// containers open in it.
    pub skip: Option<usize>,
}

/// The mathematical value of an [`Interpreter`].
pub struct InterpreterView {
    pub structure: StructureView,
    pub machine: MachineView,
}

impl View for Interpreter {
    type V = InterpreterView;

    open spec fn view(&self) -> InterpreterView {
        InterpreterView {
            structure: self.structure@,
            machine: MachineView {
                pc: self.program_counter,
                skip: self.skip,
                buffers: self.buffers@,
            },
        }
    }
}

/// The machine after it consumed the token, within the given number of
/// instructions, or `None` where an instruction fails or none of them
/// consumes the token.
#[verifier::opaque]
pub open spec fn accepted(structure: StructureView, machine: MachineView, token: Token, fuel: nat) -> Option<
    MachineView,
>
    decreases fuel,
{
    if fuel == 0 {
        None
    } else {
        match step(structure, machine, token) {
            None => None,
            Some(outcome) => if outcome.consumed {
                Some(outcome.machine)
            } else {
                accepted(structure, outcome.machine, token, (fuel - 1) as nat)
            },
        }
    }
}

/// How accepting a token unfolds.
pub proof fn lemma_accepted_step(structure: StructureView, machine: MachineView, token: Token, fuel: nat)
    ensures
        accepted(structure, machine, token, fuel) == (if fuel == 0 {
            None
        } else {
            match step(structure, machine, token) {
                None => None,
                Some(outcome) => if outcome.consumed {
                    Some(outcome.machine)
                } else {
                    accepted(structure, outcome.machine, token, (fuel - 1) as nat)
                },
            }
        }),
{
    reveal(accepted);
}

/// The number of instructions that may run for one event: each
/// instruction of the program, and one more.
pub open spec fn fuel_of(structure: StructureView) -> nat {
    structure.program.len() + 1
}

/// The machine after it consumed the first `n` of the given tokens, one
/// after the other.
#[verifier::opaque]
pub open spec fn accepted_all(structure: StructureView, machine: MachineView, tokens: Seq<Token>, n: nat) -> Option<
    MachineView,
>
    decreases n,
{
    if n == 0 || n > tokens.len() {
        Some(machine)
    } else {
        match accepted_all(structure, machine, tokens, (n - 1) as nat) {
            None => None,
            Some(before) => accepted(structure, before, tokens[n - 1], fuel_of(structure)),
        }
    }
}

/// How accepting a list of tokens unfolds.
pub proof fn lemma_accepted_all_step(structure: StructureView, machine: MachineView, tokens: Seq<Token>, k: nat)
    ensures
        accepted_all(structure, machine, tokens, 0) == Some(machine),
        k < tokens.len() ==> accepted_all(structure, machine, tokens, k + 1) == (
        match accepted_all(structure, machine, tokens, k) {
            None => None,
            Some(before) => accepted(structure, before, tokens[k as int], fuel_of(structure)),
        }),
{
    reveal(accepted_all);
    assert((k + 1 - 1) as nat == k);
}

/// Once a token is rejected, no longer list of tokens is accepted.
pub proof fn lemma_accepted_all_fail(
    structure: StructureView,
    machine: MachineView,
    tokens: Seq<Token>,
    k: nat,
    n: nat,
)
    requires
        k <= n <= tokens.len(),
        accepted_all(structure, machine, tokens, k) is None,
    ensures
        accepted_all(structure, machine, tokens, n) is None,
    decreases n,
{
    reveal(accepted_all);
    if k < n {
        lemma_accepted_all_fail(structure, machine, tokens, k, (n - 1) as nat);
    }
}

/// Whether the machine stands at the end of the program.
pub open spec fn is_finished(structure: StructureView, machine: MachineView) -> bool {
    &&& machine.skip is None
    &&& machine.pc < structure.program.len()
    &&& structure.program[machine.pc as int].code is ProgramEnd
}

/// Whether the exec outcome of one instruction is the expected one.
pub open spec fn is_step(
    res: Result<bool, Error>,
    before: InterpreterView,
    after: InterpreterView,
    token: Token,
) -> bool {
    &&& after.structure == before.structure
    &&& match step(before.structure, before.machine, token) {
        Some(outcome) => res == Ok::<bool, Error>(outcome.consumed) && after.machine
            == outcome.machine,
        None => res is Err,
    }
}

/// The group of instructions that an instruction belongs to: brackets
/// (0), rows (1), the field (2), the item (3) and the end (4) of a
/// struct, the variant (5), the option marker (6), strings (7), and the
/// rest (8).
pub open spec fn instruction_group_of(code: BytecodeView) -> u8 {
    match code {
        BytecodeView::OuterSequenceStart
        | BytecodeView::ListStart
        | BytecodeView::LargeListStart
        | BytecodeView::TupleStructStart
        | BytecodeView::OuterRecordStart
        | BytecodeView::MapStart
        | BytecodeView::StructStart { .. }
        | BytecodeView::OuterRecordEnd { .. }
        | BytecodeView::TupleStructEnd
        | BytecodeView::TupleStructItem
        | BytecodeView::OuterRecordField { .. } => 0,
        BytecodeView::OuterSequenceItem { .. }
        | BytecodeView::OuterSequenceEnd { .. }
        | BytecodeView::ListItem { .. }
        | BytecodeView::ListEnd { .. }
        | BytecodeView::LargeListItem { .. }
        | BytecodeView::LargeListEnd { .. }
        | BytecodeView::MapItem { .. }
        | BytecodeView::MapEnd { .. } => 1,
        BytecodeView::StructField { .. } => 2,
        BytecodeView::StructItem { .. } => 3,
        BytecodeView::StructEnd { .. } => 4,
        BytecodeView::Variant { .. } => 5,
        BytecodeView::OptionMarker { .. } => 6,
        BytecodeView::PushUtf8 { .. }
        | BytecodeView::PushLargeUtf8 { .. }
        | BytecodeView::PushDictionary { .. } => 7,
        _ => 8,
    }
}

/// The group of instructions that an instruction belongs to.
fn instruction_group(code: &Bytecode) -> (res: u8)
    ensures
        res == instruction_group_of(code@),
{
    match code {
        Bytecode::OuterSequenceStart
        | Bytecode::ListStart
        | Bytecode::LargeListStart
        | Bytecode::TupleStructStart
        | Bytecode::OuterRecordStart
        | Bytecode::MapStart
        | Bytecode::StructStart { .. }
        | Bytecode::OuterRecordEnd { .. }
        | Bytecode::TupleStructEnd
        | Bytecode::TupleStructItem
        | Bytecode::OuterRecordField { .. } => 0,
        Bytecode::OuterSequenceItem { .. }
        | Bytecode::OuterSequenceEnd { .. }
        | Bytecode::ListItem { .. }
        | Bytecode::ListEnd { .. }
        | Bytecode::LargeListItem { .. }
        | Bytecode::LargeListEnd { .. }
        | Bytecode::MapItem { .. }
        | Bytecode::MapEnd { .. } => 1,
        Bytecode::StructField { .. } => 2,
        Bytecode::StructItem { .. } => 3,
        Bytecode::StructEnd { .. } => 4,
        Bytecode::Variant { .. } => 5,
        Bytecode::OptionMarker { .. } => 6,
        Bytecode::PushUtf8 { .. }
        | Bytecode::PushLargeUtf8 { .. }
        | Bytecode::PushDictionary { .. } => 7,
        _ => 8,
    }
}

impl Interpreter {
    /// An interpreter at the start of the program, with empty buffers.
    pub fn new(program: Program) -> (res: Interpreter)
        ensures
            res@.structure == program@.structure,
            res@.machine == (MachineView {
                pc: 0,
                skip: None,
                buffers: BuffersView::empty(program@.buffers),
            }),
    {
        let buffers = Buffers::new(&program.buffers);
        Interpreter { program_counter: 0, structure: program.structure, buffers, skip: None }
    }

    /// Hands the event to the instruction at the program counter. Returns
    /// whether the instruction consumed the event.
    pub fn step(&mut self, event: &Event<'_>) -> (res: Result<bool, Error>)
        ensures
            is_step(res, old(self)@, final(self)@, event@),
    {
        if self.skip.is_some() {
            return self.step_skip(event);
        }
        let pc: usize = self.program_counter;
        if pc >= self.structure.program.len() {
            proof {
                reveal(step);
            }
            return fail(ErrorKind::Interpret, "the program counter left the program");
        }
        let group = instruction_group(&self.structure.program[pc].code);
        if group == 0 {
            self.step_brackets(event)
        } else if group == 1 {
            self.step_rows(event)
        } else if group == 2 {
            self.step_struct_field(event)
        } else if group == 3 {
            self.step_struct_item(event)
        } else if group == 4 {
            self.step_struct_end(event)
        } else if group == 5 {
            self.step_variant(event)
        } else if group == 6 {
            self.step_option(event)
        } else if group == 7 {
            self.step_text(event)
        } else {
            self.step_push(event)
        }
    }

    /// Consumes a key of a struct that arrives as a map.
    fn dispatch_key(&mut self, event: &Event<'_>, struct_idx: usize, seen: usize) -> (res: Result<
        bool,
        Error,
    >)
        requires
            struct_idx < old(self).structure.structs@.len(),
        ensures
            final(self)@.structure == old(self)@.structure,
            match key_step(
                old(self)@.structure.structs[struct_idx as int],
                old(self)@.machine,
                event@,
                seen,
            ) {
                Some(outcome) => res == Ok::<bool, Error>(outcome.consumed) && final(self)@.machine
                    == outcome.machine,
                None => res is Err,
            },
    {
        assert(self.structure@.structs[struct_idx as int]
            == self.structure.structs@[struct_idx as int]@);
        if matches!(
            event,
            Event::StartSequence
                | Event::StartStruct
                | Event::EndSequence
                | Event::EndStruct
                | Event::Null
                | Event::SomeMarker
        ) {
            return fail(ErrorKind::Interpret, "expected a key");
        }
        let known = match event.as_str() {
            Some(key) => self.structure.structs[struct_idx].get(key),
            None => None,
        };
        match known {
            Some(definition) => {
                match self.buffers.mark_seen(seen, definition.index) {
                    Ok(()) => {},
                    Err(e) => {
                        return Err(e);
                    },
                }
                self.program_counter = definition.jump;
            },
            None => {
                self.skip = Some(0);
            },
        }
        Ok(true)
    }

    /// Passes over one event of the value of an unknown key.
    fn step_skip(&mut self, event: &Event<'_>) -> (res: Result<bool, Error>)
        requires
            old(self).skip is Some,
        ensures
            is_step(res, old(self)@, final(self)@, event@),
    {
        reveal(step);
        match self.skip {
            Some(depth) => {
                let is_start = matches!(event, Event::StartSequence | Event::StartStruct);
                let is_end = matches!(event, Event::EndSequence | Event::EndStruct);
                if is_start {
                    if depth == usize::MAX {
                        return fail(ErrorKind::Interpret, "too many nested containers");
                    }
                    self.skip = Some(depth + 1);
                } else if is_end {
                    if depth == 0 {
                        return fail(ErrorKind::Interpret, "a value ends that did not start");
                    } else if depth == 1 {
                        self.skip = None;
                    } else {
                        self.skip = Some(depth - 1);
                    }
                } else if depth == 0 {
                    if !matches!(event, Event::SomeMarker) {
                        self.skip = None;
                    }
                }
                Ok(true)
            },
            None => Ok(true),
        }
    }

    /// Runs an instruction that stands for the start or the end of a container, or
    /// for the name of a field of a record.
    fn step_brackets(&mut self, event: &Event<'_>) -> (res: Result<bool, Error>)
        requires
            old(self).skip is None,
            old(self).program_counter < old(self).structure.program@.len(),
            ({
                let code = old(self).structure.program@[old(self).program_counter as int].code@;
                instruction_group_of(code) == 0
            }),
        ensures
            is_step(res, old(self)@, final(self)@, event@),
    {
        reveal(step);
        let pc: usize = self.program_counter;
        let instr = &self.structure.program[pc];
        assert(self.structure@.program[pc as int] == instr@);
        let next: usize = instr.next;
        match &instr.code {
            Bytecode::OuterSequenceStart
            | Bytecode::ListStart
            | Bytecode::LargeListStart
            | Bytecode::TupleStructStart => {
                if !matches!(event, Event::StartSequence) {
                    return fail(ErrorKind::Interpret, "expected the start of a sequence");
                }
                self.program_counter = next;
                Ok(true)
            },
            Bytecode::OuterRecordStart | Bytecode::MapStart => {
                if !matches!(event, Event::StartStruct) {
                    return fail(ErrorKind::Interpret, "expected the start of a struct");
                }
                self.program_counter = next;
                Ok(true)
            },
            Bytecode::StructStart { seen } => {
                if !matches!(event, Event::StartStruct) {
                    return fail(ErrorKind::Interpret, "expected the start of a struct");
                }
                match self.buffers.clear_seen(*seen) {
                    Ok(()) => {},
                    Err(e) => {
                        return Err(e);
                    },
                }
                self.program_counter = next;
                Ok(true)
            },
            Bytecode::OuterRecordEnd { .. } => {
                if !matches!(event, Event::EndStruct) {
                    return fail(ErrorKind::Interpret, "expected the end of a struct");
                }
                self.program_counter = next;
                Ok(true)
            },
            Bytecode::TupleStructEnd => {
                if !matches!(event, Event::EndSequence) {
                    return fail(ErrorKind::Interpret, "expected the end of a sequence");
                }
                self.program_counter = next;
                Ok(true)
            },
            Bytecode::TupleStructItem => {
                if matches!(event, Event::EndSequence) {
                    return fail(ErrorKind::Interpret, "a tuple ends early");
                }
                self.program_counter = next;
                Ok(false)
            },
            Bytecode::OuterRecordField { field_name, .. } => {
                match event.as_str() {
                    Some(text) => {
                        if !crate::text::str_eq(text, field_name.as_str()) {
                            return fail(ErrorKind::Interpret, "the fields of a record are out of order");
                        }
                    },
                    None => {
                        return fail(ErrorKind::Interpret, "expected the name of a field");
                    },
                }
                self.program_counter = next;
                Ok(true)
            },
            _ => fail(ErrorKind::Interpret, "the instruction does not match"),
        }
    }

    /// Runs an instruction in front of or behind the items of a list, the entries
    /// of a map or the rows.
    fn step_rows(&mut self, event: &Event<'_>) -> (res: Result<bool, Error>)
        requires
            old(self).skip is None,
            old(self).program_counter < old(self).structure.program@.len(),
            ({
                let code = old(self).structure.program@[old(self).program_counter as int].code@;
                instruction_group_of(code) == 1
            }),
        ensures
            is_step(res, old(self)@, final(self)@, event@),
    {
        reveal(step);
        let pc: usize = self.program_counter;
        let instr = &self.structure.program[pc];
        assert(self.structure@.program[pc as int] == instr@);
        let next: usize = instr.next;
        match &instr.code {
            Bytecode::OuterSequenceItem { list_idx } => {
                if *list_idx >= self.structure.large_lists.len() {
                    return fail(ErrorKind::Interpret, "the program uses a list that does not exist");
                }
                if matches!(event, Event::EndSequence) {
                    self.program_counter = self.structure.large_lists[*list_idx].return_pc;
                    Ok(true)
                } else {
                    self.program_counter = next;
                    Ok(false)
                }
            },
            Bytecode::OuterSequenceEnd { list_idx } => {
                if *list_idx >= self.structure.large_lists.len() {
                    return fail(ErrorKind::Interpret, "the program uses a list that does not exist");
                }
                if matches!(event, Event::EndSequence) {
                    self.program_counter = next;
                    Ok(true)
                } else {
                    self.program_counter = self.structure.large_lists[*list_idx].item;
                    Ok(false)
                }
            },
            Bytecode::ListItem { list_idx, offsets } => {
                if *list_idx >= self.structure.lists.len() {
                    return fail(ErrorKind::Interpret, "the program uses a list that does not exist");
                }
                let done: usize = self.structure.lists[*list_idx].return_pc;
                self.list_step(
                    matches!(event, Event::EndSequence),
                    false,
                    *offsets,
                    done,
                    next,
                )
            },
            Bytecode::ListEnd { list_idx, offsets } => {
                if *list_idx >= self.structure.lists.len() {
                    return fail(ErrorKind::Interpret, "the program uses a list that does not exist");
                }
                let item: usize = self.structure.lists[*list_idx].item;
                self.list_step(
                    matches!(event, Event::EndSequence),
                    false,
                    *offsets,
                    next,
                    item,
                )
            },
            Bytecode::LargeListItem { list_idx, offsets } => {
                if *list_idx >= self.structure.large_lists.len() {
                    return fail(ErrorKind::Interpret, "the program uses a list that does not exist");
                }
                let done: usize = self.structure.large_lists[*list_idx].return_pc;
                self.list_step(
                    matches!(event, Event::EndSequence),
                    true,
                    *offsets,
                    done,
                    next,
                )
            },
            Bytecode::LargeListEnd { list_idx, offsets } => {
                if *list_idx >= self.structure.large_lists.len() {
                    return fail(ErrorKind::Interpret, "the program uses a list that does not exist");
                }
                let item: usize = self.structure.large_lists[*list_idx].item;
                self.list_step(
                    matches!(event, Event::EndSequence),
                    true,
                    *offsets,
                    next,
                    item,
                )
            },
            Bytecode::MapItem { map_idx, offsets } => {
                if *map_idx >= self.structure.maps.len() {
                    return fail(ErrorKind::Interpret, "the program uses a map that does not exist");
                }
                let done: usize = self.structure.maps[*map_idx].return_pc;
                self.list_step(matches!(event, Event::EndStruct), false, *offsets, done, next)
            },
            Bytecode::MapEnd { map_idx, offsets } => {
                if *map_idx >= self.structure.maps.len() {
                    return fail(ErrorKind::Interpret, "the program uses a map that does not exist");
                }
                let key: usize = self.structure.maps[*map_idx].key;
                self.list_step(matches!(event, Event::EndStruct), false, *offsets, next, key)
            },
            _ => fail(ErrorKind::Interpret, "the instruction does not match"),
        }
    }

    /// Runs the instruction in front of a field of a struct.
    fn step_struct_field(&mut self, event: &Event<'_>) -> (res: Result<bool, Error>)
        requires
            old(self).skip is None,
            old(self).program_counter < old(self).structure.program@.len(),
            ({
                let code = old(self).structure.program@[old(self).program_counter as int].code@;
                instruction_group_of(code) == 2
            }),
        ensures
            is_step(res, old(self)@, final(self)@, event@),
    {
        reveal(step);
        let pc: usize = self.program_counter;
        let instr = &self.structure.program[pc];
        assert(self.structure@.program[pc as int] == instr@);
        let next: usize = instr.next;
        match &instr.code {
            Bytecode::StructField { struct_idx, field_name, field_idx, seen } => {
                let named = match event.as_str() {
                    Some(text) => crate::text::str_eq(text, field_name.as_str()),
                    None => false,
                };
                if named {
                    match self.buffers.mark_seen(*seen, *field_idx) {
                        Ok(()) => {},
                        Err(e) => {
                            return Err(e);
                        },
                    }
                    self.program_counter = next;
                    Ok(true)
                } else if matches!(event, Event::EndStruct) && *struct_idx
                    < self.structure.structs.len() {
                    assert(self.structure@.structs[*struct_idx as int]
                        == self.structure.structs@[*struct_idx as int]@);
                    let done: usize = self.structure.structs[*struct_idx].return_pc;
                    match self.buffers.close_struct(&self.structure, *struct_idx, *seen) {
                        Ok(()) => {},
                        Err(e) => {
                            return Err(e);
                        },
                    }
                    self.program_counter = done;
                    Ok(true)
                } else {
                    fail(ErrorKind::Interpret, "the fields of a struct are out of order")
                }
            },
            _ => fail(ErrorKind::Interpret, "the instruction does not match"),
        }
    }

    /// Runs the instruction in front of a key of a struct that arrives as a map.
    fn step_struct_item(&mut self, event: &Event<'_>) -> (res: Result<bool, Error>)
        requires
            old(self).skip is None,
            old(self).program_counter < old(self).structure.program@.len(),
            ({
                let code = old(self).structure.program@[old(self).program_counter as int].code@;
                instruction_group_of(code) == 3
            }),
        ensures
            is_step(res, old(self)@, final(self)@, event@),
    {
        reveal(step);
        let pc: usize = self.program_counter;
        let instr = &self.structure.program[pc];
        assert(self.structure@.program[pc as int] == instr@);
        let next: usize = instr.next;
        match &instr.code {
            Bytecode::StructItem { struct_idx, seen } => {
                if *struct_idx >= self.structure.structs.len() {
                    return fail(ErrorKind::Interpret, "the program uses a struct that does not exist");
                }
                assert(self.structure@.structs[*struct_idx as int]
                    == self.structure.structs@[*struct_idx as int]@);
                if matches!(event, Event::EndStruct) {
                    let done: usize = self.structure.structs[*struct_idx].return_pc;
                    match self.buffers.close_struct(&self.structure, *struct_idx, *seen) {
                        Ok(()) => {},
                        Err(e) => {
                            return Err(e);
                        },
                    }
                    self.program_counter = done;
                    return Ok(true);
                }
                self.dispatch_key(event, *struct_idx, *seen)
            },
            _ => fail(ErrorKind::Interpret, "the instruction does not match"),
        }
    }

    /// Runs the instruction at the end of a struct.
    fn step_struct_end(&mut self, event: &Event<'_>) -> (res: Result<bool, Error>)
        requires
            old(self).skip is None,
            old(self).program_counter < old(self).structure.program@.len(),
            ({
                let code = old(self).structure.program@[old(self).program_counter as int].code@;
                instruction_group_of(code) == 4
            }),
        ensures
            is_step(res, old(self)@, final(self)@, event@),
    {
        reveal(step);
        let pc: usize = self.program_counter;
        let instr = &self.structure.program[pc];
        assert(self.structure@.program[pc as int] == instr@);
        let next: usize = instr.next;
        match &instr.code {
            Bytecode::StructEnd { struct_idx, seen } => {
                if *struct_idx >= self.structure.structs.len() {
                    return fail(ErrorKind::Interpret, "the program uses a struct that does not exist");
                }
                assert(self.structure@.structs[*struct_idx as int]
                    == self.structure.structs@[*struct_idx as int]@);
                if matches!(event, Event::EndStruct) {
                    match self.buffers.close_struct(&self.structure, *struct_idx, *seen) {
                        Ok(()) => {},
                        Err(e) => {
                            return Err(e);
                        },
                    }
                    self.program_counter = next;
                    Ok(true)
                } else if self.structure.structs[*struct_idx].item != UNSET_INSTR {
                    self.dispatch_key(event, *struct_idx, *seen)
                } else {
                    fail(ErrorKind::Interpret, "expected the end of a struct")
                }
            },
            _ => fail(ErrorKind::Interpret, "the instruction does not match"),
        }
    }

    /// Runs the instruction that dispatches on the type code of a union.
    fn step_variant(&mut self, event: &Event<'_>) -> (res: Result<bool, Error>)
        requires
            old(self).skip is None,
            old(self).program_counter < old(self).structure.program@.len(),
            ({
                let code = old(self).structure.program@[old(self).program_counter as int].code@;
                instruction_group_of(code) == 5
            }),
        ensures
            is_step(res, old(self)@, final(self)@, event@),
    {
        reveal(step);
        let pc: usize = self.program_counter;
        let instr = &self.structure.program[pc];
        assert(self.structure@.program[pc as int] == instr@);
        let next: usize = instr.next;
        match &instr.code {
            Bytecode::Variant { union_idx, type_idx } => {
                if *union_idx >= self.structure.unions.len() {
                    return fail(ErrorKind::Interpret, "the program uses a union that does not exist");
                }
                assert(self.structure@.unions[*union_idx as int]
                    == self.structure.unions@[*union_idx as int].fields@);
                let tag = match event_index(event) {
                    Some(tag) => tag,
                    None => {
                        return fail(ErrorKind::Interpret, "expected the type code of a variant");
                    },
                };
                let variants = &self.structure.unions[*union_idx].fields;
                if tag >= 128 || tag >= variants.len() as u64 {
                    return fail(ErrorKind::Interpret, "the type code of a variant is out of bounds");
                }
                let target: usize = variants[tag as usize];
                match push_to(&mut self.buffers.u8, *type_idx, tag as u8) {
                    Ok(()) => {},
                    Err(e) => {
                        return Err(e);
                    },
                }
                self.program_counter = target;
                Ok(true)
            },
            _ => fail(ErrorKind::Interpret, "the instruction does not match"),
        }
    }

    /// Runs the instruction in front of a value that may be absent.
    fn step_option(&mut self, event: &Event<'_>) -> (res: Result<bool, Error>)
        requires
            old(self).skip is None,
            old(self).program_counter < old(self).structure.program@.len(),
            ({
                let code = old(self).structure.program@[old(self).program_counter as int].code@;
                instruction_group_of(code) == 6
            }),
        ensures
            is_step(res, old(self)@, final(self)@, event@),
    {
        reveal(step);
        let pc: usize = self.program_counter;
        let instr = &self.structure.program[pc];
        assert(self.structure@.program[pc as int] == instr@);
        let next: usize = instr.next;
        match &instr.code {
            Bytecode::OptionMarker { if_none, validity, null_definition, .. } => {
                if matches!(event, Event::Null) {
                    if *null_definition >= self.structure.nulls.len() {
                        return fail(
                            ErrorKind::Interpret,
                            "the program uses a null definition that does not exist",
                        );
                    }
                    assert(self.structure@.nulls[*null_definition as int]
                        == self.structure.nulls@[*null_definition as int]@);
                    match self.buffers.apply_null(&self.structure.nulls[*null_definition]) {
                        Ok(()) => {},
                        Err(e) => {
                            return Err(e);
                        },
                    }
                    self.program_counter = *if_none;
                    Ok(true)
                } else {
                    match push_to(&mut self.buffers.u1, *validity, true) {
                        Ok(()) => {},
                        Err(e) => {
                            return Err(e);
                        },
                    }
                    self.program_counter = next;
                    Ok(matches!(event, Event::SomeMarker))
                }
            },
            _ => fail(ErrorKind::Interpret, "the instruction does not match"),
        }
    }

    /// Runs an instruction that appends a string.
    fn step_text(&mut self, event: &Event<'_>) -> (res: Result<bool, Error>)
        requires
            old(self).skip is None,
            old(self).program_counter < old(self).structure.program@.len(),
            ({
                let code = old(self).structure.program@[old(self).program_counter as int].code@;
                instruction_group_of(code) == 7
            }),
        ensures
            is_step(res, old(self)@, final(self)@, event@),
    {
        reveal(step);
        let pc: usize = self.program_counter;
        let instr = &self.structure.program[pc];
        assert(self.structure@.program[pc as int] == instr@);
        let next: usize = instr.next;
        match &instr.code {
            Bytecode::PushUtf8 { buffer, offsets } => {
                let text = match event.as_str() {
                    Some(text) => text,
                    None => {
                        return fail(ErrorKind::Interpret, "expected a string");
                    },
                };
                match self.buffers.push_string(false, *buffer, *offsets, text) {
                    Ok(()) => {},
                    Err(e) => {
                        return Err(e);
                    },
                }
                self.program_counter = next;
                Ok(true)
            },
            Bytecode::PushLargeUtf8 { buffer, offsets } => {
                let text = match event.as_str() {
                    Some(text) => text,
                    None => {
                        return fail(ErrorKind::Interpret, "expected a string");
                    },
                };
                match self.buffers.push_string(true, *buffer, *offsets, text) {
                    Ok(()) => {},
                    Err(e) => {
                        return Err(e);
                    },
                }
                self.program_counter = next;
                Ok(true)
            },
            Bytecode::PushDictionary { values, indices, dictionary } => {
                let text = match event.as_str() {
                    Some(text) => text,
                    None => {
                        return fail(ErrorKind::Interpret, "expected a string");
                    },
                };
                match self.buffers.push_dictionary_value(values, indices, *dictionary, text) {
                    Ok(()) => {},
                    Err(e) => {
                        return Err(e);
                    },
                }
                self.program_counter = next;
                Ok(true)
            },
            _ => fail(ErrorKind::Interpret, "the instruction does not match"),
        }
    }

    /// Runs an instruction that appends a primitive value, or one that
    /// accepts nothing.
    fn step_push(&mut self, event: &Event<'_>) -> (res: Result<bool, Error>)
        requires
            old(self).skip is None,
            old(self).program_counter < old(self).structure.program@.len(),
            instruction_group_of(
                old(self).structure.program@[old(self).program_counter as int].code@,
            ) == 8,
        ensures
            is_step(res, old(self)@, final(self)@, event@),
    {
        reveal(step);
        let pc: usize = self.program_counter;
        let instr = &self.structure.program[pc];
        assert(self.structure@.program[pc as int] == instr@);
        let next: usize = instr.next;
        match &instr.code {
            Bytecode::Panic { message } => Err(
                Error { kind: ErrorKind::Interpret, message: message.clone() },
            ),
            Bytecode::ProgramEnd => fail(ErrorKind::Interpret, "the program has ended"),
            Bytecode::UnionEnd => fail(ErrorKind::Interpret, "the end of a union was reached"),
            Bytecode::PushF16 { .. } => fail(
                ErrorKind::Interpret,
                "16-bit floating point values are not supported",
            ),
            code => {
                match self.buffers.push_primitive(code, event) {
                    Ok(()) => {},
                    Err(e) => {
                        return Err(e);
                    },
                }
                self.program_counter = next;
                Ok(true)
            },
        }
    }

    /// Ends the row of a list or counts one more item of it, and hands
    /// control on.
    fn list_step(&mut self, ended: bool, wide: bool, offsets: usize, done: usize, item: usize) -> (res:
        Result<bool, Error>)
        ensures
            final(self)@.structure == old(self)@.structure,
            final(self)@.machine.skip == old(self)@.machine.skip,
            match old(self)@.machine.buffers.with_list_step(wide, offsets, ended) {
                Some(buffers) => res == Ok::<bool, Error>(ended) && final(self)@.machine.buffers
                    == buffers && final(self)@.machine.pc == (if ended {
                    done
                } else {
                    item
                }),
                None => res is Err,
            },
    {
        match self.buffers.list_step(wide, offsets, ended) {
            Ok(()) => {},
            Err(e) => {
                return Err(e);
            },
        }
        self.program_counter = if ended {
            done
        } else {
            item
        };
        Ok(ended)
    }

    /// Accepts one event: runs instructions until one of them consumes
    /// the event.
    pub fn accept(&mut self, event: &Event<'_>) -> (res: Result<(), Error>)
        ensures
            final(self)@.structure == old(self)@.structure,
            match accepted(
                old(self)@.structure,
                old(self)@.machine,
                event@,
                fuel_of(old(self)@.structure),
            ) {
                Some(machine) => res is Ok && final(self)@.machine == machine,
                None => res is Err,
            },
    {
        let mut remaining: usize = self.structure.program.len();
        let ghost structure = self@.structure;
        let ghost start = self@.machine;
        assert(structure.program.len() == self.structure.program@.len());
        loop
            invariant
                self@.structure == structure,
                structure == old(self)@.structure,
                start == old(self)@.machine,
                accepted(structure, start, event@, fuel_of(structure)) == accepted(
                    structure,
                    self@.machine,
                    event@,
                    (remaining + 1) as nat,
                ),
            decreases remaining,
        {
            proof {
                lemma_accepted_step(structure, self@.machine, event@, (remaining + 1) as nat);
                if remaining > 0 {
                    let outcome = step(structure, self@.machine, event@);
                    if outcome is Some {
                        lemma_accepted_step(
                            structure,
                            outcome.unwrap().machine,
                            event@,
                            remaining as nat,
                        );
                    }
                } else {
                    let outcome = step(structure, self@.machine, event@);
                    if outcome is Some {
                        lemma_accepted_step(structure, outcome.unwrap().machine, event@, 0);
                    }
                }
            }
            match self.step(event) {
                Ok(true) => {
                    return Ok(());
                },
                Ok(false) => {
                    if remaining == 0 {
                        return fail(ErrorKind::Interpret, "the program does not consume the event");
                    }
                    remaining = remaining - 1;
                },
                Err(e) => {
                    return Err(e);
                },
            }
        }
    }

    /// Accepts the events of a batch, one after the other.
    pub fn accept_all(&mut self, events: &[Event<'_>]) -> (res: Result<(), Error>)
        ensures
            final(self)@.structure == old(self)@.structure,
            match accepted_all(
                old(self)@.structure,
                old(self)@.machine,
                tokens_of(events@),
                events@.len(),
            ) {
                Some(machine) => res is Ok && final(self)@.machine == machine,
                None => res is Err,
            },
    {
        let n: usize = events.len();
        let ghost structure = self@.structure;
        let ghost start = self@.machine;
        let ghost tokens = tokens_of(events@);
        let mut i: usize = 0;
        proof {
            lemma_accepted_all_step(structure, start, tokens, 0);
        }
        while i < n
            invariant
                n == events@.len(),
                i <= n,
                tokens == tokens_of(events@),
                self@.structure == structure,
                structure == old(self)@.structure,
                start == old(self)@.machine,
                accepted_all(structure, start, tokens, i as nat) == Some(self@.machine),
            decreases n - i,
        {
            proof {
                lemma_accepted_all_step(structure, start, tokens, i as nat);
            }
            match self.accept(&events[i]) {
                Ok(()) => {},
                Err(e) => {
                    proof {
                        lemma_accepted_all_fail(structure, start, tokens, (i + 1) as nat, n as nat);
                    }
                    return Err(e);
                },
            }
            i = i + 1;
        }
        Ok(())
    }

    /// Ends the batch. Fails unless the program has reached its end.
    pub fn finish(&self) -> (res: Result<(), Error>)
        ensures
            res is Ok <==> is_finished(self@.structure, self@.machine),
    {
        if self.skip.is_some() {
            return fail(ErrorKind::Interpret, "the events end inside a value");
        }
        if self.program_counter >= self.structure.program.len() {
            return fail(ErrorKind::Interpret, "the program counter left the program");
        }
        assert(self.structure@.program[self.program_counter as int]
            == self.structure.program@[self.program_counter as int]@);
        match self.structure.program[self.program_counter].code {
            Bytecode::ProgramEnd => Ok(()),
            _ => fail(ErrorKind::Interpret, "the events end before the program"),
        }
    }
}

/// The value of an integer event that is not negative.
pub fn event_index(event: &Event<'_>) -> (res: Option<u64>)
    ensures
        match event@.index_value() {
            Some(value) => res == Some(value as u64) && value <= u64::MAX,
            None => res is None,
        },
{
    match event {
        Event::U8(v) => Some(*v as u64),
        Event::U16(v) => Some(*v as u64),
        Event::U32(v) => Some(*v as u64),
        Event::U64(v) => Some(*v),
        Event::I8(v) => if *v >= 0 {
            Some(*v as u64)
        } else {
            None
        },
        Event::I16(v) => if *v >= 0 {
            Some(*v as u64)
        } else {
            None
        },
        Event::I32(v) => if *v >= 0 {
            Some(*v as u64)
        } else {
            None
        },
        Event::I64(v) => if *v >= 0 {
            Some(*v as u64)
        } else {
            None
        },
        _ => None,
    }
}

} // verus!
