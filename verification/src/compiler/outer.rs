//! Compiles the top level of a schema: the sequence of rows and, around
//! the fields, the record of each row.
use vstd::prelude::*;
use crate::bytecode::{Bytecode, Instruction};
use crate::compiler::laws::{lemma_compiled_markers_are_filled, markers_are_filled};
use crate::compiler::layout::{
    lemma_outer_fields_fail, lemma_outer_fields_step, outer_is_refused, CompilationOptions, Program,
    ProgramView,
};
use crate::error::{fail, Error, ErrorKind};
use crate::schema::{have_unique_names, views_of, FieldView, GenericField};
use crate::structure::{FieldDefinition, ListDefinition, StructDefinition};

verus! {

impl Program {
    /// Compiles the top-level field at position `idx`.
    pub fn compile_outer_field(&mut self, fields: &[GenericField], idx: usize) -> (res: Result<
        (),
        Error,
    >)
        requires
            idx < fields@.len(),
            old(self)@.options.wrap_with_struct ==> old(self)@.structure.structs.len() > 0,
        ensures
            match old(self)@.compile_outer_field(views_of(fields@), idx as nat) {
                Some(program) => res is Ok && final(self)@ == program,
                None => res is Err,
            },
            res is Ok ==> old(self)@.structure.precedes(final(self)@.structure),
            final(self)@.options == old(self)@.options,
    {
        let field = &fields[idx];
        proof {
            field.lemma_view();
        }
        if self.options.wrap_with_struct {
            self.push_instr(
                Bytecode::OuterRecordField { struct_idx: 0, field_name: field.name.clone() },
            );
            let jump: usize = self.structure.program.len();
            self.structure.insert_struct_field(
                0,
                field.name.clone(),
                FieldDefinition { index: idx, jump, null_definition: None },
            );
        }
        let ghost announced = self@;
        assert(old(self)@.structure.precedes(announced.structure));
        let f = match self.compile_field(field) {
            Ok((f, _)) => f,
            Err(e) => {
                return Err(e);
            },
        };
        let ghost compiled = self@;
        self.structure.push_array_mapping(f);
        assert(compiled.structure.precedes(self@.structure));
        Ok(())
    }

    /// Compiles the whole program for the given top-level fields, before
    /// linking.
    pub fn compile_outer_structure(&mut self, fields: &[GenericField]) -> (res: Result<(), Error>)
        ensures
            match old(self)@.compile_outer_structure(views_of(fields@)) {
                Some(program) => res is Ok && final(self)@ == program,
                None => res is Err,
            },
            outer_is_refused(old(self)@.options, views_of(fields@)) ==> final(self)@ == old(self)@,
    {
        if !self.options.wrap_with_struct && fields.len() != 1 {
            return fail(
                ErrorKind::Compile,
                "only single fields are supported without struct wrapping",
            );
        }
        if self.options.wrap_with_struct && !have_unique_names(fields) {
            return fail(ErrorKind::Compile, "The fields of a record must have different names");
        }
        self.structure.large_lists.push(ListDefinition { item: 0, return_pc: 0, offset: 0 });
        self.push_instr(Bytecode::OuterSequenceStart);
        self.push_instr(Bytecode::OuterSequenceItem { list_idx: 0 });
        self.structure.large_lists[0].item = self.structure.program.len();
        if self.options.wrap_with_struct {
            self.structure.push_struct(StructDefinition::new());
            self.push_instr(Bytecode::OuterRecordStart);
        }
        let ghost start = self@;
        assert(start == old(self)@.open_outer_structure());
        let n: usize = fields.len();
        let mut field_idx: usize = 0;
        proof {
            lemma_outer_fields_step(start, views_of(fields@), 0);
        }
        while field_idx < n
            invariant
                n == fields@.len(),
                !outer_is_refused(old(self)@.options, views_of(fields@)),
                start.compile_outer_fields(views_of(fields@), n as nat) is None
                    ==> old(self)@.compile_outer_structure(views_of(fields@)) is None,
                field_idx <= n,
                start.compile_outer_fields(views_of(fields@), field_idx as nat) == Some(self@),
                start.structure.precedes(self@.structure),
                start.options == self@.options,
                start.options.wrap_with_struct ==> start.structure.structs.len() > 0,
                start.structure.large_lists.len() > 0,
            decreases n - field_idx,
        {
            proof {
                lemma_outer_fields_step(start, views_of(fields@), field_idx as nat);
            }
            match self.compile_outer_field(fields, field_idx) {
                Ok(()) => {},
                Err(e) => {
                    proof {
                        lemma_outer_fields_fail(
                            start,
                            views_of(fields@),
                            (field_idx + 1) as nat,
                            n as nat,
                        );
                    }
                    return Err(e);
                },
            }
            field_idx = field_idx + 1;
        }
        let ghost compiled = self@;
        if self.options.wrap_with_struct {
            self.push_instr(Bytecode::OuterRecordEnd { struct_idx: 0 });
            let pc: usize = self.structure.program.len();
            self.structure.set_struct_return(0, pc);
        }
        self.push_instr(Bytecode::OuterSequenceEnd { list_idx: 0 });
        self.structure.large_lists[0].return_pc = self.structure.program.len();
        let next_instr: usize = self.structure.program.len();
        self.structure.push_instr(Instruction { next: next_instr, code: Bytecode::ProgramEnd });
        assert(self@ == compiled.close_outer_structure());
        Ok(())
    }
}

impl ProgramView {
    /// The finished program for the given top-level fields: compiled,
    /// linked, and found valid.
    pub open spec fn compile(self, fields: Seq<FieldView>) -> Option<ProgramView> {
        match self.compile_outer_structure(fields) {
            None => None,
            Some(compiled) => match compiled.structure.linked() {
                None => None,
                Some(structure) => {
                    let linked = ProgramView { structure, ..compiled };
                    if linked.is_valid() {
                        Some(linked)
                    } else {
                        None
                    }
                },
            },
        }
    }
}

impl Program {
    /// Compiles the given top-level fields, links the program and checks
    /// it. Fails where the schema cannot be compiled or the program is not
    /// valid.
    pub fn compile(&mut self, fields: &[GenericField]) -> (res: Result<(), Error>)
        ensures
            match old(self)@.compile(views_of(fields@)) {
                Some(program) => res is Ok && final(self)@ == program,
                None => res is Err,
            },
            outer_is_refused(old(self)@.options, views_of(fields@)) ==> final(self)@ == old(self)@,
            res is Ok ==> final(self)@.is_valid(),
    {
        match self.compile_outer_structure(fields) {
            Ok(()) => {},
            Err(e) => {
                return Err(e);
            },
        }
        match self.update_jumps() {
            Ok(()) => {},
            Err(e) => {
                return Err(e);
            },
        }
        self.validate()
    }
}

/// Compiles a schema into a program that serializes rows of its fields.
/// The program is valid, and each of its option markers has a null
/// definition that lists the validity bitmap of the marker exactly once.
pub fn compile_serialization(fields: &[GenericField], options: CompilationOptions) -> (res: Result<
    Program,
    Error,
>)
    ensures
        match ProgramView::empty(options).compile(views_of(fields@)) {
            Some(program) => res is Ok && res->Ok_0@ == program,
            None => res is Err,
        },
        res is Ok ==> res->Ok_0@.is_valid(),
        res is Ok ==> markers_are_filled(res->Ok_0@, 0, 0),
{
    let mut program = Program::new(options);
    match program.compile(fields) {
        Ok(()) => {
            let instructions: usize = program.structure.program.len();
            let nulls: usize = program.structure.nulls.len();
            proof {
                assert(program@.structure.program.len() == instructions);
                assert(program@.structure.nulls.len() == nulls);
                lemma_compiled_markers_are_filled(options, views_of(fields@));
            }
            Ok(program)
        },
        Err(e) => Err(e),
    }
}

} // verus!
