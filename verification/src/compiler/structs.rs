//! Compiles structs.
use vstd::prelude::*;
use crate::bytecode::{Bytecode, UNSET_INSTR};
use crate::compiler::layout::{
    is_compiled, lemma_struct_fields_fail, lemma_struct_fields_none, lemma_struct_fields_step,
    struct_is_refused, CompiledFields, Program, ProgramView, StructMode, MAX_STRUCT_FIELDS,
};
use crate::error::{fail, Error, ErrorKind};
use crate::schema::{GenericField, Strategy};
use crate::structure::{mapping_views, ArrayMapping, BufferKind, FieldDefinition, StructDefinition};

verus! {

impl Program {
    /// Compiles the field of a struct at position `field_idx`.
    pub fn compile_struct_field(
        &mut self,
        field: &GenericField,
        is_tuple: bool,
        is_map: bool,
        struct_idx: usize,
        seen: usize,
        field_idx: usize,
    ) -> (res: Result<ArrayMapping, Error>)
        requires
            field_idx < field@.children.len(),
            !is_tuple ==> struct_idx < old(self)@.structure.structs.len(),
        ensures
            is_compiled(
                res,
                final(self)@,
                old(self)@.compile_struct_field(
                    field@,
                    StructMode { is_tuple, is_map },
                    struct_idx,
                    seen,
                    field_idx as nat,
                ),
            ),
            res is Ok ==> old(self)@.structure.precedes(final(self)@.structure),
            final(self)@.options == old(self)@.options,
        decreases field, 1nat,
    {
        proof {
            field.lemma_view();
        }
        let child = &field.children[field_idx];
        proof {
            child.lemma_view();
        }
        if !is_tuple {
            if field_idx >= MAX_STRUCT_FIELDS {
                return fail(ErrorKind::Compile, "Structs can contain at most 128 fields");
            }
            if is_map {
                self.push_instr(Bytecode::StructItem { struct_idx, seen });
                if self.structure.structs[struct_idx].item == UNSET_INSTR {
                    let pc: usize = self.structure.program.len();
                    self.structure.set_struct_item(struct_idx, pc);
                }
            }
            self.push_instr(
                Bytecode::StructField {
                    struct_idx,
                    field_name: child.name.clone(),
                    field_idx,
                    seen,
                },
            );
            let jump: usize = self.structure.program.len();
            self.structure.insert_struct_field(
                struct_idx,
                child.name.clone(),
                FieldDefinition { index: field_idx, jump, null_definition: None },
            );
        } else {
            self.push_instr(Bytecode::TupleStructItem);
        }
        assert(self@ == old(self)@.announce_struct_field(
            child@.name,
            StructMode { is_tuple, is_map },
            struct_idx,
            seen,
            field_idx,
        ));
        assert(old(self)@.structure.precedes(self@.structure));
        let ghost announced = self@;
        let (f, null_definition) = match self.compile_field(child) {
            Ok(compiled) => compiled,
            Err(e) => {
                return Err(e);
            },
        };
        if !is_tuple {
            match self.structure.set_struct_field_null_definition(
                struct_idx,
                &child.name,
                null_definition,
            ) {
                Ok(()) => {},
                Err(e) => {
                    return Err(e);
                },
            }
        }
        assert(announced.structure.precedes(self@.structure));
        Ok(f)
    }

    /// Compiles a struct.
    pub fn compile_struct(&mut self, field: &GenericField, validity: Option<usize>) -> (res: Result<
        ArrayMapping,
        Error,
    >)
        ensures
            is_compiled(res, final(self)@, old(self)@.compile_struct(field@, validity)),
            struct_is_refused(field@, validity) ==> final(self)@ == old(self)@,
            res is Ok ==> old(self)@.structure.precedes(final(self)@.structure),
            final(self)@.options == old(self)@.options,
        decreases field, 3nat,
    {
        proof {
            field.lemma_view();
        }
        if field.nullable {
            if validity.is_none() {
                return fail(ErrorKind::Compile, "inconsistent arguments");
            }
            if field.children.len() == 0 {
                return fail(
                    ErrorKind::Compile,
                    "Nullable structs without fields are not supported",
                );
            }
        }
        let (is_tuple, is_map) = match field.strategy {
            None => (false, false),
            Some(Strategy::MapAsStruct) => (false, true),
            Some(Strategy::TupleAsStruct) => (true, false),
            Some(_) => {
                return fail(ErrorKind::Compile, "Cannot compile struct with this strategy");
            },
        };
        if !field.has_unique_child_names() {
            return fail(ErrorKind::Compile, "The fields of a struct must have different names");
        }
        let ghost mode = StructMode { is_tuple, is_map };
        let struct_idx: usize = self.structure.structs.len();
        let seen: usize;
        if !is_tuple {
            seen = match self.allocate(BufferKind::Seen) {
                Ok(seen) => seen,
                Err(e) => {
                    return Err(e);
                },
            };
            let mut definition = StructDefinition::new();
            definition.item = UNSET_INSTR;
            self.structure.push_struct(definition);
            self.push_instr(Bytecode::StructStart { seen });
        } else {
            seen = usize::MAX;
            self.push_instr(Bytecode::TupleStructStart);
        }
        let ghost start = self@;
        assert(old(self)@.structure.precedes(start.structure));
        let mut field_mapping: Vec<ArrayMapping> = Vec::new();
        let n: usize = field.children.len();
        let mut field_idx: usize = 0;
        proof {
            assert(mapping_views(field_mapping@) =~= Seq::empty());
            lemma_struct_fields_none(start, field@, mode, struct_idx, seen);
            assert(start.compile_struct_fields(field@, mode, struct_idx, seen, n as nat) is None
                ==> old(self)@.compile_struct(field@, validity) is None) by {
                reveal(ProgramView::compile_struct_fields);
            }
        }
        while field_idx < n
            invariant
                n == field@.children.len(),
                field_idx <= n,
                mode == (StructMode { is_tuple, is_map }),
                !struct_is_refused(field@, validity),
                start.compile_struct_fields(field@, mode, struct_idx, seen, n as nat) is None
                    ==> old(self)@.compile_struct(field@, validity) is None,
                start.compile_struct_fields(field@, mode, struct_idx, seen, field_idx as nat)
                    == Some(
                    CompiledFields { program: self@, mappings: mapping_views(field_mapping@) },
                ),
                start.structure.precedes(self@.structure),
                self@.options == old(self)@.options,
                !is_tuple ==> struct_idx < start.structure.structs.len(),
            decreases n - field_idx,
        {
            proof {
                lemma_struct_fields_step(start, field@, mode, struct_idx, seen, field_idx as nat);
            }
            let f = match self.compile_struct_field(
                field,
                is_tuple,
                is_map,
                struct_idx,
                seen,
                field_idx,
            ) {
                Ok(f) => f,
                Err(e) => {
                    proof {
                        lemma_struct_fields_fail(
                            start,
                            field@,
                            mode,
                            struct_idx,
                            seen,
                            (field_idx + 1) as nat,
                            n as nat,
                        );
                    }
                    return Err(e);
                },
            };
            proof {
                assert(mapping_views(field_mapping@.push(f)) =~= mapping_views(
                    field_mapping@,
                ).push(f@));
            }
            field_mapping.push(f);
            field_idx = field_idx + 1;
        }
        let ghost compiled = self@;
        if !is_tuple {
            self.push_instr(Bytecode::StructEnd { struct_idx, seen });
            let pc: usize = self.structure.program.len();
            self.structure.set_struct_return(struct_idx, pc);
        } else {
            self.push_instr(Bytecode::TupleStructEnd);
        }
        assert(compiled.structure.precedes(self@.structure));
        let res = ArrayMapping::Struct { field: field.clone(), fields: field_mapping, validity };
        assert(old(self)@.compile_struct(field@, validity) == Some((self@, res@))) by {
            reveal(ProgramView::compile_struct_fields);
        }
        Ok(res)
    }
}

} // verus!
