//! Compiles lists and maps.
use vstd::prelude::*;
use crate::bytecode::{Bytecode, BytecodeView};
use crate::compiler::layout::{is_compiled, list_is_refused, map_is_refused, Program};
use crate::error::{fail, Error, ErrorKind};
use crate::schema::GenericField;
use crate::structure::{
    mapping_views, ArrayMapping, ArrayMappingView, BufferKind, ListDefinition, MapDefinition,
};

verus! {

impl Program {
    /// Compiles a list with 32-bit offsets.
    pub fn compile_list(&mut self, field: &GenericField, validity: Option<usize>) -> (res: Result<
        ArrayMapping,
        Error,
    >)
        ensures
            is_compiled(res, final(self)@, old(self)@.compile_list(field@, validity)),
            list_is_refused(field@, validity) ==> final(self)@ == old(self)@,
            res is Ok ==> old(self)@.structure.precedes(final(self)@.structure),
            final(self)@.options == old(self)@.options,
        decreases field, 3nat,
    {
        proof {
            field.lemma_view();
        }
        if field.nullable != validity.is_some() {
            return fail(ErrorKind::Compile, "inconsistent arguments");
        }
        if field.children.len() == 0 {
            return fail(ErrorKind::Compile, "invalid list: no child");
        }
        let item = &field.children[0];
        let list_idx: usize = self.structure.lists.len();
        let offsets = match self.allocate(BufferKind::U32Offsets) {
            Ok(offsets) => offsets,
            Err(e) => {
                return Err(e);
            },
        };
        self.structure.lists.push(ListDefinition { item: 0, return_pc: 0, offset: offsets });
        self.push_instr(Bytecode::ListStart);
        self.push_instr(Bytecode::ListItem { list_idx, offsets });
        self.structure.lists[list_idx].item = self.structure.program.len();
        let field_mapping = match self.compile_field(item) {
            Ok((field_mapping, _)) => field_mapping,
            Err(e) => {
                return Err(e);
            },
        };
        self.push_instr(Bytecode::ListEnd { list_idx, offsets });
        self.structure.lists[list_idx].return_pc = self.structure.program.len();
        Ok(
            ArrayMapping::List {
                field: field.clone(),
                item: Box::new(field_mapping),
                offsets,
                validity,
            },
        )
    }

    /// Compiles a list with 64-bit offsets.
    pub fn compile_large_list(&mut self, field: &GenericField, validity: Option<usize>) -> (res:
        Result<ArrayMapping, Error>)
        ensures
            is_compiled(res, final(self)@, old(self)@.compile_large_list(field@, validity)),
            list_is_refused(field@, validity) ==> final(self)@ == old(self)@,
            res is Ok ==> old(self)@.structure.precedes(final(self)@.structure),
            final(self)@.options == old(self)@.options,
        decreases field, 3nat,
    {
        proof {
            field.lemma_view();
        }
        if field.nullable != validity.is_some() {
            return fail(ErrorKind::Compile, "inconsistent arguments");
        }
        if field.children.len() == 0 {
            return fail(ErrorKind::Compile, "invalid list: no child");
        }
        let item = &field.children[0];
        let list_idx: usize = self.structure.large_lists.len();
        let offsets = match self.allocate(BufferKind::U64Offsets) {
            Ok(offsets) => offsets,
            Err(e) => {
                return Err(e);
            },
        };
        self.structure.large_lists.push(ListDefinition { item: 0, return_pc: 0, offset: offsets });
        self.push_instr(Bytecode::LargeListStart);
        self.push_instr(Bytecode::LargeListItem { list_idx, offsets });
        self.structure.large_lists[list_idx].item = self.structure.program.len();
        let field_mapping = match self.compile_field(item) {
            Ok((field_mapping, _)) => field_mapping,
            Err(e) => {
                return Err(e);
            },
        };
        self.push_instr(Bytecode::LargeListEnd { list_idx, offsets });
        self.structure.large_lists[list_idx].return_pc = self.structure.program.len();
        Ok(
            ArrayMapping::LargeList {
                field: field.clone(),
                item: Box::new(field_mapping),
                offsets,
                validity,
            },
        )
    }

    /// Compiles a map.
    #[verifier::rlimit(40)]
    pub fn compile_map(&mut self, field: &GenericField, validity: Option<usize>) -> (res: Result<
        ArrayMapping,
        Error,
    >)
        ensures
            is_compiled(res, final(self)@, old(self)@.compile_map(field@, validity)),
            map_is_refused(field@, validity) ==> final(self)@ == old(self)@,
            res is Ok ==> old(self)@.structure.precedes(final(self)@.structure),
            final(self)@.options == old(self)@.options,
        decreases field, 3nat,
    {
        proof {
            field.lemma_view();
        }
        if field.nullable != validity.is_some() {
            return fail(ErrorKind::Compile, "inconsistent arguments");
        }
        match field.validate_map() {
            Ok(()) => {},
            Err(e) => {
                return Err(e);
            },
        }
        let entries = &field.children[0];
        proof {
            entries.lemma_view();
        }
        let keys = &entries.children[0];
        let values = &entries.children[1];
        let map_idx: usize = self.structure.maps.len();
        let offsets = match self.allocate(BufferKind::U32Offsets) {
            Ok(offsets) => offsets,
            Err(e) => {
                return Err(e);
            },
        };
        let ghost s1 = self@;
        self.structure.maps.push(MapDefinition { key: 0, return_pc: 0 });
        self.push_instr(Bytecode::MapStart);
        self.push_instr(Bytecode::MapItem { map_idx, offsets });
        let ghost s2 = self@;
        assert(s2 == s1.with_maps(
            s1.structure.maps.push(MapDefinition { key: 0, return_pc: 0 }),
        ).emit(BytecodeView::MapStart).emit(BytecodeView::MapItem { map_idx, offsets }));
        self.structure.maps[map_idx].key = self.structure.program.len();
        let ghost s3 = self@;
        assert(s3 == s2.with_maps(
            s2.structure.maps.update(
                map_idx as int,
                MapDefinition { key: s2.pc(), ..s2.structure.maps[map_idx as int] },
            ),
        ));
        assert(old(self)@.structure.precedes(s3.structure));
        let keys_mapping = match self.compile_field(keys) {
            Ok((keys_mapping, _)) => keys_mapping,
            Err(e) => {
                return Err(e);
            },
        };
        let ghost s4 = self@;
        let values_mapping = match self.compile_field(values) {
            Ok((values_mapping, _)) => values_mapping,
            Err(e) => {
                return Err(e);
            },
        };
        let ghost s5 = self@;
        assert(s3.structure.precedes(s5.structure));
        self.push_instr(Bytecode::MapEnd { map_idx, offsets });
        let ghost s6 = self@;
        self.structure.maps[map_idx].return_pc = self.structure.program.len();
        assert(self@ == s6.with_maps(
            s6.structure.maps.update(
                map_idx as int,
                MapDefinition { return_pc: s6.pc(), ..s6.structure.maps[map_idx as int] },
            ),
        ));
        assert(s5.structure.precedes(self@.structure));
        let mut fields: Vec<ArrayMapping> = Vec::new();
        fields.push(keys_mapping);
        fields.push(values_mapping);
        let ghost keys_view = fields@[0]@;
        let ghost values_view = fields@[1]@;
        assert(mapping_views(fields@) =~= seq![keys_view, values_view]);
        let entries_mapping = ArrayMapping::Struct {
            field: entries.clone(),
            fields,
            validity: None,
        };
        let ghost entries_view = entries_mapping@;
        assert(entries_view == (ArrayMappingView::Struct {
            field: entries@,
            fields: seq![keys_view, values_view],
            validity: None,
        }));
        let res = ArrayMapping::KeyValueMap {
            field: field.clone(),
            offsets,
            entries: Box::new(entries_mapping),
            validity,
        };
        assert(res@ == (ArrayMappingView::KeyValueMap {
            field: field@,
            offsets,
            validity,
            entries: Box::new(entries_view),
        }));
        Ok(res)
    }
}

} // verus!
