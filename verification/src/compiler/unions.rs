//! Compiles dense unions.
use vstd::prelude::*;
use crate::bytecode::Bytecode;
use crate::compiler::layout::{
    is_compiled, lemma_rejoin_step, lemma_union_variants_fail, lemma_union_variants_none,
    lemma_union_variants_step, union_is_refused, CompiledVariants, Program, ProgramView,
};
use crate::compiler::fields::unknown_variant_text;
use crate::error::{fail, Error, ErrorKind};
use crate::schema::{GenericField, Strategy};
use crate::structure::{mapping_views, ArrayMapping, BufferKind};

verus! {

impl Program {
    /// Compiles the variant of a union at position `child_idx`.
    pub fn compile_union_variant(&mut self, field: &GenericField, union_idx: usize, child_idx: usize) -> (res:
        Result<ArrayMapping, Error>)
        requires
            child_idx < field@.children.len(),
            union_idx < old(self)@.structure.unions.len(),
        ensures
            is_compiled(
                res,
                final(self)@,
                old(self)@.compile_union_variant(field@, union_idx, child_idx as nat),
            ),
            res is Ok ==> old(self)@.structure.precedes(final(self)@.structure),
            final(self)@.options == old(self)@.options,
        decreases field, 1nat,
    {
        proof {
            field.lemma_view();
        }
        let child = &field.children[child_idx];
        proof {
            child.lemma_view();
        }
        let entry: usize = self.structure.program.len();
        self.structure.push_union_variant(union_idx, entry);
        let ghost entered = self@;
        assert(old(self)@.structure.precedes(entered.structure));
        if matches!(child.strategy, Some(Strategy::UnknownVariant)) {
            self.compile_panic(unknown_variant_text(child_idx))
        } else {
            match self.compile_field(child) {
                Ok((array_mapping, _)) => Ok(array_mapping),
                Err(e) => Err(e),
            }
        }
    }

    /// Compiles a dense union.
    pub fn compile_union(&mut self, field: &GenericField, validity: Option<usize>) -> (res: Result<
        ArrayMapping,
        Error,
    >)
        ensures
            is_compiled(res, final(self)@, old(self)@.compile_union(field@, validity)),
            union_is_refused(field@, validity) ==> final(self)@ == old(self)@,
            res is Ok ==> old(self)@.structure.precedes(final(self)@.structure),
            final(self)@.options == old(self)@.options,
        decreases field, 3nat,
    {
        proof {
            field.lemma_view();
        }
        if validity.is_some() {
            return fail(ErrorKind::Compile, "cannot compile nullable unions");
        }
        if field.children.len() == 0 {
            return fail(ErrorKind::Compile, "cannot compile a union withouth children");
        }
        let union_idx: usize = self.structure.unions.len();
        self.structure.push_union();
        let type_idx = match self.allocate(BufferKind::U8) {
            Ok(type_idx) => type_idx,
            Err(e) => {
                return Err(e);
            },
        };
        let mut fields: Vec<ArrayMapping> = Vec::new();
        let mut child_last_instr: Vec<usize> = Vec::new();
        self.push_instr(Bytecode::Variant { union_idx, type_idx });
        let ghost start = self@;
        assert(old(self)@.structure.precedes(start.structure));
        let n: usize = field.children.len();
        let mut child_idx: usize = 0;
        proof {
            assert(mapping_views(fields@) =~= Seq::empty());
            lemma_union_variants_none(start, field@, union_idx);
            assert(start.compile_union_variants(field@, union_idx, n as nat) is None
                ==> old(self)@.compile_union(field@, validity) is None) by {
                reveal(ProgramView::compile_union_variants);
            }
        }
        while child_idx < n
            invariant
                n == field@.children.len(),
                child_idx <= n,
                !union_is_refused(field@, validity),
                start.compile_union_variants(field@, union_idx, n as nat) is None
                    ==> old(self)@.compile_union(field@, validity) is None,
                start.compile_union_variants(field@, union_idx, child_idx as nat) == Some(
                    CompiledVariants {
                        program: self@,
                        mappings: mapping_views(fields@),
                        last_instrs: child_last_instr@,
                    },
                ),
                start.structure.precedes(self@.structure),
                self@.options == old(self)@.options,
                union_idx < start.structure.unions.len(),
                start.structure.program.len() > 0,
                forall|k: int|
                    0 <= k < child_last_instr@.len() ==> (#[trigger] child_last_instr@[k])
                        < self@.structure.program.len(),
            decreases n - child_idx,
        {
            proof {
                lemma_union_variants_step(start, field@, union_idx, child_idx as nat);
            }
            let array_mapping = match self.compile_union_variant(field, union_idx, child_idx) {
                Ok(array_mapping) => array_mapping,
                Err(e) => {
                    proof {
                        lemma_union_variants_fail(
                            start,
                            field@,
                            union_idx,
                            (child_idx + 1) as nat,
                            n as nat,
                        );
                    }
                    return Err(e);
                },
            };
            proof {
                assert(mapping_views(fields@.push(array_mapping)) =~= mapping_views(fields@).push(
                    array_mapping@,
                ));
            }
            fields.push(array_mapping);
            child_last_instr.push(self.structure.program.len() - 1);
            child_idx = child_idx + 1;
        }
        // the last instruction of each variant continues after the union
        let ghost compiled = self@;
        let next_instr: usize = self.structure.program.len();
        let m: usize = child_last_instr.len();
        let mut i: usize = 0;
        proof {
            lemma_rejoin_step(compiled, child_last_instr@, next_instr, 0);
        }
        while i < m
            invariant
                m == child_last_instr@.len(),
                i <= m,
                self@ == compiled.rejoin(child_last_instr@, next_instr, i as nat),
                self@.structure.program.len() == compiled.structure.program.len(),
                compiled.structure.precedes(self@.structure),
                self@.options == old(self)@.options,
                forall|k: int|
                    0 <= k < m ==> (#[trigger] child_last_instr@[k])
                        < compiled.structure.program.len(),
            decreases m - i,
        {
            proof {
                lemma_rejoin_step(compiled, child_last_instr@, next_instr, i as nat);
            }
            let pos: usize = child_last_instr[i];
            self.structure.set_next(pos, next_instr);
            i = i + 1;
        }
        let ghost rejoined = self@;
        self.push_instr(Bytecode::UnionEnd);
        assert(rejoined.structure.precedes(self@.structure));
        let res = ArrayMapping::Union { field: field.clone(), fields, types: type_idx };
        assert(old(self)@.compile_union(field@, validity) == Some((self@, res@))) by {
            reveal(ProgramView::compile_union_variants);
        }
        Ok(res)
    }
}

} // verus!
