//! Links a compiled program: gives every instruction a successor and
//! removes the ends of unions from the paths that control can take.
use vstd::prelude::*;
use crate::bytecode::{program_view, Instruction, InstructionView, UNSET_INSTR};
use crate::compiler::layout::{Program, ProgramView};
use crate::error::{fail, Error, ErrorKind};
use crate::structure::{
    ListDefinition, MapDefinition, StructDefinitionView, Structure, StructureView,
};

verus! {

/// The instruction at position `pos` with the instruction after it as its
/// successor, if it has none yet.
pub open spec fn with_default_next(instr: InstructionView, pos: int) -> InstructionView {
    if instr.next == UNSET_INSTR {
        InstructionView { next: (pos + 1) as usize, ..instr }
    } else {
        instr
    }
}

/// The program in which every instruction without a successor falls
/// through to the instruction after it.
pub open spec fn link_defaults(program: Seq<InstructionView>) -> Seq<InstructionView> {
    Seq::new(program.len(), |i: int| with_default_next(program[i], i))
}

/// The first instruction at or after `pos`, along the successors, that is
/// not the end of a union. There is none if `pos` or a successor on the
/// way lies outside the program, or if `hops` ends of unions were passed.
pub open spec fn follow(program: Seq<InstructionView>, pos: usize, hops: nat) -> Option<usize>
    decreases hops,
{
    if hops == 0 || pos >= program.len() {
        None
    } else if !(program[pos as int].code is UnionEnd) {
        Some(pos)
    } else {
        follow(program, program[pos as int].next, (hops - 1) as nat)
    }
}

/// The program after the successors of its first `n` instructions were
/// replaced, one after the other, by what they lead to past the ends of
/// unions.
#[verifier::opaque]
pub open spec fn link_jumps(program: Seq<InstructionView>, n: nat) -> Option<Seq<InstructionView>>
    decreases n,
{
    if n == 0 || n > program.len() {
        Some(program)
    } else {
        match link_jumps(program, (n - 1) as nat) {
            None => None,
            Some(before) => match follow(before, before[n - 1].next, before.len()) {
                None => None,
                Some(target) => Some(
                    before.update(n - 1, InstructionView { next: target, ..before[n - 1] }),
                ),
            },
        }
    }
}

/// The struct definitions whose return targets lead past the ends of
/// unions, if each of them leads somewhere.
pub open spec fn link_struct_returns(
    program: Seq<InstructionView>,
    structs: Seq<StructDefinitionView>,
) -> Option<Seq<StructDefinitionView>> {
    if forall|i: int|
        0 <= i < structs.len() ==> follow(
            program,
            (#[trigger] structs[i]).return_pc,
            program.len(),
        ) is Some {
        Some(
            Seq::new(
                structs.len(),
                |i: int|
                    StructDefinitionView {
                        return_pc: follow(program, structs[i].return_pc, program.len()).unwrap(),
                        ..structs[i]
                    },
            ),
        )
    } else {
        None
    }
}

/// The list definitions whose return targets lead past the ends of unions,
/// if each of them leads somewhere.
pub open spec fn link_list_returns(program: Seq<InstructionView>, lists: Seq<ListDefinition>) -> Option<
    Seq<ListDefinition>,
> {
    if forall|i: int|
        0 <= i < lists.len() ==> follow(program, (#[trigger] lists[i]).return_pc, program.len())
            is Some {
        Some(
            Seq::new(
                lists.len(),
                |i: int|
                    ListDefinition {
                        return_pc: follow(program, lists[i].return_pc, program.len()).unwrap(),
                        ..lists[i]
                    },
            ),
        )
    } else {
        None
    }
}

/// The map definitions whose return targets lead past the ends of unions,
/// if each of them leads somewhere.
pub open spec fn link_map_returns(program: Seq<InstructionView>, maps: Seq<MapDefinition>) -> Option<
    Seq<MapDefinition>,
> {
    if forall|i: int|
        0 <= i < maps.len() ==> follow(program, (#[trigger] maps[i]).return_pc, program.len())
            is Some {
        Some(
            Seq::new(
                maps.len(),
                |i: int|
                    MapDefinition {
                        return_pc: follow(program, maps[i].return_pc, program.len()).unwrap(),
                        ..maps[i]
                    },
            ),
        )
    } else {
        None
    }
}

impl StructureView {
    /// The linked structure: every instruction has a successor, and no
    /// successor and no return target of a struct, a list or a map is the
    /// end of a union. There is none where a path through ends of unions
    /// leaves the program or does not end.
    pub open spec fn linked(self) -> Option<StructureView> {
        match link_jumps(link_defaults(self.program), self.program.len()) {
            None => None,
            Some(program) => match (
                link_struct_returns(program, self.structs),
                link_list_returns(program, self.large_lists),
                link_list_returns(program, self.lists),
                link_map_returns(program, self.maps),
            ) {
                (Some(structs), Some(large_lists), Some(lists), Some(maps)) => Some(
                    StructureView { program, structs, large_lists, lists, maps, ..self },
                ),
                _ => None,
            },
        }
    }
}

/// Linking the jumps of no instruction leaves the program as it is, and
/// linking one more replaces its successor.
pub proof fn lemma_link_jumps_step(program: Seq<InstructionView>, k: nat)
    ensures
        link_jumps(program, 0) == Some(program),
        k < program.len() ==> link_jumps(program, k + 1) == (match link_jumps(program, k) {
            None => None,
            Some(before) => match follow(before, before[k as int].next, before.len()) {
                None => None,
                Some(target) => Some(
                    before.update(k as int, InstructionView { next: target, ..before[k as int] }),
                ),
            },
        }),
{
    reveal(link_jumps);
    assert((k + 1 - 1) as nat == k);
}

/// Once a jump leads nowhere, linking more instructions fails too.
pub proof fn lemma_link_jumps_fail(program: Seq<InstructionView>, k: nat, n: nat)
    requires
        k <= n <= program.len(),
        link_jumps(program, k) is None,
    ensures
        link_jumps(program, n) is None,
    decreases n,
{
    reveal(link_jumps);
    if k < n {
        lemma_link_jumps_fail(program, k, (n - 1) as nat);
    }
}

/// Linking jumps keeps the length of the program.
pub proof fn lemma_link_jumps_len(program: Seq<InstructionView>, n: nat)
    ensures
        link_jumps(program, n) matches Some(linked) ==> linked.len() == program.len(),
    decreases n,
{
    reveal(link_jumps);
    if n > 0 && n <= program.len() {
        lemma_link_jumps_len(program, (n - 1) as nat);
    }
}

/// Follows the successors from `pos` to the first instruction that is not
/// the end of a union.
pub fn follow_jumps(program: &Vec<Instruction>, pos: usize) -> (res: Result<usize, Error>)
    ensures
        match follow(program_view(program@), pos, program@.len()) {
            Some(target) => res == Ok::<usize, Error>(target),
            None => res is Err,
        },
{
    let n: usize = program.len();
    let ghost view = program_view(program@);
    let mut cur: usize = pos;
    let mut hops: usize = 0;
    while hops < n
        invariant
            n == program@.len(),
            view == program_view(program@),
            hops <= n,
            follow(view, pos, n as nat) == follow(view, cur, (n - hops) as nat),
        decreases n - hops,
    {
        if cur >= n {
            return fail(ErrorKind::Compile, "a jump leaves the program");
        }
        if program[cur].code.is_allowed_jump_target() {
            return Ok(cur);
        }
        cur = program[cur].next;
        hops = hops + 1;
    }
    // the number of jumps followed is limited by the number of instructions
    fail(ErrorKind::Compile, "More jumps than instructions: cycle?")
}

impl Structure {
    /// Lets every instruction without a successor fall through to the
    /// instruction after it.
    pub fn link_defaults(&mut self)
        ensures
            final(self)@ == (StructureView {
                program: link_defaults(old(self)@.program),
                ..old(self)@
            }),
    {
        let n: usize = self.program.len();
        let mut pos: usize = 0;
        assert(self@.program =~= Seq::new(n as nat, |i: int| old(self)@.program[i]));
        while pos < n
            invariant
                n == old(self)@.program.len(),
                n == self.program@.len(),
                pos <= n,
                self@ == (StructureView { program: self@.program, ..old(self)@ }),
                self@.program == Seq::new(
                    n as nat,
                    |i: int|
                        if i < pos {
                            with_default_next(old(self)@.program[i], i)
                        } else {
                            old(self)@.program[i]
                        },
                ),
            decreases n - pos,
        {
            if self.program[pos].get_next() == UNSET_INSTR {
                self.set_next(pos, pos + 1);
            }
            pos = pos + 1;
            assert(self@.program =~= Seq::new(
                n as nat,
                |i: int|
                    if i < pos {
                        with_default_next(old(self)@.program[i], i)
                    } else {
                        old(self)@.program[i]
                    },
            ));
        }
        assert(self@.program =~= link_defaults(old(self)@.program));
    }

    /// Replaces the successor of each instruction, one after the other, by
    /// what it leads to past the ends of unions.
    pub fn link_jumps(&mut self) -> (res: Result<(), Error>)
        ensures
            match link_jumps(old(self)@.program, old(self)@.program.len()) {
                Some(program) => res is Ok && final(self)@ == (StructureView {
                    program,
                    ..old(self)@
                }),
                None => res is Err,
            },
    {
        let n: usize = self.program.len();
        let mut pos: usize = 0;
        proof {
            lemma_link_jumps_step(old(self)@.program, 0);
        }
        while pos < n
            invariant
                n == old(self)@.program.len(),
                n == self@.program.len(),
                n == self.program@.len(),
                pos <= n,
                link_jumps(old(self)@.program, pos as nat) == Some(self@.program),
                self@ == (StructureView { program: self@.program, ..old(self)@ }),
            decreases n - pos,
        {
            proof {
                lemma_link_jumps_step(old(self)@.program, pos as nat);
            }
            let next = match follow_jumps(&self.program, self.program[pos].get_next()) {
                Ok(next) => next,
                Err(e) => {
                    proof {
                        lemma_link_jumps_fail(old(self)@.program, (pos + 1) as nat, n as nat);
                    }
                    return Err(e);
                },
            };
            self.set_next(pos, next);
            assert(self@.program.len() == self.program@.len());
            pos = pos + 1;
        }
        Ok(())
    }

    /// Replaces the return target of each struct by what it leads to past
    /// the ends of unions.
    pub fn link_struct_returns(&mut self) -> (res: Result<(), Error>)
        ensures
            match link_struct_returns(old(self)@.program, old(self)@.structs) {
                Some(structs) => res is Ok && final(self)@ == (StructureView {
                    structs,
                    ..old(self)@
                }),
                None => res is Err,
            },
    {
        let n: usize = self.structs.len();
        let ghost program = old(self)@.program;
        let ghost structs = old(self)@.structs;
        let mut i: usize = 0;
        assert(self@.structs =~= Seq::new(n as nat, |k: int| structs[k]));
        while i < n
            invariant
                n == structs.len(),
                n == self.structs@.len(),
                i <= n,
                program == old(self)@.program,
                program == program_view(self.program@),
                structs == old(self)@.structs,
                forall|k: int|
                    0 <= k < i ==> follow(program, (#[trigger] structs[k]).return_pc, program.len())
                        is Some,
                self@ == (StructureView { structs: self@.structs, ..old(self)@ }),
                self@.structs == Seq::new(
                    n as nat,
                    |k: int|
                        if k < i {
                            StructDefinitionView {
                                return_pc: follow(
                                    program,
                                    structs[k].return_pc,
                                    program.len(),
                                ).unwrap(),
                                ..structs[k]
                            }
                        } else {
                            structs[k]
                        },
                ),
            decreases n - i,
        {
            assert(self@.structs[i as int] == self.structs@[i as int]@);
            assert(self@.structs[i as int] == structs[i as int]);
            let target = match follow_jumps(&self.program, self.structs[i].return_pc) {
                Ok(target) => target,
                Err(e) => {
                    assert(follow(program, structs[i as int].return_pc, program.len()) is None);
                    return Err(e);
                },
            };
            self.set_struct_return(i, target);
            assert(self@.structs.len() == self.structs@.len());
            i = i + 1;
            assert(self@.structs =~= Seq::new(
                n as nat,
                |k: int|
                    if k < i {
                        StructDefinitionView {
                            return_pc: follow(program, structs[k].return_pc, program.len()).unwrap(),
                            ..structs[k]
                        }
                    } else {
                        structs[k]
                    },
            ));
        }
        assert(self@.structs =~= link_struct_returns(program, structs).unwrap());
        Ok(())
    }

    /// Replaces the return target of each list and of each map by what it
    /// leads to past the ends of unions.
    pub fn link_list_returns(&mut self) -> (res: Result<(), Error>)
        ensures
            match (
                link_list_returns(old(self)@.program, old(self)@.large_lists),
                link_list_returns(old(self)@.program, old(self)@.lists),
                link_map_returns(old(self)@.program, old(self)@.maps),
            ) {
                (Some(large_lists), Some(lists), Some(maps)) => res is Ok && final(self)@ == (
                StructureView { large_lists, lists, maps, ..old(self)@ }),
                _ => res is Err,
            },
    {
        match link_list_table(&self.program, &mut self.large_lists) {
            Ok(()) => {},
            Err(e) => {
                return Err(e);
            },
        }
        match link_list_table(&self.program, &mut self.lists) {
            Ok(()) => {},
            Err(e) => {
                return Err(e);
            },
        }
        link_map_table(&self.program, &mut self.maps)
    }
}

/// Replaces the return target of each list by what it leads to past the
/// ends of unions.
pub fn link_list_table(program: &Vec<Instruction>, lists: &mut Vec<ListDefinition>) -> (res: Result<
    (),
    Error,
>)
    ensures
        match link_list_returns(program_view(program@), old(lists)@) {
            Some(linked) => res is Ok && final(lists)@ == linked,
            None => res is Err,
        },
{
    let n: usize = lists.len();
    let ghost view = program_view(program@);
    let ghost before = lists@;
    let mut i: usize = 0;
    while i < n
        invariant
            n == before.len(),
            n == lists@.len(),
            i <= n,
            view == program_view(program@),
            before == old(lists)@,
            forall|k: int|
                0 <= k < i ==> follow(view, (#[trigger] before[k]).return_pc, view.len()) is Some,
            lists@ == Seq::new(
                n as nat,
                |k: int|
                    if k < i {
                        ListDefinition {
                            return_pc: follow(view, before[k].return_pc, view.len()).unwrap(),
                            ..before[k]
                        }
                    } else {
                        before[k]
                    },
            ),
        decreases n - i,
    {
        let target = match follow_jumps(program, lists[i].return_pc) {
            Ok(target) => target,
            Err(e) => {
                assert(follow(view, before[i as int].return_pc, view.len()) is None);
                return Err(e);
            },
        };
        lists[i].return_pc = target;
        i = i + 1;
        assert(lists@ =~= Seq::new(
            n as nat,
            |k: int|
                if k < i {
                    ListDefinition {
                        return_pc: follow(view, before[k].return_pc, view.len()).unwrap(),
                        ..before[k]
                    }
                } else {
                    before[k]
                },
        ));
    }
    assert(lists@ =~= link_list_returns(view, before).unwrap());
    Ok(())
}

/// Replaces the return target of each map by what it leads to past the
/// ends of unions.
pub fn link_map_table(program: &Vec<Instruction>, maps: &mut Vec<MapDefinition>) -> (res: Result<
    (),
    Error,
>)
    ensures
        match link_map_returns(program_view(program@), old(maps)@) {
            Some(linked) => res is Ok && final(maps)@ == linked,
            None => res is Err,
        },
{
    let n: usize = maps.len();
    let ghost view = program_view(program@);
    let ghost before = maps@;
    let mut i: usize = 0;
    while i < n
        invariant
            n == before.len(),
            n == maps@.len(),
            i <= n,
            view == program_view(program@),
            before == old(maps)@,
            forall|k: int|
                0 <= k < i ==> follow(view, (#[trigger] before[k]).return_pc, view.len()) is Some,
            maps@ == Seq::new(
                n as nat,
                |k: int|
                    if k < i {
                        MapDefinition {
                            return_pc: follow(view, before[k].return_pc, view.len()).unwrap(),
                            ..before[k]
                        }
                    } else {
                        before[k]
                    },
            ),
        decreases n - i,
    {
        let target = match follow_jumps(program, maps[i].return_pc) {
            Ok(target) => target,
            Err(e) => {
                assert(follow(view, before[i as int].return_pc, view.len()) is None);
                return Err(e);
            },
        };
        maps[i].return_pc = target;
        i = i + 1;
        assert(maps@ =~= Seq::new(
            n as nat,
            |k: int|
                if k < i {
                    MapDefinition {
                        return_pc: follow(view, before[k].return_pc, view.len()).unwrap(),
                        ..before[k]
                    }
                } else {
                    before[k]
                },
        ));
    }
    assert(maps@ =~= link_map_returns(view, before).unwrap());
    Ok(())
}

impl Program {
    /// Links the program. Fails where a path through ends of unions leaves
    /// the program or runs in a cycle.
    pub fn update_jumps(&mut self) -> (res: Result<(), Error>)
        ensures
            match old(self)@.structure.linked() {
                Some(structure) => res is Ok && final(self)@ == (ProgramView {
                    structure,
                    ..old(self)@
                }),
                None => res is Err,
            },
    {
        self.structure.link_defaults();
        match self.structure.link_jumps() {
            Ok(()) => {},
            Err(e) => {
                return Err(e);
            },
        }
        proof {
            lemma_link_jumps_len(
                link_defaults(old(self)@.structure.program),
                old(self)@.structure.program.len(),
            );
        }
        match self.structure.link_struct_returns() {
            Ok(()) => {},
            Err(e) => {
                return Err(e);
            },
        }
        self.structure.link_list_returns()
    }
}

/// Whether the positions are ends of unions whose successors stay among
/// them.
pub open spec fn is_union_end_cycle(program: Seq<InstructionView>, cycle: Set<int>) -> bool {
    forall|pos: int| #[trigger]
        cycle.contains(pos) ==> 0 <= pos < program.len() && program[pos].code is UnionEnd
            && cycle.contains(program[pos].next as int)
}

/// From inside a cycle of ends of unions no instruction is reached,
/// whatever the number of hops.
proof fn lemma_follow_in_cycle(
    linked: Seq<InstructionView>,
    program: Seq<InstructionView>,
    cycle: Set<int>,
    pos: usize,
    hops: nat,
)
    requires
        is_union_end_cycle(program, cycle),
        cycle.contains(pos as int),
        linked.len() == program.len(),
        forall|c: int| cycle.contains(c) ==> #[trigger] linked[c] == program[c],
    ensures
        follow(linked, pos, hops) is None,
    decreases hops,
{
    if hops > 0 {
        assert(cycle.contains(pos as int));
        assert(linked[pos as int] == program[pos as int]);
        lemma_follow_in_cycle(linked, program, cycle, program[pos as int].next, (hops - 1) as nat);
    }
}

/// While no jump into the cycle was met, linking left the cycle and the
/// instructions behind the linked ones as they were.
proof fn lemma_link_jumps_meets_cycle(program: Seq<InstructionView>, cycle: Set<int>, n: nat)
    requires
        is_union_end_cycle(program, cycle),
        n <= program.len(),
    ensures
        link_jumps(program, n) matches Some(linked) ==> {
            &&& linked.len() == program.len()
            &&& forall|i: int| n <= i < program.len() ==> #[trigger] linked[i] == program[i]
            &&& forall|c: int| cycle.contains(c) ==> #[trigger] linked[c] == program[c]
            &&& forall|i: int|
                0 <= i < n ==> !cycle.contains((#[trigger] program[i]).next as int)
        },
    decreases n,
{
    reveal(link_jumps);
    if n > 0 {
        lemma_link_jumps_meets_cycle(program, cycle, (n - 1) as nat);
        match link_jumps(program, (n - 1) as nat) {
            None => {},
            Some(before) => {
                let k = n - 1;
                assert(before[k] == program[k]);
                if cycle.contains(program[k].next as int) {
                    lemma_follow_in_cycle(before, program, cycle, program[k].next, before.len());
                } else {
                    match follow(before, before[k].next, before.len()) {
                        None => {},
                        Some(target) => {
                            let linked = before.update(
                                k,
                                InstructionView { next: target, ..before[k] },
                            );
                            assert(!cycle.contains(k)) by {
                                if cycle.contains(k) {
                                    assert(cycle.contains(program[k].next as int));
                                }
                            }
                            assert forall|c: int| cycle.contains(c) implies #[trigger] linked[c]
                                == program[c] by {
                                assert(before[c] == program[c]);
                            }
                        },
                    }
                }
            },
        }
    }
}

/// A program in which a successor leads into a cycle of ends of unions
/// cannot be linked. Since linking is a function that ends, the linker
/// fails on such a program and does not loop.
pub proof fn lemma_union_end_cycle_is_rejected(structure: StructureView, cycle: Set<int>, entry: int)
    requires
        is_union_end_cycle(link_defaults(structure.program), cycle),
        0 <= entry < structure.program.len(),
        cycle.contains(link_defaults(structure.program)[entry].next as int),
    ensures
        structure.linked() is None,
{
    let program = link_defaults(structure.program);
    lemma_link_jumps_meets_cycle(program, cycle, program.len());
    if link_jumps(program, program.len()) is Some {
        assert(!cycle.contains(program[entry].next as int));
    }
}

/// What following the successors arrives at is an instruction of the
/// program that is not the end of a union.
pub proof fn lemma_follow_arrives(program: Seq<InstructionView>, pos: usize, hops: nat)
    requires
        follow(program, pos, hops) is Some,
    ensures
        follow(program, pos, hops).unwrap() < program.len(),
        !(program[follow(program, pos, hops).unwrap() as int].code is UnionEnd),
    decreases hops,
{
    if hops > 0 && pos < program.len() && program[pos as int].code is UnionEnd {
        lemma_follow_arrives(program, program[pos as int].next, (hops - 1) as nat);
    }
}

/// Linking the jumps of the first `n` instructions keeps what every
/// instruction does, and leaves none of these instructions with the end of
/// a union as its successor.
pub proof fn lemma_link_jumps_skips_union_ends(program: Seq<InstructionView>, n: nat)
    requires
        n <= program.len(),
        link_jumps(program, n) is Some,
    ensures
        ({
            let linked = link_jumps(program, n).unwrap();
            &&& linked.len() == program.len()
            &&& forall|pc: int|
                0 <= pc < program.len() ==> (#[trigger] linked[pc]).code == program[pc].code
            &&& forall|pc: int|
                0 <= pc < n ==> (#[trigger] linked[pc]).next < linked.len() && !(linked[linked[pc].next as int].code
                    is UnionEnd)
        }),
    decreases n,
{
    reveal(link_jumps);
    if n > 0 {
        lemma_link_jumps_skips_union_ends(program, (n - 1) as nat);
        let before = link_jumps(program, (n - 1) as nat).unwrap();
        lemma_follow_arrives(before, before[n - 1].next, before.len());
        let linked = link_jumps(program, n).unwrap();
        assert forall|pc: int| 0 <= pc < n implies (#[trigger] linked[pc]).next < linked.len() && !(
        linked[linked[pc].next as int].code is UnionEnd) by {
            if pc < n - 1 {
                assert(linked[pc] == before[pc]);
                assert(linked[before[pc].next as int].code == before[before[pc].next as int].code);
            } else {
                let target = follow(before, before[n - 1].next, before.len()).unwrap();
                assert(linked[target as int].code == before[target as int].code);
            }
        }
    }
}

/// In a linked program no instruction has the end of a union as its
/// successor, and no struct, no list and no map returns to one: the ends
/// of unions are out of every path that control can take.
pub proof fn lemma_linked_skips_union_ends(structure: StructureView)
    requires
        structure.linked() is Some,
    ensures
        ({
            let linked = structure.linked().unwrap();
            &&& linked.program.len() == structure.program.len()
            &&& forall|pc: int|
                0 <= pc < linked.program.len() ==> (#[trigger] linked.program[pc]).code
                    == structure.program[pc].code
            &&& forall|pc: int|
                0 <= pc < linked.program.len() ==> (#[trigger] linked.program[pc]).next
                    < linked.program.len() && !(linked.program[linked.program[pc].next as int].code
                    is UnionEnd)
            &&& forall|i: int|
                0 <= i < linked.structs.len() ==> (#[trigger] linked.structs[i]).return_pc
                    < linked.program.len() && !(linked.program[linked.structs[i].return_pc as int].code
                    is UnionEnd)
            &&& forall|i: int|
                0 <= i < linked.large_lists.len() ==> (#[trigger] linked.large_lists[i]).return_pc
                    < linked.program.len()
                    && !(linked.program[linked.large_lists[i].return_pc as int].code is UnionEnd)
            &&& forall|i: int|
                0 <= i < linked.lists.len() ==> (#[trigger] linked.lists[i]).return_pc
                    < linked.program.len()
                    && !(linked.program[linked.lists[i].return_pc as int].code is UnionEnd)
            &&& forall|i: int|
                0 <= i < linked.maps.len() ==> (#[trigger] linked.maps[i]).return_pc
                    < linked.program.len()
                    && !(linked.program[linked.maps[i].return_pc as int].code is UnionEnd)
        }),
{
    let defaults = link_defaults(structure.program);
    lemma_link_jumps_skips_union_ends(defaults, defaults.len());
    let program = link_jumps(defaults, defaults.len()).unwrap();
    let linked = structure.linked().unwrap();
    assert forall|i: int| 0 <= i < linked.structs.len() implies (
    #[trigger] linked.structs[i]).return_pc < linked.program.len() && !(
    linked.program[linked.structs[i].return_pc as int].code is UnionEnd) by {
        assert(follow(program, structure.structs[i].return_pc, program.len()) is Some);
        lemma_follow_arrives(program, structure.structs[i].return_pc, program.len());
    }
    assert forall|i: int| 0 <= i < linked.large_lists.len() implies (
    #[trigger] linked.large_lists[i]).return_pc < linked.program.len() && !(
    linked.program[linked.large_lists[i].return_pc as int].code is UnionEnd) by {
        assert(follow(program, structure.large_lists[i].return_pc, program.len()) is Some);
        lemma_follow_arrives(program, structure.large_lists[i].return_pc, program.len());
    }
    assert forall|i: int| 0 <= i < linked.lists.len() implies (
    #[trigger] linked.lists[i]).return_pc < linked.program.len() && !(
    linked.program[linked.lists[i].return_pc as int].code is UnionEnd) by {
        assert(follow(program, structure.lists[i].return_pc, program.len()) is Some);
        lemma_follow_arrives(program, structure.lists[i].return_pc, program.len());
    }
    assert forall|i: int| 0 <= i < linked.maps.len() implies (
    #[trigger] linked.maps[i]).return_pc < linked.program.len() && !(
    linked.program[linked.maps[i].return_pc as int].code is UnionEnd) by {
        assert(follow(program, structure.maps[i].return_pc, program.len()) is Some);
        lemma_follow_arrives(program, structure.maps[i].return_pc, program.len());
    }
}

} // verus!
