//! The buffers that a program writes to.
//!
//! Buffers are pooled by the width of their cells, not by column. What an
//! operation does to a pool is defined on the mathematical value of the
//! pool; an operation on a buffer that the pool does not have fails.
use vstd::prelude::*;
use crate::error::{fail, Error, ErrorKind};
use crate::interpreter::bit_set::BitSet;
use crate::structure::{BufferCounts, NullDefinition, NullDefinitionView};
use crate::text::string_views;

verus! {

/// The largest offset of a buffer of 32-bit offsets.
pub const MAX_OFFSET_32: i64 = 0x7fff_ffff;

/// The largest offset of a buffer of 64-bit offsets.
pub const MAX_OFFSET_64: i64 = 0x7fff_ffff_ffff_ffff;

/// The offsets of the rows of a column of variable length, with the
/// number of items counted so far.
#[derive(Debug, Clone, PartialEq, Eq)]
pub struct OffsetBuilder {
    pub offsets: Vec<i64>,
    pub current_items: i64,
}

/// The mathematical value of an [`OffsetBuilder`].
pub struct OffsetsView {
    pub offsets: Seq<i64>,
    pub current_items: i64,
}

impl View for OffsetBuilder {
    type V = OffsetsView;

    open spec fn view(&self) -> OffsetsView {
        OffsetsView { offsets: self.offsets@, current_items: self.current_items }
    }
}

impl OffsetsView {
    /// No rows and no items: the single offset 0.
    pub open spec fn empty() -> OffsetsView {
        OffsetsView { offsets: seq![0i64], current_items: 0 }
    }

    /// Whether the offsets start at 0, never decrease, and do not exceed
    /// the number of items counted so far.
    pub open spec fn is_monotone(self) -> bool {
        &&& self.offsets.len() > 0
        &&& self.offsets[0] == 0
        &&& forall|i: int, j: int|
            0 <= i <= j < self.offsets.len() ==> self.offsets[i] <= self.offsets[j]
        &&& self.offsets.last() <= self.current_items
    }

    /// The offsets after `n` more items were counted, unless the count is
    /// negative or exceeds the limit.
    pub open spec fn with_items(self, n: int, limit: i64) -> Option<OffsetsView> {
        if n < 0 || self.current_items < 0 || self.current_items + n > limit {
            None
        } else {
            Some(OffsetsView { current_items: (self.current_items + n) as i64, ..self })
        }
    }

    /// The offsets after a row ended: the number of items counted so far
    /// is the next offset.
    pub open spec fn with_row(self) -> OffsetsView {
        OffsetsView { offsets: self.offsets.push(self.current_items), ..self }
    }
}

impl OffsetBuilder {
    /// No rows and no items.
    pub fn new() -> (res: OffsetBuilder)
        ensures
            res@ == OffsetsView::empty(),
    {
        let mut offsets: Vec<i64> = Vec::new();
        offsets.push(0);
        assert(offsets@ =~= seq![0i64]);
        OffsetBuilder { offsets, current_items: 0 }
    }

    /// Counts `n` more items. Fails, leaving the count as it is, if it
    /// would exceed the limit.
    pub fn inc_current_items(&mut self, n: usize, limit: i64) -> (res: Result<(), Error>)
        ensures
            match old(self)@.with_items(n as int, limit) {
                Some(view) => res is Ok && final(self)@ == view,
                None => res is Err && final(self)@ == old(self)@,
            },
    {
        if self.current_items < 0 || limit < self.current_items {
            return fail(ErrorKind::Interpret, "offset overflow");
        }
        let room: i64 = limit - self.current_items;
        let wide: u64 = n as u64;
        if wide > room as u64 {
            return fail(ErrorKind::Interpret, "offset overflow");
        }
        self.current_items = self.current_items + wide as i64;
        Ok(())
    }

    /// Ends a row.
    pub fn push_current_items(&mut self)
        ensures
            final(self)@ == old(self)@.with_row(),
    {
        self.offsets.push(self.current_items);
    }
}

/// Counting items keeps offsets monotone.
pub proof fn lemma_with_items_monotone(offsets: OffsetsView, n: int, limit: i64)
    requires
        offsets.is_monotone(),
        offsets.with_items(n, limit) is Some,
    ensures
        offsets.with_items(n, limit).unwrap().is_monotone(),
{
}

/// Ending a row keeps offsets monotone, adds one offset, and makes the
/// last offset the number of items counted so far.
pub proof fn lemma_with_row_monotone(offsets: OffsetsView)
    requires
        offsets.is_monotone(),
    ensures
        offsets.with_row().is_monotone(),
        offsets.with_row().offsets.len() == offsets.offsets.len() + 1,
        offsets.with_row().offsets.last() == offsets.current_items,
{
    let after = offsets.with_row();
    assert forall|i: int, j: int| 0 <= i <= j < after.offsets.len() implies after.offsets[i]
        <= after.offsets[j] by {
        if j < offsets.offsets.len() {
        } else if i < offsets.offsets.len() {
            assert(offsets.offsets[i] <= offsets.offsets.last());
        }
    }
}

/// The contents of each buffer of a pool.
pub open spec fn nested<T>(pool: Seq<Vec<T>>) -> Seq<Seq<T>> {
    Seq::new(pool.len(), |i: int| pool[i]@)
}

/// The pool after `value` was appended to the buffer `idx`, if there is
/// such a buffer.
pub open spec fn appended<T>(pool: Seq<Seq<T>>, idx: usize, value: T) -> Option<Seq<Seq<T>>> {
    if idx < pool.len() {
        Some(pool.update(idx as int, pool[idx as int].push(value)))
    } else {
        None
    }
}

/// The pool after all of `values` were appended to the buffer `idx`, if
/// there is such a buffer.
pub open spec fn extended<T>(pool: Seq<Seq<T>>, idx: usize, values: Seq<T>) -> Option<
    Seq<Seq<T>>,
> {
    if idx < pool.len() {
        Some(pool.update(idx as int, pool[idx as int] + values))
    } else {
        None
    }
}

/// The counters after the counter `idx` was raised by one, if there is
/// such a counter and it can grow.
pub open spec fn counted(pool: Seq<usize>, idx: usize) -> Option<Seq<usize>> {
    if idx < pool.len() && pool[idx as int] < usize::MAX {
        Some(pool.update(idx as int, (pool[idx as int] + 1) as usize))
    } else {
        None
    }
}

/// The views of the offsets of a pool.
pub open spec fn offsets_views(pool: Seq<OffsetBuilder>) -> Seq<OffsetsView> {
    Seq::new(pool.len(), |i: int| pool[i]@)
}

/// The pool after a row of the offsets `idx` ended, if there are such
/// offsets.
pub open spec fn row_ended(pool: Seq<OffsetsView>, idx: usize) -> Option<Seq<OffsetsView>> {
    if idx < pool.len() {
        Some(pool.update(idx as int, pool[idx as int].with_row()))
    } else {
        None
    }
}

/// The pool after `n` more items of the offsets `idx` were counted, if
/// there are such offsets and the count stays within the limit.
pub open spec fn items_counted(pool: Seq<OffsetsView>, idx: usize, n: int, limit: i64) -> Option<
    Seq<OffsetsView>,
> {
    if idx < pool.len() {
        match pool[idx as int].with_items(n, limit) {
            Some(offsets) => Some(pool.update(idx as int, offsets)),
            None => None,
        }
    } else {
        None
    }
}

/// The pools after the first `n` of the given buffers got one more value.
#[verifier::opaque]
pub open spec fn appended_all<T>(pool: Seq<Seq<T>>, indices: Seq<usize>, value: T, n: nat) -> Option<
    Seq<Seq<T>>,
>
    decreases n,
{
    if n == 0 || n > indices.len() {
        Some(pool)
    } else {
        match appended_all(pool, indices, value, (n - 1) as nat) {
            Some(before) => appended(before, indices[n - 1], value),
            None => None,
        }
    }
}

/// The counters after the first `n` of the given counters were raised by
/// one.
#[verifier::opaque]
pub open spec fn counted_all(pool: Seq<usize>, indices: Seq<usize>, n: nat) -> Option<Seq<usize>>
    decreases n,
{
    if n == 0 || n > indices.len() {
        Some(pool)
    } else {
        match counted_all(pool, indices, (n - 1) as nat) {
            Some(before) => counted(before, indices[n - 1]),
            None => None,
        }
    }
}

/// The pool after a row ended in the first `n` of the given offsets.
#[verifier::opaque]
pub open spec fn rows_ended(pool: Seq<OffsetsView>, indices: Seq<usize>, n: nat) -> Option<
    Seq<OffsetsView>,
>
    decreases n,
{
    if n == 0 || n > indices.len() {
        Some(pool)
    } else {
        match rows_ended(pool, indices, (n - 1) as nat) {
            Some(before) => row_ended(before, indices[n - 1]),
            None => None,
        }
    }
}

/// How the folds over the buffers of a null definition unfold.
pub proof fn lemma_appended_all_step<T>(pool: Seq<Seq<T>>, indices: Seq<usize>, value: T, k: nat)
    ensures
        appended_all(pool, indices, value, 0) == Some(pool),
        k < indices.len() ==> appended_all(pool, indices, value, k + 1) == (match appended_all(
            pool,
            indices,
            value,
            k,
        ) {
            Some(before) => appended(before, indices[k as int], value),
            None => None,
        }),
{
    reveal(appended_all);
    assert((k + 1 - 1) as nat == k);
}

/// Once a buffer is missing, the fold over more buffers fails too.
pub proof fn lemma_appended_all_fail<T>(
    pool: Seq<Seq<T>>,
    indices: Seq<usize>,
    value: T,
    k: nat,
    n: nat,
)
    requires
        k <= n <= indices.len(),
        appended_all(pool, indices, value, k) is None,
    ensures
        appended_all(pool, indices, value, n) is None,
    decreases n,
{
    reveal(appended_all);
    if k < n {
        lemma_appended_all_fail(pool, indices, value, k, (n - 1) as nat);
    }
}

/// How the fold over the counters of a null definition unfolds.
pub proof fn lemma_counted_all_step(pool: Seq<usize>, indices: Seq<usize>, k: nat)
    ensures
        counted_all(pool, indices, 0) == Some(pool),
        k < indices.len() ==> counted_all(pool, indices, k + 1) == (match counted_all(
            pool,
            indices,
            k,
        ) {
            Some(before) => counted(before, indices[k as int]),
            None => None,
        }),
{
    reveal(counted_all);
    assert((k + 1 - 1) as nat == k);
}

/// Once a counter is missing, the fold over more counters fails too.
pub proof fn lemma_counted_all_fail(pool: Seq<usize>, indices: Seq<usize>, k: nat, n: nat)
    requires
        k <= n <= indices.len(),
        counted_all(pool, indices, k) is None,
    ensures
        counted_all(pool, indices, n) is None,
    decreases n,
{
    reveal(counted_all);
    if k < n {
        lemma_counted_all_fail(pool, indices, k, (n - 1) as nat);
    }
}

/// How the fold over the offsets of a null definition unfolds.
pub proof fn lemma_rows_ended_step(pool: Seq<OffsetsView>, indices: Seq<usize>, k: nat)
    ensures
        rows_ended(pool, indices, 0) == Some(pool),
        k < indices.len() ==> rows_ended(pool, indices, k + 1) == (match rows_ended(
            pool,
            indices,
            k,
        ) {
            Some(before) => row_ended(before, indices[k as int]),
            None => None,
        }),
{
    reveal(rows_ended);
    assert((k + 1 - 1) as nat == k);
}

/// Once offsets are missing, the fold over more offsets fails too.
pub proof fn lemma_rows_ended_fail(pool: Seq<OffsetsView>, indices: Seq<usize>, k: nat, n: nat)
    requires
        k <= n <= indices.len(),
        rows_ended(pool, indices, k) is None,
    ensures
        rows_ended(pool, indices, n) is None,
    decreases n,
{
    reveal(rows_ended);
    if k < n {
        lemma_rows_ended_fail(pool, indices, k, (n - 1) as nat);
    }
}

/// Appends a value to the buffer `idx` of a pool. Fails, leaving the pool
/// as it is, if there is no such buffer.
pub fn push_to<T>(pool: &mut Vec<Vec<T>>, idx: usize, value: T) -> (res: Result<(), Error>)
    ensures
        match appended(nested(old(pool)@), idx, value) {
            Some(after) => res is Ok && nested(final(pool)@) == after,
            None => res is Err && nested(final(pool)@) == nested(old(pool)@),
        },
{
    if idx >= pool.len() {
        return fail(ErrorKind::Interpret, "the program writes to a buffer that does not exist");
    }
    pool[idx].push(value);
    assert(nested(pool@) =~= appended(nested(old(pool)@), idx, value).unwrap());
    Ok(())
}

/// Raises the counter `idx` by one. Fails, leaving the counters as they
/// are, if there is no such counter or it cannot grow.
pub fn count_at(pool: &mut Vec<usize>, idx: usize) -> (res: Result<(), Error>)
    ensures
        match counted(old(pool)@, idx) {
            Some(after) => res is Ok && final(pool)@ == after,
            None => res is Err && final(pool)@ == old(pool)@,
        },
{
    if idx >= pool.len() {
        return fail(ErrorKind::Interpret, "the program writes to a buffer that does not exist");
    }
    if pool[idx] == usize::MAX {
        return fail(ErrorKind::Interpret, "too many values");
    }
    pool[idx] = pool[idx] + 1;
    Ok(())
}

/// Ends a row of the offsets `idx`. Fails, leaving the pool as it is, if
/// there are no such offsets.
pub fn end_row(pool: &mut Vec<OffsetBuilder>, idx: usize) -> (res: Result<(), Error>)
    ensures
        match row_ended(offsets_views(old(pool)@), idx) {
            Some(after) => res is Ok && offsets_views(final(pool)@) == after,
            None => res is Err && offsets_views(final(pool)@) == offsets_views(old(pool)@),
        },
{
    if idx >= pool.len() {
        return fail(ErrorKind::Interpret, "the program writes to a buffer that does not exist");
    }
    pool[idx].push_current_items();
    assert(offsets_views(pool@) =~= row_ended(offsets_views(old(pool)@), idx).unwrap());
    Ok(())
}

/// Counts `n` more items of the offsets `idx`. Fails, leaving the pool as
/// it is, if there are no such offsets or the count would exceed the
/// limit.
pub fn count_items(pool: &mut Vec<OffsetBuilder>, idx: usize, n: usize, limit: i64) -> (res: Result<
    (),
    Error,
>)
    ensures
        match items_counted(offsets_views(old(pool)@), idx, n as int, limit) {
            Some(after) => res is Ok && offsets_views(final(pool)@) == after,
            None => res is Err && offsets_views(final(pool)@) == offsets_views(old(pool)@),
        },
{
    if idx >= pool.len() {
        return fail(ErrorKind::Interpret, "the program writes to a buffer that does not exist");
    }
    assert(offsets_views(pool@)[idx as int] == pool@[idx as int]@);
    match pool[idx].inc_current_items(n, limit) {
        Ok(()) => {
            assert(offsets_views(pool@) =~= items_counted(
                offsets_views(old(pool)@),
                idx,
                n as int,
                limit,
            ).unwrap());
            Ok(())
        },
        Err(e) => {
            assert(offsets_views(pool@) =~= offsets_views(old(pool)@));
            Err(e)
        },
    }
}

/// Appends a value to each of the given buffers of a pool.
pub fn push_to_all<T: Copy>(pool: &mut Vec<Vec<T>>, indices: &Vec<usize>, value: T) -> (res: Result<
    (),
    Error,
>)
    ensures
        match appended_all(nested(old(pool)@), indices@, value, indices@.len()) {
            Some(after) => res is Ok && nested(final(pool)@) == after,
            None => res is Err,
        },
{
    let n: usize = indices.len();
    let mut k: usize = 0;
    proof {
        lemma_appended_all_step(nested(old(pool)@), indices@, value, 0);
    }
    while k < n
        invariant
            n == indices@.len(),
            k <= n,
            appended_all(nested(old(pool)@), indices@, value, k as nat) == Some(nested(pool@)),
        decreases n - k,
    {
        proof {
            lemma_appended_all_step(nested(old(pool)@), indices@, value, k as nat);
        }
        match push_to(pool, indices[k], value) {
            Ok(()) => {},
            Err(e) => {
                proof {
                    lemma_appended_all_fail(
                        nested(old(pool)@),
                        indices@,
                        value,
                        (k + 1) as nat,
                        n as nat,
                    );
                }
                return Err(e);
            },
        }
        k = k + 1;
    }
    Ok(())
}

/// Raises each of the given counters by one.
pub fn count_at_all(pool: &mut Vec<usize>, indices: &Vec<usize>) -> (res: Result<(), Error>)
    ensures
        match counted_all(old(pool)@, indices@, indices@.len()) {
            Some(after) => res is Ok && final(pool)@ == after,
            None => res is Err,
        },
{
    let n: usize = indices.len();
    let mut k: usize = 0;
    proof {
        lemma_counted_all_step(old(pool)@, indices@, 0);
    }
    while k < n
        invariant
            n == indices@.len(),
            k <= n,
            counted_all(old(pool)@, indices@, k as nat) == Some(pool@),
        decreases n - k,
    {
        proof {
            lemma_counted_all_step(old(pool)@, indices@, k as nat);
        }
        match count_at(pool, indices[k]) {
            Ok(()) => {},
            Err(e) => {
                proof {
                    lemma_counted_all_fail(old(pool)@, indices@, (k + 1) as nat, n as nat);
                }
                return Err(e);
            },
        }
        k = k + 1;
    }
    Ok(())
}

/// Ends a row in each of the given offsets.
pub fn end_row_all(pool: &mut Vec<OffsetBuilder>, indices: &Vec<usize>) -> (res: Result<(), Error>)
    ensures
        match rows_ended(offsets_views(old(pool)@), indices@, indices@.len()) {
            Some(after) => res is Ok && offsets_views(final(pool)@) == after,
            None => res is Err,
        },
{
    let n: usize = indices.len();
    let mut k: usize = 0;
    proof {
        lemma_rows_ended_step(offsets_views(old(pool)@), indices@, 0);
    }
    while k < n
        invariant
            n == indices@.len(),
            k <= n,
            rows_ended(offsets_views(old(pool)@), indices@, k as nat) == Some(
                offsets_views(pool@),
            ),
        decreases n - k,
    {
        proof {
            lemma_rows_ended_step(offsets_views(old(pool)@), indices@, k as nat);
        }
        match end_row(pool, indices[k]) {
            Ok(()) => {},
            Err(e) => {
                proof {
                    lemma_rows_ended_fail(
                        offsets_views(old(pool)@),
                        indices@,
                        (k + 1) as nat,
                        n as nat,
                    );
                }
                return Err(e);
            },
        }
        k = k + 1;
    }
    Ok(())
}

/// The buffers of a program, pooled by the width of their cells.
#[derive(Debug, PartialEq)]
pub struct Buffers {
    /// Counters of values without bits.
    pub u0: Vec<usize>,
    /// Bitmaps, one flag per bit.
    pub u1: Vec<Vec<bool>>,
    pub u8: Vec<Vec<u8>>,
    pub u16: Vec<Vec<u16>>,
    pub u32: Vec<Vec<u32>>,
    pub u64: Vec<Vec<u64>>,
    pub u32_offsets: Vec<OffsetBuilder>,
    pub u64_offsets: Vec<OffsetBuilder>,
    /// The fields seen in the current record of each struct.
    pub seen: Vec<BitSet>,
    /// The distinct values of each dictionary, in the order in which they
    /// were first seen.
    pub dictionaries: Vec<Vec<String>>,
}

/// The mathematical value of [`Buffers`].
pub struct BuffersView {
    pub u0: Seq<usize>,
    pub u1: Seq<Seq<bool>>,
    pub u8: Seq<Seq<u8>>,
    pub u16: Seq<Seq<u16>>,
    pub u32: Seq<Seq<u32>>,
    pub u64: Seq<Seq<u64>>,
    pub u32_offsets: Seq<OffsetsView>,
    pub u64_offsets: Seq<OffsetsView>,
    pub seen: Seq<BitSet>,
    pub dictionaries: Seq<Seq<Seq<char>>>,
}

/// The values of each dictionary of a pool.
pub open spec fn dictionary_views(pool: Seq<Vec<String>>) -> Seq<Seq<Seq<char>>> {
    Seq::new(pool.len(), |i: int| string_views(pool[i]@))
}

impl View for Buffers {
    type V = BuffersView;

    open spec fn view(&self) -> BuffersView {
        BuffersView {
            u0: self.u0@,
            u1: nested(self.u1@),
            u8: nested(self.u8@),
            u16: nested(self.u16@),
            u32: nested(self.u32@),
            u64: nested(self.u64@),
            u32_offsets: offsets_views(self.u32_offsets@),
            u64_offsets: offsets_views(self.u64_offsets@),
            seen: self.seen@,
            dictionaries: dictionary_views(self.dictionaries@),
        }
    }
}

impl BuffersView {
    /// As many empty buffers of each kind as the counts say.
    pub open spec fn empty(counts: BufferCounts) -> BuffersView {
        BuffersView {
            u0: Seq::new(counts.num_u0 as nat, |i: int| 0usize),
            u1: Seq::new(counts.num_u1 as nat, |i: int| Seq::empty()),
            u8: Seq::new(counts.num_u8 as nat, |i: int| Seq::empty()),
            u16: Seq::new(counts.num_u16 as nat, |i: int| Seq::empty()),
            u32: Seq::new(counts.num_u32 as nat, |i: int| Seq::empty()),
            u64: Seq::new(counts.num_u64 as nat, |i: int| Seq::empty()),
            u32_offsets: Seq::new(counts.num_u32_offsets as nat, |i: int| OffsetsView::empty()),
            u64_offsets: Seq::new(counts.num_u64_offsets as nat, |i: int| OffsetsView::empty()),
            seen: Seq::new(counts.num_seen as nat, |i: int| BitSet { bits: 0 }),
            dictionaries: Seq::new(counts.num_dictionaries as nat, |i: int| Seq::empty()),
        }
    }

    /// The buffers after one absent value: each buffer that the null
    /// definition lists gets one more slot. Counters are raised, bitmaps
    /// get a bit 0, value buffers a 0, and offsets an empty row.
    pub open spec fn with_null(self, definition: NullDefinitionView) -> Option<BuffersView> {
        match counted_all(self.u0, definition.u0, definition.u0.len()) {
            None => None,
            Some(u0) => match appended_all(self.u1, definition.u1, false, definition.u1.len()) {
                None => None,
                Some(u1) => match appended_all(self.u8, definition.u8, 0u8, definition.u8.len()) {
                    None => None,
                    Some(u8) => match appended_all(
                        self.u16,
                        definition.u16,
                        0u16,
                        definition.u16.len(),
                    ) {
                        None => None,
                        Some(u16) => match appended_all(
                            self.u32,
                            definition.u32,
                            0u32,
                            definition.u32.len(),
                        ) {
                            None => None,
                            Some(u32) => match appended_all(
                                self.u64,
                                definition.u64,
                                0u64,
                                definition.u64.len(),
                            ) {
                                None => None,
                                Some(u64) => match rows_ended(
                                    self.u32_offsets,
                                    definition.u32_offsets,
                                    definition.u32_offsets.len(),
                                ) {
                                    None => None,
                                    Some(u32_offsets) => match rows_ended(
                                        self.u64_offsets,
                                        definition.u64_offsets,
                                        definition.u64_offsets.len(),
                                    ) {
                                        None => None,
                                        Some(u64_offsets) => Some(
                                            BuffersView {
                                                u0,
                                                u1,
                                                u8,
                                                u16,
                                                u32,
                                                u64,
                                                u32_offsets,
                                                u64_offsets,
                                                ..self
                                            },
                                        ),
                                    },
                                },
                            },
                        },
                    },
                },
            },
        }
    }
}

/// A pool of the given number of empty buffers.
fn empty_pool<T>(n: usize) -> (res: Vec<Vec<T>>)
    ensures
        nested(res@) == Seq::new(n as nat, |i: int| Seq::<T>::empty()),
{
    let mut pool: Vec<Vec<T>> = Vec::new();
    let mut i: usize = 0;
    while i < n
        invariant
            i <= n,
            pool@.len() == i,
            forall|k: int| 0 <= k < i ==> (#[trigger] pool@[k])@ == Seq::<T>::empty(),
        decreases n - i,
    {
        pool.push(Vec::new());
        i = i + 1;
    }
    assert(nested(pool@) =~= Seq::new(n as nat, |i: int| Seq::<T>::empty()));
    pool
}

/// A pool of the given number of offsets without rows.
fn empty_offsets(n: usize) -> (res: Vec<OffsetBuilder>)
    ensures
        offsets_views(res@) == Seq::new(n as nat, |i: int| OffsetsView::empty()),
{
    let mut pool: Vec<OffsetBuilder> = Vec::new();
    let mut i: usize = 0;
    while i < n
        invariant
            i <= n,
            pool@.len() == i,
            forall|k: int| 0 <= k < i ==> (#[trigger] pool@[k])@ == OffsetsView::empty(),
        decreases n - i,
    {
        pool.push(OffsetBuilder::new());
        i = i + 1;
    }
    assert(offsets_views(pool@) =~= Seq::new(n as nat, |i: int| OffsetsView::empty()));
    pool
}

impl Buffers {
    /// As many empty buffers of each kind as the counts say.
    pub fn new(counts: &BufferCounts) -> (res: Buffers)
        ensures
            res@ == BuffersView::empty(*counts),
    {
        let mut u0: Vec<usize> = Vec::new();
        let mut i: usize = 0;
        while i < counts.num_u0
            invariant
                i <= counts.num_u0,
                u0@.len() == i,
                forall|k: int| 0 <= k < i ==> #[trigger] u0@[k] == 0,
            decreases counts.num_u0 - i,
        {
            u0.push(0);
            i = i + 1;
        }
        let mut seen: Vec<BitSet> = Vec::new();
        let mut i: usize = 0;
        while i < counts.num_seen
            invariant
                i <= counts.num_seen,
                seen@.len() == i,
                forall|k: int| 0 <= k < i ==> #[trigger] seen@[k] == (BitSet { bits: 0 }),
            decreases counts.num_seen - i,
        {
            seen.push(BitSet::new());
            i = i + 1;
        }
        let mut dictionaries: Vec<Vec<String>> = Vec::new();
        let mut i: usize = 0;
        while i < counts.num_dictionaries
            invariant
                i <= counts.num_dictionaries,
                dictionaries@.len() == i,
                forall|k: int|
                    0 <= k < i ==> (#[trigger] dictionaries@[k])@ == Seq::<String>::empty(),
            decreases counts.num_dictionaries - i,
        {
            dictionaries.push(Vec::new());
            i = i + 1;
        }
        let res = Buffers {
            u0,
            u1: empty_pool(counts.num_u1),
            u8: empty_pool(counts.num_u8),
            u16: empty_pool(counts.num_u16),
            u32: empty_pool(counts.num_u32),
            u64: empty_pool(counts.num_u64),
            u32_offsets: empty_offsets(counts.num_u32_offsets),
            u64_offsets: empty_offsets(counts.num_u64_offsets),
            seen,
            dictionaries,
        };
        assert(res@.u0 =~= BuffersView::empty(*counts).u0);
        assert(res@.seen =~= BuffersView::empty(*counts).seen);
        assert(res@.dictionaries =~= BuffersView::empty(*counts).dictionaries) by {
            assert forall|k: int| 0 <= k < res.dictionaries@.len() implies string_views(
                #[trigger] res.dictionaries@[k]@,
            ) =~= Seq::<Seq<char>>::empty() by {}
        }
        res
    }

    /// Gives each buffer that the null definition lists one more slot, for
    /// one absent value.
    pub fn apply_null(&mut self, definition: &NullDefinition) -> (res: Result<(), Error>)
        ensures
            match old(self)@.with_null(definition@) {
                Some(view) => res is Ok && final(self)@ == view,
                None => res is Err,
            },
    {
        match count_at_all(&mut self.u0, &definition.u0) {
            Ok(()) => {},
            Err(e) => {
                return Err(e);
            },
        }
        match push_to_all(&mut self.u1, &definition.u1, false) {
            Ok(()) => {},
            Err(e) => {
                return Err(e);
            },
        }
        match push_to_all(&mut self.u8, &definition.u8, 0u8) {
            Ok(()) => {},
            Err(e) => {
                return Err(e);
            },
        }
        match push_to_all(&mut self.u16, &definition.u16, 0u16) {
            Ok(()) => {},
            Err(e) => {
                return Err(e);
            },
        }
        match push_to_all(&mut self.u32, &definition.u32, 0u32) {
            Ok(()) => {},
            Err(e) => {
                return Err(e);
            },
        }
        match push_to_all(&mut self.u64, &definition.u64, 0u64) {
            Ok(()) => {},
            Err(e) => {
                return Err(e);
            },
        }
        match end_row_all(&mut self.u32_offsets, &definition.u32_offsets) {
            Ok(()) => {},
            Err(e) => {
                return Err(e);
            },
        }
        match end_row_all(&mut self.u64_offsets, &definition.u64_offsets) {
            Ok(()) => {},
            Err(e) => {
                return Err(e);
            },
        }
        Ok(())
    }
}

} // verus!
