//! Binding declarations and the slot-by-slot reconciliation of binding tables.
use vstd::prelude::*;
use crate::dialect::LocatedError;
use crate::pp::{ErrorKind, WGSLError};
use crate::utils::Named;

verus! {

/// What a binding is, together with its declared size.
#[derive(Clone, Copy, Debug, PartialEq, Eq, Structural)]
pub enum BindingKind {
    /// The block of scalars that holds the frame context.
    UniformBlock { bytes: u32 },
    /// A storage buffer that passes read and write.
    StorageBuffer { bytes: u32 },
    /// A storage texture of the given extent.
    StorageTexture { width: u32, height: u32 },
}

/// A named resource that a program declares. Its slot is its index in the
/// binding table of the program.
#[derive(Debug)]
pub struct BindingDeclaration {
    pub name: String,
    pub kind: BindingKind,
    /// The 1-based source line of the declaration; 0 for the uniform block.
    pub line: usize,
}

/// The mathematical content of a [`BindingDeclaration`].
pub struct BindingSpec {
    pub name: Seq<char>,
    pub kind: BindingKind,
    pub line: nat,
}

impl View for BindingDeclaration {
    type V = BindingSpec;

    open spec fn view(&self) -> BindingSpec {
        BindingSpec { name: self.name@, kind: self.kind, line: self.line as nat }
    }
}

/// The contents of a vector of declarations.
pub open spec fn bindings_view(v: Seq<BindingDeclaration>) -> Seq<BindingSpec> {
    Seq::new(v.len(), |i: int| v[i]@)
}

/// The names of a table, slot by slot.
pub open spec fn binding_names(table: Seq<BindingSpec>) -> Seq<Seq<char>> {
    Seq::new(table.len(), |i: int| table[i].name)
}

impl Named for BindingDeclaration {
    open spec fn name_view(&self) -> Seq<char> {
        self.name@
    }

    fn name_ref(&self) -> (s: &String) {
        &self.name
    }
}

/// What the device can provide for one binding.
#[derive(Clone, Copy, Debug)]
pub struct DeviceLimits {
    pub max_uniform_bytes: u32,
    pub max_storage_bytes: u32,
    pub max_texture_dimension: u32,
}

/// Whether the device can provide a binding of this kind and size: nothing
/// is empty and nothing exceeds its limit.
pub open spec fn fits(kind: BindingKind, limits: DeviceLimits) -> bool {
    match kind {
        BindingKind::UniformBlock { bytes } => 1 <= bytes <= limits.max_uniform_bytes,
        BindingKind::StorageBuffer { bytes } => 1 <= bytes <= limits.max_storage_bytes,
        BindingKind::StorageTexture { width, height } => {
            &&& 1 <= width <= limits.max_texture_dimension
            &&& 1 <= height <= limits.max_texture_dimension
        },
    }
}

/// Computes [`fits`].
pub fn within_limits(kind: BindingKind, limits: &DeviceLimits) -> (b: bool)
    ensures
        b == fits(kind, *limits),
{
    match kind {
        BindingKind::UniformBlock { bytes } => 1 <= bytes && bytes <= limits.max_uniform_bytes,
        BindingKind::StorageBuffer { bytes } => 1 <= bytes && bytes <= limits.max_storage_bytes,
        BindingKind::StorageTexture { width, height } => 1 <= width && width
            <= limits.max_texture_dimension && 1 <= height && height
            <= limits.max_texture_dimension,
    }
}

/// What becomes of the backing storage of one slot when a program replaces
/// another.
#[derive(Clone, Copy, Debug, PartialEq, Eq, Structural)]
pub enum SlotDecision {
    /// The storage of the slot stays as it is, contents included.
    Keep,
    /// The slot gets new storage, filled with zeros.
    Reallocate,
    /// The slot is gone and its storage is released.
    Drop,
}

/// The decision for one slot: a slot that the new table lacks is dropped, a
/// slot whose kind and size are those of the old table is kept, and any other
/// slot is reallocated.
pub open spec fn decision_at(
    previous: Seq<BindingKind>,
    declared: Seq<BindingKind>,
    slot: int,
) -> SlotDecision {
    if slot >= declared.len() {
        SlotDecision::Drop
    } else if slot < previous.len() && previous[slot] == declared[slot] {
        SlotDecision::Keep
    } else {
        SlotDecision::Reallocate
    }
}

/// The decisions for every slot of the old or the new table, by slot.
pub open spec fn decisions(previous: Seq<BindingKind>, declared: Seq<BindingKind>) -> Seq<
    SlotDecision,
> {
    Seq::new(
        if previous.len() >= declared.len() {
            previous.len()
        } else {
            declared.len()
        },
        |slot: int| decision_at(previous, declared, slot),
    )
}

/// The kinds of a table of declarations, by slot.
pub open spec fn kinds_of(table: Seq<BindingSpec>) -> Seq<BindingKind> {
    Seq::new(table.len(), |i: int| table[i].kind)
}

/// The resolved binding table of a program and what to do with each slot.
#[derive(Debug)]
pub struct Resolution {
    /// The kind and size of each slot of the new program.
    pub table: Vec<BindingKind>,
    /// For each slot of the old or the new program, what becomes of it.
    pub decisions: Vec<SlotDecision>,
}

/// Whether `r` is what reconciling the declared table with the previous
/// one gives. Where every declaration fits the device, it is the kinds of the
/// declarations and the decision for every slot. Where one does not, it is a
/// resource limit error at the line of the first that does not.
pub open spec fn is_resolution(
    r: Result<Resolution, WGSLError>,
    previous: Seq<BindingKind>,
    declared: Seq<BindingSpec>,
    limits: DeviceLimits,
) -> bool {
    match r {
        Ok(resolution) => {
            &&& forall|k: int| 0 <= k < declared.len() ==> fits(#[trigger] declared[k].kind, limits)
            &&& resolution.table@ == kinds_of(declared)
            &&& resolution.decisions@ == decisions(previous, resolution.table@)
        },
        Err(e) => exists|k: int|
            {
                &&& 0 <= k < declared.len()
                &&& !fits(#[trigger] declared[k].kind, limits)
                &&& forall|j: int| 0 <= j < k ==> fits(#[trigger] declared[j].kind, limits)
                &&& e@ == LocatedError {
                    kind: ErrorKind::ResourceLimit,
                    summary: "Binding exceeds device limits"@,
                    line: declared[k].line,
                }
            },
    }
}

/// Reconciles the declarations of a new program with the resolved table of
/// the program that ran before it (empty if none did). A declaration that the
/// device cannot provide fails the attempt; the error names the line of the
/// first such declaration.
pub fn resolve(
    previous: &Vec<BindingKind>,
    declared: &Vec<BindingDeclaration>,
    limits: &DeviceLimits,
) -> (r: Result<Resolution, WGSLError>)
    ensures
        is_resolution(r, previous@, bindings_view(declared@), *limits),
{
    let ghost view = bindings_view(declared@);
    let mut table: Vec<BindingKind> = Vec::new();
    let mut i: usize = 0;
    while i < declared.len()
        invariant
            i <= declared.len(),
            table.len() == i,
            view == bindings_view(declared@),
            forall|k: int| 0 <= k < i ==> fits(#[trigger] view[k].kind, *limits),
            forall|k: int| 0 <= k < i ==> table@[k] == view[k].kind,
        decreases declared.len() - i,
    {
        if !within_limits(declared[i].kind, limits) {
            let e = WGSLError::with_kind(
                ErrorKind::ResourceLimit,
                String::from_str("Binding exceeds device limits"),
                declared[i].line,
            );
            assert(!fits(view[i as int].kind, *limits));
            return Err(e);
        }
        table.push(declared[i].kind);
        i += 1;
    }
    assert(table@ =~= kinds_of(view));
    let slots: usize = if previous.len() >= table.len() {
        previous.len()
    } else {
        table.len()
    };
    let mut decided: Vec<SlotDecision> = Vec::new();
    let mut slot: usize = 0;
    while slot < slots
        invariant
            slot <= slots,
            slots == decisions(previous@, table@).len(),
            decided.len() == slot,
            forall|k: int| 0 <= k < slot ==> decided@[k] == decision_at(previous@, table@, k),
        decreases slots - slot,
    {
        let decision = if slot >= table.len() {
            SlotDecision::Drop
        } else if slot < previous.len() && previous[slot] == table[slot] {
            SlotDecision::Keep
        } else {
            SlotDecision::Reallocate
        };
        decided.push(decision);
        slot += 1;
    }
    assert(decided@ =~= decisions(previous@, table@));
    Ok(Resolution { table, decisions: decided })
}

/// A program whose binding table is the one that ran before keeps the
/// storage of every slot.
pub proof fn unchanged_table_keeps_every_slot(table: Seq<BindingKind>)
    ensures
        decisions(table, table).len() == table.len(),
        forall|slot: int|
            0 <= slot < table.len() ==> #[trigger] decisions(table, table)[slot]
                == SlotDecision::Keep,
{
}

/// Where one slot changes its kind or size and all others stay, that slot
/// alone is reallocated and every other slot keeps its storage.
pub proof fn changed_slot_reallocates_alone(
    previous: Seq<BindingKind>,
    declared: Seq<BindingKind>,
    changed: int,
)
    requires
        previous.len() == declared.len(),
        0 <= changed < declared.len(),
        previous[changed] != declared[changed],
        forall|slot: int|
            0 <= slot < declared.len() && slot != changed ==> previous[slot] == declared[slot],
    ensures
        decisions(previous, declared).len() == declared.len(),
        decisions(previous, declared)[changed] == SlotDecision::Reallocate,
        forall|slot: int|
            0 <= slot < declared.len() && slot != changed ==> #[trigger] decisions(
                previous,
                declared,
            )[slot] == SlotDecision::Keep,
{
}

/// A slot is kept exactly where the old table has it with the same kind and
/// size, and dropped exactly where the new table lacks it.
pub proof fn decision_by_slot(previous: Seq<BindingKind>, declared: Seq<BindingKind>, slot: int)
    requires
        0 <= slot < decisions(previous, declared).len(),
    ensures
        decisions(previous, declared)[slot] == SlotDecision::Keep <==> slot < previous.len()
            && slot < declared.len() && previous[slot] == declared[slot],
        decisions(previous, declared)[slot] == SlotDecision::Drop <==> slot >= declared.len(),
{
}

/// The number of bytes that the storage of a binding holds; a texel of a
/// storage texture takes sixteen.
pub open spec fn storage_bytes(kind: BindingKind) -> nat {
    match kind {
        BindingKind::UniformBlock { bytes } => bytes as nat,
        BindingKind::StorageBuffer { bytes } => bytes as nat,
        BindingKind::StorageTexture { width, height } => (16 * width * height) as nat,
    }
}

/// What the storage of a slot holds once a decision is carried out, given
/// what it held before: kept storage holds what it held, new storage of the
/// given kind holds zeros, and dropped storage is gone.
pub open spec fn contents_after(
    decision: SlotDecision,
    kind: BindingKind,
    before: Seq<u8>,
) -> Option<Seq<u8>> {
    match decision {
        SlotDecision::Keep => Some(before),
        SlotDecision::Reallocate => Some(Seq::new(storage_bytes(kind), |i: int| 0u8)),
        SlotDecision::Drop => None,
    }
}

/// Recompiling a program whose binding set is unchanged leaves the contents
/// of every slot as they were.
pub proof fn unchanged_table_preserves_contents(table: Seq<BindingKind>, held: Seq<Seq<u8>>)
    requires
        held.len() == table.len(),
    ensures
        forall|slot: int|
            0 <= slot < table.len() ==> contents_after(
                #[trigger] decisions(table, table)[slot],
                table[slot],
                held[slot],
            ) == Some(held[slot]),
{
}

/// Recompiling a program in which one slot changes its kind or size fills
/// that slot with zeros and leaves the contents of every other slot as they
/// were.
pub proof fn changed_slot_is_zeroed_alone(
    previous: Seq<BindingKind>,
    declared: Seq<BindingKind>,
    changed: int,
    held: Seq<Seq<u8>>,
)
    requires
        previous.len() == declared.len() == held.len(),
        0 <= changed < declared.len(),
        previous[changed] != declared[changed],
        forall|slot: int|
            0 <= slot < declared.len() && slot != changed ==> previous[slot] == declared[slot],
    ensures
        contents_after(decisions(previous, declared)[changed], declared[changed], held[changed])
            == Some(Seq::new(storage_bytes(declared[changed]), |i: int| 0u8)),
        forall|slot: int|
            0 <= slot < declared.len() && slot != changed ==> contents_after(
                #[trigger] decisions(previous, declared)[slot],
                declared[slot],
                held[slot],
            ) == Some(held[slot]),
{
}

/// The slots of the bind group of a pass: slot 0, then the slots that the
/// pass uses, each once, in the order in which it first names them.
pub open spec fn group_slots(uses: Seq<u32>) -> Seq<u32>
    decreases uses.len(),
{
    if uses.len() == 0 {
        seq![0u32]
    } else {
        let before = group_slots(uses.drop_last());
        if before.contains(uses.last()) {
            before
        } else {
            before.push(uses.last())
        }
    }
}

/// The bind group of a pass holds slot 0 and exactly the slots that the pass
/// uses, none of them twice.
pub proof fn group_slots_are_distinct(uses: Seq<u32>)
    ensures
        group_slots(uses).no_duplicates(),
        group_slots(uses)[0] == 0,
        forall|slot: u32|
            group_slots(uses).contains(slot) <==> slot == 0 || uses.contains(slot),
    decreases uses.len(),
{
    if uses.len() == 0 {
        assert forall|slot: u32| group_slots(uses).contains(slot) <==> slot == 0 by {
            if slot == 0 {
                assert(group_slots(uses)[0] == slot);
            }
        }
    } else {
        let shorter = uses.drop_last();
        let before = group_slots(shorter);
        group_slots_are_distinct(shorter);
        assert(before.len() > 0) by {
            assert(before.contains(0u32));
        }
        assert forall|slot: u32|
            group_slots(uses).contains(slot) <==> slot == 0 || uses.contains(slot) by {
            if uses.contains(slot) {
                let i = choose|i: int| 0 <= i < uses.len() && uses[i] == slot;
                if i < shorter.len() {
                    assert(shorter[i] == slot);
                    assert(shorter.contains(slot));
                }
            }
            if shorter.contains(slot) {
                let i = choose|i: int| 0 <= i < shorter.len() && shorter[i] == slot;
                assert(uses[i] == slot);
            }
            if before.contains(uses.last()) {
            } else {
                let after = before.push(uses.last());
                if before.contains(slot) {
                    let i = choose|i: int| 0 <= i < before.len() && before[i] == slot;
                    assert(after[i] == slot);
                }
                if slot == uses.last() {
                    assert(after[before.len() as int] == slot);
                    assert(uses[uses.len() - 1] == slot);
                }
                if after.contains(slot) {
                    let i = choose|i: int| 0 <= i < after.len() && after[i] == slot;
                    if i < before.len() {
                        assert(before[i] == slot);
                    }
                }
            }
        }
    }
}

/// Computes [`group_slots`].
pub fn layout_slots(uses: &Vec<u32>) -> (slots: Vec<u32>)
    ensures
        slots@ == group_slots(uses@),
{
    let mut slots: Vec<u32> = Vec::new();
    slots.push(0);
    let mut i: usize = 0;
    assert(uses@.take(0) =~= Seq::<u32>::empty());
    while i < uses.len()
        invariant
            i <= uses.len(),
            slots@ == group_slots(uses@.take(i as int)),
        decreases uses.len() - i,
    {
        assert(uses@.take(i as int + 1).drop_last() =~= uses@.take(i as int));
        let slot = uses[i];
        let mut found = false;
        let mut k: usize = 0;
        while k < slots.len()
            invariant
                k <= slots.len(),
                found == exists|j: int| 0 <= j < k && slots@[j] == slot,
            decreases slots.len() - k,
        {
            if slots[k] == slot {
                found = true;
            }
            k += 1;
        }
        assert(found == slots@.contains(slot));
        if !found {
            slots.push(slot);
        }
        i += 1;
    }
    assert(uses@.take(uses.len() as int) =~= uses@);
    slots
}

/// Whether `slot` is the slot of the image that is presented: the last slot
/// of the table that holds a storage texture.
pub open spec fn is_final_target(table: Seq<BindingKind>, slot: int) -> bool {
    &&& 0 <= slot < table.len()
    &&& table[slot] is StorageTexture
    &&& forall|later: int| slot < later < table.len() ==> !(#[trigger] table[later] is StorageTexture)
}

/// Finds the slot of the image that is presented after the last pass: the last
/// storage texture of the table, if it has one.
pub fn final_target(table: &Vec<BindingKind>) -> (r: Option<usize>)
    ensures
        match r {
            Some(slot) => is_final_target(table@, slot as int),
            None => forall|slot: int|
                0 <= slot < table.len() ==> !(#[trigger] table[slot] is StorageTexture),
        },
{
    let mut i: usize = table.len();
    while i > 0
        invariant
            i <= table.len(),
            forall|later: int|
                i <= later < table.len() ==> !(#[trigger] table[later] is StorageTexture),
        decreases i,
    {
        i -= 1;
        match table[i] {
            BindingKind::StorageTexture { .. } => {
                return Some(i);
            },
            _ => {},
        }
    }
    None
}

} // verus!
