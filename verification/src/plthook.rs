//! Redirecting calls that a module makes through its import table: the slot
//! that holds the address of an imported function is overwritten with the
//! address of a substitute.
//!
//! This module finds the slots and says what to write where. The writes
//! themselves, into memory made writable for them, are the caller's.
use vstd::prelude::*;

verus! {

/// `plt_rs::DynamicLibrary`: a loaded module with its dynamic section
/// resolved. Nothing of what it holds is visible here.
#[verifier::external_type_specification]
#[verifier::external_body]
pub struct ExDynamicLibrary<'a>(plt_rs::DynamicLibrary<'a>);

/// One pointer to overwrite.
#[derive(Clone, Copy, Debug, PartialEq, Eq, Structural)]
pub struct SlotPatch {
    /// The address of the slot.
    pub slot: u64,
    /// The address to store in it.
    pub replacement: u64,
}

/// The load address of a module.
///
/// Trusted: calls `plt_rs::DynamicLibrary::base_addr`, which returns the
/// address recorded when the module was found. Nothing is claimed of it.
#[verifier::external_body]
fn base_addr(dyn_lib: &plt_rs::DynamicLibrary<'_>) -> u64 {
    plt_rs::DynamicLibrary::base_addr(dyn_lib) as u64
}

/// Where, from the load address on, a module keeps the address of the
/// imported function `fn_name`; `None` where the module does not import it.
///
/// Trusted: calls `plt_rs::DynamicLibrary::try_find_function` and takes the
/// offset of the relocation entry it finds. The module's tables are read
/// from the process's memory, so nothing is claimed of the result.
#[verifier::external_body]
fn try_find_function(dyn_lib: &plt_rs::DynamicLibrary<'_>, fn_name: &str) -> Option<u64> {
    plt_rs::DynamicLibrary::try_find_function(dyn_lib, fn_name).map(|entry| entry.r_offset as u64)
}

/// The patch for one import: its slot lies `offset` bytes above the load
/// address. No patch where that address does not fit 64 bits.
pub open spec fn slot_patch(base_addr: u64, offset: u64, replacement: u64) -> Option<SlotPatch> {
    if base_addr + offset <= u64::MAX {
        Some(SlotPatch { slot: (base_addr + offset) as u64, replacement })
    } else {
        None
    }
}

/// The patches for a list of imports, in the list's order: `resolved` holds
/// for each import the offset of its slot, or `None` where the module lacks
/// the import, and `replacements` the address to store. An import that the
/// module lacks is skipped.
pub open spec fn planned(base_addr: u64, resolved: Seq<Option<u64>>, replacements: Seq<u64>) -> Seq<
    SlotPatch,
>
    decreases resolved.len(),
{
    if resolved.len() == 0 || replacements.len() != resolved.len() {
        Seq::empty()
    } else {
        let before = planned(base_addr, resolved.drop_last(), replacements.drop_last());
        match resolved.last() {
            Some(offset) => match slot_patch(base_addr, offset, replacements.last()) {
                Some(patch) => before.push(patch),
                None => before,
            },
            None => before,
        }
    }
}

/// The patch for one import whose slot lies `offset` bytes above the load
/// address.
pub fn replace_plt_function(base_addr: u64, offset: u64, replacement: u64) -> (patch: Option<
    SlotPatch,
>)
    ensures
        patch == slot_patch(base_addr, offset, replacement),
{
    match base_addr.checked_add(offset) {
        Some(slot) => Some(SlotPatch { slot, replacement }),
        None => None,
    }
}

/// The patches for a list of imports that have been looked up, see
/// `planned`. Nothing is planned where the two lists differ in length.
pub fn plan_patches(base_addr: u64, resolved: &[Option<u64>], replacements: &[u64]) -> (patches: Vec<
    SlotPatch,
>)
    ensures
        patches@ == planned(base_addr, resolved@, replacements@),
{
    let mut patches: Vec<SlotPatch> = Vec::new();
    if resolved.len() != replacements.len() {
        return patches;
    }
    let mut i: usize = 0;
    while i < resolved.len()
        invariant
            i <= resolved.len(),
            resolved.len() == replacements.len(),
            patches@ == planned(base_addr, resolved@.take(i as int), replacements@.take(i as int)),
        decreases resolved.len() - i,
    {
        proof {
            assert(resolved@.take(i + 1).drop_last() =~= resolved@.take(i as int));
            assert(replacements@.take(i + 1).drop_last() =~= replacements@.take(i as int));
        }
        match resolved[i] {
            Some(offset) => match replace_plt_function(base_addr, offset, replacements[i]) {
                Some(patch) => {
                    patches.push(patch);
                },
                None => {},
            },
            None => {},
        }
        i += 1;
    }
    proof {
        assert(resolved@.take(i as int) =~= resolved@);
        assert(replacements@.take(i as int) =~= replacements@);
    }
    patches
}

/// Every planned patch belongs to an import that was resolved, and stores
/// that import's replacement; there are no more patches than imports.
pub proof fn lemma_planned_from_resolved(
    base_addr: u64,
    resolved: Seq<Option<u64>>,
    replacements: Seq<u64>,
)
    ensures
        planned(base_addr, resolved, replacements).len() <= resolved.len(),
        forall|j: int|
            0 <= j < planned(base_addr, resolved, replacements).len() ==> exists|i: int|
                0 <= i < resolved.len() && resolved[i] is Some && slot_patch(
                    base_addr,
                    resolved[i].unwrap(),
                    replacements[i],
                ) == Some(#[trigger] planned(base_addr, resolved, replacements)[j]),
    decreases resolved.len(),
{
    if resolved.len() == 0 || replacements.len() != resolved.len() {
    } else {
        let before = planned(base_addr, resolved.drop_last(), replacements.drop_last());
        lemma_planned_from_resolved(base_addr, resolved.drop_last(), replacements.drop_last());
        let all = planned(base_addr, resolved, replacements);
        let last = resolved.len() - 1;
        assert forall|j: int| 0 <= j < all.len() implies exists|i: int|
            0 <= i < resolved.len() && resolved[i] is Some && slot_patch(
                base_addr,
                resolved[i].unwrap(),
                replacements[i],
            ) == Some(#[trigger] all[j]) by {
            if j < before.len() {
                let i = choose|i: int|
                    0 <= i < resolved.drop_last().len() && resolved.drop_last()[i] is Some
                        && slot_patch(
                        base_addr,
                        resolved.drop_last()[i].unwrap(),
                        replacements.drop_last()[i],
                    ) == Some(before[j]);
                assert(resolved[i] == resolved.drop_last()[i]);
                assert(replacements[i] == replacements.drop_last()[i]);
                assert(all[j] == before[j]);
            } else {
                assert(resolved[last] is Some);
                assert(slot_patch(base_addr, resolved[last].unwrap(), replacements[last]) == Some(
                    all[j],
                ));
            }
        }
    }
}

/// The replacement addresses of a list of functions to patch.
pub open spec fn replacements_of(functions: Seq<(&str, u64)>) -> Seq<u64> {
    functions.map_values(|f: (&str, u64)| f.1)
}

/// Looks up every function of `functions` in the import table of `dyn_lib`
/// and plans the patch that routes it to its replacement. A function that
/// the module does not import is skipped. What the lookups find is read
/// from the process's memory and nothing is claimed of it here: the patches
/// are those that `planned` gives for whatever was found, and `plan_patches`
/// says exactly which those are.
pub fn replace_plt_functions(dyn_lib: &plt_rs::DynamicLibrary<'_>, functions: &[(&str, u64)]) -> (patches:
    Vec<SlotPatch>)
    ensures
        exists|base: u64, resolved: Seq<Option<u64>>|
            resolved.len() == functions@.len() && patches@ == #[trigger] planned(
                base,
                resolved,
                replacements_of(functions@),
            ),
{
    let base = base_addr(dyn_lib);
    let mut resolved: Vec<Option<u64>> = Vec::new();
    let mut replacements: Vec<u64> = Vec::new();
    let mut i: usize = 0;
    while i < functions.len()
        invariant
            i <= functions.len(),
            resolved@.len() == i,
            replacements@ == replacements_of(functions@).take(i as int),
        decreases functions.len() - i,
    {
        let (fn_name, replacement) = functions[i];
        resolved.push(try_find_function(dyn_lib, fn_name));
        replacements.push(replacement);
        assert(replacements@ =~= replacements_of(functions@).take(i + 1));
        i += 1;
    }
    assert(replacements@ =~= replacements_of(functions@));
    plan_patches(base, resolved.as_slice(), replacements.as_slice())
}

} // verus!
