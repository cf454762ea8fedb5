//! Redirecting a function by overwriting its first bytes with a jump, and
//! putting the bytes back.
//!
//! The code to patch is handed in as a window: a copy of some bytes of the
//! process together with the address of the first of them. The caller reads
//! the window from memory that it has made writable, and writes it back.
use vstd::prelude::*;

verus! {

/// The instruction sets a redirect can be encoded for.
#[derive(Clone, Copy, Debug, PartialEq, Eq, Structural)]
pub enum Arch {
    /// 64-bit ARM.
    Aarch64,
    /// 32-bit ARM, in ARM or in Thumb mode.
    Arm,
    /// 64-bit x86.
    X86_64,
    /// 32-bit x86.
    X86,
}

/// Why a function was not patched.
#[derive(Clone, Copy, Debug, PartialEq, Eq, Structural)]
pub enum HookError {
    /// An address does not fit the pointers of the instruction set.
    AddressTooWide,
    /// The window does not hold all the bytes to read or to write.
    OutsideWindow,
    /// The saved bytes do not have the length that the instruction set asks
    /// for.
    WrongBackupLength,
}

/// How many bytes are saved before a function is patched: as many as the
/// longest redirect overwrites, counted from where the saved bytes start.
pub open spec fn backup_len(arch: Arch) -> nat {
    match arch {
        Arch::Aarch64 => 16,
        Arch::Arm => 10,
        Arch::X86_64 => 12,
        Arch::X86 => 7,
    }
}

/// How many bytes a pointer takes.
pub open spec fn pointer_len(arch: Arch) -> nat {
    match arch {
        Arch::Aarch64 | Arch::X86_64 => 8,
        Arch::Arm | Arch::X86 => 4,
    }
}

/// Whether `addr` fits a pointer of the instruction set.
pub open spec fn fits_pointer(arch: Arch, addr: u64) -> bool {
    pointer_len(arch) == 8 || addr <= u32::MAX
}

/// The `width` low bytes of `value`, lowest first.
pub open spec fn le_bytes(value: nat, width: nat) -> Seq<u8>
    decreases width,
{
    if width == 0 {
        Seq::empty()
    } else {
        seq![(value % 256) as u8] + le_bytes(value / 256, (width - 1) as nat)
    }
}

/// Whether an address of 32-bit ARM code names Thumb code.
pub open spec fn thumb(addr: int) -> bool {
    addr % 2 == 1
}

/// The instructions that send every call of `target` on to `hook_fn`,
/// followed by the pointer they load.
///
/// On 64-bit ARM: load the pointer that follows into `x3`, branch to `x3`.
/// On 32-bit ARM: load the pointer that follows into `pc`; Thumb code that
/// does not start on a multiple of four gets a `nop` in front, so that the
/// pointer is aligned. On x86: move the pointer into `rax` or `eax`, jump
/// there.
pub open spec fn redirect(arch: Arch, target: u64, hook_fn: u64) -> Seq<u8> {
    match arch {
        Arch::Aarch64 => seq![0x43u8, 0x00, 0x00, 0x58, 0x60, 0x00, 0x1f, 0xd6] + le_bytes(
            hook_fn as nat,
            8,
        ),
        Arch::Arm => if thumb(target as int) {
            if (target - 1) % 4 != 0 {
                seq![0x00u8, 0xbf, 0xdf, 0xf8, 0x00, 0xf0] + le_bytes(hook_fn as nat, 4)
            } else {
                seq![0xdfu8, 0xf8, 0x00, 0xf0] + le_bytes(hook_fn as nat, 4)
            }
        } else {
            seq![0x04u8, 0xf0, 0x1f, 0xe5] + le_bytes(hook_fn as nat, 4)
        },
        Arch::X86_64 => seq![0x48u8, 0xb8] + le_bytes(hook_fn as nat, 8) + seq![0xffu8, 0xe0],
        Arch::X86 => seq![0xb8u8] + le_bytes(hook_fn as nat, 4) + seq![0xffu8, 0xe0],
    }
}

/// The address of the first byte that a redirect overwrites: the function's
/// address, without the Thumb bit.
pub open spec fn patch_start(arch: Arch, target: u64) -> int {
    if arch == Arch::Arm && thumb(target as int) {
        target - 1
    } else {
        target as int
    }
}

/// The address of the first byte that is saved. On 32-bit ARM that is one
/// below the function's address, which for Thumb code takes off the Thumb bit.
pub open spec fn backup_start(arch: Arch, target: u64) -> int {
    if arch == Arch::Arm {
        target - 1
    } else {
        target as int
    }
}

/// `memory` with `bytes` written over it from index `at` on.
pub open spec fn patched(memory: Seq<u8>, at: int, bytes: Seq<u8>) -> Seq<u8> {
    memory.subrange(0, at) + bytes + memory.subrange(at + bytes.len(), memory.len() as int)
}

/// The bytes from address `from` to address `to` lie in a window of `len`
/// bytes that starts at address `base`.
pub open spec fn in_window(base: u64, len: nat, from: int, to: int) -> bool {
    base <= from <= to <= base + len
}

/// How many bytes are saved before a function is patched.
pub fn backup_len_of(arch: Arch) -> (len: usize)
    ensures
        len == backup_len(arch),
{
    match arch {
        Arch::Aarch64 => 16,
        Arch::Arm => 10,
        Arch::X86_64 => 12,
        Arch::X86 => 7,
    }
}

/// Whether an address of 32-bit ARM code names Thumb code.
pub fn is_thumb(addr: u32) -> (yes: bool)
    ensures
        yes == thumb(addr as int),
{
    assert(addr & 1 == addr % 2) by (bit_vector);
    addr & 1 != 0
}

/// The address without the Thumb bit.
pub fn clear_thumb_bit(addr: u32) -> (cleared: u32)
    ensures
        cleared == addr - addr % 2,
{
    assert(addr & 0xfffffffe == addr - addr % 2) by (bit_vector);
    addr & 0xfffffffe
}

/// Whether the address is a multiple of four.
pub fn is_aligned(addr: u32) -> (yes: bool)
    ensures
        yes == (addr % 4 == 0),
{
    addr % 4 == 0
}

fn push_le(out: &mut Vec<u8>, value: u64, width: usize)
    ensures
        final(out)@ == old(out)@ + le_bytes(value as nat, width as nat),
{
    let mut rest = value;
    let mut i: usize = 0;
    assert(le_bytes(value as nat, 0) =~= Seq::<u8>::empty());
    while i < width
        invariant
            i <= width,
            out@ + le_bytes(rest as nat, (width - i) as nat) == old(out)@ + le_bytes(
                value as nat,
                width as nat,
            ),
        decreases width - i,
    {
        let ghost before = out@;
        out.push((rest % 256) as u8);
        proof {
            assert(le_bytes(rest as nat, (width - i) as nat) == seq![(rest % 256) as u8] + le_bytes(
                (rest / 256) as nat,
                (width - i - 1) as nat,
            ));
            assert(out@ + le_bytes((rest / 256) as nat, (width - i - 1) as nat) =~= before
                + le_bytes(rest as nat, (width - i) as nat));
        }
        rest = rest / 256;
        i += 1;
    }
    assert(le_bytes(rest as nat, 0) =~= Seq::<u8>::empty());
}

/// The redirect for `target`, see `redirect`.
pub fn encode_redirect(arch: Arch, target: u64, hook_fn: u64) -> (code: Vec<u8>)
    ensures
        code@ == redirect(arch, target, hook_fn),
{
    let mut code: Vec<u8> = Vec::new();
    match arch {
        Arch::Aarch64 => {
            code.push(0x43);
            code.push(0x00);
            code.push(0x00);
            code.push(0x58);
            code.push(0x60);
            code.push(0x00);
            code.push(0x1f);
            code.push(0xd6);
            push_le(&mut code, hook_fn, 8);
        },
        Arch::Arm => {
            let low = (target % 0x1_0000_0000) as u32;
            if is_thumb(low) {
                if !is_aligned(clear_thumb_bit(low)) {
                    code.push(0x00);
                    code.push(0xbf);
                }
                code.push(0xdf);
                code.push(0xf8);
                code.push(0x00);
                code.push(0xf0);
            } else {
                code.push(0x04);
                code.push(0xf0);
                code.push(0x1f);
                code.push(0xe5);
            }
            push_le(&mut code, hook_fn, 4);
        },
        Arch::X86_64 => {
            code.push(0x48);
            code.push(0xb8);
            push_le(&mut code, hook_fn, 8);
            code.push(0xff);
            code.push(0xe0);
        },
        Arch::X86 => {
            code.push(0xb8);
            push_le(&mut code, hook_fn, 4);
            code.push(0xff);
            code.push(0xe0);
        },
    }
    assert(code@ =~= redirect(arch, target, hook_fn));
    code
}

fn write_at(code: &mut Vec<u8>, at: usize, bytes: &[u8])
    requires
        at + bytes.len() <= old(code).len(),
    ensures
        final(code)@ == patched(old(code)@, at as int, bytes@),
{
    let mut i: usize = 0;
    while i < bytes.len()
        invariant
            i <= bytes.len(),
            at + bytes.len() <= code.len(),
            code.len() == old(code).len(),
            forall|k: int| 0 <= k < at ==> code@[k] == old(code)@[k],
            forall|k: int| at <= k < at + i ==> code@[k] == bytes@[k - at],
            forall|k: int| at + i <= k < code.len() ==> code@[k] == old(code)@[k],
        decreases bytes.len() - i,
    {
        code[at + i] = bytes[i];
        i += 1;
    }
    assert(code@ =~= patched(old(code)@, at as int, bytes@));
}

/// Whether `hook` can write its redirect: both addresses fit the pointers of
/// the instruction set and the window holds every byte to overwrite.
pub open spec fn can_hook(arch: Arch, len: nat, base: u64, target: u64, hook_fn: u64) -> bool {
    &&& fits_pointer(arch, target)
    &&& fits_pointer(arch, hook_fn)
    &&& in_window(
        base,
        len,
        patch_start(arch, target),
        patch_start(arch, target) + redirect(arch, target, hook_fn).len(),
    )
}

/// The window after `hook`.
pub open spec fn hooked(arch: Arch, memory: Seq<u8>, base: u64, target: u64, hook_fn: u64) -> Seq<
    u8,
> {
    patched(memory, patch_start(arch, target) - base, redirect(arch, target, hook_fn))
}

/// Overwrites the start of the function at `target` with a redirect to
/// `hook_fn`. `code` is a window of the process's memory whose first byte has
/// the address `base`.
pub fn hook(arch: Arch, code: &mut Vec<u8>, base: u64, target: u64, hook_fn: u64) -> (done: Result<
    (),
    HookError,
>)
    ensures
        match done {
            Ok(_) => {
                &&& can_hook(arch, old(code)@.len(), base, target, hook_fn)
                &&& final(code)@ == hooked(arch, old(code)@, base, target, hook_fn)
            },
            Err(error) => {
                &&& !can_hook(arch, old(code)@.len(), base, target, hook_fn)
                &&& final(code)@ == old(code)@
                &&& error == HookError::AddressTooWide <==> !(fits_pointer(arch, target)
                    && fits_pointer(arch, hook_fn))
                &&& error != HookError::WrongBackupLength
            },
        },
{
    let narrow = match arch {
        Arch::Arm | Arch::X86 => true,
        _ => false,
    };
    if narrow && (target > 0xffff_ffff || hook_fn > 0xffff_ffff) {
        return Err(HookError::AddressTooWide);
    }
    let start = match arch {
        Arch::Arm => clear_thumb_bit(target as u32) as u64,
        _ => target,
    };
    let redirect = encode_redirect(arch, target, hook_fn);
    if start < base {
        return Err(HookError::OutsideWindow);
    }
    let at = start - base;
    if at > code.len() as u64 || (code.len() as u64 - at) < redirect.len() as u64 {
        return Err(HookError::OutsideWindow);
    }
    write_at(code, at as usize, redirect.as_slice());
    Ok(())
}

/// The stretch of the process's memory to hand to `setup_hook` and
/// `unsetup_hook` for the function at `target`: the address of its first
/// byte and its length. It is the stretch that is saved, which holds every
/// byte a redirect overwrites. `None` where the stretch does not lie in the
/// 64-bit address space.
pub fn hook_window(arch: Arch, target: u64) -> (window: Option<(u64, usize)>)
    ensures
        match window {
            Some((base, len)) => {
                &&& base == backup_start(arch, target)
                &&& len == backup_len(arch)
                &&& base + len <= u64::MAX
            },
            None => backup_start(arch, target) < 0 || backup_start(arch, target) + backup_len(arch)
                > u64::MAX,
        },
{
    let back: u64 = match arch {
        Arch::Arm => 1,
        _ => 0,
    };
    let len = backup_len_of(arch);
    if target < back {
        return None;
    }
    let base = target - back;
    if base > u64::MAX - len as u64 {
        return None;
    }
    Some((base, len))
}

/// A copy of the stretch that `hook_window` names is all that `setup_hook`
/// and `unsetup_hook` need: with addresses that fit the instruction set's
/// pointers both succeed on it.
pub proof fn lemma_window_is_enough(arch: Arch, target: u64, hook_fn: u64)
    requires
        fits_pointer(arch, target),
        fits_pointer(arch, hook_fn),
        0 <= backup_start(arch, target),
        backup_start(arch, target) + backup_len(arch) <= u64::MAX,
    ensures
        can_setup(arch, backup_len(arch), backup_start(arch, target) as u64, target, hook_fn),
        can_unsetup(
            arch,
            backup_len(arch),
            backup_start(arch, target) as u64,
            target,
            backup_len(arch),
        ),
{
    lemma_redirect_len(arch, target, hook_fn);
}

/// Whether `setup_hook` can save and patch: `hook` can write, and the window
/// holds every byte to save.
pub open spec fn can_setup(arch: Arch, len: nat, base: u64, orig_fn: u64, hook_fn: u64) -> bool {
    &&& can_hook(arch, len, base, orig_fn, hook_fn)
    &&& in_window(
        base,
        len,
        backup_start(arch, orig_fn),
        backup_start(arch, orig_fn) + backup_len(arch),
    )
}

/// The bytes that `setup_hook` saves.
pub open spec fn backup_of(arch: Arch, memory: Seq<u8>, base: u64, orig_fn: u64) -> Seq<u8> {
    memory.subrange(
        backup_start(arch, orig_fn) - base,
        backup_start(arch, orig_fn) - base + backup_len(arch),
    )
}

/// Saves the start of the function at `orig_fn` and overwrites it with a
/// redirect to `hook_fn`. From then on every call of the function runs
/// `hook_fn`; the saved bytes are what `unsetup_hook` needs to undo that.
pub fn setup_hook(arch: Arch, code: &mut Vec<u8>, base: u64, orig_fn: u64, hook_fn: u64) -> (saved:
    Result<Vec<u8>, HookError>)
    ensures
        match saved {
            Ok(backup) => {
                &&& can_setup(arch, old(code)@.len(), base, orig_fn, hook_fn)
                &&& backup@ == backup_of(arch, old(code)@, base, orig_fn)
                &&& final(code)@ == hooked(arch, old(code)@, base, orig_fn, hook_fn)
            },
            Err(error) => {
                &&& !can_setup(arch, old(code)@.len(), base, orig_fn, hook_fn)
                &&& final(code)@ == old(code)@
                &&& error == HookError::AddressTooWide <==> !(fits_pointer(arch, orig_fn)
                    && fits_pointer(arch, hook_fn))
                &&& error != HookError::WrongBackupLength
            },
        },
{
    let narrow = match arch {
        Arch::Arm | Arch::X86 => true,
        _ => false,
    };
    if narrow && (orig_fn > 0xffff_ffff || hook_fn > 0xffff_ffff) {
        return Err(HookError::AddressTooWide);
    }
    let len = backup_len_of(arch);
    let from = match window_offset(arch, code.len(), base, orig_fn, len) {
        Some(from) => from,
        None => {
            return Err(HookError::OutsideWindow);
        },
    };
    let backup = vstd::slice::slice_to_vec(
        vstd::slice::slice_subrange(code.as_slice(), from, from + len),
    );
    match hook(arch, code, base, orig_fn, hook_fn) {
        Ok(_) => Ok(backup),
        Err(error) => Err(error),
    }
}

/// Where in the window the saved bytes of `orig_fn` lie, if the window holds
/// `len` bytes from there on.
fn window_offset(arch: Arch, window: usize, base: u64, orig_fn: u64, len: usize) -> (offset: Option<
    usize,
>)
    ensures
        match offset {
            Some(from) => from == backup_start(arch, orig_fn) - base && in_window(
                base,
                window as nat,
                backup_start(arch, orig_fn),
                backup_start(arch, orig_fn) + len,
            ),
            None => !in_window(
                base,
                window as nat,
                backup_start(arch, orig_fn),
                backup_start(arch, orig_fn) + len,
            ),
        },
{
    let back: u64 = match arch {
        Arch::Arm => 1,
        _ => 0,
    };
    if orig_fn < back || orig_fn - back < base {
        return None;
    }
    let from = orig_fn - back - base;
    if from > window as u64 || (window as u64 - from) < len as u64 {
        return None;
    }
    Some(from as usize)
}

/// Whether `unsetup_hook` can write the saved bytes back.
pub open spec fn can_unsetup(arch: Arch, len: nat, base: u64, orig_fn: u64, saved: nat) -> bool {
    &&& saved == backup_len(arch)
    &&& in_window(
        base,
        len,
        backup_start(arch, orig_fn),
        backup_start(arch, orig_fn) + backup_len(arch),
    )
}

/// The window after `unsetup_hook`.
pub open spec fn unhooked(arch: Arch, memory: Seq<u8>, base: u64, orig_fn: u64, saved: Seq<u8>) -> Seq<
    u8,
> {
    patched(memory, backup_start(arch, orig_fn) - base, saved)
}

/// Writes the bytes that `setup_hook` saved back over the start of the
/// function at `orig_fn`.
pub fn unsetup_hook(arch: Arch, code: &mut Vec<u8>, base: u64, orig_fn: u64, orig_code: &[u8]) -> (done:
    Result<(), HookError>)
    ensures
        match done {
            Ok(_) => {
                &&& can_unsetup(arch, old(code)@.len(), base, orig_fn, orig_code@.len())
                &&& final(code)@ == unhooked(arch, old(code)@, base, orig_fn, orig_code@)
            },
            Err(error) => {
                &&& !can_unsetup(arch, old(code)@.len(), base, orig_fn, orig_code@.len())
                &&& final(code)@ == old(code)@
                &&& error == HookError::WrongBackupLength <==> orig_code@.len() != backup_len(arch)
                &&& error != HookError::AddressTooWide
            },
        },
{
    let len = backup_len_of(arch);
    if orig_code.len() != len {
        return Err(HookError::WrongBackupLength);
    }
    let from = match window_offset(arch, code.len(), base, orig_fn, len) {
        Some(from) => from,
        None => {
            return Err(HookError::OutsideWindow);
        },
    };
    write_at(code, from, orig_code);
    Ok(())
}

/// Installing a redirect and reverting it at once leaves the memory exactly
/// as it was, on every instruction set.
pub proof fn lemma_install_then_revert_restores(
    arch: Arch,
    memory: Seq<u8>,
    base: u64,
    orig_fn: u64,
    hook_fn: u64,
)
    requires
        can_setup(arch, memory.len(), base, orig_fn, hook_fn),
    ensures
        can_unsetup(arch, memory.len(), base, orig_fn, backup_len(arch)),
        hooked(arch, memory, base, orig_fn, hook_fn).len() == memory.len(),
        unhooked(
            arch,
            hooked(arch, memory, base, orig_fn, hook_fn),
            base,
            orig_fn,
            backup_of(arch, memory, base, orig_fn),
        ) == memory,
{
    lemma_redirect_len(arch, orig_fn, hook_fn);
    let after = hooked(arch, memory, base, orig_fn, hook_fn);
    let back = unhooked(arch, after, base, orig_fn, backup_of(arch, memory, base, orig_fn));
    assert(back =~= memory);
}

/// A redirect is as long as its instructions and the pointer behind them.
pub proof fn lemma_redirect_len(arch: Arch, target: u64, hook_fn: u64)
    ensures
        redirect(arch, target, hook_fn).len() == match arch {
            Arch::Aarch64 => 16nat,
            Arch::Arm => if thumb(target as int) && (target - 1) % 4 != 0 {
                10nat
            } else {
                8nat
            },
            Arch::X86_64 => 12nat,
            Arch::X86 => 7nat,
        },
{
    lemma_le_bytes_len(hook_fn as nat, 8);
    lemma_le_bytes_len(hook_fn as nat, 4);
}

/// `le_bytes` yields as many bytes as it is asked for.
pub proof fn lemma_le_bytes_len(value: nat, width: nat)
    ensures
        le_bytes(value, width).len() == width,
    decreases width,
{
    if width > 0 {
        lemma_le_bytes_len(value / 256, (width - 1) as nat);
    }
}

/// Whether a one-shot hook still redirects its function.
#[derive(Clone, Copy, Debug, PartialEq, Eq, Structural)]
pub enum HookState {
    /// The redirect is in place.
    Armed,
    /// The function has its own bytes back, for good.
    Disarmed,
}

/// A hook that observes one call of its function and then takes itself out.
pub struct OneShotHook {
    pub state: HookState,
    /// The address of the hooked function.
    pub target: u64,
    /// The bytes saved when the redirect went in; empty once disarmed.
    pub backup: Vec<u8>,
}

impl OneShotHook {
    /// A hook whose redirect was just installed by `setup_hook`, which
    /// returned `backup`.
    pub fn arm(target: u64, backup: Vec<u8>) -> (hook: Self)
        ensures
            hook.state == HookState::Armed,
            hook.target == target,
            hook.backup == backup,
    {
        OneShotHook { state: HookState::Armed, target, backup }
    }

    /// Takes the hook out. The first call hands out the saved bytes, which
    /// the caller writes back with `unsetup_hook`; every later call hands
    /// out nothing, and the hook never arms again.
    pub fn disarm(&mut self) -> (revert: Option<Vec<u8>>)
        ensures
            final(self).state == HookState::Disarmed,
            final(self).target == old(self).target,
            final(self).backup@.len() == 0,
            match revert {
                Some(saved) => old(self).state == HookState::Armed && saved == old(self).backup,
                None => old(self).state == HookState::Disarmed,
            },
    {
        let mut saved: Vec<u8> = Vec::new();
        core::mem::swap(&mut self.backup, &mut saved);
        match self.state {
            HookState::Armed => {
                self.state = HookState::Disarmed;
                Some(saved)
            },
            HookState::Disarmed => {
                self.backup = Vec::new();
                None
            },
        }
    }
}

} // verus!
