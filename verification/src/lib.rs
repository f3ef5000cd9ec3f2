//! Hooks on the script functions of a game.
//!
//! A script names the functions that it wants to hook before they are compiled. When the engine
//! compiles such a function, a trampoline takes its place: a function that hands its arguments to a
//! native dispatcher. The dispatcher runs the hooks that scripts have put on the function, from the
//! last one down to the function itself.
//!
//! The library decides; the engine's memory is read and written, and its functions are called, by
//! whoever drives it. So what it is told of the engine are plain values, and where the engine has to
//! act in between, an operation comes in several functions.

use vstd::prelude::*;

pub mod context;
pub mod forwarding;
pub mod hook_dispatch;
pub mod hook_install;
pub mod hook_table;
pub mod pre_sqvm;
pub mod refcount;
pub mod squirrel;
pub mod text;
pub mod trampoline;
pub mod utils;
pub mod variadic;

use context::PerContext;
use hook_install::{build_proto_offset, HookQueue};
use hook_table::{HookModel, HookTable};
use pre_sqvm::init_gc_offset;
use squirrel::{ScriptContext, WhichDll};

verus! {

/// The state of the hooks.
pub struct SQHooks {
    pub hooks: PerContext<HookTable>,
    pub hook_queue: PerContext<HookQueue>,
    pub extracted: PerContext<Option<u64>>,
    pub type_descriptor_addrs: Vec<usize>,
}

/// Where a DLL is to be detoured once it is loaded.
#[derive(Clone, Copy, Debug, PartialEq, Eq, Structural)]
pub struct Detours {
    pub init_gc: Option<usize>,
    pub build_proto: Option<usize>,
}

/// The address at `i`, as a signed number.
pub open spec fn addr_at(addrs: Seq<usize>, i: int) -> int {
    (addrs[i] as isize) as int
}

/// How far the addresses at `i` and `j` are apart.
pub open spec fn distance(addrs: Seq<usize>, i: int, j: int) -> int {
    if addr_at(addrs, j) >= addr_at(addrs, i) {
        addr_at(addrs, j) - addr_at(addrs, i)
    } else {
        addr_at(addrs, i) - addr_at(addrs, j)
    }
}

/// `i` and `j` are two places with different addresses.
pub open spec fn apart(addrs: Seq<usize>, i: int, j: int) -> bool {
    0 <= i < addrs.len() && 0 <= j < addrs.len() && i != j && distance(addrs, i, j) != 0
}

/// `size` is the least distance between two different addresses, or the greatest number where no
/// two are different.
pub open spec fn is_least_distance(addrs: Seq<usize>, size: usize) -> bool {
    &&& forall|i: int, j: int| #[trigger] apart(addrs, i, j) ==> size <= distance(addrs, i, j)
    &&& size == usize::MAX || exists|i: int, j: int| #[trigger]
        apart(addrs, i, j) && size == distance(addrs, i, j)
}

/// The addresses lie near enough to each other for their differences to be computed.
pub open spec fn comparable(addrs: Seq<usize>) -> bool {
    forall|i: int, j: int| #[trigger]
        apart(addrs, i, j) ==> isize::MIN <= addr_at(addrs, j) - addr_at(addrs, i) <= isize::MAX
}

impl SQHooks {
    /// Nothing is hooked.
    pub fn new() -> (r: Self)
        ensures
            forall|context: ScriptContext|
                (#[trigger] r.hooks.of(context))@ == Map::<Seq<char>, HookModel>::empty(),
            forall|context: ScriptContext| (#[trigger] r.hook_queue.of(context))@.len() == 0,
            forall|context: ScriptContext| (#[trigger] r.extracted.of(context)) is None,
            r.type_descriptor_addrs@.len() == 0,
    {
        let r = SQHooks {
            hooks: PerContext::new(HookTable::new(), HookTable::new(), HookTable::new()),
            hook_queue: PerContext::new(Vec::new(), Vec::new(), Vec::new()),
            extracted: PerContext::new(None, None, None),
            type_descriptor_addrs: Vec::new(),
        };
        assert forall|context: ScriptContext| (#[trigger] r.hooks.of(context))@ == Map::<
            Seq<char>,
            HookModel,
        >::empty() by {
            match context {
                ScriptContext::SERVER => {},
                ScriptContext::CLIENT => {},
                ScriptContext::UI => {},
            }
        }
        r
    }

    /// Says where a DLL that was loaded is to be detoured.
    pub fn on_dll_load(&self, dll: WhichDll) -> (detours: Detours)
        ensures
            detours.init_gc == init_gc_offset(dll),
            detours.build_proto == build_proto_offset(dll),
            dll == WhichDll::Client ==> detours.init_gc == Some(0x44df0usize)
                && detours.build_proto == Some(0x67340usize),
            dll == WhichDll::Server ==> detours.init_gc == Some(0x44d90usize)
                && detours.build_proto == Some(0x672d0usize),
            dll == WhichDll::Other ==> detours.init_gc is None && detours.build_proto is None,
    {
        Detours {
            init_gc: pre_sqvm::init_hooks(dll),
            build_proto: hook_install::init_hooks(dll),
        }
    }

    /// Whether the type descriptors lie near enough to each other for `on_sqvm_created`.
    pub fn descriptors_comparable(&self) -> (r: bool)
        ensures
            r == comparable(self.type_descriptor_addrs@),
    {
        let addrs = &self.type_descriptor_addrs;
        let mut i: usize = 0;
        while i < addrs.len()
            invariant
                i <= addrs.len(),
                addrs@ == self.type_descriptor_addrs@,
                forall|a: int, b: int| #[trigger]
                    apart(addrs@, a, b) && a < i ==> isize::MIN <= addr_at(addrs@, b) - addr_at(
                        addrs@,
                        a,
                    ) <= isize::MAX,
            decreases addrs.len() - i,
        {
            let mut j: usize = 0;
            while j < addrs.len()
                invariant
                    i < addrs.len(),
                    j <= addrs.len(),
                    addrs@ == self.type_descriptor_addrs@,
                    forall|a: int, b: int| #[trigger]
                        apart(addrs@, a, b) && (a < i || a == i && b < j) ==> isize::MIN
                            <= addr_at(addrs@, b) - addr_at(addrs@, a) <= isize::MAX,
                decreases addrs.len() - j,
            {
                let addr: isize = #[verifier::truncate] (addrs[i] as isize);
                let other_addr: isize = #[verifier::truncate] (addrs[j] as isize);
                let gap: i128 = other_addr as i128 - addr as i128;
                if gap < isize::MIN as i128 || gap > isize::MAX as i128 {
                    assert(apart(addrs@, i as int, j as int));
                    return false;
                }
                j += 1;
            }
            i += 1;
        }
        true
    }

    /// Guesses the size of a type descriptor once a VM was created: no two descriptors are nearer to
    /// each other than that.
    pub fn on_sqvm_created(&self) -> (size: usize)
        requires
            comparable(self.type_descriptor_addrs@),
        ensures
            is_least_distance(self.type_descriptor_addrs@, size),
    {
        let addrs = &self.type_descriptor_addrs;
        let mut size: usize = usize::MAX;
        let mut i: usize = 0;
        while i < addrs.len()
            invariant
                i <= addrs.len(),
                comparable(addrs@),
                forall|a: int, b: int| #[trigger]
                    apart(addrs@, a, b) && a < i ==> size <= distance(addrs@, a, b),
                size == usize::MAX || exists|a: int, b: int| #[trigger]
                    apart(addrs@, a, b) && size == distance(addrs@, a, b),
            decreases addrs.len() - i,
        {
            let mut j: usize = 0;
            while j < addrs.len()
                invariant
                    i < addrs.len(),
                    j <= addrs.len(),
                    comparable(addrs@),
                    forall|a: int, b: int| #[trigger]
                        apart(addrs@, a, b) && (a < i || a == i && b < j) ==> size <= distance(
                            addrs@,
                            a,
                            b,
                        ),
                    size == usize::MAX || exists|a: int, b: int| #[trigger]
                        apart(addrs@, a, b) && size == distance(addrs@, a, b),
                decreases addrs.len() - j,
            {
                let addr: isize = #[verifier::truncate] (addrs[i] as isize);
                let other_addr: isize = #[verifier::truncate] (addrs[j] as isize);
                if i != j && addr != other_addr {
                    assert(apart(addrs@, i as int, j as int));
                    let gap: i128 = if other_addr >= addr {
                        other_addr as i128 - addr as i128
                    } else {
                        addr as i128 - other_addr as i128
                    };
                    let gap: usize = gap as usize;
                    assert(gap == distance(addrs@, i as int, j as int));
                    if gap < size {
                        size = gap;
                    }
                }
                j += 1;
            }
            i += 1;
        }
        size
    }

    /// Drops the hooks of a VM that is destroyed.
    pub fn on_sqvm_destroyed(&mut self, context: ScriptContext)
        ensures
            final(self).hooks.of(context)@ == Map::<Seq<char>, HookModel>::empty(),
            forall|other: ScriptContext|
                other != context ==> #[trigger] final(self).hooks.of(other) == old(self).hooks.of(
                    other,
                ),
            final(self).hook_queue == old(self).hook_queue,
            final(self).extracted == old(self).extracted,
            final(self).type_descriptor_addrs == old(self).type_descriptor_addrs,
    {
        *self.hooks.get_mut(context) = HookTable::new();
    }
}

/// No two different addresses lie nearer to each other than the least distance, two of them lie as
/// near, and it is the greatest number where all addresses are the same.
pub proof fn law_least_distance(addrs: Seq<usize>, size: usize)
    requires
        is_least_distance(addrs, size),
        forall|i: int| 0 <= i < addrs.len() ==> #[trigger] addrs[i] <= isize::MAX,
    ensures
        forall|i: int, j: int|
            0 <= i < addrs.len() && 0 <= j < addrs.len() && addrs[i] < addrs[j] ==> size
                <= #[trigger] addrs[j] - #[trigger] addrs[i],
        size != usize::MAX ==> exists|i: int, j: int|
            0 <= i < addrs.len() && 0 <= j < addrs.len() && addrs[i] < addrs[j] && size
                == #[trigger] addrs[j] - #[trigger] addrs[i],
        (forall|i: int, j: int|
            0 <= i < addrs.len() && 0 <= j < addrs.len() ==> #[trigger] addrs[i]
                == #[trigger] addrs[j]) ==> size == usize::MAX,
        comparable(addrs),
{
    assert forall|i: int| 0 <= i < addrs.len() implies #[trigger] addr_at(addrs, i)
        == addrs[i] by {}
    assert forall|i: int, j: int|
        0 <= i < addrs.len() && 0 <= j < addrs.len() && addrs[i] < addrs[j] implies size
        <= #[trigger] addrs[j] - #[trigger] addrs[i] by {
        assert(addr_at(addrs, i) == addrs[i] && addr_at(addrs, j) == addrs[j]);
        assert(apart(addrs, i, j));
    }
    if size != usize::MAX {
        let (i, j) = choose|i: int, j: int| #[trigger]
            apart(addrs, i, j) && size == distance(addrs, i, j);
        assert(addr_at(addrs, i) == addrs[i] && addr_at(addrs, j) == addrs[j]);
        if addrs[i] < addrs[j] {
            assert(size == addrs[j] - addrs[i]);
        } else {
            assert(size == addrs[i] - addrs[j]);
        }
    }
    assert forall|i: int, j: int| #[trigger] apart(addrs, i, j) implies isize::MIN <= addr_at(
        addrs,
        j,
    ) - addr_at(addrs, i) <= isize::MAX by {
        assert(addr_at(addrs, i) == addrs[i] && addr_at(addrs, j) == addrs[j]);
    }
}

/// Addresses are compared as signed numbers: no two different ones lie nearer to each other than the
/// least distance, and two lie as near unless it is the greatest number.
pub proof fn law_least_signed_distance(addrs: Seq<usize>, size: usize)
    requires
        is_least_distance(addrs, size),
    ensures
        forall|i: int, j: int|
            0 <= i < addrs.len() && 0 <= j < addrs.len() && (addrs[i] as isize) < (addrs[j]
                as isize) ==> size <= (#[trigger] addrs[j] as isize) - (#[trigger] addrs[i]
                as isize),
        size != usize::MAX ==> exists|i: int, j: int|
            0 <= i < addrs.len() && 0 <= j < addrs.len() && (addrs[i] as isize) < (addrs[j]
                as isize) && size == (#[trigger] addrs[j] as isize) - (#[trigger] addrs[i]
                as isize),
{
    assert forall|i: int, j: int|
        0 <= i < addrs.len() && 0 <= j < addrs.len() && (addrs[i] as isize) < (addrs[j]
            as isize) implies size <= (#[trigger] addrs[j] as isize) - (#[trigger] addrs[i]
        as isize) by {
        assert(apart(addrs, i, j));
    }
    if size != usize::MAX {
        let (i, j) = choose|i: int, j: int| #[trigger]
            apart(addrs, i, j) && size == distance(addrs, i, j);
        if (addrs[i] as isize) < (addrs[j] as isize) {
            assert(size == (addrs[j] as isize) - (addrs[i] as isize));
        } else {
            assert(size == (addrs[i] as isize) - (addrs[j] as isize));
        }
    }
}

/// Addresses can be compared exactly where the difference of any two of them, as signed numbers, is
/// such a number again.
pub proof fn law_which_addresses_compare(addrs: Seq<usize>)
    ensures
        comparable(addrs) <==> forall|i: int, j: int|
            0 <= i < addrs.len() && 0 <= j < addrs.len() ==> isize::MIN <= (#[trigger] addrs[j]
                as isize) - (#[trigger] addrs[i] as isize) <= isize::MAX,
{
    if comparable(addrs) {
        assert forall|i: int, j: int| 0 <= i < addrs.len() && 0 <= j < addrs.len() implies isize::MIN
            <= (#[trigger] addrs[j] as isize) - (#[trigger] addrs[i] as isize) <= isize::MAX by {
            if (addrs[i] as isize) != (addrs[j] as isize) {
                assert(apart(addrs, i, j));
            }
        }
    }
}

} // verus!
