//! Getting at a script VM before its scripts run.

use vstd::prelude::*;

use crate::squirrel::WhichDll;

verus! {

/// Where in a DLL the engine sets the garbage collection of a VM up.
pub open spec fn init_gc_offset(dll: WhichDll) -> Option<usize> {
    match dll {
        WhichDll::Client => Some(0x44df0usize),
        WhichDll::Server => Some(0x44d90usize),
        WhichDll::Other => None,
    }
}

/// Where in a DLL the function that sets the garbage collection of a VM up is to be detoured.
pub fn init_hooks(dll: WhichDll) -> (offset: Option<usize>)
    ensures
        offset == init_gc_offset(dll),
        dll == WhichDll::Client ==> offset == Some(0x44df0usize),
        dll == WhichDll::Server ==> offset == Some(0x44d90usize),
        dll == WhichDll::Other ==> offset is None,
{
    match dll {
        WhichDll::Client => Some(0x44df0),
        WhichDll::Server => Some(0x44d90),
        WhichDll::Other => None,
    }
}

} // verus!
