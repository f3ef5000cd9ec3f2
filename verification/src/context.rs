//! State that each script VM has for itself.

use vstd::prelude::*;

use crate::squirrel::ScriptContext;

verus! {

/// A value for each of the script VMs.
pub struct PerContext<T> {
    server: T,
    client: T,
    ui: T,
}

impl<T> PerContext<T> {
    /// The value for `context`.
    pub closed spec fn of(self, context: ScriptContext) -> T {
        match context {
            ScriptContext::SERVER => self.server,
            ScriptContext::CLIENT => self.client,
            ScriptContext::UI => self.ui,
        }
    }

    /// Puts the values for the VMs together.
    pub fn new(server: T, client: T, ui: T) -> (r: Self)
        ensures
            r.of(ScriptContext::SERVER) == server,
            r.of(ScriptContext::CLIENT) == client,
            r.of(ScriptContext::UI) == ui,
    {
        PerContext { server, client, ui }
    }

    /// The value for `context`.
    pub fn get(&self, context: ScriptContext) -> (r: &T)
        ensures
            *r == self.of(context),
    {
        match context {
            ScriptContext::SERVER => &self.server,
            ScriptContext::CLIENT => &self.client,
            ScriptContext::UI => &self.ui,
        }
    }

    /// The value for `context`, to change it.
    pub fn get_mut(&mut self, context: ScriptContext) -> (r: &mut T)
        ensures
            *r == old(self).of(context),
            final(self).of(context) == *final(r),
            forall|other: ScriptContext|
                other != context ==> #[trigger] final(self).of(other) == old(self).of(other),
    {
        match context {
            ScriptContext::SERVER => &mut self.server,
            ScriptContext::CLIENT => &mut self.client,
            ScriptContext::UI => &mut self.ui,
        }
    }
}

} // verus!
