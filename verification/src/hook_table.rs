//! The hooks of one script VM, by function id.

use vstd::prelude::*;
use vstd::string::*;

use crate::squirrel::SQObject;
use crate::text::same_text;

verus! {

/// A hooked function.
#[derive(Debug)]
pub struct Hook {
    /// The functions to run, by their addresses: the hooked function itself, and above it the hooks
    /// on it in the order in which they came.
    pub hook_queue: Vec<u64>,
    /// How many of these functions are still below the running one; all of them while none runs.
    pub current_hook: usize,
    /// The closure that leads to the function below the running one.
    pub trampoline: SQObject,
    /// The arguments that the hooked function takes.
    pub arg_count: u32,
}

/// A hooked function, as contracts speak of it.
#[verifier::ext_equal]
pub struct HookModel {
    pub queue: Seq<u64>,
    pub current: int,
    pub trampoline: SQObject,
    pub arg_count: u32,
}

impl View for Hook {
    type V = HookModel;

    open spec fn view(&self) -> HookModel {
        HookModel {
            queue: self.hook_queue@,
            current: self.current_hook as int,
            trampoline: self.trampoline,
            arg_count: self.arg_count,
        }
    }
}

impl HookModel {
    /// The hooked function is there, it and every hook on it is a function, and no more functions
    /// are to be run than there are.
    pub open spec fn wf(self) -> bool {
        &&& self.queue.len() >= 1
        &&& 0 <= self.current <= self.queue.len()
        &&& forall|i: int| 0 <= i < self.queue.len() ==> #[trigger] self.queue[i] != 0
    }
}

/// A hook with its function id.
struct HookEntry {
    id: String,
    hook: Hook,
}

/// The hooks of one script VM, by function id. Each id occurs once.
pub struct HookTable {
    entries: Vec<HookEntry>,
}

spec fn holds_id(entries: Seq<HookEntry>, id: Seq<char>) -> bool {
    exists|i: int| 0 <= i < entries.len() && (#[trigger] entries[i]).id@ == id
}

spec fn position(entries: Seq<HookEntry>, id: Seq<char>) -> int {
    choose|i: int| 0 <= i < entries.len() && (#[trigger] entries[i]).id@ == id
}

spec fn unique_ids(entries: Seq<HookEntry>) -> bool {
    forall|i: int, j: int|
        0 <= i < entries.len() && 0 <= j < entries.len() && i != j ==> (#[trigger] entries[i]).id@
            != (#[trigger] entries[j]).id@
}

spec fn wf_entries(entries: Seq<HookEntry>) -> bool {
    &&& unique_ids(entries)
    &&& forall|i: int| 0 <= i < entries.len() ==> (#[trigger] entries[i]).hook@.wf()
}

spec fn entries_map(entries: Seq<HookEntry>) -> Map<Seq<char>, HookModel> {
    Map::new(
        |id: Seq<char>| holds_id(entries, id),
        |id: Seq<char>| entries[position(entries, id)].hook@,
    )
}

proof fn lemma_entry_in_map(entries: Seq<HookEntry>, i: int)
    requires
        unique_ids(entries),
        0 <= i < entries.len(),
    ensures
        entries_map(entries).dom().contains(entries[i].id@),
        entries_map(entries)[entries[i].id@] == entries[i].hook@,
{
    let id = entries[i].id@;
    assert(holds_id(entries, id));
    assert(position(entries, id) == i);
}

proof fn lemma_entries_push(entries: Seq<HookEntry>, entry: HookEntry)
    requires
        unique_ids(entries),
        !entries_map(entries).dom().contains(entry.id@),
    ensures
        unique_ids(entries.push(entry)),
        entries_map(entries.push(entry)) == entries_map(entries).insert(entry.id@, entry.hook@),
{
    let more = entries.push(entry);
    assert forall|i: int, j: int|
        0 <= i < more.len() && 0 <= j < more.len() && i != j implies (#[trigger] more[i]).id@ != (
    #[trigger] more[j]).id@ by {
        if i == entries.len() {
            lemma_entry_in_map(entries, j);
        } else if j == entries.len() {
            lemma_entry_in_map(entries, i);
        }
    }
    let map = entries_map(more);
    let expected = entries_map(entries).insert(entry.id@, entry.hook@);
    assert forall|id: Seq<char>|
        #![trigger map.dom().contains(id)]
        #![trigger expected.dom().contains(id)]
        #![trigger map[id]]
        map.dom().contains(id) == expected.dom().contains(id) && (map.dom().contains(id) ==> map[id]
            == expected[id]) by {
        if holds_id(entries, id) {
            let i = position(entries, id);
            lemma_entry_in_map(entries, i);
            assert(more[i] == entries[i]);
            lemma_entry_in_map(more, i);
        }
        if id == entry.id@ {
            lemma_entry_in_map(more, entries.len() as int);
        }
        if holds_id(more, id) {
            let i = position(more, id);
            if i < entries.len() {
                lemma_entry_in_map(entries, i);
            }
        }
    }
    assert(map =~= expected);
}

proof fn lemma_entries_remove(entries: Seq<HookEntry>, i: int)
    requires
        unique_ids(entries),
        0 <= i < entries.len(),
    ensures
        unique_ids(entries.remove(i)),
        entries_map(entries.remove(i)) == entries_map(entries).remove(entries[i].id@),
{
    let less = entries.remove(i);
    assert forall|k: int| 0 <= k < less.len() implies #[trigger] less[k] == entries[if k < i {
        k
    } else {
        k + 1
    }] by {}
    let map = entries_map(less);
    let expected = entries_map(entries).remove(entries[i].id@);
    assert forall|id: Seq<char>|
        #![trigger map.dom().contains(id)]
        #![trigger expected.dom().contains(id)]
        #![trigger map[id]]
        map.dom().contains(id) == expected.dom().contains(id) && (map.dom().contains(id) ==> map[id]
            == expected[id]) by {
        if holds_id(less, id) {
            let k = position(less, id);
            lemma_entry_in_map(less, k);
            lemma_entry_in_map(
                entries,
                if k < i {
                    k
                } else {
                    k + 1
                },
            );
        }
        if holds_id(entries, id) && id != entries[i].id@ {
            let k = position(entries, id);
            lemma_entry_in_map(entries, k);
            lemma_entry_in_map(
                less,
                if k < i {
                    k
                } else {
                    k - 1
                },
            );
        }
    }
    assert(map =~= expected);
}

impl View for HookTable {
    type V = Map<Seq<char>, HookModel>;

    closed spec fn view(&self) -> Map<Seq<char>, HookModel> {
        entries_map(self.entries@)
    }
}

/// Every hook of a table is as it has to be.
pub open spec fn wf_hooks(hooks: Map<Seq<char>, HookModel>) -> bool {
    forall|id: Seq<char>| #[trigger] hooks.dom().contains(id) ==> hooks[id].wf()
}

impl HookTable {
    #[verifier::type_invariant]
    spec fn wf(self) -> bool {
        wf_entries(self.entries@)
    }

    /// No hooks.
    pub fn new() -> (table: Self)
        ensures
            table@ == Map::<Seq<char>, HookModel>::empty(),
    {
        let table = HookTable { entries: Vec::new() };
        assert(table@ =~= Map::<Seq<char>, HookModel>::empty());
        table
    }

    fn find(&self, id: &str) -> (found: Option<usize>)
        ensures
            found is Some <==> self@.dom().contains(id@),
            found matches Some(i) ==> i < self.entries.len() && self.entries[i as int].id@ == id@
                && self@[id@] == self.entries[i as int].hook@,
    {
        proof {
            use_type_invariant(self);
        }
        let mut i: usize = 0;
        while i < self.entries.len()
            invariant
                i <= self.entries.len(),
                wf_entries(self.entries@),
                forall|k: int| 0 <= k < i ==> (#[trigger] self.entries[k]).id@ != id@,
            decreases self.entries.len() - i,
        {
            if same_text(self.entries[i].id.as_str(), id) {
                proof {
                    lemma_entry_in_map(self.entries@, i as int);
                }
                return Some(i);
            }
            i += 1;
        }
        None
    }

    /// The hook on the function `id`.
    pub fn get(&self, id: &str) -> (hook: Option<&Hook>)
        ensures
            hook is Some <==> self@.dom().contains(id@),
            hook matches Some(h) ==> h@ == self@[id@] && h@.wf(),
    {
        proof {
            use_type_invariant(self);
        }
        match self.find(id) {
            Some(i) => Some(&self.entries[i].hook),
            None => None,
        }
    }

    /// Takes the hook on the function `id` out.
    pub fn remove(&mut self, id: &str) -> (hook: Option<Hook>)
        ensures
            final(self)@ == old(self)@.remove(id@),
            hook is Some <==> old(self)@.dom().contains(id@),
            hook matches Some(h) ==> h@ == old(self)@[id@] && h@.wf(),
    {
        proof {
            use_type_invariant(&*self);
        }
        match self.find(id) {
            Some(i) => {
                proof {
                    lemma_entries_remove(self.entries@, i as int);
                }
                let mut entries: Vec<HookEntry> = Vec::new();
                std::mem::swap(&mut entries, &mut self.entries);
                let entry = entries.remove(i);
                self.entries = entries;
                Some(entry.hook)
            },
            None => {
                assert(self@ =~= old(self)@.remove(id@));
                None
            },
        }
    }

    /// Puts a hook on the function `id` in, in the place of the one that was there.
    pub fn insert(&mut self, id: String, hook: Hook)
        requires
            hook@.wf(),
        ensures
            final(self)@ == old(self)@.insert(id@, hook@),
    {
        self.remove(id.as_str());
        proof {
            use_type_invariant(&*self);
            lemma_entries_push(self.entries@, HookEntry { id, hook });
        }
        let mut entries: Vec<HookEntry> = Vec::new();
        std::mem::swap(&mut entries, &mut self.entries);
        entries.push(HookEntry { id, hook });
        self.entries = entries;
        assert(self@ =~= old(self)@.insert(id@, hook@));
    }
}

/// What contracts speak of is the hook itself.
pub proof fn law_hook_model(hook: Hook)
    ensures
        hook@.queue == hook.hook_queue@,
        hook@.current == hook.current_hook,
        hook@.trampoline == hook.trampoline,
        hook@.arg_count == hook.arg_count,
        hook@.wf() <==> hook.hook_queue@.len() >= 1 && hook.current_hook <= hook.hook_queue@.len()
            && !hook.hook_queue@.contains(0),
{
    if !hook.hook_queue@.contains(0) {
        assert forall|i: int| 0 <= i < hook@.queue.len() implies #[trigger] hook@.queue[i] != 0 by {
            assert(hook.hook_queue@.contains(hook.hook_queue@[i]));
        }
    }
}

} // verus!
