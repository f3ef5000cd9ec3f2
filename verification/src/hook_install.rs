//! Installing hooks: which functions are to be hooked, and the hooks on them.

use vstd::prelude::*;
use vstd::string::*;
use vstd::utf8::{decode_utf8, valid_utf8};

use crate::context::PerContext;
use crate::hook_table::{Hook, HookModel, HookTable};
use crate::squirrel::{wrap_in_object, SQObject, SQObjectType, ScriptContext, WhichDll};
use crate::text::{bytes_text, ends_with, get_from_sq_string, same_text};
use crate::utils::{as_func_proto, func_proto_of, object_text, FuncObject, StringObject};

verus! {

/// The functions that are to be hooked once they are compiled: the path of their source file and
/// their name.
pub type HookQueue = Vec<(String, String)>;

/// The paths and names in a queue.
pub open spec fn queued_names(queue: Seq<(String, String)>) -> Seq<(Seq<char>, Seq<char>)> {
    queue.map_values(|entry: (String, String)| (entry.0@, entry.1@))
}

/// A function is to be hooked where an entry has its name and a path that ends with the path of
/// its source file.
pub open spec fn is_queued(
    queue: Seq<(Seq<char>, Seq<char>)>,
    source_path: Seq<char>,
    function_name: Seq<char>,
) -> bool {
    exists|i: int|
        0 <= i < queue.len() && source_path.is_suffix_of((#[trigger] queue[i]).0) && queue[i].1
            == function_name
}

/// Has the function `function_name` of the file `source_path` hooked once it is compiled.
pub fn prepare_hook(
    queues: &mut PerContext<HookQueue>,
    context: ScriptContext,
    source_path: String,
    function_name: String,
)
    ensures
        queued_names(final(queues).of(context)@) == queued_names(old(queues).of(context)@).push(
            (source_path@, function_name@),
        ),
        final(queues).of(context)@ == old(queues).of(context)@.push((source_path, function_name)),
        forall|other: ScriptContext|
            other != context ==> #[trigger] final(queues).of(other) == old(queues).of(other),
{
    let queue = queues.get_mut(context);
    let ghost before = queue@;
    let ghost entry = (source_path@, function_name@);
    queue.push((source_path, function_name));
    assert(queued_names(queue@) =~= queued_names(before).push(entry));
}

/// Whether the function `function_name` of the file `source_path` is to be hooked.
pub fn should_hook(queue: &HookQueue, source_path: &str, function_name: &str) -> (r: bool)
    ensures
        r == is_queued(queued_names(queue@), source_path@, function_name@),
        r <==> exists|i: int|
            0 <= i < queue.len() && source_path@.is_suffix_of((#[trigger] queue@[i]).0@)
                && queue@[i].1@ == function_name@,
{
    let ghost names = queued_names(queue@);
    let mut i: usize = 0;
    while i < queue.len()
        invariant
            i <= queue.len(),
            names == queued_names(queue@),
            forall|k: int|
                0 <= k < i ==> !(source_path@.is_suffix_of((#[trigger] names[k]).0) && names[k].1
                    == function_name@),
        decreases queue.len() - i,
    {
        let entry = &queue[i];
        assert(names[i as int] == (entry.0@, entry.1@));
        if ends_with(entry.0.as_str(), source_path) && same_text(entry.1.as_str(), function_name) {
            return true;
        }
        i += 1;
    }
    assert forall|k: int| 0 <= k < queue.len() implies !(source_path@.is_suffix_of(
        (#[trigger] queue@[k]).0@,
    ) && queue@[k].1@ == function_name@) by {
        assert(names[k] == (queue@[k].0@, queue@[k].1@));
    }
    false
}

/// Where in a DLL the engine builds compiled functions.
pub open spec fn build_proto_offset(dll: WhichDll) -> Option<usize> {
    match dll {
        WhichDll::Client => Some(0x67340usize),
        WhichDll::Server => Some(0x672d0usize),
        WhichDll::Other => None,
    }
}

/// Where in a DLL the function that builds compiled functions is to be detoured.
pub fn init_hooks(dll: WhichDll) -> (offset: Option<usize>)
    ensures
        offset == build_proto_offset(dll),
        dll == WhichDll::Client ==> offset == Some(0x67340usize),
        dll == WhichDll::Server ==> offset == Some(0x672d0usize),
        dll == WhichDll::Other ==> offset is None,
{
    match dll {
        WhichDll::Client => Some(0x67340),
        WhichDll::Server => Some(0x672d0),
        WhichDll::Other => None,
    }
}

/// What is read of the state from which the engine builds a compiled function.
pub struct FuncState {
    pub func_name: StringObject,
    pub file_name: StringObject,
    pub default_param_size: u32,
    pub parameters_size: u32,
}

/// What to do about a function that the engine is about to build.
#[derive(Debug)]
pub enum BuildStep {
    /// There is no VM: let the engine build it.
    NoVm,
    /// The function or its file has no name: let the engine build it.
    Unnamed,
    /// The function is not to be hooked: let the engine build it.
    NotQueued,
    /// The function is to be hooked, but it has default parameters, which cannot be handled.
    DefaultParams,
    /// The function is to be hooked under this function id.
    Install(String),
}

/// What to do about a function that the engine is about to build, as contracts speak of it.
pub enum BuildModel {
    NoVm,
    Unnamed,
    NotQueued,
    DefaultParams,
    Install(Seq<char>),
}

impl View for BuildStep {
    type V = BuildModel;

    open spec fn view(&self) -> BuildModel {
        match self {
            BuildStep::NoVm => BuildModel::NoVm,
            BuildStep::Unnamed => BuildModel::Unnamed,
            BuildStep::NotQueued => BuildModel::NotQueued,
            BuildStep::DefaultParams => BuildModel::DefaultParams,
            BuildStep::Install(id) => BuildModel::Install(id@),
        }
    }
}

/// The id of a hooked function: the path of its source file and its name.
pub open spec fn function_id(source_path: Seq<char>, function_name: Seq<char>) -> Seq<char> {
    source_path + function_name
}

/// What to do about a function with these names.
pub open spec fn build_step(
    queue: Seq<(Seq<char>, Seq<char>)>,
    function_name: Option<Seq<char>>,
    source_path: Option<Seq<char>>,
    default_param_size: u32,
) -> BuildModel {
    match (function_name, source_path) {
        (Some(name), Some(path)) => if !is_queued(queue, path, name) {
            BuildModel::NotQueued
        } else if default_param_size != 0 {
            BuildModel::DefaultParams
        } else {
            BuildModel::Install(function_id(path, name))
        },
        _ => BuildModel::Unnamed,
    }
}

/// Decides what to do about a function that the engine is about to build; `context` is none where
/// the function belongs to no VM.
///
/// Where it is to be hooked, the engine builds the function, `HeldProto::hold` holds it, the engine
/// builds its trampoline, and `install_hook` ends it.
pub fn sqfunc_state_build_proto_hook(
    queues: &PerContext<HookQueue>,
    context: Option<ScriptContext>,
    state: &FuncState,
) -> (step: BuildStep)
    ensures
        step@ == (match context {
            Some(context) => build_step(
                queued_names(queues.of(context)@),
                object_text(state.func_name),
                object_text(state.file_name),
                state.default_param_size,
            ),
            None => BuildModel::NoVm,
        }),
{
    match context {
        None => BuildStep::NoVm,
        Some(context) => match (state.func_name.text(), state.file_name.text()) {
            (Some(function_name), Some(source_path)) => {
                if !should_hook(queues.get(context), source_path, function_name) {
                    BuildStep::NotQueued
                } else if state.default_param_size != 0 {
                    BuildStep::DefaultParams
                } else {
                    BuildStep::Install(String::from_str(source_path).concat(function_name))
                }
            },
            _ => BuildStep::Unnamed,
        },
    }
}

/// A trampoline that the engine built: the addresses of its closure and its function.
#[derive(Clone, Copy, Debug, PartialEq, Eq, Structural)]
pub struct BuiltTrampoline {
    pub closure: u64,
    pub proto: u64,
}

/// A function that was just hooked: only the function itself is to be run.
pub open spec fn new_hook(orig: u64, closure: u64, parameters_size: u32) -> HookModel {
    HookModel {
        queue: seq![orig],
        current: 1,
        trampoline: SQObject { ty: SQObjectType::OT_CLOSURE, struct_number: 0, val: closure },
        arg_count: if parameters_size == 0 {
            0
        } else {
            (parameters_size - 1) as u32
        },
    }
}

/// Records the hook on the function `orig`, where it has a trampoline. The result is the function
/// that the script gets: the trampoline, or `orig` itself where there is no trampoline.
///
/// This is the part of `install_hook` that concerns the hooks; that one also accounts for the
/// reference to `orig`.
pub fn finish_build_proto(
    hooks: &mut PerContext<HookTable>,
    context: ScriptContext,
    function_id: String,
    orig: u64,
    trampoline: Result<BuiltTrampoline, &'static str>,
    parameters_size: u32,
) -> (built: u64)
    requires
        orig != 0,
        trampoline matches Ok(t) ==> t.closure != 0,
    ensures
        built == (match trampoline {
            Ok(t) => t.proto,
            Err(_) => orig,
        }),
        trampoline matches Ok(t) ==> (final(hooks).of(context)@.dom().contains(function_id@) && {
            let hook = final(hooks).of(context)@[function_id@];
            &&& hook.queue == seq![orig]
            &&& hook.current == 1
            &&& hook.trampoline.val == t.closure
            &&& hook.arg_count == (if parameters_size >= 1 {
                parameters_size - 1
            } else {
                0
            })
        }),
        final(hooks).of(context)@ == (match trampoline {
            Ok(t) => old(hooks).of(context)@.insert(
                function_id@,
                new_hook(orig, t.closure, parameters_size),
            ),
            Err(_) => old(hooks).of(context)@,
        }),
        forall|other: ScriptContext|
            other != context ==> #[trigger] final(hooks).of(other) == old(hooks).of(other),
{
    match trampoline {
        Err(_) => orig,
        Ok(t) => {
            let hook = Hook {
                hook_queue: vec![orig],
                current_hook: 1,
                trampoline: wrap_in_object(SQObjectType::OT_CLOSURE, t.closure),
                arg_count: parameters_size.saturating_sub(1),
            };
            assert(hook@ =~= new_hook(orig, t.closure, parameters_size));
            hooks.get_mut(context).insert(function_id, hook);
            t.proto
        },
    }
}

/// What a call is told whose function id names no hook.
pub open spec fn unknown_id_error(function_id: Seq<u8>) -> Seq<char> {
    "couldn't find the function from it's function id of "@ + (match bytes_text(function_id) {
        Some(id) => id,
        None => Seq::empty(),
    })
}

/// The function id names a hook.
pub open spec fn is_hooked(hooks: Map<Seq<char>, HookModel>, function_id: Seq<u8>) -> bool {
    bytes_text(function_id) matches Some(id) && hooks.dom().contains(id)
}

/// Writes what a call is told whose function id names no hook.
pub fn unknown_id_message(function_id: &[u8]) -> (message: String)
    ensures
        message@ == unknown_id_error(function_id@),
{
    let mut message = String::from_str("couldn't find the function from it's function id of ");
    let ghost head = message@;
    if let Some(id) = get_from_sq_string(function_id) {
        message.append(id);
    } else {
        assert(message@ =~= head + Seq::empty());
    }
    message
}

/// A hook with one more function on top of it.
pub open spec fn hooked(hook: HookModel, proto: u64) -> HookModel {
    HookModel { queue: hook.queue.push(proto), current: (hook.queue.len() + 1) as int, ..hook }
}

/// Why no hook can be put on the function.
pub open spec fn hook_on_error(
    hooks: Map<Seq<char>, HookModel>,
    function_id: Seq<u8>,
    hook_func: FuncObject,
) -> Option<Seq<char>> {
    if !is_hooked(hooks, function_id) {
        Some(unknown_id_error(function_id))
    } else {
        match func_proto_of(hook_func) {
            Err(err) => Some(err),
            Ok(_) => None,
        }
    }
}

/// A compiled function and its reference count.
#[derive(Clone, Copy, Debug, PartialEq, Eq, Structural)]
pub struct ProtoRef {
    pub addr: u64,
    pub ui_ref: i32,
}

impl ProtoRef {
    /// Holds one more reference to the function.
    pub fn hold(self) -> (r: ProtoRef)
        requires
            self.ui_ref < i32::MAX,
        ensures
            r == (ProtoRef { addr: self.addr, ui_ref: (self.ui_ref + 1) as i32 }),
    {
        ProtoRef { addr: self.addr, ui_ref: self.ui_ref + 1 }
    }
}

/// A function that is to be hooked, once it is held: its hook has a reference to it from before its
/// trampoline is built.
pub struct HeldProto {
    orig: ProtoRef,
}

impl HeldProto {
    /// The function with the count that it had when the engine built it.
    pub closed spec fn built(self) -> ProtoRef {
        self.orig
    }

    /// It is a function, and its count can grow.
    #[verifier::type_invariant]
    spec fn wf(self) -> bool {
        self.orig.addr != 0 && self.orig.ui_ref < i32::MAX
    }

    /// Holds the function `orig` that the engine built.
    pub fn hold(orig: ProtoRef) -> (held: Self)
        requires
            orig.addr != 0,
            orig.ui_ref < i32::MAX,
        ensures
            held.built() == orig,
    {
        HeldProto { orig }
    }

    /// The function with the count that it has while it is held: one more than when it was built.
    pub fn proto(&self) -> (r: ProtoRef)
        ensures
            r.addr == self.built().addr,
            r.addr != 0,
            r.ui_ref == self.built().ui_ref + 1,
    {
        proof {
            use_type_invariant(self);
        }
        self.orig.hold()
    }
}

/// Ends the installation once the engine has built the function `orig` that is to be hooked, and
/// tried to build its trampoline. The result is the function that the script gets, the trampoline
/// or, where there is none, `orig` itself; and `orig` with the count that it keeps: the reference to
/// it stays, also where there is no trampoline.
pub fn install_hook(
    hooks: &mut PerContext<HookTable>,
    context: ScriptContext,
    function_id: String,
    orig: HeldProto,
    trampoline: Result<BuiltTrampoline, &'static str>,
    parameters_size: u32,
) -> (r: (u64, ProtoRef))
    requires
        trampoline matches Ok(t) ==> t.closure != 0,
    ensures
        r.0 == (match trampoline {
            Ok(t) => t.proto,
            Err(_) => orig.built().addr,
        }),
        r.1.addr == orig.built().addr,
        r.1.ui_ref == orig.built().ui_ref + 1,
        trampoline matches Ok(t) ==> (final(hooks).of(context)@.dom().contains(function_id@) && {
            let hook = final(hooks).of(context)@[function_id@];
            &&& hook.queue == seq![orig.built().addr]
            &&& hook.current == 1
            &&& hook.trampoline.val == t.closure
            &&& hook.arg_count == (if parameters_size >= 1 {
                parameters_size - 1
            } else {
                0
            })
        }),
        final(hooks).of(context)@ == (match trampoline {
            Ok(t) => old(hooks).of(context)@.insert(
                function_id@,
                new_hook(orig.built().addr, t.closure, parameters_size),
            ),
            Err(_) => old(hooks).of(context)@,
        }),
        forall|other: ScriptContext|
            other != context ==> #[trigger] final(hooks).of(other) == old(hooks).of(other),
{
    let held = orig.proto();
    let built = finish_build_proto(
        hooks,
        context,
        function_id,
        held.addr,
        trampoline,
        parameters_size,
    );
    (built, held)
}

/// Puts the function in `hook_func` on top of the hooks on the function `function_id`. The result is
/// that function, with the reference that the hook holds to it.
pub fn hook_on(
    hooks: &mut PerContext<HookTable>,
    context: ScriptContext,
    function_id: &[u8],
    hook_func: &FuncObject,
) -> (r: Result<ProtoRef, String>)
    requires
        hook_on_error(old(hooks).of(context)@, function_id@, *hook_func) is None ==> {
            let proto = func_proto_of(*hook_func)->Ok_0;
            proto.addr != 0 && proto.ui_ref < i32::MAX
        },
    ensures
        r is Ok <==> hook_on_error(old(hooks).of(context)@, function_id@, *hook_func) is None,
        r matches Err(err) ==> {
            &&& hook_on_error(old(hooks).of(context)@, function_id@, *hook_func) == Some(err@)
            &&& final(hooks).of(context)@ == old(hooks).of(context)@
        },
        r matches Ok(proto) ==> {
            let id = bytes_text(function_id@)->Some_0;
            let hook = old(hooks).of(context)@[id];
            &&& proto.addr == (func_proto_of(*hook_func)->Ok_0).addr
            &&& proto.ui_ref == (func_proto_of(*hook_func)->Ok_0).ui_ref + 1
            &&& final(hooks).of(context)@ == old(hooks).of(context)@.insert(
                id,
                hooked(hook, proto.addr),
            )
            &&& final(hooks).of(context)@[id].queue == hook.queue.push(proto.addr)
            &&& final(hooks).of(context)@[id].current == hook.queue.len() + 1
            &&& final(hooks).of(context)@[id].trampoline == hook.trampoline
            &&& final(hooks).of(context)@[id].arg_count == hook.arg_count
        },
        forall|other: ScriptContext|
            other != context ==> #[trigger] final(hooks).of(other) == old(hooks).of(other),
{
    let table = hooks.get_mut(context);
    let ghost before = table@;
    match get_from_sq_string(function_id) {
        None => Err(unknown_id_message(function_id)),
        Some(id) => {
            if table.get(id).is_none() {
                return Err(unknown_id_message(function_id));
            }
            match as_func_proto(hook_func) {
                Err(err) => Err(String::from_str(err)),
                Ok(proto) => {
                    if let Some(mut hook) = table.remove(id) {
                        hook.hook_queue.push(proto.addr);
                        hook.current_hook = hook.hook_queue.len();
                        assert(hook@ =~= hooked(before[id@], proto.addr));
                        table.insert(String::from_str(id), hook);
                        assert(table@ =~= before.insert(id@, hooked(before[id@], proto.addr)));
                    }
                    Ok(ProtoRef { addr: proto.addr, ui_ref: proto.ui_ref }.hold())
                },
            }
        },
    }
}

/// Keeps the closure that a script handed over.
pub fn extract(
    extracted: &mut PerContext<Option<u64>>,
    context: ScriptContext,
    hook_func: &SQObject,
)
    requires
        hook_func.ty == SQObjectType::OT_CLOSURE,
    ensures
        final(extracted).of(context) == Some(hook_func.val),
        forall|other: ScriptContext|
            other != context ==> #[trigger] final(extracted).of(other) == old(extracted).of(other),
{
    *extracted.get_mut(context) = Some(hook_func.val);
}

/// A function that a script asked for is hooked when it is compiled, also where the script gave a
/// longer path for its file, and whatever else was asked for since.
pub proof fn law_prepared_function_is_installed(
    queue: Seq<(Seq<char>, Seq<char>)>,
    later: Seq<(Seq<char>, Seq<char>)>,
    path: Seq<char>,
    source_path: Seq<char>,
    name: Seq<char>,
)
    requires
        source_path.is_suffix_of(path),
    ensures
        build_step(queue.push((path, name)) + later, Some(name), Some(source_path), 0)
            == BuildModel::Install(function_id(source_path, name)),
{
    let whole = queue.push((path, name)) + later;
    assert(whole[queue.len() as int] == (path, name));
}

/// Asking for a function changes nothing for a function of another name.
pub proof fn law_other_functions_not_hooked(
    queue: Seq<(Seq<char>, Seq<char>)>,
    path: Seq<char>,
    name: Seq<char>,
    source_path: Seq<char>,
    other_name: Seq<char>,
)
    requires
        other_name != name,
    ensures
        is_queued(queue.push((path, name)), source_path, other_name) == is_queued(
            queue,
            source_path,
            other_name,
        ),
{
    let more = queue.push((path, name));
    if is_queued(queue, source_path, other_name) {
        let i = choose|i: int|
            0 <= i < queue.len() && source_path.is_suffix_of((#[trigger] queue[i]).0) && queue[i].1
                == other_name;
        assert(more[i] == queue[i]);
    }
    if is_queued(more, source_path, other_name) {
        let i = choose|i: int|
            0 <= i < more.len() && source_path.is_suffix_of((#[trigger] more[i]).0) && more[i].1
                == other_name;
        assert(queue[i] == more[i]);
    }
}

/// Before a script asks for anything, nothing is to be hooked; and asking for a function of a file
/// changes nothing for a function of the same name in another file, one whose whole path is no end
/// of the path that was asked for.
pub proof fn law_other_files_not_hooked(
    queue: Seq<(Seq<char>, Seq<char>)>,
    path: Seq<char>,
    name: Seq<char>,
    source_path: Seq<char>,
)
    requires
        !source_path.is_suffix_of(path),
    ensures
        is_queued(queue.push((path, name)), source_path, name) == is_queued(
            queue,
            source_path,
            name,
        ),
        !is_queued(Seq::empty(), source_path, name),
{
    let more = queue.push((path, name));
    if is_queued(queue, source_path, name) {
        let i = choose|i: int|
            0 <= i < queue.len() && source_path.is_suffix_of((#[trigger] queue[i]).0) && queue[i].1
                == name;
        assert(more[i] == queue[i]);
    }
    if is_queued(more, source_path, name) {
        let i = choose|i: int|
            0 <= i < more.len() && source_path.is_suffix_of((#[trigger] more[i]).0) && more[i].1
                == name;
        assert(queue[i] == more[i]);
    }
}

/// A function is left alone unless some entry has exactly its name and a path that ends with its
/// whole path.
pub proof fn law_hooked_only_when_asked(
    queue: Seq<(Seq<char>, Seq<char>)>,
    source_path: Seq<char>,
    name: Seq<char>,
)
    requires
        forall|i: int|
            0 <= i < queue.len() ==> (#[trigger] queue[i]).1 != name || queue[i].0.len()
                < source_path.len() || queue[i].0.skip(queue[i].0.len() - source_path.len())
                != source_path,
    ensures
        !is_queued(queue, source_path, name),
        forall|default_param_size: u32| #[trigger]
            build_step(queue, Some(name), Some(source_path), default_param_size)
                == BuildModel::NotQueued,
{
    if is_queued(queue, source_path, name) {
        let i = choose|i: int|
            0 <= i < queue.len() && source_path.is_suffix_of((#[trigger] queue[i]).0) && queue[i].1
                == name;
        assert(queue[i].0.skip(queue[i].0.len() - source_path.len()) =~= source_path);
    }
}

/// What is done about a function follows from what a script asked for: a function without a name,
/// or in a file without one, is left alone; one that is asked for is hooked under an id that is its
/// path and then its name, unless it has default parameters.
pub proof fn law_what_is_done_about_a_function(
    queue: Seq<(Seq<char>, Seq<char>)>,
    name: Seq<char>,
    path: Seq<char>,
    default_param_size: u32,
)
    ensures
        build_step(queue, None, Some(path), default_param_size) == BuildModel::Unnamed,
        build_step(queue, Some(name), None, default_param_size) == BuildModel::Unnamed,
        build_step(queue, None, None, default_param_size) == BuildModel::Unnamed,
        is_queued(queue, path, name) && default_param_size > 0 ==> build_step(
            queue,
            Some(name),
            Some(path),
            default_param_size,
        ) == BuildModel::DefaultParams,
        is_queued(queue, path, name) && default_param_size == 0 ==> (build_step(
            queue,
            Some(name),
            Some(path),
            default_param_size,
        ) matches BuildModel::Install(id) && {
            &&& id.len() == path.len() + name.len()
            &&& path.is_prefix_of(id)
            &&& name.is_suffix_of(id)
        }),
        !is_queued(queue, path, name) ==> build_step(
            queue,
            Some(name),
            Some(path),
            default_param_size,
        ) == BuildModel::NotQueued,
{
    let id = function_id(path, name);
    assert(path =~= id.subrange(0, path.len() as int));
    assert(name =~= id.subrange(id.len() - name.len(), id.len() as int));
}

/// Putting a function on top of a hook keeps all that was there: the functions below and their
/// order, the closure that leads on, and the number of arguments that the hooked function takes.
pub proof fn law_hook_on_keeps_the_hook(hook: HookModel, proto: u64)
    ensures
        hooked(hook, proto).queue.len() == hook.queue.len() + 1,
        hooked(hook, proto).queue.drop_last() == hook.queue,
        hooked(hook, proto).queue.last() == proto,
        hooked(hook, proto).current == hooked(hook, proto).queue.len(),
        hooked(hook, proto).trampoline == hook.trampoline,
        hooked(hook, proto).arg_count == hook.arg_count,
{
    assert(hooked(hook, proto).queue.drop_last() =~= hook.queue);
}

/// A function that was just hooked is the only one to run, its trampoline's closure leads to it, and
/// it takes all its parameters but the root table.
pub proof fn law_new_hook(orig: u64, closure: u64, parameters_size: u32)
    ensures
        ({
            let hook = new_hook(orig, closure, parameters_size);
            &&& hook.queue.len() == 1
            &&& hook.queue[0] == orig
            &&& hook.current == 1
            &&& hook.trampoline.ty == SQObjectType::OT_CLOSURE
            &&& hook.trampoline.struct_number == 0
            &&& hook.trampoline.val == closure
            &&& parameters_size >= 1 ==> hook.arg_count + 1 == parameters_size
            &&& parameters_size == 0 ==> hook.arg_count == 0
        }),
{
}

/// A hook is put on exactly where the function id is the text of a hooked function and the value
/// leads to a compiled function.
pub proof fn law_which_hooks_are_put_on(
    hooks: Map<Seq<char>, HookModel>,
    function_id: Seq<u8>,
    hook_func: FuncObject,
)
    ensures
        hook_on_error(hooks, function_id, hook_func) is None <==> valid_utf8(function_id)
            && hooks.dom().contains(decode_utf8(function_id)) && func_proto_of(hook_func) is Ok,
        valid_utf8(function_id) && hooks.dom().contains(decode_utf8(function_id)) ==> (
        func_proto_of(hook_func) matches Err(err) ==> hook_on_error(hooks, function_id, hook_func)
            == Some(err)),
        valid_utf8(function_id) && !hooks.dom().contains(decode_utf8(function_id))
            ==> hook_on_error(hooks, function_id, hook_func) == Some(
            "couldn't find the function from it's function id of "@ + decode_utf8(function_id),
        ),
        !valid_utf8(function_id) ==> hook_on_error(hooks, function_id, hook_func) == Some(
            "couldn't find the function from it's function id of "@,
        ),
{
    let head = "couldn't find the function from it's function id of "@;
    assert(head + Seq::empty() =~= head);
}

/// What contracts speak of is the step itself, with the text of its function id.
pub proof fn law_build_model(step: BuildStep)
    ensures
        step is NoVm <==> step@ is NoVm,
        step is Unnamed <==> step@ is Unnamed,
        step is NotQueued <==> step@ is NotQueued,
        step is DefaultParams <==> step@ is DefaultParams,
        step matches BuildStep::Install(id) ==> step@ == BuildModel::Install(id@),
        step@ matches BuildModel::Install(_) ==> step is Install,
{
}

/// The paths and names in a queue are those of its entries, in their order.
pub proof fn law_queued_names(queue: Seq<(String, String)>)
    ensures
        queued_names(queue).len() == queue.len(),
        forall|i: int|
            0 <= i < queue.len() ==> (#[trigger] queued_names(queue)[i]).0 == queue[i].0@
                && queued_names(queue)[i].1 == queue[i].1@,
{
}

} // verus!
