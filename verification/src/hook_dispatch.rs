//! Dispatching calls of hooked functions.

use vstd::prelude::*;
use vstd::string::*;
use vstd::utf8::{
    decode_utf8, encode_utf8, encode_utf8_decode_utf8, encode_utf8_valid_utf8, valid_utf8,
};

use crate::context::PerContext;
use crate::hook_install::{
    function_id, hook_on_error, hooked, is_hooked, new_hook, unknown_id_error, unknown_id_message,
};
use crate::hook_table::{wf_hooks, HookModel, HookTable};
use crate::refcount::{free_sqobject, increment_ref_sqobject, referenced, RefCounts};
use crate::squirrel::{
    law_ref_counted_types, null_sq_object, wrap_in_object, SQObject, SQObjectType, ScriptContext,
};
use crate::text::{bytes_text, get_from_sq_string};
use crate::utils::{function_name, function_name_of, object_text, FuncObject, StringObject};

verus! {

/// A call of a hooked function: the function to run, the closure that leads to the one below it, if
/// there is one, and the arguments.
#[derive(Debug)]
pub struct HookCall {
    pub proto: u64,
    pub next_func: Option<SQObject>,
    pub args: Vec<SQObject>,
}

/// A hook while the next function below the running one runs; the hooked function itself is below
/// all others and has none below it.
pub open spec fn called(hook: HookModel) -> HookModel {
    HookModel {
        current: if hook.current > 0 {
            hook.current - 1
        } else {
            0
        },
        ..hook
    }
}

/// A hook while none of its functions runs.
pub open spec fn idle(hook: HookModel) -> HookModel {
    HookModel { current: hook.queue.len() as int, ..hook }
}

/// The function of a hook that runs.
pub open spec fn running(hook: HookModel) -> u64 {
    hook.queue[hook.current]
}

/// The closure that leads to the function below the running one.
pub open spec fn below(hook: HookModel) -> Option<SQObject> {
    if hook.current > 0 {
        Some(hook.trampoline)
    } else {
        None
    }
}

/// Why a hooked function cannot be called with `arg_count` arguments.
pub open spec fn call_error(
    hooks: Map<Seq<char>, HookModel>,
    function_id: Seq<u8>,
    arg_count: usize,
) -> Option<Seq<char>> {
    if !is_hooked(hooks, function_id) {
        Some(unknown_id_error(function_id))
    } else if hooks[bytes_text(function_id)->Some_0].arg_count > (arg_count as u32) {
        Some("wrong arg amount given to trampoline function"@)
    } else {
        None
    }
}

/// Starts a call of the hooked function `function_id`. Arguments beyond those that it takes are
/// dropped.
///
/// The engine then makes a closure over the function, which is run between `start_run` and
/// `finish_run`, and `finish_call_hook` ends the call.
pub fn call_hook(
    hooks: &mut PerContext<HookTable>,
    context: ScriptContext,
    function_id: &[u8],
    args: &Vec<SQObject>,
) -> (r: Result<HookCall, String>)
    ensures
        r is Ok <==> call_error(old(hooks).of(context)@, function_id@, args.len()) is None,
        r matches Err(err) ==> {
            &&& call_error(old(hooks).of(context)@, function_id@, args.len()) == Some(err@)
            &&& final(hooks).of(context)@ == old(hooks).of(context)@
        },
        r matches Ok(call) ==> {
            let id = bytes_text(function_id@)->Some_0;
            let hook = called(old(hooks).of(context)@[id]);
            &&& final(hooks).of(context)@ == old(hooks).of(context)@.insert(id, hook)
            &&& call.proto == running(hook)
            &&& call.proto != 0
            &&& call.next_func == below(hook)
            &&& call.args@ == args@.take(hook.arg_count as int)
        },
        forall|other: ScriptContext|
            other != context ==> #[trigger] final(hooks).of(other) == old(hooks).of(other),
{
    let table = hooks.get_mut(context);
    let ghost before = table@;
    let id = match get_from_sq_string(function_id) {
        Some(id) => id,
        None => {
            return Err(unknown_id_message(function_id));
        },
    };
    let arg_count = match table.get(id) {
        Some(hook) => hook.arg_count,
        None => {
            return Err(unknown_id_message(function_id));
        },
    };
    let given = args.len();
    if arg_count > #[verifier::truncate] (given as u32) {
        return Err(String::from_str("wrong arg amount given to trampoline function"));
    }
    assert((given as u32) <= given) by (bit_vector);
    let mut taken: Vec<SQObject> = Vec::new();
    let mut i: usize = 0;
    while i < arg_count as usize
        invariant
            i <= arg_count,
            arg_count <= args.len(),
            taken@ == args@.take(i as int),
        decreases arg_count - i,
    {
        taken.push(args[i]);
        i += 1;
        assert(taken@ =~= args@.take(i as int));
    }
    match table.remove(id) {
        Some(mut hook) => {
            hook.current_hook = hook.current_hook.saturating_sub(1);
            let proto = hook.hook_queue[hook.current_hook];
            let next_func = if hook.current_hook > 0 {
                Some(hook.trampoline)
            } else {
                None
            };
            assert(hook@ =~= called(before[id@]));
            table.insert(String::from_str(id), hook);
            assert(table@ =~= before.insert(id@, called(before[id@])));
            Ok(HookCall { proto, next_func, args: taken })
        },
        None => Err(unknown_id_message(function_id)),
    }
}

/// Ends a call of the hooked function `function_id`.
pub fn finish_call_hook(
    hooks: &mut PerContext<HookTable>,
    context: ScriptContext,
    function_id: &[u8],
)
    requires
        is_hooked(old(hooks).of(context)@, function_id@),
    ensures
        ({
            let id = bytes_text(function_id@)->Some_0;
            final(hooks).of(context)@ == old(hooks).of(context)@.insert(
                id,
                idle(old(hooks).of(context)@[id]),
            )
        }),
        forall|other: ScriptContext|
            other != context ==> #[trigger] final(hooks).of(other) == old(hooks).of(other),
{
    let table = hooks.get_mut(context);
    let ghost before = table@;
    if let Some(id) = get_from_sq_string(function_id) {
        if let Some(mut hook) = table.remove(id) {
            hook.current_hook = hook.hook_queue.len();
            assert(hook@ =~= idle(before[id@]));
            table.insert(String::from_str(id), hook);
            assert(table@ =~= before.insert(id@, idle(before[id@])));
        }
    }
}

/// What is pushed on the stack of the VM.
#[derive(Clone, Copy, Debug, PartialEq, Eq, Structural)]
pub enum StackPush {
    Object(SQObject),
    RootTable,
}

/// What is pushed on the stack for a call, and how many of these values are arguments.
#[derive(Debug)]
pub struct CallFrame {
    pub pushes: Vec<StackPush>,
    pub args_count: i32,
}

/// The arguments of a function that is run: the closure that leads to the one below it, if there is
/// one, and those of the call.
pub open spec fn passed_args(next_func: Option<SQObject>, args: Seq<SQObject>) -> Seq<SQObject> {
    match next_func {
        Some(next) => seq![next] + args,
        None => args,
    }
}

/// Pushing one value after the other.
pub open spec fn object_pushes(objs: Seq<SQObject>) -> Seq<StackPush> {
    Seq::new(objs.len(), |i: int| StackPush::Object(objs[i]))
}

/// Lays a call out: the function, the root table as `this`, and the arguments.
pub fn call_frame(callable: SQObject, next_func: Option<SQObject>, args: &Vec<SQObject>) -> (frame:
    CallFrame)
    requires
        passed_args(next_func, args@).len() + 1 <= usize::MAX,
    ensures
        frame.pushes@ == seq![StackPush::Object(callable), StackPush::RootTable] + object_pushes(
            passed_args(next_func, args@),
        ),
        frame.pushes@.len() == 2 + (if next_func is Some {
            1int
        } else {
            0
        }) + args.len(),
        forall|i: int|
            0 <= i < args.len() ==> frame.pushes@[frame.pushes@.len() - args.len() + i]
                == StackPush::Object(#[trigger] args@[i]),
        next_func matches Some(next) ==> frame.pushes@[2] == StackPush::Object(next),
        frame.args_count == ((frame.pushes@.len() - 1) as i32),
        frame.args_count == ((passed_args(next_func, args@).len() + 1) as i32),
{
    let ghost all = passed_args(next_func, args@);
    let ghost head = seq![StackPush::Object(callable), StackPush::RootTable];
    let mut pushes: Vec<StackPush> = Vec::new();
    pushes.push(StackPush::Object(callable));
    pushes.push(StackPush::RootTable);
    let mut count: usize = 1;
    if let Some(next) = next_func {
        pushes.push(StackPush::Object(next));
        count += 1;
    }
    let ghost first = count - 1;
    assert(pushes@ =~= head + object_pushes(all.take(first)));
    let mut i: usize = 0;
    while i < args.len()
        invariant
            i <= args.len(),
            all == passed_args(next_func, args@),
            all.len() + 1 <= usize::MAX,
            first == all.len() - args.len(),
            0 <= first <= 1,
            count == 1 + first + i,
            forall|k: int| 0 <= k < args.len() ==> all[first + k] == #[trigger] args[k],
            pushes@ == head + object_pushes(all.take(first + i)),
        decreases args.len() - i,
    {
        let ghost so_far = object_pushes(all.take(first + i));
        pushes.push(StackPush::Object(args[i]));
        count += 1;
        i += 1;
        assert(object_pushes(all.take(first + i)) =~= so_far.push(
            StackPush::Object(args[i - 1]),
        ));
        assert(pushes@ =~= head + object_pushes(all.take(first + i)));
    }
    assert(all.take(all.len() as int) =~= all);
    proof {
        assert forall|i: int| 0 <= i < args.len() implies pushes@[pushes@.len() - args.len() + i]
            == StackPush::Object(#[trigger] args@[i]) by {
            assert(all[first + i] == args[i]);
        }
    }
    CallFrame { pushes, args_count: #[verifier::truncate] (count as i32) }
}

/// What a script is told whose call failed.
pub open spec fn failed_call_error(callable: FuncObject, last_error: StringObject) -> Seq<char> {
    "couldn't call "@ + function_name_of(callable) + ": "@ + (match object_text(last_error) {
        Some(text) => text,
        None => Seq::empty(),
    })
}

/// The outcome of running `callable`: where the VM failed, its last error, otherwise the value on
/// top of its stack, which is `null` where it has no stack.
pub fn call_hook_inner(
    callable: &FuncObject,
    failed: bool,
    last_error: &StringObject,
    top: Option<SQObject>,
) -> (r: Result<SQObject, String>)
    ensures
        r is Err <==> failed,
        r matches Err(err) ==> err@ == failed_call_error(*callable, *last_error),
        r matches Ok(obj) ==> obj == (match top {
            Some(obj) => obj,
            None => SQObject { ty: SQObjectType::OT_NULL, struct_number: 0, val: 0 },
        }),
{
    if failed {
        let mut message = String::from_str("couldn't call ");
        message.append(function_name(callable));
        message.append(": ");
        let ghost head = message@;
        match last_error.text() {
            Some(text) => {
                message.append(text);
            },
            None => {
                assert(message@ =~= head + Seq::empty());
            },
        }
        Err(message)
    } else {
        match top {
            Some(obj) => Ok(obj),
            None => Ok(null_sq_object()),
        }
    }
}

/// The closure at `closure`, as a script value.
pub open spec fn call_closure(closure: u64) -> SQObject {
    SQObject { ty: SQObjectType::OT_CLOSURE, struct_number: 0, val: closure }
}

/// The counts after the closure that was made for a call is given up.
pub open spec fn given_up(counts: Map<u64, int>, closure: u64) -> Map<u64, int> {
    counts.insert(closure, counts[closure] - 1)
}

/// The closure, where giving it up leaves it without any reference.
pub open spec fn left_dead(counts: Map<u64, int>, closure: u64) -> Option<u64> {
    if counts[closure] <= 1 {
        Some(closure)
    } else {
        None
    }
}

/// Starts to run the closure that the engine made for a call: counts a reference to it for as long
/// as it runs, and lays the call out.
pub fn start_run(
    closure: u64,
    next_func: Option<SQObject>,
    args: &Vec<SQObject>,
    counts: &mut RefCounts,
) -> (frame: CallFrame)
    requires
        closure != 0,
        old(counts)@.dom().contains(closure),
        old(counts)@[closure] < i32::MAX,
        passed_args(next_func, args@).len() + 1 <= usize::MAX,
    ensures
        final(counts)@ == referenced(old(counts)@, closure),
        frame.pushes@ == seq![
            StackPush::Object(call_closure(closure)),
            StackPush::RootTable,
        ] + object_pushes(passed_args(next_func, args@)),
        frame.pushes@.len() == 2 + (if next_func is Some {
            1int
        } else {
            0
        }) + args.len(),
        forall|i: int|
            0 <= i < args.len() ==> frame.pushes@[frame.pushes@.len() - args.len() + i]
                == StackPush::Object(#[trigger] args@[i]),
        next_func matches Some(next) ==> frame.pushes@[2] == StackPush::Object(next),
        frame.args_count == ((passed_args(next_func, args@).len() + 1) as i32),
{
    proof {
        law_ref_counted_types(SQObjectType::OT_CLOSURE);
    }
    let callable = increment_ref_sqobject(
        wrap_in_object(SQObjectType::OT_CLOSURE, closure),
        counts,
    );
    call_frame(callable, next_func, args)
}

/// Ends the run of the closure that the engine made for a call, whether the VM failed or not: gives
/// the reference up that `start_run` counted. The result is the outcome of the run, and the closure
/// where it has to be destroyed because no reference to it is left.
pub fn finish_run(
    closure: u64,
    callable: &FuncObject,
    failed: bool,
    last_error: &StringObject,
    top: Option<SQObject>,
    counts: &mut RefCounts,
) -> (r: (Result<SQObject, String>, Option<u64>))
    requires
        closure != 0,
        old(counts)@.dom().contains(closure),
        old(counts)@[closure] > i32::MIN,
    ensures
        final(counts)@ == given_up(old(counts)@, closure),
        r.1 == left_dead(old(counts)@, closure),
        r.0 is Err <==> failed,
        r.0 matches Err(err) ==> err@ == failed_call_error(*callable, *last_error),
        r.0 matches Ok(obj) ==> obj == (match top {
            Some(obj) => obj,
            None => SQObject { ty: SQObjectType::OT_NULL, struct_number: 0, val: 0 },
        }),
{
    let out = call_hook_inner(callable, failed, last_error, top);
    proof {
        law_ref_counted_types(SQObjectType::OT_CLOSURE);
    }
    let dead = free_sqobject(wrap_in_object(SQObjectType::OT_CLOSURE, closure), counts);
    (out, dead)
}

/// A run leaves no reference to its closure behind: where nothing else counts references to it
/// meanwhile, all counts are as they were before, and it is destroyed unless it had a reference
/// then.
pub proof fn law_run_gives_closure_up(counts: Map<u64, int>, closure: u64)
    requires
        counts.dom().contains(closure),
    ensures
        given_up(referenced(counts, closure), closure) == counts,
        left_dead(referenced(counts, closure), closure) is Some <==> counts[closure] <= 0,
{
    assert(given_up(referenced(counts, closure), closure) =~= counts);
}

/// The state of a hook in the midst of `depth` calls, each from the function above.
pub open spec fn nested(hook: HookModel, depth: nat) -> HookModel
    decreases depth,
{
    if depth == 0 {
        hook
    } else {
        called(nested(hook, (depth - 1) as nat))
    }
}

/// Calls go down the hooks one by one: the first runs the hook that came last, each nested call the
/// one below, and the last of them the hooked function itself, which alone has none below it. It
/// also runs where calls are nested deeper than there are functions.
pub proof fn law_calls_go_down(hook: HookModel, depth: nat)
    requires
        hook.wf(),
        depth >= 1,
    ensures
        depth <= hook.queue.len() ==> {
            &&& running(nested(idle(hook), depth)) == hook.queue[hook.queue.len() - depth]
            &&& below(nested(idle(hook), depth)) == (if depth < hook.queue.len() {
                Some(hook.trampoline)
            } else {
                None
            })
        },
        depth >= hook.queue.len() ==> {
            &&& running(nested(idle(hook), depth)) == hook.queue[0]
            &&& below(nested(idle(hook), depth)) is None
        },
{
    lemma_nested_state(hook, depth);
}

proof fn lemma_nested_state(hook: HookModel, depth: nat)
    requires
        hook.wf(),
    ensures
        ({
            let inner = nested(idle(hook), depth);
            &&& inner.queue == hook.queue
            &&& inner.trampoline == hook.trampoline
            &&& inner.arg_count == hook.arg_count
            &&& inner.current == (if depth <= hook.queue.len() {
                hook.queue.len() - depth
            } else {
                0
            })
        }),
    decreases depth,
{
    if depth > 0 {
        lemma_nested_state(hook, (depth - 1) as nat);
    }
}

/// Once a call has ended, the next one starts at the top again, however deep calls were nested.
pub proof fn law_finished_call_starts_over(hook: HookModel, depth: nat)
    requires
        hook.wf(),
    ensures
        idle(nested(idle(hook), depth)) == idle(hook),
{
    lemma_nested_state(hook, depth);
    assert(idle(nested(idle(hook), depth)) =~= idle(hook));
}

/// A function that was just hooked runs as before: a call runs the function itself, and nothing
/// below it.
pub proof fn law_new_hook_runs_original(orig: u64, closure: u64, parameters_size: u32)
    ensures
        running(called(new_hook(orig, closure, parameters_size))) == orig,
        below(called(new_hook(orig, closure, parameters_size))) is None,
        idle(new_hook(orig, closure, parameters_size)) == new_hook(
            orig,
            closure,
            parameters_size,
        ),
{
}

/// A function that is put on top of a hook is the one that the next call runs, and the trampoline
/// leads it to the function that was on top before.
pub proof fn law_hook_on_runs_first(hook: HookModel, proto: u64)
    requires
        hook.wf(),
    ensures
        running(called(hooked(hook, proto))) == proto,
        below(called(hooked(hook, proto))) == Some(hook.trampoline),
        running(called(called(hooked(hook, proto)))) == running(called(idle(hook))),
        below(called(called(hooked(hook, proto)))) == below(called(idle(hook))),
        idle(hooked(hook, proto)) == hooked(hook, proto),
{
}

/// Whatever is done with the hooks of a VM, each of them stays as it has to be; so a call always
/// finds a function to run.
pub proof fn law_hooks_stay_wf(
    hooks: Map<Seq<char>, HookModel>,
    id: Seq<char>,
    proto: u64,
    closure: u64,
    parameters_size: u32,
)
    requires
        wf_hooks(hooks),
        proto != 0,
    ensures
        wf_hooks(hooks.insert(id, new_hook(proto, closure, parameters_size))),
        hooks.dom().contains(id) ==> {
            &&& wf_hooks(hooks.insert(id, hooked(hooks[id], proto)))
            &&& wf_hooks(hooks.insert(id, called(hooks[id])))
            &&& wf_hooks(hooks.insert(id, idle(hooks[id])))
            &&& 0 <= called(hooks[id]).current < hooks[id].queue.len()
        },
{
    if hooks.dom().contains(id) {
        let hook = hooks[id];
        assert(hook.wf());
        assert forall|i: int| 0 <= i < hooked(hook, proto).queue.len() implies #[trigger] hooked(
            hook,
            proto,
        ).queue[i] != 0 by {
            if i < hook.queue.len() {
                assert(hook.queue[i] != 0);
            }
        }
    }
}

/// A function that was hooked is found by its function id, and a call with enough arguments
/// succeeds.
pub proof fn law_installed_function_is_found(
    hooks: Map<Seq<char>, HookModel>,
    source_path: Seq<char>,
    function_name: Seq<char>,
    hook: HookModel,
    arg_count: usize,
)
    requires
        hook.arg_count <= (arg_count as u32),
    ensures
        ({
            let id = function_id(source_path, function_name);
            let bytes = encode_utf8(id);
            &&& is_hooked(hooks.insert(id, hook), bytes)
            &&& bytes_text(bytes) == Some(id)
            &&& call_error(hooks.insert(id, hook), bytes, arg_count) is None
        }),
{
    let id = function_id(source_path, function_name);
    encode_utf8_valid_utf8(id);
    encode_utf8_decode_utf8(id);
}

/// Without hooks every call, and every hook, is told that the function is unknown.
pub proof fn law_no_hooks_nothing_found(
    function_id: Seq<u8>,
    arg_count: usize,
    hook_func: FuncObject,
)
    ensures
        call_error(Map::empty(), function_id, arg_count) == Some(unknown_id_error(function_id)),
        hook_on_error(Map::empty(), function_id, hook_func) == Some(unknown_id_error(function_id)),
{
}

/// What happens to the hook on one function leaves the hooks on all others alone.
pub proof fn law_other_hooks_stay(
    hooks: Map<Seq<char>, HookModel>,
    id: Seq<char>,
    hook: HookModel,
    other: Seq<u8>,
    arg_count: usize,
)
    requires
        bytes_text(other) != Some(id),
    ensures
        is_hooked(hooks.insert(id, hook), other) == is_hooked(hooks, other),
        call_error(hooks.insert(id, hook), other, arg_count) == call_error(hooks, other, arg_count),
        bytes_text(other) matches Some(other_id) ==> hooks.insert(id, hook)[other_id]
            == hooks[other_id],
{
}

/// A function that is run gets all the arguments of the call, in their order and last; in front of
/// them stands the closure that leads to the function below, where there is one, and nothing else.
pub proof fn law_arguments_are_passed(next_func: Option<SQObject>, args: Seq<SQObject>)
    ensures
        passed_args(next_func, args).len() == args.len() + (if next_func is Some {
            1int
        } else {
            0
        }),
        args.is_suffix_of(passed_args(next_func, args)),
        next_func matches Some(next) ==> passed_args(next_func, args)[0] == next,
        object_pushes(args).len() == args.len(),
        forall|i: int|
            0 <= i < args.len() ==> #[trigger] object_pushes(args)[i] == StackPush::Object(args[i]),
{
    let all = passed_args(next_func, args);
    assert(args =~= all.subrange(all.len() - args.len(), all.len() as int));
}

/// A call, and the end of one, moves only the place in the hook: the functions, the closure that
/// leads on and the number of arguments stay. A call goes one function down, but never below the
/// hooked function; the end of a call goes back above all of them.
pub proof fn law_calls_keep_the_hook(hook: HookModel)
    requires
        hook.wf(),
    ensures
        called(hook).queue == hook.queue,
        called(hook).trampoline == hook.trampoline,
        called(hook).arg_count == hook.arg_count,
        hook.current > 0 ==> called(hook).current == hook.current - 1,
        hook.current == 0 ==> called(hook).current == 0,
        idle(hook).queue == hook.queue,
        idle(hook).trampoline == hook.trampoline,
        idle(hook).arg_count == hook.arg_count,
        idle(hook).current == hook.queue.len(),
        hook.current < hook.queue.len() ==> running(hook) == hook.queue[hook.current],
        below(hook) is Some <==> hook.current > 0,
        below(hook) matches Some(next) ==> next == hook.trampoline,
{
}

/// A function that was just hooked takes all its parameters but the root table: a call of it
/// succeeds exactly with that many arguments or more, and passes each of that many on.
pub proof fn law_new_hook_takes_its_arguments(
    hooks: Map<Seq<char>, HookModel>,
    id: Seq<char>,
    orig: u64,
    closure: u64,
    parameters_size: u32,
    args: Seq<SQObject>,
)
    requires
        args.len() <= u32::MAX,
        args.len() <= usize::MAX,
    ensures
        ({
            let hook = new_hook(orig, closure, parameters_size);
            let hooks = hooks.insert(id, hook);
            &&& parameters_size >= 1 ==> hook.arg_count + 1 == parameters_size
            &&& parameters_size == 0 ==> hook.arg_count == 0
            &&& call_error(hooks, encode_utf8(id), args.len() as usize) is None <==> args.len() + 1
                >= parameters_size
            &&& args.len() + 1 == parameters_size ==> args.take(called(hook).arg_count as int)
                == args
        }),
{
    encode_utf8_valid_utf8(id);
    encode_utf8_decode_utf8(id);
    let hook = new_hook(orig, closure, parameters_size);
    let given = args.len() as usize;
    assert((given as u32) == given);
    if args.len() + 1 == parameters_size {
        assert(args.take(hook.arg_count as int) =~= args);
    }
}

/// A call succeeds exactly where its function id is the text of a function that is hooked and takes
/// no more arguments than are given; it is told the id where the function is not hooked.
pub proof fn law_which_calls_succeed(
    hooks: Map<Seq<char>, HookModel>,
    function_id: Seq<u8>,
    arg_count: usize,
)
    ensures
        is_hooked(hooks, function_id) <==> valid_utf8(function_id) && hooks.dom().contains(
            decode_utf8(function_id),
        ),
        valid_utf8(function_id) && hooks.dom().contains(decode_utf8(function_id)) ==> {
            let hook = hooks[decode_utf8(function_id)];
            &&& hook.arg_count <= (arg_count as u32) ==> call_error(hooks, function_id, arg_count)
                is None
            &&& hook.arg_count > (arg_count as u32) ==> call_error(hooks, function_id, arg_count)
                == Some("wrong arg amount given to trampoline function"@)
        },
        valid_utf8(function_id) && !hooks.dom().contains(decode_utf8(function_id)) ==> call_error(
            hooks,
            function_id,
            arg_count,
        ) == Some(
            "couldn't find the function from it's function id of "@ + decode_utf8(function_id),
        ),
        !valid_utf8(function_id) ==> call_error(hooks, function_id, arg_count) == Some(
            "couldn't find the function from it's function id of "@,
        ),
{
    let head = "couldn't find the function from it's function id of "@;
    assert(head + Seq::empty() =~= head);
}

/// A failed call is told the name of the function and the last error of the VM, which is empty
/// where that is no text.
pub proof fn law_failed_call_is_explained(callable: FuncObject, last_error: StringObject)
    ensures
        last_error.ty == SQObjectType::OT_STRING && valid_utf8(last_error.bytes@)
            ==> failed_call_error(callable, last_error) == "couldn't call "@ + function_name_of(
            callable,
        ) + ": "@ + decode_utf8(last_error.bytes@),
        last_error.ty != SQObjectType::OT_STRING || !valid_utf8(last_error.bytes@)
            ==> failed_call_error(callable, last_error) == "couldn't call "@ + function_name_of(
            callable,
        ) + ": "@,
{
    let head = "couldn't call "@ + function_name_of(callable) + ": "@;
    assert(head + Seq::empty() =~= head);
}

/// The closure that is made for a call is counted and given up as a closure: by one reference, and
/// it dies with the last one.
pub proof fn law_call_closure_is_counted(counts: Map<u64, int>, closure: u64, addr: u64)
    ensures
        call_closure(closure).ty == SQObjectType::OT_CLOSURE,
        call_closure(closure).struct_number == 0,
        call_closure(closure).val == closure,
        given_up(counts, closure)[closure] == counts[closure] - 1,
        addr != closure ==> given_up(counts, closure)[addr] == counts[addr],
        left_dead(counts, closure) == (if given_up(counts, closure)[closure] <= 0 {
            Some(closure)
        } else {
            None
        }),
{
}

} // verus!
