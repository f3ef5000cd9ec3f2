use sqhooks::context::PerContext;
use sqhooks::hook_dispatch::{
    call_frame, call_hook, call_hook_inner, finish_call_hook, finish_run, start_run, StackPush,
};
use sqhooks::hook_install::{
    extract, finish_build_proto, hook_on, install_hook, prepare_hook, should_hook,
    sqfunc_state_build_proto_hook, unknown_id_message, BuildStep, BuiltTrampoline, FuncState,
    HeldProto, ProtoRef,
};
use sqhooks::hook_table::HookTable;
use sqhooks::refcount::RefCounts;
use sqhooks::squirrel::{
    null_sq_object, wrap_in_object, SQObject, SQObjectType, ScriptContext, WhichDll,
};
use sqhooks::utils::{Closure, FuncObject, FuncProto, StringObject};
use sqhooks::variadic::Variadic;
use sqhooks::{hook_install, pre_sqvm, SQHooks};

const SERVER: ScriptContext = ScriptContext::SERVER;

fn string(text: &str) -> StringObject {
    StringObject { ty: SQObjectType::OT_STRING, bytes: text.as_bytes().to_vec() }
}

fn state(func_name: StringObject, file_name: StringObject, default_param_size: u32) -> FuncState {
    FuncState { func_name, file_name, default_param_size, parameters_size: 3 }
}

fn func(addr: u64) -> FuncObject {
    FuncObject::Closure(Some(Box::new(Closure {
        outer_values: 0,
        function: FuncObject::FuncProto(Some(FuncProto { addr, ui_ref: 1, name: None })),
    })))
}

fn number(val: u64) -> SQObject {
    SQObject { ty: SQObjectType::OT_INTEGER, struct_number: 0, val }
}

fn installed() -> SQHooks {
    let mut plugin = SQHooks::new();
    let built = finish_build_proto(
        &mut plugin.hooks,
        SERVER,
        "file.nutFunc".to_string(),
        0x100,
        Ok(BuiltTrampoline { closure: 0x200, proto: 0x300 }),
        3,
    );
    assert_eq!(built, 0x300);
    plugin
}

#[test]
fn nothing_is_hooked_at_first() {
    let plugin = SQHooks::new();
    for context in [ScriptContext::SERVER, ScriptContext::CLIENT, ScriptContext::UI] {
        assert!(plugin.hooks.get(context).get("x").is_none());
        assert!(plugin.hook_queue.get(context).is_empty());
        assert_eq!(*plugin.extracted.get(context), None);
    }
    assert_eq!(plugin.on_sqvm_created(), usize::MAX);
}

#[test]
fn values_per_context() {
    let mut values = PerContext::new(1, 2, 3);
    *values.get_mut(ScriptContext::CLIENT) = 5;
    assert_eq!(*values.get(ScriptContext::SERVER), 1);
    assert_eq!(*values.get(ScriptContext::CLIENT), 5);
    assert_eq!(*values.get(ScriptContext::UI), 3);
    *values.get_mut(ScriptContext::UI) = 6;
    *values.get_mut(ScriptContext::SERVER) = 7;
    assert_eq!(*values.get(ScriptContext::UI), 6);
    assert_eq!(*values.get(ScriptContext::SERVER), 7);
}

#[test]
fn prepared_functions_are_queued() {
    let mut plugin = SQHooks::new();
    prepare_hook(&mut plugin.hook_queue, SERVER, "mods/x/_init.nut".to_string(), "Init".to_string());
    prepare_hook(&mut plugin.hook_queue, SERVER, "_other.nut".to_string(), "Run".to_string());
    let queue = plugin.hook_queue.get(SERVER);
    assert_eq!(
        *queue,
        vec![
            ("mods/x/_init.nut".to_string(), "Init".to_string()),
            ("_other.nut".to_string(), "Run".to_string()),
        ]
    );
    assert!(plugin.hook_queue.get(ScriptContext::UI).is_empty());
    assert!(should_hook(queue, "_init.nut", "Init"));
    assert!(should_hook(queue, "mods/x/_init.nut", "Init"));
    assert!(!should_hook(queue, "/mods/x/_init.nut", "Init"));
    assert!(!should_hook(queue, "_init.nut", "Run"));
    assert!(!should_hook(queue, "_init.nut", "Ini"));
    assert!(should_hook(queue, "", "Run"));
}

#[test]
fn detours_by_dll() {
    assert_eq!(hook_install::init_hooks(WhichDll::Client), Some(0x67340));
    assert_eq!(hook_install::init_hooks(WhichDll::Server), Some(0x672d0));
    assert_eq!(hook_install::init_hooks(WhichDll::Other), None);
    assert_eq!(pre_sqvm::init_hooks(WhichDll::Client), Some(0x44df0));
    assert_eq!(pre_sqvm::init_hooks(WhichDll::Server), Some(0x44d90));
    assert_eq!(pre_sqvm::init_hooks(WhichDll::Other), None);
    let detours = SQHooks::new().on_dll_load(WhichDll::Server);
    assert_eq!(detours.init_gc, Some(0x44d90));
    assert_eq!(detours.build_proto, Some(0x672d0));
}

#[test]
fn queued_function_is_installed() {
    let mut plugin = SQHooks::new();
    prepare_hook(&mut plugin.hook_queue, SERVER, "mods/_init.nut".to_string(), "Init".to_string());
    let step = |context, state: &FuncState| {
        sqfunc_state_build_proto_hook(&plugin.hook_queue, context, state)
    };
    let queued = state(string("Init"), string("_init.nut"), 0);
    match step(Some(SERVER), &queued) {
        BuildStep::Install(id) => assert_eq!(id, "_init.nutInit"),
        other => panic!("{:?}", other),
    }
    assert!(matches!(step(None, &queued), BuildStep::NoVm));
    assert!(matches!(step(Some(ScriptContext::CLIENT), &queued), BuildStep::NotQueued));
    let defaults = state(string("Init"), string("_init.nut"), 2);
    assert!(matches!(step(Some(SERVER), &defaults), BuildStep::DefaultParams));
    let other = state(string("Other"), string("_init.nut"), 2);
    assert!(matches!(step(Some(SERVER), &other), BuildStep::NotQueued));
}

#[test]
fn unnamed_functions_pass() {
    let mut plugin = SQHooks::new();
    prepare_hook(&mut plugin.hook_queue, SERVER, "_init.nut".to_string(), "Init".to_string());
    let no_name = StringObject { ty: SQObjectType::OT_NULL, bytes: Vec::new() };
    let step = sqfunc_state_build_proto_hook(
        &plugin.hook_queue,
        Some(SERVER),
        &state(no_name, string("_init.nut"), 0),
    );
    assert!(matches!(step, BuildStep::Unnamed));
    let broken = StringObject { ty: SQObjectType::OT_STRING, bytes: vec![0xff] };
    let step = sqfunc_state_build_proto_hook(
        &plugin.hook_queue,
        Some(SERVER),
        &state(string("Init"), broken, 0),
    );
    assert!(matches!(step, BuildStep::Unnamed));
}

#[test]
fn function_without_trampoline_stays() {
    let mut plugin = SQHooks::new();
    let built = finish_build_proto(
        &mut plugin.hooks,
        SERVER,
        "id".to_string(),
        0x100,
        Err("outer values are unsupported"),
        3,
    );
    assert_eq!(built, 0x100);
    assert!(plugin.hooks.get(SERVER).get("id").is_none());
}

#[test]
fn installed_hook() {
    let plugin = installed();
    let hook = plugin.hooks.get(SERVER).get("file.nutFunc").unwrap();
    assert_eq!(hook.hook_queue, vec![0x100]);
    assert_eq!(hook.current_hook, 1);
    assert_eq!(hook.trampoline, wrap_in_object(SQObjectType::OT_CLOSURE, 0x200));
    assert_eq!(hook.arg_count, 2);
    assert!(plugin.hooks.get(ScriptContext::CLIENT).get("file.nutFunc").is_none());
}

#[test]
fn function_without_parameters_takes_no_arguments() {
    let mut plugin = SQHooks::new();
    let built = Ok(BuiltTrampoline { closure: 0x200, proto: 0x300 });
    finish_build_proto(&mut plugin.hooks, SERVER, "id".to_string(), 0x100, built, 0);
    assert_eq!(plugin.hooks.get(SERVER).get("id").unwrap().arg_count, 0);
}

#[test]
fn table_holds_each_id_once() {
    let mut plugin = installed();
    let built = Ok(BuiltTrampoline { closure: 0x201, proto: 0x301 });
    finish_build_proto(&mut plugin.hooks, SERVER, "file.nutFunc".to_string(), 0x101, built, 1);
    let built = Ok(BuiltTrampoline { closure: 0x202, proto: 0x302 });
    finish_build_proto(&mut plugin.hooks, SERVER, "other".to_string(), 0x102, built, 1);
    let table: &mut HookTable = plugin.hooks.get_mut(SERVER);
    assert_eq!(table.get("file.nutFunc").unwrap().hook_queue, vec![0x101]);
    assert_eq!(table.remove("file.nutFunc").unwrap().arg_count, 0);
    assert!(table.remove("file.nutFunc").is_none());
    assert_eq!(table.get("other").unwrap().hook_queue, vec![0x102]);
}

#[test]
fn hooks_go_on_top() {
    let mut plugin = installed();
    let got = hook_on(&mut plugin.hooks, SERVER, b"file.nutFunc", &func(0x400));
    assert_eq!(got, Ok(ProtoRef { addr: 0x400, ui_ref: 2 }));
    let hook = plugin.hooks.get(SERVER).get("file.nutFunc").unwrap();
    assert_eq!(hook.hook_queue, vec![0x100, 0x400]);
    assert_eq!(hook.current_hook, 2);
}

#[test]
fn hooks_that_are_refused() {
    let mut plugin = installed();
    let mut on = |context, id: &[u8], obj: &FuncObject| {
        hook_on(&mut plugin.hooks, context, id, obj).unwrap_err()
    };
    let unknown = "couldn't find the function from it's function id of ";
    assert_eq!(on(SERVER, b"nope", &func(0x400)), unknown.to_string() + "nope");
    assert_eq!(on(SERVER, &[0xff], &func(0x400)), unknown);
    assert_eq!(on(ScriptContext::UI, b"file.nutFunc", &func(0x400)), unknown.to_string() + "file.nutFunc");
    assert_eq!(on(SERVER, b"nope", &FuncObject::Other), unknown.to_string() + "nope");
    assert_eq!(on(SERVER, b"file.nutFunc", &FuncObject::Other), "not a valid function!");
    let hook = plugin.hooks.get(SERVER).get("file.nutFunc").unwrap();
    assert_eq!(hook.hook_queue, vec![0x100]);
    assert_eq!(unknown_id_message(b"x"), unknown.to_string() + "x");
}

#[test]
fn proto_is_held() {
    assert_eq!(ProtoRef { addr: 8, ui_ref: 3 }.hold(), ProtoRef { addr: 8, ui_ref: 4 });
}

#[test]
fn unhooked_call_runs_the_function() {
    let mut plugin = installed();
    let args = vec![number(1), number(2), number(3)];
    let call = call_hook(&mut plugin.hooks, SERVER, b"file.nutFunc", &args).unwrap();
    assert_eq!(call.proto, 0x100);
    assert_eq!(call.next_func, None);
    assert_eq!(call.args, vec![number(1), number(2)]);
    finish_call_hook(&mut plugin.hooks, SERVER, b"file.nutFunc");
    assert_eq!(plugin.hooks.get(SERVER).get("file.nutFunc").unwrap().current_hook, 1);
}

#[test]
fn calls_go_down_the_hooks() {
    let mut plugin = installed();
    hook_on(&mut plugin.hooks, SERVER, b"file.nutFunc", &func(0x400)).unwrap();
    hook_on(&mut plugin.hooks, SERVER, b"file.nutFunc", &func(0x500)).unwrap();
    let args = vec![number(1), number(2)];
    let trampoline = Some(wrap_in_object(SQObjectType::OT_CLOSURE, 0x200));
    for _ in 0..2 {
        let mut run = Vec::new();
        for _ in 0..4 {
            let call = call_hook(&mut plugin.hooks, SERVER, b"file.nutFunc", &args).unwrap();
            run.push((call.proto, call.next_func));
        }
        assert_eq!(
            run,
            vec![(0x500, trampoline), (0x400, trampoline), (0x100, None), (0x100, None)]
        );
        finish_call_hook(&mut plugin.hooks, SERVER, b"file.nutFunc");
        assert_eq!(plugin.hooks.get(SERVER).get("file.nutFunc").unwrap().current_hook, 3);
    }
}

#[test]
fn calls_that_are_refused() {
    let mut plugin = installed();
    let err = call_hook(&mut plugin.hooks, SERVER, b"nope", &Vec::new()).err().unwrap();
    assert_eq!(err, "couldn't find the function from it's function id of nope");
    let few = vec![number(1)];
    let err = call_hook(&mut plugin.hooks, SERVER, b"file.nutFunc", &few).err().unwrap();
    assert_eq!(err, "wrong arg amount given to trampoline function");
    assert_eq!(plugin.hooks.get(SERVER).get("file.nutFunc").unwrap().current_hook, 1);
}

#[test]
fn calls_are_laid_out() {
    let callable = wrap_in_object(SQObjectType::OT_CLOSURE, 0x600);
    let next = wrap_in_object(SQObjectType::OT_CLOSURE, 0x200);
    let args = vec![number(1), number(2)];
    let frame = call_frame(callable, Some(next), &args);
    assert_eq!(
        frame.pushes,
        vec![
            StackPush::Object(callable),
            StackPush::RootTable,
            StackPush::Object(next),
            StackPush::Object(number(1)),
            StackPush::Object(number(2)),
        ]
    );
    assert_eq!(frame.args_count, 4);
    let frame = call_frame(callable, None, &Vec::new());
    assert_eq!(frame.pushes, vec![StackPush::Object(callable), StackPush::RootTable]);
    assert_eq!(frame.args_count, 1);
}

#[test]
fn outcome_of_a_call() {
    let callable = FuncObject::FuncProto(Some(FuncProto {
        addr: 8,
        ui_ref: 1,
        name: Some(b"Init".to_vec()),
    }));
    let error = string("index out of range");
    let silent = StringObject { ty: SQObjectType::OT_NULL, bytes: Vec::new() };
    assert_eq!(
        call_hook_inner(&callable, true, &error, Some(number(1))),
        Err("couldn't call Init: index out of range".to_string())
    );
    assert_eq!(
        call_hook_inner(&FuncObject::Other, true, &silent, None),
        Err("couldn't call unknown: ".to_string())
    );
    assert_eq!(call_hook_inner(&callable, false, &error, Some(number(1))), Ok(number(1)));
    assert_eq!(call_hook_inner(&callable, false, &error, None), Ok(null_sq_object()));
}

#[test]
fn closures_are_extracted() {
    let mut plugin = SQHooks::new();
    extract(&mut plugin.extracted, SERVER, &wrap_in_object(SQObjectType::OT_CLOSURE, 0x700));
    assert_eq!(*plugin.extracted.get(SERVER), Some(0x700));
    assert_eq!(*plugin.extracted.get(ScriptContext::UI), None);
    extract(&mut plugin.extracted, SERVER, &wrap_in_object(SQObjectType::OT_CLOSURE, 0x800));
    assert_eq!(*plugin.extracted.get(SERVER), Some(0x800));
}

#[test]
fn destroyed_vm_loses_its_hooks() {
    let mut plugin = installed();
    prepare_hook(&mut plugin.hook_queue, SERVER, "a".to_string(), "b".to_string());
    let built = Ok(BuiltTrampoline { closure: 0x202, proto: 0x302 });
    finish_build_proto(&mut plugin.hooks, ScriptContext::UI, "id".to_string(), 0x102, built, 1);
    plugin.on_sqvm_destroyed(SERVER);
    let args = vec![number(1), number(2)];
    assert!(call_hook(&mut plugin.hooks, SERVER, b"file.nutFunc", &args).is_err());
    assert!(hook_on(&mut plugin.hooks, SERVER, b"file.nutFunc", &func(0x400)).is_err());
    assert!(plugin.hooks.get(ScriptContext::UI).get("id").is_some());
    assert_eq!(plugin.hook_queue.get(SERVER).len(), 1);
}

#[test]
fn least_distance_of_descriptors() {
    let mut plugin = SQHooks::new();
    plugin.type_descriptor_addrs = vec![0x1000, 0x1060, 0x1030, 0x1030];
    assert_eq!(plugin.on_sqvm_created(), 0x30);
    plugin.type_descriptor_addrs = vec![0x1000, 0x1000];
    assert_eq!(plugin.on_sqvm_created(), usize::MAX);
    plugin.type_descriptor_addrs = vec![0x1000];
    assert_eq!(plugin.on_sqvm_created(), usize::MAX);
    plugin.type_descriptor_addrs = vec![usize::MAX, 4];
    assert_eq!(plugin.on_sqvm_created(), 5);
}

#[test]
fn arguments_end_at_the_first_null() {
    let types =
        [SQObjectType::OT_STRING, SQObjectType::OT_INTEGER, SQObjectType::OT_NULL, SQObjectType::OT_BOOL];
    let mut scan = Variadic::new(2);
    let mut seen = Vec::new();
    for ty in types {
        seen.push(scan.stack_pos());
        if let Some((positions, stack_pos)) = scan.get_from_sqvm_internal(ty) {
            assert_eq!(positions, vec![2, 3]);
            assert_eq!(stack_pos, i32::MAX);
            break;
        }
    }
    assert_eq!(seen, vec![2, 3, 4]);
}

#[test]
fn no_arguments_at_all() {
    let mut scan = Variadic::new(5);
    assert_eq!(scan.get_from_sqvm_internal(SQObjectType::OT_NULL), Some((Vec::new(), i32::MAX)));
    assert_eq!(Variadic::get_sqvm_name("var"), "var arg, ...");
}

fn built() -> ProtoRef {
    ProtoRef { addr: 0x10, ui_ref: 4 }
}

#[test]
fn hooked_function_is_held() {
    let held = HeldProto::hold(built());
    assert_eq!(held.proto(), ProtoRef { addr: 0x10, ui_ref: 5 });

    let mut state = SQHooks::new();
    let got = install_hook(
        &mut state.hooks,
        ScriptContext::SERVER,
        "foo.nutBar".to_string(),
        held,
        Ok(BuiltTrampoline { closure: 0x20, proto: 0x30 }),
        3,
    );
    assert_eq!(got, (0x30, ProtoRef { addr: 0x10, ui_ref: 5 }));
    let hook = state.hooks.get(ScriptContext::SERVER).get("foo.nutBar").unwrap();
    assert_eq!(hook.hook_queue, vec![0x10]);
    assert_eq!(hook.current_hook, 1);
    assert_eq!(hook.trampoline, wrap_in_object(SQObjectType::OT_CLOSURE, 0x20));
    assert_eq!(hook.arg_count, 2);
    assert!(state.hooks.get(ScriptContext::CLIENT).get("foo.nutBar").is_none());
}

#[test]
fn function_stays_held_without_a_trampoline() {
    let mut state = SQHooks::new();
    let got = install_hook(
        &mut state.hooks,
        ScriptContext::SERVER,
        "foo.nutBar".to_string(),
        HeldProto::hold(built()),
        Err("no shared state"),
        3,
    );
    assert_eq!(got, (0x10, ProtoRef { addr: 0x10, ui_ref: 5 }));
    assert!(state.hooks.get(ScriptContext::SERVER).get("foo.nutBar").is_none());
}

#[test]
fn closure_is_held_while_it_runs() {
    let arg = wrap_in_object(SQObjectType::OT_STRING, 0x70);
    let next = wrap_in_object(SQObjectType::OT_CLOSURE, 0x60);
    let no_error = StringObject { ty: SQObjectType::OT_NULL, bytes: vec![] };
    for failed in [false, true] {
        let mut counts = RefCounts::new();
        counts.set(0x50, 0);
        let frame = start_run(0x50, Some(next), &vec![arg], &mut counts);
        assert_eq!(counts.get(0x50), Some(1));
        assert_eq!(
            frame.pushes,
            vec![
                StackPush::Object(wrap_in_object(SQObjectType::OT_CLOSURE, 0x50)),
                StackPush::RootTable,
                StackPush::Object(next),
                StackPush::Object(arg),
            ]
        );
        assert_eq!(frame.args_count, 3);
        let (out, dead) =
            finish_run(0x50, &FuncObject::Other, failed, &no_error, Some(arg), &mut counts);
        assert_eq!(counts.get(0x50), Some(0));
        assert_eq!(dead, Some(0x50));
        if failed {
            assert_eq!(out, Err("couldn't call unknown: ".to_string()));
        } else {
            assert_eq!(out, Ok(arg));
        }
    }
}

#[test]
fn closure_that_a_script_kept_lives_on() {
    let no_error = StringObject { ty: SQObjectType::OT_NULL, bytes: vec![] };
    let mut counts = RefCounts::new();
    counts.set(0x50, 3);
    let (_, dead) = finish_run(0x50, &FuncObject::Other, false, &no_error, None, &mut counts);
    assert_eq!(counts.get(0x50), Some(2));
    assert_eq!(dead, None);
}

#[test]
fn descriptors_that_are_too_far_apart() {
    let mut plugin = SQHooks::new();
    assert!(plugin.descriptors_comparable());
    plugin.type_descriptor_addrs = vec![0x40, 0x10, 0x40];
    assert!(plugin.descriptors_comparable());
    assert_eq!(plugin.on_sqvm_created(), 0x30);
    let half = isize::MAX as usize;
    plugin.type_descriptor_addrs = vec![0, half];
    assert!(plugin.descriptors_comparable());
    plugin.type_descriptor_addrs = vec![half, half + 1];
    assert!(!plugin.descriptors_comparable());
}
