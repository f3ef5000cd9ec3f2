use sqhooks::refcount::RefCounts;
use sqhooks::squirrel::{
    null_sq_object, wrap_in_object, SQObject, SQObjectType, ScriptContext, WhichDll,
};
use sqhooks::text::holds_nul_byte;
use sqhooks::trampoline::{
    _compile_trampoline, compile_trampoline, fill_trampoline, finish_trampoline,
    references_to_count, trampoline_fits, trampoline_instructions, trampoline_source, CompiledTrampoline, CreatedProto,
    ProtoRequest, ProtoShape, SQInstruction, SQOpCodes, SQTypeGroup, TrampolineDraft,
    TrampolineRequest,
};
use sqhooks::utils::{Closure, FuncObject, FuncProto, StringObject, TableNode};

fn natives() -> Vec<TableNode> {
    vec![TableNode {
        key: StringObject { ty: SQObjectType::OT_STRING, bytes: b"__CallHook".to_vec() },
        val: wrap_in_object(SQObjectType::OT_NATIVECLOSURE, 0x500),
        name: None,
    }]
}

fn shape(n_parameters: i32) -> ProtoShape {
    ProtoShape { n_parameters, n_default_params: 0, other_var_info_size: 0 }
}

fn request(context: ScriptContext, n_parameters: i32) -> TrampolineRequest {
    let table = natives();
    compile_trampoline(context, Some(&table), &shape(n_parameters), "file.nutFunc", "__CallHook")
        .ok()
        .unwrap()
}

fn created(instructions: usize, parameters: u32, locals: u32) -> CreatedProto {
    CreatedProto {
        instructions,
        parameters,
        locals,
        has_functions: true,
        has_shared_state: true,
        has_literals: true,
    }
}

fn ins(op: SQOpCodes, arg1: i32, output: i32, arg2: i16, arg3: i16) -> Option<SQInstruction> {
    Some(SQInstruction { op, arg1, output, arg2, arg3 })
}

#[test]
fn trampoline_is_requested() {
    let asked = request(ScriptContext::SERVER, 4);
    assert_eq!(
        asked.proto,
        ProtoRequest {
            engine: WhichDll::Server,
            instructions: 5,
            literals: 1,
            parameters: 4,
            functions: 1,
            unknown_c8: 0,
            outer_vars: 0,
            line_infos: 0,
            locals: 4,
            default_params: 0,
            param_11: 0,
        }
    );
    assert_eq!(asked.hook_call, 0x500);
    assert_eq!(asked.function_id, "file.nutFunc");
    assert_eq!(request(ScriptContext::UI, 1).proto.engine, WhichDll::Client);
}

#[test]
fn instruction_counts() {
    let counts: Vec<i32> =
        (1..8).map(|n| request(ScriptContext::CLIENT, n).proto.instructions).collect();
    assert_eq!(counts, vec![3, 4, 4, 5, 5, 6, 6]);
    assert_eq!(request(ScriptContext::CLIENT, 0).proto.instructions, 2);
    assert_eq!(request(ScriptContext::CLIENT, -1).proto.instructions, 2);
}

#[test]
fn functions_that_cannot_be_hooked() {
    let table = natives();
    let err = |org: ProtoShape, id: &str, name: &str| {
        compile_trampoline(ScriptContext::SERVER, Some(&table), &org, id, name).err().unwrap()
    };
    let defaults = ProtoShape { n_parameters: 2, n_default_params: 1, other_var_info_size: 1 };
    assert_eq!(err(defaults, "id", "missing"), "default params are unsupported");
    let outer = ProtoShape { n_parameters: 2, n_default_params: 0, other_var_info_size: 1 };
    assert_eq!(err(outer, "id", "missing"), "outer values are unsupported");
    assert_eq!(err(shape(2), "i\0d", "missing"), "couldn't find the native trampoline function!");
    assert_eq!(
        err(shape(2), "i\0d", "__CallHook"),
        "failed to convert trampoline_name to a cstring"
    );
    assert!(compile_trampoline(ScriptContext::SERVER, None, &shape(2), "id", "__CallHook").is_err());
}

#[test]
fn instructions_without_arguments() {
    assert_eq!(
        trampoline_instructions(1, 3),
        vec![
            ins(SQOpCodes::OP_LOAD, 0, 2, 0, 0),
            ins(SQOpCodes::OP_FASTCALL_NATIVE, 0, 1, 1, 2),
            ins(SQOpCodes::OP_RETURN, 1, 1, 0, 0),
        ]
    );
}

#[test]
fn instructions_for_one_argument() {
    assert_eq!(
        trampoline_instructions(2, 4),
        vec![
            ins(SQOpCodes::OP_LOAD, 0, 3, 0, 0),
            ins(SQOpCodes::OP_MOVE, 1, 4, 0, 0),
            ins(SQOpCodes::OP_FASTCALL_NATIVE, 0, 2, 2, 3),
            ins(SQOpCodes::OP_RETURN, 2, 1, 0, 0),
        ]
    );
}

#[test]
fn instructions_for_three_arguments() {
    assert_eq!(
        trampoline_instructions(4, 5),
        vec![
            ins(SQOpCodes::OP_LOAD, 0, 5, 0, 0),
            ins(SQOpCodes::OP_DMOVE, 1, 6, 7, 2),
            ins(SQOpCodes::OP_MOVE, 3, 8, 0, 0),
            ins(SQOpCodes::OP_FASTCALL_NATIVE, 0, 4, 4, 5),
            ins(SQOpCodes::OP_RETURN, 4, 1, 0, 0),
        ]
    );
}

#[test]
fn slots_beyond_the_request_stay() {
    let code = trampoline_instructions(3, 6);
    assert_eq!(code[0], ins(SQOpCodes::OP_LOAD, 0, 4, 0, 0));
    assert_eq!(code[1], ins(SQOpCodes::OP_DMOVE, 1, 5, 6, 2));
    assert_eq!(code[2], None);
    assert_eq!(code[3], None);
    assert_eq!(code[4], ins(SQOpCodes::OP_FASTCALL_NATIVE, 0, 3, 3, 4));
    assert_eq!(code[5], ins(SQOpCodes::OP_RETURN, 3, 1, 0, 0));
}

#[test]
fn later_writes_win_in_short_code() {
    assert_eq!(
        trampoline_instructions(0, 2),
        vec![
            ins(SQOpCodes::OP_FASTCALL_NATIVE, 0, 0, 0, 1),
            ins(SQOpCodes::OP_RETURN, 0, 1, 0, 0),
        ]
    );
    assert_eq!(
        trampoline_instructions(5, 3),
        vec![
            ins(SQOpCodes::OP_LOAD, 0, 6, 0, 0),
            ins(SQOpCodes::OP_DMOVE, 1, 7, 8, 2),
            ins(SQOpCodes::OP_DMOVE, 3, 9, 10, 4),
        ]
    );
}

#[test]
fn arguments_are_forwarded() {
    for n in 1..60i32 {
        let len = request(ScriptContext::SERVER, n).proto.instructions as usize;
        assert!(trampoline_fits(n, len));
        let code = trampoline_instructions(n, len);
        let mut stack: Vec<i64> = (0..200).collect();
        for slot in &code[..len - 2] {
            let ins = slot.unwrap();
            match ins.op {
                SQOpCodes::OP_LOAD => stack[ins.output as usize] = -1 - ins.arg1 as i64,
                SQOpCodes::OP_MOVE => stack[ins.output as usize] = stack[ins.arg1 as usize],
                SQOpCodes::OP_DMOVE => {
                    stack[ins.output as usize] = stack[ins.arg1 as usize];
                    stack[ins.arg2 as usize] = stack[ins.arg3 as usize];
                }
                other => panic!("{:?}", other),
            }
        }
        let call = code[len - 2].unwrap();
        assert_eq!(call.op, SQOpCodes::OP_FASTCALL_NATIVE);
        let base = call.arg2 as usize;
        let passed = &stack[base..base + call.arg3 as usize];
        assert_eq!(passed[1], -1);
        let expected: Vec<i64> = (1..n as i64).collect();
        assert_eq!(&passed[2..], &expected[..]);
        let ret = code[len - 1].unwrap();
        assert_eq!(ret.op, SQOpCodes::OP_RETURN);
        assert_eq!(ret.arg1, call.output);
    }
}

#[test]
fn requested_slots_suffice() {
    for n in -1..300i32 {
        let len = request(ScriptContext::SERVER, n).proto.instructions as usize;
        assert!(trampoline_fits(n, len));
        assert!(trampoline_instructions(n, len).iter().all(|slot| slot.is_some()));
    }
}

#[test]
fn code_that_does_not_fit() {
    assert!(!trampoline_fits(1, 1));
    assert!(trampoline_fits(1, 2));
    assert!(!trampoline_fits(2, 2));
    assert!(trampoline_fits(2, 3));
    assert!(!trampoline_fits(i32::MAX, 100));
    assert!(!trampoline_fits(i16::MAX as i32, 100));
    assert!(trampoline_fits(i16::MAX as i32 + 1, 100));
    assert!(!trampoline_fits(0x4000_0000, 100));
    assert!(trampoline_fits(0x3fff_ffff, 3));
}

#[test]
fn draft_asks_for_texts() {
    let stage = fill_trampoline(request(ScriptContext::SERVER, 3), Some(&created(4, 3, 3)));
    assert_eq!(stage.instructions, trampoline_instructions(3, 4));
    assert_eq!(stage.function, Some(wrap_in_object(SQObjectType::OT_NATIVECLOSURE, 0x500)));
    let draft = stage.next.ok().unwrap();
    assert_eq!(draft.n_parameters, 3);
    assert_eq!(
        draft.texts,
        vec!["file.nutFunc", "this", "param1", "param2", "TRAMPOLINE", "sqhooks/src/utils.rs"]
    );
}

#[test]
fn texts_can_be_asked_for() {
    let stage = fill_trampoline(request(ScriptContext::SERVER, 120), Some(&created(63, 120, 120)));
    for text in stage.next.ok().unwrap().texts {
        assert!(!holds_nul_byte(text.as_bytes()));
    }
}

#[test]
fn parameters_are_numbered_in_decimal() {
    let stage = fill_trampoline(request(ScriptContext::SERVER, 12), Some(&created(9, 12, 12)));
    let draft = stage.next.ok().unwrap();
    assert_eq!(draft.texts[11], "param10");
    assert_eq!(draft.texts[12], "param11");
    assert_eq!(draft.texts.len(), 15);
}

#[test]
fn allocations_that_fail() {
    let stage = fill_trampoline(request(ScriptContext::SERVER, 3), None);
    assert!(stage.instructions.is_empty());
    assert_eq!(stage.function, None);
    assert_eq!(stage.next.err(), Some("sqfunctionproto_create returned a null proto func"));

    let mut proto = created(4, 3, 3);
    proto.has_shared_state = false;
    let stage = fill_trampoline(request(ScriptContext::SERVER, 3), Some(&proto));
    assert_eq!(stage.instructions.len(), 4);
    assert_eq!(stage.function, Some(wrap_in_object(SQObjectType::OT_NATIVECLOSURE, 0x500)));
    assert_eq!(stage.next.err(), Some("no shared state"));

    proto.has_functions = false;
    let stage = fill_trampoline(request(ScriptContext::SERVER, 3), Some(&proto));
    assert_eq!(stage.instructions, trampoline_instructions(3, 4));
    assert_eq!(stage.function, None);
    assert_eq!(stage.next.err(), Some("sqfunctionproto_create failed to allocate functions"));
}

fn draft(n: i32, proto: CreatedProto) -> TrampolineDraft {
    fill_trampoline(request(ScriptContext::SERVER, n), Some(&proto)).next.ok().unwrap()
}

fn interned(draft: &TrampolineDraft, counts: &mut RefCounts) -> Vec<SQObject> {
    (0..draft.texts.len() as u64)
        .map(|i| {
            counts.set(100 + i, 1);
            wrap_in_object(SQObjectType::OT_STRING, 100 + i)
        })
        .collect()
}

#[test]
fn no_room_for_the_function_id() {
    let mut proto = created(4, 3, 3);
    proto.has_literals = false;
    let draft = draft(3, proto);
    assert_eq!(draft.texts, vec!["file.nutFunc"]);
    let mut counts = RefCounts::new();
    let strings = interned(&draft, &mut counts);
    assert_eq!(references_to_count(&draft, &strings), vec![strings[0]]);
    let parts = finish_trampoline(&draft, &strings, &mut counts);
    assert_eq!(parts.err(), Some("sqfunctionproto_create failed to allocate literals"));
    assert_eq!(counts.get(100), Some(2));
}

#[test]
fn trampoline_is_put_together() {
    let draft = draft(3, created(4, 3, 3));
    let mut counts = RefCounts::new();
    let strings = interned(&draft, &mut counts);
    let places: Vec<usize> = vec![0, 2, 3, 3, 2, 1, 4, 5];
    let expected: Vec<SQObject> = places.iter().map(|i| strings[*i]).collect();
    assert_eq!(references_to_count(&draft, &strings), expected);
    let parts = finish_trampoline(&draft, &strings, &mut counts).ok().unwrap();
    assert_eq!(parts.literal, strings[0]);
    assert_eq!(&parts.parameters[..], &strings[1..4]);
    assert_eq!(parts.func_name, strings[4]);
    assert_eq!(parts.file_name, strings[5]);
    assert_eq!(parts.locals.len(), 3);
    for (k, local) in parts.locals.iter().enumerate() {
        assert_eq!(local.name, parts.parameters[2 - k]);
        assert_eq!(local.stackpos, 2 - k as i32);
        assert_eq!(local.start_op, 0);
        assert_eq!(local.end_op, 3);
        assert_eq!(local.dword24, -1);
        assert_eq!(local.type_descriptor.group, SQTypeGroup::TyPrimitive);
        assert_eq!(local.type_descriptor.type_hash, 42391);
        assert_eq!(local.type_descriptor.prim_type, SQObjectType::OT_NULL);
    }
    let counted: Vec<i32> = (100..106).map(|addr| counts.get(addr).unwrap()).collect();
    assert_eq!(counted, vec![2, 2, 3, 3, 2, 2]);
}

#[test]
fn locals_follow_parameters_and_room() {
    let mut counts = RefCounts::new();
    let few = draft(4, created(5, 4, 2));
    let strings = interned(&few, &mut counts);
    let parts = finish_trampoline(&few, &strings, &mut counts).ok().unwrap();
    let positions: Vec<i32> = parts.locals.iter().map(|local| local.stackpos).collect();
    assert_eq!(positions, vec![3, 2]);

    let unnamed = draft(3, created(4, 1, 9));
    let strings = interned(&unnamed, &mut counts);
    let parts = finish_trampoline(&unnamed, &strings, &mut counts).ok().unwrap();
    let names: Vec<SQObject> = parts.locals.iter().map(|local| local.name).collect();
    assert_eq!(names, vec![null_sq_object(), null_sq_object(), strings[1]]);

    let none = draft(0, created(2, 0, 4));
    let strings = interned(&none, &mut counts);
    let parts = finish_trampoline(&none, &strings, &mut counts).ok().unwrap();
    assert!(parts.locals.is_empty());
    assert!(parts.parameters.is_empty());
    assert_eq!(parts.func_name, strings[1]);
}

#[test]
fn shared_string_is_counted_for_each_place() {
    let draft = draft(2, created(4, 2, 2));
    let mut counts = RefCounts::new();
    counts.set(7, 5);
    let strings = vec![wrap_in_object(SQObjectType::OT_STRING, 7); 5];
    finish_trampoline(&draft, &strings, &mut counts).ok().unwrap();
    assert_eq!(counts.get(7), Some(11));
}

#[test]
fn source_of_a_trampoline() {
    assert_eq!(
        trampoline_source(3, "file.nutFunc", "__CallHook"),
        "__EXTRACT(var function (var a1,var a2) {return __CallHook(\"file.nutFunc\", a1,a2)})"
    );
    assert_eq!(
        trampoline_source(1, "id", "f"),
        "__EXTRACT(var function () {return f(\"id\"  )})"
    );
    assert_eq!(
        trampoline_source(2, "id", "f"),
        "__EXTRACT(var function (var a1) {return f(\"id\", a1)})"
    );
    assert_eq!(
        trampoline_source(0, "id", "f"),
        "__EXTRACT(var function () {return f(\"id\", )})"
    );
}

fn closure_over(addr: u64, ui_ref: i32) -> FuncObject {
    FuncObject::Closure(Some(Box::new(Closure {
        outer_values: 0,
        function: FuncObject::FuncProto(Some(FuncProto { addr, ui_ref, name: None })),
    })))
}

#[test]
fn compiled_trampoline_is_picked_up() {
    let mut slot = Some(0x10);
    let got = _compile_trampoline(true, true, &mut slot, &closure_over(0x20, 4), 2);
    assert_eq!(
        got,
        Ok(CompiledTrampoline { closure: 0x10, closure_ref: 3, proto: 0x20, proto_ref: 5 })
    );
    assert_eq!(slot, None);
}

#[test]
fn trampolines_that_do_not_compile() {
    let closure = closure_over(0x20, 4);
    let mut slot = Some(0x10);
    let got = _compile_trampoline(false, true, &mut slot, &closure, 2);
    assert_eq!(got, Err("failed to compile trampoline"));
    let got = _compile_trampoline(true, false, &mut slot, &closure, 2);
    assert_eq!(got, Err("failed to create tmp table"));
    assert_eq!(slot, Some(0x10));
    let got = _compile_trampoline(true, true, &mut slot, &FuncObject::Other, 2);
    assert_eq!(got, Err("not a valid function!"));
    assert_eq!(slot, None);
    let got = _compile_trampoline(true, true, &mut slot, &closure, 2);
    assert_eq!(got, Err("found none sqclosure sqobject"));
    slot = Some(0);
    let got = _compile_trampoline(true, true, &mut slot, &closure, 2);
    assert_eq!(got, Err("found null sqclosure sqobject"));
    assert_eq!(slot, None);
}
