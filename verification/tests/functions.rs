use sqhooks::refcount::{can_count_all, can_free, RefCounts};
use sqhooks::squirrel::{
    null_sq_object, wrap_in_object, SQObject, SQObjectType, ScriptContext, WhichDll,
};
use sqhooks::text::holds_nul_byte;
use sqhooks::utils::{
    as_func_proto, clone_func_name, function_name, get_native_function, is_name_taken, new_closure,
    new_sqstring, print_sqobject, show_object, show_text, take_sqstring, ty_filter, CheckedString,
    Closure, FuncNames, FuncObject, FuncProto, StringObject, TableNode,
};

fn key(text: &str) -> StringObject {
    StringObject { ty: SQObjectType::OT_STRING, bytes: text.as_bytes().to_vec() }
}

fn node(name: &str, ty: SQObjectType, addr: u64, own_name: Option<&str>) -> TableNode {
    TableNode {
        key: key(name),
        val: wrap_in_object(ty, addr),
        name: own_name.map(|n| n.as_bytes().to_vec()),
    }
}

fn proto(addr: u64, ui_ref: i32, name: Option<&[u8]>) -> FuncObject {
    FuncObject::FuncProto(Some(FuncProto { addr, ui_ref, name: name.map(|n| n.to_vec()) }))
}

fn closure(outer_values: u64, function: FuncObject) -> FuncObject {
    FuncObject::Closure(Some(Box::new(Closure { outer_values, function })))
}

#[test]
fn text_of_values() {
    assert_eq!(key("abc").text(), Some("abc"));
    let asset = StringObject { ty: SQObjectType::OT_ASSET, bytes: b"abc".to_vec() };
    assert_eq!(asset.text(), None);
    let broken = StringObject { ty: SQObjectType::OT_STRING, bytes: vec![0xff] };
    assert_eq!(broken.text(), None);
}

#[test]
fn nodes_are_filtered_by_tag() {
    let nodes = vec![
        node("a", SQObjectType::OT_NATIVECLOSURE, 1, None),
        node("b", SQObjectType::OT_TABLE, 2, None),
        node("c", SQObjectType::OT_NATIVECLOSURE, 3, None),
    ];
    assert_eq!(ty_filter(Some(&nodes), SQObjectType::OT_NATIVECLOSURE), vec![0, 2]);
    assert_eq!(ty_filter(Some(&nodes), SQObjectType::OT_TABLE), vec![1]);
    assert_eq!(ty_filter(Some(&nodes), SQObjectType::OT_STRING), Vec::<usize>::new());
    assert_eq!(ty_filter(None, SQObjectType::OT_TABLE), Vec::<usize>::new());
}

#[test]
fn native_function_by_key_or_own_name() {
    let nodes = vec![
        node("__CallHook", SQObjectType::OT_CLOSURE, 1, None),
        node("other", SQObjectType::OT_NATIVECLOSURE, 2, Some("inner")),
        node("__CallHook", SQObjectType::OT_NATIVECLOSURE, 3, None),
        node("later", SQObjectType::OT_NATIVECLOSURE, 4, Some("__CallHook")),
    ];
    assert_eq!(get_native_function(Some(&nodes), "__CallHook"), Some(3));
    assert_eq!(get_native_function(Some(&nodes), "inner"), Some(2));
    assert_eq!(get_native_function(Some(&nodes), "later"), Some(4));
    assert_eq!(get_native_function(Some(&nodes), "missing"), None);
    assert_eq!(get_native_function(None, "__CallHook"), None);
}

#[test]
fn native_function_needs_a_string_key() {
    let mut unnamed = node("x", SQObjectType::OT_NATIVECLOSURE, 5, Some("__CallHook"));
    unnamed.key.ty = SQObjectType::OT_INTEGER;
    let mut broken = node("x", SQObjectType::OT_NATIVECLOSURE, 6, Some("__CallHook"));
    broken.key.bytes = vec![0xff];
    let nodes = vec![unnamed];
    assert_eq!(get_native_function(Some(&nodes), "__CallHook"), None);
    let nodes = vec![broken];
    assert_eq!(get_native_function(Some(&nodes), "__CallHook"), Some(6));
}

#[test]
fn function_behind_closures() {
    let direct = proto(40, 2, None);
    assert_eq!(as_func_proto(&direct).map(|p| (p.addr, p.ui_ref)), Ok((40, 2)));
    let wrapped = closure(0, closure(0, proto(48, 1, None)));
    assert_eq!(as_func_proto(&wrapped).map(|p| p.addr), Ok(48));
}

#[test]
fn values_without_a_function() {
    let err = |obj: FuncObject| as_func_proto(&obj).map(|p| p.addr).unwrap_err();
    assert_eq!(err(FuncObject::Closure(None)), "null closure");
    assert_eq!(err(closure(8, proto(40, 1, None))), "hook cannot be capturing vars");
    assert_eq!(err(FuncObject::FuncProto(None)), "null func proto");
    assert_eq!(err(FuncObject::Other), "not a valid function!");
    assert_eq!(err(closure(0, FuncObject::Other)), "not a valid function!");
}

#[test]
fn function_names() {
    assert_eq!(function_name(&closure(0, proto(40, 1, Some(b"OnSpawn")))), "OnSpawn");
    assert_eq!(function_name(&proto(40, 1, Some(&[0xff]))), "unknown");
    assert_eq!(function_name(&proto(40, 1, None)), "unknown");
    assert_eq!(function_name(&FuncObject::Other), "unknown");
}

#[test]
fn closures_and_strings_come_from_the_right_engine() {
    let request = new_closure(ScriptContext::SERVER, 64);
    assert_eq!(request.engine, WhichDll::Server);
    assert_eq!(request.function, wrap_in_object(SQObjectType::OT_FUNCPROTO, 64));
    assert_eq!(new_closure(ScriptContext::UI, 64).engine, WhichDll::Client);

    let request = new_sqstring(ScriptContext::CLIENT, "z\u{fc}g".as_bytes());
    assert_eq!(request.engine, WhichDll::Client);
    assert_eq!(request.bytes, vec![b'z', 0xc3, 0xbc, b'g']);
    assert_eq!(request.length, 4);
    assert_eq!(new_sqstring(ScriptContext::SERVER, b"").length, 0);
}

#[test]
fn taken_string_is_counted() {
    let mut counts = RefCounts::new();
    counts.set(80, 0);
    assert_eq!(take_sqstring(80, &mut counts), wrap_in_object(SQObjectType::OT_STRING, 80));
    assert_eq!(counts.get(80), Some(1));
}

#[test]
fn missing_names_are_taken_over() {
    let org = FuncNames {
        file_name: wrap_in_object(SQObjectType::OT_STRING, 16),
        func_name: wrap_in_object(SQObjectType::OT_STRING, 32),
    };
    let own = wrap_in_object(SQObjectType::OT_STRING, 48);
    let mut dst = FuncNames { file_name: null_sq_object(), func_name: own };
    let mut counts = RefCounts::new();
    counts.set(16, 1);
    counts.set(32, 1);
    clone_func_name(&org, &mut dst, &mut counts);
    assert_eq!(dst.file_name, org.file_name);
    assert_eq!(dst.func_name, own);
    assert_eq!(counts.get(16), Some(2));
    assert_eq!(counts.get(32), Some(1));
    clone_func_name(&org, &mut dst, &mut counts);
    assert_eq!(dst.file_name, org.file_name);
    assert_eq!(counts.get(16), Some(2));
}

#[test]
fn names_that_are_no_strings_stay() {
    let org = FuncNames { file_name: null_sq_object(), func_name: null_sq_object() };
    let mut dst = org;
    let mut counts = RefCounts::new();
    clone_func_name(&org, &mut dst, &mut counts);
    assert_eq!(dst, org);
}

#[test]
fn same_name_twice_is_counted_twice() {
    let name = wrap_in_object(SQObjectType::OT_STRING, 16);
    let org = FuncNames { file_name: name, func_name: name };
    let mut dst = FuncNames { file_name: null_sq_object(), func_name: null_sq_object() };
    let mut counts = RefCounts::new();
    counts.set(16, 1);
    clone_func_name(&org, &mut dst, &mut counts);
    assert_eq!(dst, org);
    assert_eq!(counts.get(16), Some(3));
}

fn shown(ty: SQObjectType, val: u64, bytes: &[u8], float: &str) -> String {
    print_sqobject(&SQObject { ty, struct_number: 0, val }, bytes, float)
}

#[test]
fn values_are_shown() {
    assert_eq!(shown(SQObjectType::OT_NULL, 0, b"", ""), "OT_NULL");
    assert_eq!(shown(SQObjectType::OT_CLOSURE, 16, b"", ""), "OT_CLOSURE");
    assert_eq!(shown(SQObjectType::OT_ENTITY, 16, b"", ""), "OT_ENTITY");
    assert_eq!(shown(SQObjectType::OT_BOOL, 1, b"", ""), "OT_BOOL: 1");
    assert_eq!(shown(SQObjectType::OT_INTEGER, 42, b"", ""), "OT_INTEGER: 42");
    assert_eq!(shown(SQObjectType::OT_INTEGER, 0xffff_ffff, b"", ""), "OT_INTEGER: -1");
    assert_eq!(shown(SQObjectType::OT_INTEGER, 0x5_0000_0007, b"", ""), "OT_INTEGER: 7");
    assert_eq!(shown(SQObjectType::OT_FLOAT, 0, b"", "1.5"), "OT_FLOAT: 1.5");
    assert_eq!(shown(SQObjectType::RT_STRING, 0, b"", ""), "unknown");
    assert_eq!(shown(SQObjectType::SQOBJECT_REF_COUNTED, 0, b"", ""), "unknown");
}

#[test]
fn strings_are_shown_quoted() {
    assert_eq!(shown(SQObjectType::OT_STRING, 16, b"this", ""), "OT_STRING: Some(\"this\")");
    assert_eq!(
        shown(SQObjectType::OT_ASSET, 16, b"a\"b\n", ""),
        "OT_ASSET: Some(\"a\\\"b\\n\")"
    );
    assert_eq!(shown(SQObjectType::OT_STRING, 16, &[0xff], ""), "OT_STRING: None");
}

#[test]
fn payload_is_shown_where_it_matters() {
    assert_eq!(show_object(SQObjectType::OT_ASSET, "x"), "OT_ASSET: x");
    assert_eq!(show_object(SQObjectType::OT_TABLE, "x"), "OT_TABLE");
    assert_eq!(show_object(SQObjectType::RT_TABLE, "x"), "unknown");
}

#[test]
fn checked_string_keeps_its_value() {
    let obj = wrap_in_object(SQObjectType::OT_STRING, 96);
    assert_eq!(CheckedString::get_from_sqobject(&obj).get(), obj);
}

#[test]
fn quoted_texts_are_shown() {
    assert_eq!(show_text(Some("\"a\"")), "Some(\"a\")");
    assert_eq!(show_text(None), "None");
}

#[test]
fn only_missing_names_are_taken() {
    let name = wrap_in_object(SQObjectType::OT_STRING, 8);
    assert!(is_name_taken(name, null_sq_object()));
    assert!(!is_name_taken(name, name));
    assert!(!is_name_taken(null_sq_object(), null_sq_object()));
}

#[test]
fn any_bytes_without_nul_make_a_string() {
    let request = new_sqstring(ScriptContext::UI, &[0xff, 0x80, 1]);
    assert_eq!(request.engine, WhichDll::Client);
    assert_eq!(request.bytes, vec![0xff, 0x80, 1]);
    assert_eq!(request.length, 3);
    assert!(!holds_nul_byte(&[0xff, 0x80, 1]));
    assert!(holds_nul_byte(&[0xff, 0]));
    assert!(!holds_nul_byte(&[]));
}

#[test]
fn counts_with_room() {
    let object = |addr: u64| wrap_in_object(SQObjectType::OT_STRING, addr);
    let mut counts = RefCounts::new();
    counts.set(8, i32::MAX - 2);
    counts.set(16, i32::MIN);
    counts.set(24, i32::MAX);
    let number = SQObject { ty: SQObjectType::OT_INTEGER, struct_number: 0, val: 24 };
    assert!(can_count_all(&counts, &vec![]));
    assert!(can_count_all(&counts, &vec![object(8), object(16), number, object(8)]));
    assert!(!can_count_all(&counts, &vec![object(8), object(16), object(8), object(8)]));
    assert!(!can_count_all(&counts, &vec![object(24)]));
    assert!(!can_count_all(&counts, &vec![object(8), object(32)]));
    assert!(can_free(&counts, object(8)));
    assert!(!can_free(&counts, object(16)));
    assert!(!can_free(&counts, object(32)));
    assert!(can_free(&counts, number));
}
