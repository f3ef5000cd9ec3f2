use sqhooks::refcount::{free_sqobject, increment_ref_sqobject, ref_count_addr, RefCounts};
use sqhooks::squirrel::{
    engine_for, null_sq_object, wrap_in_object, SQObject, SQObjectType, ScriptContext, WhichDll,
};
use sqhooks::text::{
    decimal_text, ends_with, get_from_sq_string, holds_nul, same_text, signed_decimal_text,
};

#[test]
fn client_engine_serves_ui() {
    assert_eq!(engine_for(ScriptContext::SERVER), WhichDll::Server);
    assert_eq!(engine_for(ScriptContext::CLIENT), WhichDll::Client);
    assert_eq!(engine_for(ScriptContext::UI), WhichDll::Client);
}

#[test]
fn tags_have_their_numbers() {
    assert_eq!(SQObjectType::RT_NULL.bits(), 1);
    assert_eq!(SQObjectType::OT_NULL.bits(), 16777217);
    assert_eq!(SQObjectType::OT_STRING.bits(), 134217744);
    assert_eq!(SQObjectType::OT_CLOSURE.bits(), 134217984);
    assert_eq!(SQObjectType::OT_NATIVECLOSURE.bits(), 134218240);
    assert_eq!(SQObjectType::OT_FUNCPROTO.bits(), 134225920);
    assert_eq!(SQObjectType::OT_ENTITY.bits(), 171966464);
}

#[test]
fn heap_objects_are_ref_counted() {
    let counted = [
        SQObjectType::SQOBJECT_REF_COUNTED,
        SQObjectType::OT_STRING,
        SQObjectType::OT_ARRAY,
        SQObjectType::OT_CLOSURE,
        SQObjectType::OT_NATIVECLOSURE,
        SQObjectType::OT_ASSET,
        SQObjectType::OT_THREAD,
        SQObjectType::OT_FUNCPROTO,
        SQObjectType::OT_CLASS,
        SQObjectType::OT_STRUCT,
        SQObjectType::OT_WEAKREF,
        SQObjectType::OT_TABLE,
        SQObjectType::OT_USERDATA,
        SQObjectType::OT_INSTANCE,
        SQObjectType::OT_ENTITY,
    ];
    for ty in counted {
        assert!(ty.is_ref_counted(), "{:?}", ty);
    }
    let plain = [
        SQObjectType::RT_STRING,
        SQObjectType::RT_WEAKREF,
        SQObjectType::OT_USERPOINTER,
        SQObjectType::OT_VECTOR,
        SQObjectType::OT_NULL,
        SQObjectType::OT_BOOL,
        SQObjectType::OT_INTEGER,
        SQObjectType::OT_FLOAT,
        SQObjectType::SQOBJECT_NUMERIC,
        SQObjectType::SQOBJECT_DELEGABLE,
    ];
    for ty in plain {
        assert!(!ty.is_ref_counted(), "{:?}", ty);
    }
}

#[test]
fn objects_are_wrapped() {
    assert_eq!(
        wrap_in_object(SQObjectType::OT_CLOSURE, 0x1234),
        SQObject { ty: SQObjectType::OT_CLOSURE, struct_number: 0, val: 0x1234 }
    );
    assert_eq!(
        null_sq_object(),
        SQObject { ty: SQObjectType::OT_NULL, struct_number: 0, val: 0 }
    );
}

#[test]
fn string_bytes_are_text_where_they_are_utf8() {
    assert_eq!(get_from_sq_string(b"CodeCallback_Init"), Some("CodeCallback_Init"));
    assert_eq!(get_from_sq_string("z\u{fc}g\u{1F600}".as_bytes()), Some("z\u{fc}g\u{1F600}"));
    assert_eq!(get_from_sq_string(b""), Some(""));
    assert_eq!(get_from_sq_string(&[b'a', 0xff]), None);
    assert_eq!(get_from_sq_string(&[0xc0, 0x80]), None);
    assert_eq!(get_from_sq_string(&[0xed, 0xa0, 0x80]), None);
    assert_eq!(get_from_sq_string(&[0xe2, 0x82]), None);
}

#[test]
fn texts_are_compared() {
    assert!(same_text("", ""));
    assert!(same_text("\u{fc}b", "\u{fc}b"));
    assert!(!same_text("ab", "abc"));
    assert!(!same_text("abd", "abc"));
    assert!(ends_with("scripts/vscripts/_codecallbacks.gnut", "_codecallbacks.gnut"));
    assert!(ends_with("abc", "abc"));
    assert!(ends_with("abc", ""));
    assert!(ends_with("", ""));
    assert!(!ends_with("abc", "xabc"));
    assert!(!ends_with("abcd", "abc"));
    assert!(ends_with("a\u{fc}", "\u{fc}"));
    assert!(holds_nul("a\0b"));
    assert!(!holds_nul("ab"));
}

#[test]
fn numbers_are_written_in_decimal() {
    assert_eq!(decimal_text(0), "0");
    assert_eq!(decimal_text(7), "7");
    assert_eq!(decimal_text(10), "10");
    assert_eq!(decimal_text(9876543210), "9876543210");
    assert_eq!(decimal_text(u64::MAX), "18446744073709551615");
    assert_eq!(signed_decimal_text(-1), "-1");
    assert_eq!(signed_decimal_text(i32::MIN), "-2147483648");
    assert_eq!(signed_decimal_text(i32::MAX), "2147483647");
}

#[test]
fn references_are_counted() {
    let obj = wrap_in_object(SQObjectType::OT_STRING, 16);
    let mut counts = RefCounts::new();
    counts.set(16, 1);
    counts.set(32, 5);
    assert_eq!(increment_ref_sqobject(obj, &mut counts), obj);
    assert_eq!(counts.get(16), Some(2));
    assert_eq!(counts.get(32), Some(5));
    assert_eq!(counts.get(48), None);
}

#[test]
fn only_counted_objects_have_a_count() {
    let mut counts = RefCounts::new();
    let number = SQObject { ty: SQObjectType::OT_INTEGER, struct_number: 0, val: 16 };
    let nowhere = SQObject { ty: SQObjectType::OT_STRING, struct_number: 0, val: 0 };
    counts.set(16, 1);
    for obj in [number, nowhere] {
        assert_eq!(ref_count_addr(obj), None);
        assert_eq!(increment_ref_sqobject(obj, &mut counts), obj);
        assert_eq!(free_sqobject(obj, &mut counts), None);
        assert_eq!(counts.get(16), Some(1));
    }
    assert_eq!(ref_count_addr(wrap_in_object(SQObjectType::OT_ARRAY, 16)), Some(16));
}

#[test]
fn releasing_undoes_counting() {
    let obj = wrap_in_object(SQObjectType::OT_CLOSURE, 16);
    let mut counts = RefCounts::new();
    counts.set(16, 1);
    increment_ref_sqobject(obj, &mut counts);
    assert_eq!(free_sqobject(obj, &mut counts), None);
    assert_eq!(counts.get(16), Some(1));
}

#[test]
fn last_reference_destroys() {
    let obj = wrap_in_object(SQObjectType::OT_CLOSURE, 16);
    let mut counts = RefCounts::new();
    counts.set(16, 1);
    assert_eq!(free_sqobject(obj, &mut counts), Some(16));
    assert_eq!(counts.get(16), Some(0));
    assert_eq!(free_sqobject(obj, &mut counts), Some(16));
    assert_eq!(counts.get(16), Some(-1));
}
