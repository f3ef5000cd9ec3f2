//! The script engine's values as the hooks see them.
//!
//! A pointer of the engine is an address (`u64`), and zero is the null pointer.

use vstd::prelude::*;

verus! {

/// The three script VMs that the game runs.
#[derive(Clone, Copy, Debug, PartialEq, Eq, Structural)]
pub enum ScriptContext {
    SERVER,
    CLIENT,
    UI,
}

/// The two DLLs that hold a script engine, and every other one.
#[derive(Clone, Copy, Debug, PartialEq, Eq, Structural)]
pub enum WhichDll {
    Client,
    Server,
    Other,
}

/// The DLL whose engine functions serve a VM: the client's engine also runs the UI scripts.
pub open spec fn engine_of(context: ScriptContext) -> WhichDll {
    match context {
        ScriptContext::SERVER => WhichDll::Server,
        ScriptContext::CLIENT => WhichDll::Client,
        ScriptContext::UI => WhichDll::Client,
    }
}

/// Picks the DLL whose engine functions serve `context`.
pub fn engine_for(context: ScriptContext) -> (dll: WhichDll)
    ensures
        dll == engine_of(context),
{
    match context {
        ScriptContext::SERVER => WhichDll::Server,
        ScriptContext::CLIENT | ScriptContext::UI => WhichDll::Client,
    }
}

/// The tag of a script value.
#[derive(Clone, Copy, Debug, PartialEq, Eq, Structural)]
#[allow(non_camel_case_types)]
pub enum SQObjectType {
    RT_NULL,
    RT_INTEGER,
    RT_FLOAT,
    RT_BOOL,
    RT_STRING,
    RT_TABLE,
    RT_ARRAY,
    RT_USERDATA,
    RT_CLOSURE,
    RT_NATIVECLOSURE,
    RT_GENERATOR,
    OT_USERPOINTER,
    RT_THREAD,
    RT_FUNCPROTO,
    RT_CLASS,
    RT_INSTANCE,
    RT_WEAKREF,
    OT_VECTOR,
    SQOBJECT_CANBEFALSE,
    OT_NULL,
    OT_BOOL,
    SQOBJECT_DELEGABLE,
    SQOBJECT_NUMERIC,
    OT_INTEGER,
    OT_FLOAT,
    SQOBJECT_REF_COUNTED,
    OT_STRING,
    OT_ARRAY,
    OT_CLOSURE,
    OT_NATIVECLOSURE,
    OT_ASSET,
    OT_THREAD,
    OT_FUNCPROTO,
    OT_CLASS,
    OT_STRUCT,
    OT_WEAKREF,
    OT_TABLE,
    OT_USERDATA,
    OT_INSTANCE,
    OT_ENTITY,
}

/// The bit that every reference counted tag carries.
pub const SQOBJECT_REF_COUNTED_BIT: u32 = 0x0800_0000;

/// The number by which the engine writes the tag.
pub open spec fn type_bits(ty: SQObjectType) -> u32 {
    match ty {
        SQObjectType::RT_NULL => 1,
        SQObjectType::RT_INTEGER => 2,
        SQObjectType::RT_FLOAT => 4,
        SQObjectType::RT_BOOL => 8,
        SQObjectType::RT_STRING => 16,
        SQObjectType::RT_TABLE => 32,
        SQObjectType::RT_ARRAY => 64,
        SQObjectType::RT_USERDATA => 128,
        SQObjectType::RT_CLOSURE => 256,
        SQObjectType::RT_NATIVECLOSURE => 512,
        SQObjectType::RT_GENERATOR => 1024,
        SQObjectType::OT_USERPOINTER => 2048,
        SQObjectType::RT_THREAD => 4096,
        SQObjectType::RT_FUNCPROTO => 8192,
        SQObjectType::RT_CLASS => 16384,
        SQObjectType::RT_INSTANCE => 32768,
        SQObjectType::RT_WEAKREF => 65536,
        SQObjectType::OT_VECTOR => 262144,
        SQObjectType::SQOBJECT_CANBEFALSE => 16777216,
        SQObjectType::OT_NULL => 16777217,
        SQObjectType::OT_BOOL => 16777224,
        SQObjectType::SQOBJECT_DELEGABLE => 33554432,
        SQObjectType::SQOBJECT_NUMERIC => 67108864,
        SQObjectType::OT_INTEGER => 83886082,
        SQObjectType::OT_FLOAT => 83886084,
        SQObjectType::SQOBJECT_REF_COUNTED => 134217728,
        SQObjectType::OT_STRING => 134217744,
        SQObjectType::OT_ARRAY => 134217792,
        SQObjectType::OT_CLOSURE => 134217984,
        SQObjectType::OT_NATIVECLOSURE => 134218240,
        SQObjectType::OT_ASSET => 134218752,
        SQObjectType::OT_THREAD => 134221824,
        SQObjectType::OT_FUNCPROTO => 134225920,
        SQObjectType::OT_CLASS => 134234112,
        SQObjectType::OT_STRUCT => 136314880,
        SQObjectType::OT_WEAKREF => 134283264,
        SQObjectType::OT_TABLE => 167772192,
        SQObjectType::OT_USERDATA => 167772288,
        SQObjectType::OT_INSTANCE => 167804928,
        SQObjectType::OT_ENTITY => 171966464,
    }
}

/// Values with this tag point at a cell with a reference count.
pub open spec fn ref_counted(ty: SQObjectType) -> bool {
    type_bits(ty) & SQOBJECT_REF_COUNTED_BIT == SQOBJECT_REF_COUNTED_BIT
}

impl SQObjectType {
    /// The number by which the engine writes the tag.
    pub fn bits(self) -> (bits: u32)
        ensures
            bits == type_bits(self),
    {
        match self {
            SQObjectType::RT_NULL => 1,
            SQObjectType::RT_INTEGER => 2,
            SQObjectType::RT_FLOAT => 4,
            SQObjectType::RT_BOOL => 8,
            SQObjectType::RT_STRING => 16,
            SQObjectType::RT_TABLE => 32,
            SQObjectType::RT_ARRAY => 64,
            SQObjectType::RT_USERDATA => 128,
            SQObjectType::RT_CLOSURE => 256,
            SQObjectType::RT_NATIVECLOSURE => 512,
            SQObjectType::RT_GENERATOR => 1024,
            SQObjectType::OT_USERPOINTER => 2048,
            SQObjectType::RT_THREAD => 4096,
            SQObjectType::RT_FUNCPROTO => 8192,
            SQObjectType::RT_CLASS => 16384,
            SQObjectType::RT_INSTANCE => 32768,
            SQObjectType::RT_WEAKREF => 65536,
            SQObjectType::OT_VECTOR => 262144,
            SQObjectType::SQOBJECT_CANBEFALSE => 16777216,
            SQObjectType::OT_NULL => 16777217,
            SQObjectType::OT_BOOL => 16777224,
            SQObjectType::SQOBJECT_DELEGABLE => 33554432,
            SQObjectType::SQOBJECT_NUMERIC => 67108864,
            SQObjectType::OT_INTEGER => 83886082,
            SQObjectType::OT_FLOAT => 83886084,
            SQObjectType::SQOBJECT_REF_COUNTED => 134217728,
            SQObjectType::OT_STRING => 134217744,
            SQObjectType::OT_ARRAY => 134217792,
            SQObjectType::OT_CLOSURE => 134217984,
            SQObjectType::OT_NATIVECLOSURE => 134218240,
            SQObjectType::OT_ASSET => 134218752,
            SQObjectType::OT_THREAD => 134221824,
            SQObjectType::OT_FUNCPROTO => 134225920,
            SQObjectType::OT_CLASS => 134234112,
            SQObjectType::OT_STRUCT => 136314880,
            SQObjectType::OT_WEAKREF => 134283264,
            SQObjectType::OT_TABLE => 167772192,
            SQObjectType::OT_USERDATA => 167772288,
            SQObjectType::OT_INSTANCE => 167804928,
            SQObjectType::OT_ENTITY => 171966464,
        }
    }

    /// Whether values with this tag point at a cell with a reference count.
    pub fn is_ref_counted(self) -> (counted: bool)
        ensures
            counted == ref_counted(self),
    {
        (self.bits() & SQOBJECT_REF_COUNTED_BIT) == SQOBJECT_REF_COUNTED_BIT
    }
}

/// The reference counted tags are exactly those of the engine's heap objects, and the bare
/// reference count bit.
pub proof fn law_ref_counted_types(ty: SQObjectType)
    ensures
        ref_counted(ty) <==> (match ty {
            SQObjectType::SQOBJECT_REF_COUNTED | SQObjectType::OT_STRING | SQObjectType::OT_ARRAY | SQObjectType::OT_CLOSURE | SQObjectType::OT_NATIVECLOSURE | SQObjectType::OT_ASSET | SQObjectType::OT_THREAD | SQObjectType::OT_FUNCPROTO | SQObjectType::OT_CLASS | SQObjectType::OT_STRUCT | SQObjectType::OT_WEAKREF | SQObjectType::OT_TABLE | SQObjectType::OT_USERDATA | SQObjectType::OT_INSTANCE | SQObjectType::OT_ENTITY => true,
            _ => false,
        }),
{
    assert(
        !(1u32 & 0x0800_0000u32 == 0x0800_0000u32) &&
        !(2u32 & 0x0800_0000u32 == 0x0800_0000u32) &&
        !(4u32 & 0x0800_0000u32 == 0x0800_0000u32) &&
        !(8u32 & 0x0800_0000u32 == 0x0800_0000u32) &&
        !(16u32 & 0x0800_0000u32 == 0x0800_0000u32) &&
        !(32u32 & 0x0800_0000u32 == 0x0800_0000u32) &&
        !(64u32 & 0x0800_0000u32 == 0x0800_0000u32) &&
        !(128u32 & 0x0800_0000u32 == 0x0800_0000u32) &&
        !(256u32 & 0x0800_0000u32 == 0x0800_0000u32) &&
        !(512u32 & 0x0800_0000u32 == 0x0800_0000u32) &&
        !(1024u32 & 0x0800_0000u32 == 0x0800_0000u32) &&
        !(2048u32 & 0x0800_0000u32 == 0x0800_0000u32) &&
        !(4096u32 & 0x0800_0000u32 == 0x0800_0000u32) &&
        !(8192u32 & 0x0800_0000u32 == 0x0800_0000u32) &&
        !(16384u32 & 0x0800_0000u32 == 0x0800_0000u32) &&
        !(32768u32 & 0x0800_0000u32 == 0x0800_0000u32) &&
        !(65536u32 & 0x0800_0000u32 == 0x0800_0000u32) &&
        !(262144u32 & 0x0800_0000u32 == 0x0800_0000u32) &&
        !(16777216u32 & 0x0800_0000u32 == 0x0800_0000u32) &&
        !(16777217u32 & 0x0800_0000u32 == 0x0800_0000u32) &&
        !(16777224u32 & 0x0800_0000u32 == 0x0800_0000u32) &&
        !(33554432u32 & 0x0800_0000u32 == 0x0800_0000u32) &&
        !(67108864u32 & 0x0800_0000u32 == 0x0800_0000u32) &&
        !(83886082u32 & 0x0800_0000u32 == 0x0800_0000u32) &&
        !(83886084u32 & 0x0800_0000u32 == 0x0800_0000u32) &&
        (134217728u32 & 0x0800_0000u32 == 0x0800_0000u32) &&
        (134217744u32 & 0x0800_0000u32 == 0x0800_0000u32) &&
        (134217792u32 & 0x0800_0000u32 == 0x0800_0000u32) &&
        (134217984u32 & 0x0800_0000u32 == 0x0800_0000u32) &&
        (134218240u32 & 0x0800_0000u32 == 0x0800_0000u32) &&
        (134218752u32 & 0x0800_0000u32 == 0x0800_0000u32) &&
        (134221824u32 & 0x0800_0000u32 == 0x0800_0000u32) &&
        (134225920u32 & 0x0800_0000u32 == 0x0800_0000u32) &&
        (134234112u32 & 0x0800_0000u32 == 0x0800_0000u32) &&
        (136314880u32 & 0x0800_0000u32 == 0x0800_0000u32) &&
        (134283264u32 & 0x0800_0000u32 == 0x0800_0000u32) &&
        (167772192u32 & 0x0800_0000u32 == 0x0800_0000u32) &&
        (167772288u32 & 0x0800_0000u32 == 0x0800_0000u32) &&
        (167804928u32 & 0x0800_0000u32 == 0x0800_0000u32) &&
        (171966464u32 & 0x0800_0000u32 == 0x0800_0000u32)
    ) by (bit_vector);
}

/// A script value: its tag, the number of its struct type, and its payload.
///
/// The payload is the engine's eight byte union: an address, an integer or the bits of a float.
#[derive(Clone, Copy, Debug, PartialEq, Eq, Structural)]
pub struct SQObject {
    pub ty: SQObjectType,
    pub struct_number: i32,
    pub val: u64,
}

/// Wraps the engine object at `addr` into a script value with the tag `ty`.
pub fn wrap_in_object(ty: SQObjectType, addr: u64) -> (obj: SQObject)
    requires
        addr != 0,
    ensures
        obj == (SQObject { ty, struct_number: 0, val: addr }),
{
    SQObject { ty, struct_number: 0, val: addr }
}

/// The script value `null`.
pub fn null_sq_object() -> (obj: SQObject)
    ensures
        obj == (SQObject { ty: SQObjectType::OT_NULL, struct_number: 0, val: 0 }),
{
    SQObject { ty: SQObjectType::OT_NULL, struct_number: 0, val: 0 }
}

/// The server's engine serves the server's scripts alone, and the client's engine all others.
pub proof fn law_engine_of(context: ScriptContext)
    ensures
        engine_of(context) == WhichDll::Server <==> context == ScriptContext::SERVER,
        engine_of(context) == WhichDll::Client <==> context != ScriptContext::SERVER,
{
}

/// Each kind of value has a bit of its own, the next one above that of the kind before it; a flag
/// has one of the bits from 24 on; and the tag of a value is the bit of its kind with its flags.
pub proof fn law_tags_are_kinds_with_flags()
    ensures
        type_bits(SQObjectType::RT_NULL) == 1,
        type_bits(SQObjectType::RT_INTEGER) == 2 * type_bits(SQObjectType::RT_NULL),
        type_bits(SQObjectType::RT_FLOAT) == 2 * type_bits(SQObjectType::RT_INTEGER),
        type_bits(SQObjectType::RT_BOOL) == 2 * type_bits(SQObjectType::RT_FLOAT),
        type_bits(SQObjectType::RT_STRING) == 2 * type_bits(SQObjectType::RT_BOOL),
        type_bits(SQObjectType::RT_TABLE) == 2 * type_bits(SQObjectType::RT_STRING),
        type_bits(SQObjectType::RT_ARRAY) == 2 * type_bits(SQObjectType::RT_TABLE),
        type_bits(SQObjectType::RT_USERDATA) == 2 * type_bits(SQObjectType::RT_ARRAY),
        type_bits(SQObjectType::RT_CLOSURE) == 2 * type_bits(SQObjectType::RT_USERDATA),
        type_bits(SQObjectType::RT_NATIVECLOSURE) == 2 * type_bits(SQObjectType::RT_CLOSURE),
        type_bits(SQObjectType::RT_GENERATOR) == 2 * type_bits(SQObjectType::RT_NATIVECLOSURE),
        type_bits(SQObjectType::OT_USERPOINTER) == 2 * type_bits(SQObjectType::RT_GENERATOR),
        type_bits(SQObjectType::RT_THREAD) == 2 * type_bits(SQObjectType::OT_USERPOINTER),
        type_bits(SQObjectType::RT_FUNCPROTO) == 2 * type_bits(SQObjectType::RT_THREAD),
        type_bits(SQObjectType::RT_CLASS) == 2 * type_bits(SQObjectType::RT_FUNCPROTO),
        type_bits(SQObjectType::RT_INSTANCE) == 2 * type_bits(SQObjectType::RT_CLASS),
        type_bits(SQObjectType::RT_WEAKREF) == 2 * type_bits(SQObjectType::RT_INSTANCE),
        type_bits(SQObjectType::OT_VECTOR) == 4 * type_bits(SQObjectType::RT_WEAKREF),
        type_bits(SQObjectType::SQOBJECT_CANBEFALSE) == 0x0100_0000,
        type_bits(SQObjectType::SQOBJECT_DELEGABLE) == 0x0200_0000,
        type_bits(SQObjectType::SQOBJECT_NUMERIC) == 0x0400_0000,
        type_bits(SQObjectType::SQOBJECT_REF_COUNTED) == 0x0800_0000,
        type_bits(SQObjectType::OT_NULL) == type_bits(SQObjectType::RT_NULL) + type_bits(
            SQObjectType::SQOBJECT_CANBEFALSE,
        ),
        type_bits(SQObjectType::OT_BOOL) == type_bits(SQObjectType::RT_BOOL) + type_bits(
            SQObjectType::SQOBJECT_CANBEFALSE,
        ),
        type_bits(SQObjectType::OT_INTEGER) == type_bits(SQObjectType::RT_INTEGER) + type_bits(
            SQObjectType::SQOBJECT_CANBEFALSE,
        ) + type_bits(SQObjectType::SQOBJECT_NUMERIC),
        type_bits(SQObjectType::OT_FLOAT) == type_bits(SQObjectType::RT_FLOAT) + type_bits(
            SQObjectType::SQOBJECT_CANBEFALSE,
        ) + type_bits(SQObjectType::SQOBJECT_NUMERIC),
        type_bits(SQObjectType::OT_STRING) == type_bits(SQObjectType::RT_STRING) + type_bits(
            SQObjectType::SQOBJECT_REF_COUNTED,
        ),
        type_bits(SQObjectType::OT_ARRAY) == type_bits(SQObjectType::RT_ARRAY) + type_bits(
            SQObjectType::SQOBJECT_REF_COUNTED,
        ),
        type_bits(SQObjectType::OT_CLOSURE) == type_bits(SQObjectType::RT_CLOSURE) + type_bits(
            SQObjectType::SQOBJECT_REF_COUNTED,
        ),
        type_bits(SQObjectType::OT_NATIVECLOSURE) == type_bits(SQObjectType::RT_NATIVECLOSURE)
            + type_bits(SQObjectType::SQOBJECT_REF_COUNTED),
        type_bits(SQObjectType::OT_ASSET) == type_bits(SQObjectType::RT_GENERATOR) + type_bits(
            SQObjectType::SQOBJECT_REF_COUNTED,
        ),
        type_bits(SQObjectType::OT_THREAD) == type_bits(SQObjectType::RT_THREAD) + type_bits(
            SQObjectType::SQOBJECT_REF_COUNTED,
        ),
        type_bits(SQObjectType::OT_FUNCPROTO) == type_bits(SQObjectType::RT_FUNCPROTO) + type_bits(
            SQObjectType::SQOBJECT_REF_COUNTED,
        ),
        type_bits(SQObjectType::OT_CLASS) == type_bits(SQObjectType::RT_CLASS) + type_bits(
            SQObjectType::SQOBJECT_REF_COUNTED,
        ),
        type_bits(SQObjectType::OT_WEAKREF) == type_bits(SQObjectType::RT_WEAKREF) + type_bits(
            SQObjectType::SQOBJECT_REF_COUNTED,
        ),
        type_bits(SQObjectType::OT_STRUCT) == 0x0020_0000 + type_bits(
            SQObjectType::SQOBJECT_REF_COUNTED,
        ),
        type_bits(SQObjectType::OT_TABLE) == type_bits(SQObjectType::RT_TABLE) + type_bits(
            SQObjectType::SQOBJECT_DELEGABLE,
        ) + type_bits(SQObjectType::SQOBJECT_REF_COUNTED),
        type_bits(SQObjectType::OT_USERDATA) == type_bits(SQObjectType::RT_USERDATA) + type_bits(
            SQObjectType::SQOBJECT_DELEGABLE,
        ) + type_bits(SQObjectType::SQOBJECT_REF_COUNTED),
        type_bits(SQObjectType::OT_INSTANCE) == type_bits(SQObjectType::RT_INSTANCE) + type_bits(
            SQObjectType::SQOBJECT_DELEGABLE,
        ) + type_bits(SQObjectType::SQOBJECT_REF_COUNTED),
        type_bits(SQObjectType::OT_ENTITY) == 0x0040_0000 + type_bits(
            SQObjectType::SQOBJECT_DELEGABLE,
        ) + type_bits(SQObjectType::SQOBJECT_REF_COUNTED),
{
}

} // verus!
