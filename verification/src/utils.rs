//! Looking into engine objects: functions, native closures and names.

use vstd::prelude::*;
use vstd::string::*;
use vstd::utf8::{decode_utf8, encode_utf8, valid_utf8};

use crate::refcount::{can_increment, incremented, referenced};
use crate::refcount::{increment_ref_sqobject, RefCounts};
use crate::squirrel::{engine_of, SQObject, SQObjectType, ScriptContext, WhichDll};
use crate::squirrel::{engine_for, wrap_in_object};
use crate::text::{
    bytes_text, get_from_sq_string, law_text_has_its_bytes, same_text, signed_decimal,
    signed_decimal_text,
};

verus! {

/// A script value that is read for its text: its tag and, where that is `OT_STRING`, the bytes of
/// the string.
pub struct StringObject {
    pub ty: SQObjectType,
    pub bytes: Vec<u8>,
}

/// The text of a script value; none where it is no string or its bytes are not UTF-8.
pub open spec fn object_text(obj: StringObject) -> Option<Seq<char>> {
    if obj.ty == SQObjectType::OT_STRING {
        bytes_text(obj.bytes@)
    } else {
        None
    }
}

impl StringObject {
    /// Reads the text of a script value.
    pub fn text(&self) -> (text: Option<&str>)
        ensures
            text is Some <==> object_text(*self) is Some,
            text matches Some(t) ==> object_text(*self) == Some(t@),
    {
        if self.ty == SQObjectType::OT_STRING {
            get_from_sq_string(self.bytes.as_slice())
        } else {
            None
        }
    }
}

/// A node of a script table: its key, its value and, where the value is a native closure that has
/// a name, the bytes of that name.
pub struct TableNode {
    pub key: StringObject,
    pub val: SQObject,
    pub name: Option<Vec<u8>>,
}

/// The nodes of a table; a table that is not there has none.
pub open spec fn nodes_of(table: Option<&Vec<TableNode>>) -> Seq<TableNode> {
    match table {
        Some(nodes) => nodes@,
        None => Seq::empty(),
    }
}

/// `found` names, in their order, the nodes of `nodes` whose value has the tag `ty`.
pub open spec fn are_typed_nodes(
    nodes: Seq<TableNode>,
    ty: SQObjectType,
    found: Seq<usize>,
) -> bool {
    &&& forall|i: int, j: int| 0 <= i < j < found.len() ==> found[i] < found[j]
    &&& forall|i: int|
        0 <= i < found.len() ==> (#[trigger] found[i] as int) < nodes.len()
            && nodes[found[i] as int].val.ty == ty
    &&& forall|n: usize|
        #![trigger found.contains(n)]
        (n as int) < nodes.len() && nodes[n as int].val.ty == ty ==> found.contains(n)
}

/// Finds the nodes of a table whose value has the tag `ty`.
pub fn ty_filter(table: Option<&Vec<TableNode>>, ty: SQObjectType) -> (found: Vec<usize>)
    ensures
        are_typed_nodes(nodes_of(table), ty, found@),
        table is None ==> found@.len() == 0,
        table matches Some(nodes) ==> {
            &&& forall|i: int, j: int| 0 <= i < j < found@.len() ==> found@[i] < found@[j]
            &&& forall|n: usize| #[trigger]
                found@.contains(n) <==> n < nodes.len() && nodes@[n as int].val.ty == ty
        },
{
    let mut found: Vec<usize> = Vec::new();
    if let Some(nodes) = table {
        let mut n: usize = 0;
        while n < nodes.len()
            invariant
                n <= nodes.len(),
                are_typed_nodes(nodes@.take(n as int), ty, found@),
            decreases nodes.len() - n,
        {
            let ghost before = found@;
            assert(nodes@.take(n + 1).drop_last() =~= nodes@.take(n as int));
            if nodes[n].val.ty == ty {
                found.push(n);
                assert forall|m: usize|
                    (m as int) < n + 1 && nodes@.take(n + 1)[m as int].val.ty
                        == ty implies found@.contains(m) by {
                    if m < n {
                        assert(before.contains(m));
                        let i = choose|i: int| 0 <= i < before.len() && before[i] == m;
                        assert(found@[i] == m);
                    } else {
                        assert(found@[before.len() as int] == m);
                    }
                }
            }
            n += 1;
        }
        assert(nodes@.take(nodes.len() as int) =~= nodes@);
    } else {
        assert(found@.len() == 0);
    }
    found
}

/// `node` holds a native closure that goes by `name`, as its key or as the name that the closure
/// itself carries.
pub open spec fn is_native_function(node: TableNode, name: Seq<char>) -> bool {
    &&& node.val.ty == SQObjectType::OT_NATIVECLOSURE
    &&& node.key.ty == SQObjectType::OT_STRING
    &&& bytes_text(node.key.bytes@) == Some(name) || (node.name matches Some(bytes) && bytes_text(
        bytes@,
    ) == Some(name))
}

/// The first native closure among `nodes` that goes by `name`.
pub open spec fn native_function(nodes: Seq<TableNode>, name: Seq<char>) -> Option<u64>
    decreases nodes.len(),
{
    if nodes.len() == 0 {
        None
    } else if is_native_function(nodes[0], name) {
        Some(nodes[0].val.val)
    } else {
        native_function(nodes.drop_first(), name)
    }
}

fn node_is_native_function(node: &TableNode, name: &str) -> (r: bool)
    requires
        node.val.ty == SQObjectType::OT_NATIVECLOSURE,
    ensures
        r == is_native_function(*node, name@),
{
    if node.key.ty != SQObjectType::OT_STRING {
        return false;
    }
    if let Some(key) = get_from_sq_string(node.key.bytes.as_slice()) {
        if same_text(key, name) {
            return true;
        }
    }
    match &node.name {
        Some(bytes) => match get_from_sq_string(bytes.as_slice()) {
            Some(own_name) => same_text(own_name, name),
            None => false,
        },
        None => false,
    }
}

/// Nodes in front of the first native closure by that name do not matter.
proof fn lemma_native_function_skip(nodes: Seq<TableNode>, name: Seq<char>, n: int)
    requires
        0 <= n <= nodes.len(),
        forall|i: int| 0 <= i < n ==> !is_native_function(#[trigger] nodes[i], name),
    ensures
        native_function(nodes, name) == native_function(nodes.skip(n), name),
    decreases n,
{
    if n == 0 {
        assert(nodes.skip(0) =~= nodes);
    } else {
        assert(!is_native_function(nodes[0], name));
        let rest = nodes.drop_first();
        assert forall|i: int| 0 <= i < n - 1 implies !is_native_function(
            #[trigger] rest[i],
            name,
        ) by {
            assert(rest[i] == nodes[i + 1]);
        }
        lemma_native_function_skip(rest, name, n - 1);
        assert(rest.skip(n - 1) =~= nodes.skip(n));
    }
}

/// Finds the native closure that goes by `name` in the table of the VM's native closures; `table`
/// is none where the VM has no such table.
pub fn get_native_function(table: Option<&Vec<TableNode>>, name: &str) -> (found: Option<u64>)
    ensures
        found == native_function(nodes_of(table), name@),
{
    let natives = ty_filter(table, SQObjectType::OT_NATIVECLOSURE);
    let ghost nodes = nodes_of(table);
    if let Some(list) = table {
        let mut i: usize = 0;
        while i < natives.len()
            invariant
                i <= natives.len(),
                nodes == list@,
                nodes == nodes_of(table),
                are_typed_nodes(nodes, SQObjectType::OT_NATIVECLOSURE, natives@),
                forall|k: int| 0 <= k < i ==> !is_native_function(nodes[natives[k] as int], name@),
            decreases natives.len() - i,
        {
            let n = natives[i];
            assert(nodes[n as int].val.ty == SQObjectType::OT_NATIVECLOSURE);
            if node_is_native_function(&list[n], name) {
                proof {
                    assert forall|m: int| 0 <= m < n implies !is_native_function(
                        #[trigger] nodes[m],
                        name@,
                    ) by {
                        if nodes[m].val.ty == SQObjectType::OT_NATIVECLOSURE {
                            lemma_earlier_native(nodes, natives@, i as int, m);
                        }
                    }
                    lemma_native_function_skip(nodes, name@, n as int);
                    assert(nodes.skip(n as int)[0] == nodes[n as int]);
                }
                return Some(list[n].val.val);
            }
            i += 1;
        }
        proof {
            let len: usize = list.len();
            assert(nodes.len() == len);
            assert forall|m: int| 0 <= m < nodes.len() implies !is_native_function(
                #[trigger] nodes[m],
                name@,
            ) by {
                if nodes[m].val.ty == SQObjectType::OT_NATIVECLOSURE {
                    assert(natives@.contains(m as usize));
                    let k = choose|k: int| 0 <= k < natives@.len() && natives@[k] == m as usize;
                    assert(!is_native_function(nodes[natives@[k] as int], name@));
                }
            }
            lemma_native_function_skip(nodes, name@, nodes.len() as int);
            assert(nodes.skip(nodes.len() as int).len() == 0);
        }
    }
    None
}

/// A native closure in front of the one that `natives[i]` names is named by an earlier entry.
proof fn lemma_earlier_native(nodes: Seq<TableNode>, natives: Seq<usize>, i: int, m: int)
    requires
        are_typed_nodes(nodes, SQObjectType::OT_NATIVECLOSURE, natives),
        0 <= i < natives.len(),
        0 <= m < natives[i],
        nodes[m].val.ty == SQObjectType::OT_NATIVECLOSURE,
    ensures
        exists|k: int| 0 <= k < i && natives[k] == m,
{
    assert(natives.contains(m as usize));
    let k = choose|k: int| 0 <= k < natives.len() && natives[k] == m as usize;
    assert(0 <= k < i && natives[k] == m);
}

/// The first native closure by a name is one of the nodes, goes by that name, and no node in front
/// of it does; where there is none, no node goes by that name.
pub proof fn law_native_function_is_first(nodes: Seq<TableNode>, name: Seq<char>)
    ensures
        native_function(nodes, name) is None <==> forall|i: int|
            0 <= i < nodes.len() ==> !is_native_function(#[trigger] nodes[i], name),
        native_function(nodes, name) matches Some(addr) ==> exists|i: int|
            {
                &&& 0 <= i < nodes.len()
                &&& is_native_function(#[trigger] nodes[i], name)
                &&& nodes[i].val.val == addr
                &&& forall|j: int| 0 <= j < i ==> !is_native_function(#[trigger] nodes[j], name)
            },
    decreases nodes.len(),
{
    if nodes.len() > 0 {
        if is_native_function(nodes[0], name) {
            assert(nodes[0].val.val == native_function(nodes, name).unwrap());
        } else {
            let rest = nodes.drop_first();
            law_native_function_is_first(rest, name);
            assert forall|i: int| 0 <= i < rest.len() implies rest[i] == #[trigger] nodes[i + 1] by {
            }
            if native_function(nodes, name) is Some {
                let addr = native_function(nodes, name).unwrap();
                let i = choose|i: int|
                    {
                        &&& 0 <= i < rest.len()
                        &&& is_native_function(#[trigger] rest[i], name)
                        &&& rest[i].val.val == addr
                        &&& forall|j: int|
                            0 <= j < i ==> !is_native_function(#[trigger] rest[j], name)
                    };
                assert(is_native_function(nodes[i + 1], name));
                assert forall|j: int| 0 <= j < i + 1 implies !is_native_function(
                    #[trigger] nodes[j],
                    name,
                ) by {
                    if j > 0 {
                        assert(rest[j - 1] == nodes[j]);
                    }
                }
            } else {
                assert forall|i: int| 0 <= i < nodes.len() implies !is_native_function(
                    #[trigger] nodes[i],
                    name,
                ) by {
                    if i > 0 {
                        assert(rest[i - 1] == nodes[i]);
                    }
                }
            }
        }
    }
}

/// A compiled script function: its address, its reference count and the bytes of its name, if it
/// has one.
pub struct FuncProto {
    pub addr: u64,
    pub ui_ref: i32,
    pub name: Option<Vec<u8>>,
}

/// A closure: the address of the values that it captured and the function that it runs.
pub struct Closure {
    pub outer_values: u64,
    pub function: FuncObject,
}

/// A script value that is read for the function in it; none stands for a null pointer.
pub enum FuncObject {
    Closure(Option<Box<Closure>>),
    FuncProto(Option<FuncProto>),
    Other,
}

/// The compiled function that a script value leads to, or why there is none.
pub open spec fn func_proto_of(obj: FuncObject) -> Result<FuncProto, Seq<char>>
    decreases obj,
{
    match obj {
        FuncObject::Closure(None) => Err("null closure"@),
        FuncObject::Closure(Some(closure)) => if closure.outer_values != 0 {
            Err("hook cannot be capturing vars"@)
        } else {
            func_proto_of(closure.function)
        },
        FuncObject::FuncProto(None) => Err("null func proto"@),
        FuncObject::FuncProto(Some(proto)) => Ok(proto),
        FuncObject::Other => Err("not a valid function!"@),
    }
}

/// Follows a script value to the compiled function in it. A closure on the way must not have
/// captured anything.
pub fn as_func_proto(obj: &FuncObject) -> (r: Result<&FuncProto, &'static str>)
    ensures
        r is Ok <==> func_proto_of(*obj) is Ok,
        r matches Ok(proto) ==> func_proto_of(*obj) == Ok::<FuncProto, Seq<char>>(*proto),
        r matches Err(err) ==> func_proto_of(*obj) == Err::<FuncProto, Seq<char>>(err@),
    decreases obj,
{
    match obj {
        FuncObject::Closure(None) => Err("null closure"),
        FuncObject::Closure(Some(closure)) => {
            if closure.outer_values != 0 {
                Err("hook cannot be capturing vars")
            } else {
                as_func_proto(&closure.function)
            }
        },
        FuncObject::FuncProto(None) => Err("null func proto"),
        FuncObject::FuncProto(Some(proto)) => Ok(proto),
        FuncObject::Other => Err("not a valid function!"),
    }
}

/// The name of the function that a script value leads to, or `unknown`.
pub open spec fn function_name_of(obj: FuncObject) -> Seq<char> {
    match func_proto_of(obj) {
        Ok(proto) => match proto.name {
            Some(bytes) => match bytes_text(bytes@) {
                Some(name) => name,
                None => "unknown"@,
            },
            None => "unknown"@,
        },
        Err(_) => "unknown"@,
    }
}

/// Reads the name of the function that a script value leads to.
pub fn function_name(obj: &FuncObject) -> (name: &str)
    ensures
        name@ == function_name_of(*obj),
{
    match as_func_proto(obj) {
        Ok(proto) => match &proto.name {
            Some(bytes) => match get_from_sq_string(bytes.as_slice()) {
                Some(name) => name,
                None => "unknown",
            },
            None => "unknown",
        },
        Err(_) => "unknown",
    }
}

/// What the engine is asked for a new closure: the DLL whose allocator makes it and the function
/// that it is to run.
#[derive(Clone, Copy, Debug, PartialEq, Eq, Structural)]
pub struct ClosureRequest {
    pub engine: WhichDll,
    pub function: SQObject,
}

/// Asks for a new closure over the compiled function at `proto`.
pub fn new_closure(context: ScriptContext, proto: u64) -> (request: ClosureRequest)
    requires
        proto != 0,
    ensures
        request.engine == engine_of(context),
        request.function == (SQObject {
            ty: SQObjectType::OT_FUNCPROTO,
            struct_number: 0,
            val: proto,
        }),
{
    ClosureRequest {
        engine: engine_for(context),
        function: wrap_in_object(SQObjectType::OT_FUNCPROTO, proto),
    }
}

/// What the engine is asked for a string: the DLL whose string table holds it, its bytes and their
/// number.
#[derive(Debug)]
pub struct StringRequest {
    pub engine: WhichDll,
    pub bytes: Vec<u8>,
    pub length: u64,
}

/// Asks for the string that holds `bytes`.
pub fn new_sqstring(context: ScriptContext, bytes: &[u8]) -> (request: StringRequest)
    requires
        !bytes@.contains(0u8),
    ensures
        request.engine == engine_of(context),
        request.bytes@ == bytes@,
        request.length == bytes@.len(),
{
    let mut copied: Vec<u8> = Vec::new();
    let mut i: usize = 0;
    while i < bytes.len()
        invariant
            i <= bytes.len(),
            copied@ == bytes@.take(i as int),
        decreases bytes.len() - i,
    {
        copied.push(bytes[i]);
        i += 1;
        assert(copied@ =~= bytes@.take(i as int));
    }
    assert(bytes@.take(bytes.len() as int) =~= bytes@);
    StringRequest { engine: engine_for(context), bytes: copied, length: bytes.len() as u64 }
}

/// Takes the string at `addr` that the engine's string table gave, with a reference of its own.
pub fn take_sqstring(addr: u64, counts: &mut RefCounts) -> (obj: SQObject)
    requires
        addr != 0,
        old(counts)@.dom().contains(addr),
        old(counts)@[addr] < i32::MAX,
    ensures
        obj == (SQObject { ty: SQObjectType::OT_STRING, struct_number: 0, val: addr }),
        final(counts)@ == referenced(old(counts)@, addr),
{
    counts.reference(addr);
    wrap_in_object(SQObjectType::OT_STRING, addr)
}

/// The names that a compiled function carries.
#[derive(Clone, Copy, Debug, PartialEq, Eq, Structural)]
pub struct FuncNames {
    pub file_name: SQObject,
    pub func_name: SQObject,
}

/// A name is taken over where it is a string and there is none yet.
pub open spec fn takes_name(org: SQObject, dst: SQObject) -> bool {
    org.ty == SQObjectType::OT_STRING && dst.ty == SQObjectType::OT_NULL
}

/// The name after it is taken over, where it is.
pub open spec fn taken_name(org: SQObject, dst: SQObject) -> SQObject {
    if takes_name(org, dst) {
        org
    } else {
        dst
    }
}

/// The counts after a name is taken over, where it is.
pub open spec fn taken_counts(
    counts: Map<u64, int>,
    org: SQObject,
    dst: SQObject,
) -> Map<u64, int> {
    if takes_name(org, dst) {
        incremented(counts, org)
    } else {
        counts
    }
}

/// Whether a name is taken over.
pub fn is_name_taken(org: SQObject, dst: SQObject) -> (r: bool)
    ensures
        r == takes_name(org, dst),
{
    org.ty == SQObjectType::OT_STRING && dst.ty == SQObjectType::OT_NULL
}

fn clone_name(org: SQObject, dst: SQObject, counts: &mut RefCounts) -> (r: SQObject)
    requires
        takes_name(org, dst) ==> can_increment(old(counts)@, org),
    ensures
        r == taken_name(org, dst),
        final(counts)@ == taken_counts(old(counts)@, org, dst),
{
    if is_name_taken(org, dst) {
        increment_ref_sqobject(org, counts)
    } else {
        dst
    }
}

/// Gives the function `dst` the names of the function `org` that it lacks itself.
pub fn clone_func_name(org: &FuncNames, dst: &mut FuncNames, counts: &mut RefCounts)
    requires
        takes_name(org.file_name, old(dst).file_name) ==> can_increment(
            old(counts)@,
            org.file_name,
        ),
        takes_name(org.func_name, old(dst).func_name) ==> can_increment(
            taken_counts(old(counts)@, org.file_name, old(dst).file_name),
            org.func_name,
        ),
    ensures
        final(dst).file_name == taken_name(org.file_name, old(dst).file_name),
        final(dst).func_name == taken_name(org.func_name, old(dst).func_name),
        final(counts)@ == taken_counts(
            taken_counts(old(counts)@, org.file_name, old(dst).file_name),
            org.func_name,
            old(dst).func_name,
        ),
{
    dst.file_name = clone_name(org.file_name, dst.file_name, counts);
    dst.func_name = clone_name(org.func_name, dst.func_name, counts);
}

/// Taking names over a second time changes nothing.
pub proof fn law_clone_func_name_once(counts: Map<u64, int>, org: SQObject, dst: SQObject)
    ensures
        taken_name(org, taken_name(org, dst)) == taken_name(org, dst),
        taken_counts(counts, org, taken_name(org, dst)) == counts,
{
}

/// The name of a tag that script values can have.
pub open spec fn tag_name_of(ty: SQObjectType) -> Option<Seq<char>> {
    match ty {
        SQObjectType::OT_USERPOINTER => Some("OT_USERPOINTER"@),
        SQObjectType::OT_VECTOR => Some("OT_VECTOR"@),
        SQObjectType::OT_NULL => Some("OT_NULL"@),
        SQObjectType::OT_BOOL => Some("OT_BOOL"@),
        SQObjectType::OT_INTEGER => Some("OT_INTEGER"@),
        SQObjectType::OT_FLOAT => Some("OT_FLOAT"@),
        SQObjectType::OT_STRING => Some("OT_STRING"@),
        SQObjectType::OT_ARRAY => Some("OT_ARRAY"@),
        SQObjectType::OT_CLOSURE => Some("OT_CLOSURE"@),
        SQObjectType::OT_NATIVECLOSURE => Some("OT_NATIVECLOSURE"@),
        SQObjectType::OT_ASSET => Some("OT_ASSET"@),
        SQObjectType::OT_THREAD => Some("OT_THREAD"@),
        SQObjectType::OT_FUNCPROTO => Some("OT_FUNCPROTO"@),
        SQObjectType::OT_CLASS => Some("OT_CLASS"@),
        SQObjectType::OT_STRUCT => Some("OT_STRUCT"@),
        SQObjectType::OT_WEAKREF => Some("OT_WEAKREF"@),
        SQObjectType::OT_TABLE => Some("OT_TABLE"@),
        SQObjectType::OT_USERDATA => Some("OT_USERDATA"@),
        SQObjectType::OT_INSTANCE => Some("OT_INSTANCE"@),
        SQObjectType::OT_ENTITY => Some("OT_ENTITY"@),
        _ => None,
    }
}

/// The tags whose payload is shown beside the name.
pub open spec fn shows_payload(ty: SQObjectType) -> bool {
    match ty {
        SQObjectType::OT_BOOL | SQObjectType::OT_INTEGER | SQObjectType::OT_FLOAT
        | SQObjectType::OT_STRING | SQObjectType::OT_ASSET => true,
        _ => false,
    }
}

/// The line by which a value is shown, given how its payload is.
pub open spec fn shown_object(ty: SQObjectType, payload: Seq<char>) -> Seq<char> {
    match tag_name_of(ty) {
        Some(name) => if shows_payload(ty) {
            name + ": "@ + payload
        } else {
            name
        },
        None => "unknown"@,
    }
}

fn tag_name(ty: SQObjectType) -> (name: Option<&'static str>)
    ensures
        name is Some <==> tag_name_of(ty) is Some,
        name matches Some(n) ==> tag_name_of(ty) == Some(n@),
{
    match ty {
        SQObjectType::OT_USERPOINTER => Some("OT_USERPOINTER"),
        SQObjectType::OT_VECTOR => Some("OT_VECTOR"),
        SQObjectType::OT_NULL => Some("OT_NULL"),
        SQObjectType::OT_BOOL => Some("OT_BOOL"),
        SQObjectType::OT_INTEGER => Some("OT_INTEGER"),
        SQObjectType::OT_FLOAT => Some("OT_FLOAT"),
        SQObjectType::OT_STRING => Some("OT_STRING"),
        SQObjectType::OT_ARRAY => Some("OT_ARRAY"),
        SQObjectType::OT_CLOSURE => Some("OT_CLOSURE"),
        SQObjectType::OT_NATIVECLOSURE => Some("OT_NATIVECLOSURE"),
        SQObjectType::OT_ASSET => Some("OT_ASSET"),
        SQObjectType::OT_THREAD => Some("OT_THREAD"),
        SQObjectType::OT_FUNCPROTO => Some("OT_FUNCPROTO"),
        SQObjectType::OT_CLASS => Some("OT_CLASS"),
        SQObjectType::OT_STRUCT => Some("OT_STRUCT"),
        SQObjectType::OT_WEAKREF => Some("OT_WEAKREF"),
        SQObjectType::OT_TABLE => Some("OT_TABLE"),
        SQObjectType::OT_USERDATA => Some("OT_USERDATA"),
        SQObjectType::OT_INSTANCE => Some("OT_INSTANCE"),
        SQObjectType::OT_ENTITY => Some("OT_ENTITY"),
        _ => None,
    }
}

/// Shows a value with the tag `ty`, given how its payload is shown.
pub fn show_object(ty: SQObjectType, payload: &str) -> (line: String)
    ensures
        line@ == shown_object(ty, payload@),
{
    match tag_name(ty) {
        Some(name) => {
            let mut line = String::from_str(name);
            match ty {
                SQObjectType::OT_BOOL
                | SQObjectType::OT_INTEGER
                | SQObjectType::OT_FLOAT
                | SQObjectType::OT_STRING
                | SQObjectType::OT_ASSET => {
                    line.append(": ");
                    line.append(payload);
                },
                _ => {},
            }
            line
        },
        None => String::from_str("unknown"),
    }
}

/// How `str`'s `Debug` writes a text: in quotes, with escapes.
pub uninterp spec fn quoted_text(text: Seq<char>) -> Seq<char>;

/// Calls `<str as std::fmt::Debug>::fmt` through `format!`. Which characters it escapes, and how,
/// is left to the name `quoted_text`; the result depends on the text alone.
#[verifier::external_body]
fn quote(text: &str) -> (quoted: String)
    ensures
        quoted@ == quoted_text(text@),
{
    format!("{:?}", text)
}

/// How a text is shown, given how it is quoted; none where there is no text.
pub open spec fn shown_quoted(quoted: Option<Seq<char>>) -> Seq<char> {
    match quoted {
        Some(quoted) => "Some("@ + quoted + ")"@,
        None => "None"@,
    }
}

/// How the text of a string is shown; none where its bytes are not UTF-8.
pub open spec fn shown_text(bytes: Seq<u8>) -> Seq<char> {
    shown_quoted(
        match bytes_text(bytes) {
            Some(text) => Some(quoted_text(text)),
            None => None,
        },
    )
}

/// Shows a text, given how it is quoted; none where there is no text.
pub fn show_text(quoted: Option<&str>) -> (shown: String)
    ensures
        shown@ == shown_quoted(
            match quoted {
                Some(quoted) => Some(quoted@),
                None => None,
            },
        ),
{
    match quoted {
        Some(quoted) => {
            let mut shown = String::from_str("Some(");
            shown.append(quoted);
            shown.append(")");
            shown
        },
        None => String::from_str("None"),
    }
}

/// How the payload of a value is shown.
pub open spec fn shown_payload(obj: SQObject, bytes: Seq<u8>, float: Seq<char>) -> Seq<char> {
    match obj.ty {
        SQObjectType::OT_BOOL | SQObjectType::OT_INTEGER => signed_decimal(
            (obj.val as i32) as int,
        ),
        SQObjectType::OT_FLOAT => float,
        SQObjectType::OT_STRING | SQObjectType::OT_ASSET => shown_text(bytes),
        _ => Seq::empty(),
    }
}

/// The log line that shows a value. `bytes` are those of the string that an `OT_STRING` or
/// `OT_ASSET` value points at, `float` is the notation of the number in an `OT_FLOAT` value.
pub fn print_sqobject(obj: &SQObject, bytes: &[u8], float: &str) -> (line: String)
    requires
        obj.ty == SQObjectType::OT_STRING || obj.ty == SQObjectType::OT_ASSET ==> obj.val != 0,
    ensures
        line@ == shown_object(obj.ty, shown_payload(*obj, bytes@, float@)),
{
    let payload = match obj.ty {
        SQObjectType::OT_BOOL | SQObjectType::OT_INTEGER => {
            let low = #[verifier::truncate] (obj.val as i32);
            signed_decimal_text(low)
        },
        SQObjectType::OT_FLOAT => String::from_str(float),
        SQObjectType::OT_STRING | SQObjectType::OT_ASSET => match get_from_sq_string(bytes) {
            Some(text) => {
                let quoted = quote(text);
                show_text(Some(quoted.as_str()))
            },
            None => show_text(None),
        },
        _ => String::new(),
    };
    show_object(obj.ty, payload.as_str())
}

/// A script value that is known to be a string.
#[derive(Clone, Copy, Debug, PartialEq, Eq, Structural)]
pub struct CheckedString {
    obj: SQObject,
}

impl CheckedString {
    /// The value itself.
    pub closed spec fn object(self) -> SQObject {
        self.obj
    }

    /// It holds a string.
    #[verifier::type_invariant]
    spec fn holds_string(self) -> bool {
        self.obj.ty == SQObjectType::OT_STRING
    }

    /// Takes a script value that is a string.
    pub fn get_from_sqobject(obj: &SQObject) -> (r: CheckedString)
        requires
            obj.ty == SQObjectType::OT_STRING,
        ensures
            r.object() == *obj,
    {
        CheckedString { obj: *obj }
    }

    /// The value, which is a string.
    pub fn get(&self) -> (obj: SQObject)
        ensures
            obj == self.object(),
            obj.ty == SQObjectType::OT_STRING,
    {
        proof {
            use_type_invariant(self);
        }
        self.obj
    }
}

/// Only a string has a text, the one whose bytes it holds.
pub proof fn law_only_strings_have_text(obj: StringObject)
    ensures
        object_text(obj) is Some <==> obj.ty == SQObjectType::OT_STRING && valid_utf8(obj.bytes@),
        object_text(obj) matches Some(text) ==> encode_utf8(text) == obj.bytes@,
{
    law_text_has_its_bytes(obj.bytes@, Seq::empty());
}

/// The nodes of a table are all there, and a table that is not there has none.
pub proof fn law_nodes_of(nodes: &Vec<TableNode>)
    ensures
        nodes_of(Some(nodes)) == nodes@,
        nodes_of(None).len() == 0,
{
}

/// A native closure with a string for its key goes by the text of that key and by its own name, and
/// by nothing else; no other value goes by any name.
pub proof fn law_names_of_native_functions(node: TableNode, name: Seq<char>)
    ensures
        node.val.ty != SQObjectType::OT_NATIVECLOSURE || node.key.ty != SQObjectType::OT_STRING
            ==> !is_native_function(node, name),
        node.val.ty == SQObjectType::OT_NATIVECLOSURE && node.key.ty == SQObjectType::OT_STRING
            ==> (is_native_function(node, name) <==> node.key.bytes@ == encode_utf8(name) || (
        node.name matches Some(bytes) && bytes@ == encode_utf8(name))),
{
    law_text_has_its_bytes(node.key.bytes@, name);
    if let Some(bytes) = node.name {
        law_text_has_its_bytes(bytes@, name);
    }
}

/// A closure that captured nothing leads to where its function leads; one that captured something,
/// or is a null pointer, leads nowhere.
pub proof fn law_closures_lead_to_their_function(closure: Closure)
    ensures
        closure.outer_values == 0 ==> func_proto_of(FuncObject::Closure(Some(Box::new(closure))))
            == func_proto_of(closure.function),
        closure.outer_values != 0 ==> func_proto_of(FuncObject::Closure(Some(Box::new(closure))))
            == Err::<FuncProto, Seq<char>>("hook cannot be capturing vars"@),
        func_proto_of(FuncObject::Closure(None)) == Err::<FuncProto, Seq<char>>("null closure"@),
{
}

/// A compiled function leads to itself, and neither a null pointer nor any other value leads to one.
pub proof fn law_functions_lead_to_themselves(proto: FuncProto)
    ensures
        func_proto_of(FuncObject::FuncProto(Some(proto))) == Ok::<FuncProto, Seq<char>>(proto),
        func_proto_of(FuncObject::FuncProto(None)) == Err::<FuncProto, Seq<char>>(
            "null func proto"@,
        ),
        func_proto_of(FuncObject::Other) == Err::<FuncProto, Seq<char>>("not a valid function!"@),
{
}

/// A function goes by the text of its name; one without a name that is a text goes by `unknown`, and
/// so does a value that leads to no function.
pub proof fn law_names_of_functions(obj: FuncObject)
    ensures
        func_proto_of(obj) matches Ok(proto) ==> (proto.name matches Some(bytes) ==> {
            &&& valid_utf8(bytes@) ==> encode_utf8(function_name_of(obj)) == bytes@
            &&& !valid_utf8(bytes@) ==> function_name_of(obj) == "unknown"@
        }),
        func_proto_of(obj) matches Ok(proto) ==> (proto.name is None ==> function_name_of(obj)
            == "unknown"@),
        func_proto_of(obj) is Err ==> function_name_of(obj) == "unknown"@,
{
    if let Ok(proto) = func_proto_of(obj) {
        if let Some(bytes) = proto.name {
            law_text_has_its_bytes(bytes@, Seq::empty());
        }
    }
}

/// A missing name is filled by a string, with one more reference to it; a name that is there stays,
/// and what is no string fills nothing.
pub proof fn law_missing_names_are_filled(counts: Map<u64, int>, org: SQObject, dst: SQObject)
    ensures
        org.ty == SQObjectType::OT_STRING && dst.ty == SQObjectType::OT_NULL ==> {
            &&& takes_name(org, dst)
            &&& taken_name(org, dst) == org
            &&& taken_counts(counts, org, dst) == incremented(counts, org)
        },
        org.ty != SQObjectType::OT_STRING || dst.ty != SQObjectType::OT_NULL ==> {
            &&& !takes_name(org, dst)
            &&& taken_name(org, dst) == dst
            &&& taken_counts(counts, org, dst) == counts
        },
{
}

/// A value is shown by its tag; a number, a truth value, a string or an asset also by its payload;
/// and what no script value can be is unknown.
pub proof fn law_values_are_shown_by_their_tag(payload: Seq<char>)
    ensures
        shown_object(SQObjectType::OT_BOOL, payload) == "OT_BOOL"@ + ": "@ + payload,
        shown_object(SQObjectType::OT_INTEGER, payload) == "OT_INTEGER"@ + ": "@ + payload,
        shown_object(SQObjectType::OT_FLOAT, payload) == "OT_FLOAT"@ + ": "@ + payload,
        shown_object(SQObjectType::OT_STRING, payload) == "OT_STRING"@ + ": "@ + payload,
        shown_object(SQObjectType::OT_ASSET, payload) == "OT_ASSET"@ + ": "@ + payload,
        shown_object(SQObjectType::OT_USERPOINTER, payload) == "OT_USERPOINTER"@,
        shown_object(SQObjectType::OT_VECTOR, payload) == "OT_VECTOR"@,
        shown_object(SQObjectType::OT_NULL, payload) == "OT_NULL"@,
        shown_object(SQObjectType::OT_ARRAY, payload) == "OT_ARRAY"@,
        shown_object(SQObjectType::OT_CLOSURE, payload) == "OT_CLOSURE"@,
        shown_object(SQObjectType::OT_NATIVECLOSURE, payload) == "OT_NATIVECLOSURE"@,
        shown_object(SQObjectType::OT_THREAD, payload) == "OT_THREAD"@,
        shown_object(SQObjectType::OT_FUNCPROTO, payload) == "OT_FUNCPROTO"@,
        shown_object(SQObjectType::OT_CLASS, payload) == "OT_CLASS"@,
        shown_object(SQObjectType::OT_STRUCT, payload) == "OT_STRUCT"@,
        shown_object(SQObjectType::OT_WEAKREF, payload) == "OT_WEAKREF"@,
        shown_object(SQObjectType::OT_TABLE, payload) == "OT_TABLE"@,
        shown_object(SQObjectType::OT_USERDATA, payload) == "OT_USERDATA"@,
        shown_object(SQObjectType::OT_INSTANCE, payload) == "OT_INSTANCE"@,
        shown_object(SQObjectType::OT_ENTITY, payload) == "OT_ENTITY"@,
        forall|ty: SQObjectType|
            (match ty {
                SQObjectType::RT_NULL | SQObjectType::RT_INTEGER | SQObjectType::RT_FLOAT
                | SQObjectType::RT_BOOL | SQObjectType::RT_STRING | SQObjectType::RT_TABLE
                | SQObjectType::RT_ARRAY | SQObjectType::RT_USERDATA | SQObjectType::RT_CLOSURE
                | SQObjectType::RT_NATIVECLOSURE | SQObjectType::RT_GENERATOR
                | SQObjectType::RT_THREAD | SQObjectType::RT_FUNCPROTO | SQObjectType::RT_CLASS
                | SQObjectType::RT_INSTANCE | SQObjectType::RT_WEAKREF
                | SQObjectType::SQOBJECT_CANBEFALSE | SQObjectType::SQOBJECT_DELEGABLE
                | SQObjectType::SQOBJECT_NUMERIC | SQObjectType::SQOBJECT_REF_COUNTED => true,
                _ => false,
            }) ==> #[trigger] shown_object(ty, payload) == "unknown"@,
{
}

/// An integer or a truth value is shown as the number in the lower half of its payload, a float as
/// its notation, and a string or an asset as its text in quotes, or as no text.
pub proof fn law_payloads(obj: SQObject, bytes: Seq<u8>, float: Seq<char>, number: i32, high: u32)
    ensures
        (obj.ty == SQObjectType::OT_INTEGER || obj.ty == SQObjectType::OT_BOOL) && obj.val
            == 0x1_0000_0000 * high + (if number >= 0 {
            number as int
        } else {
            0x1_0000_0000 + number
        }) ==> shown_payload(obj, bytes, float) == signed_decimal(number as int),
        obj.ty == SQObjectType::OT_FLOAT ==> shown_payload(obj, bytes, float) == float,
        obj.ty == SQObjectType::OT_STRING || obj.ty == SQObjectType::OT_ASSET ==> {
            &&& valid_utf8(bytes) ==> shown_payload(obj, bytes, float) == "Some("@ + quoted_text(
                decode_utf8(bytes),
            ) + ")"@
            &&& !valid_utf8(bytes) ==> shown_payload(obj, bytes, float) == "None"@
        },
{
    let val = obj.val;
    assert(val == 0x1_0000_0000 * high + (if number >= 0 {
        number as int
    } else {
        0x1_0000_0000 + number
    }) ==> (val as i32) == number) by (bit_vector);
}

/// A text is shown as its quoted form in `Some`, and what is no text as `None`.
pub proof fn law_quoted_texts_are_wrapped(quoted: Seq<char>)
    ensures
        shown_quoted(Some(quoted)) == "Some("@ + quoted + ")"@,
        shown_quoted(None) == "None"@,
{
}

} // verus!
