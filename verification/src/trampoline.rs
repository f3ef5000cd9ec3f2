//! Building the trampoline: the script function that takes the place of a hooked one and hands its
//! arguments to the native dispatcher.

use vstd::prelude::*;
use vstd::string::*;
use vstd::utf8::encode_utf8;

use crate::refcount::{
    can_increment_all, count_addr, incremented_all, law_references_add_up,
    lemma_incremented_all_next, references_to,
};
use crate::refcount::{increment_ref_sqobject, RefCounts};
use crate::squirrel::{engine_for, null_sq_object, wrap_in_object};
use crate::squirrel::{engine_of, SQObject, SQObjectType, ScriptContext, WhichDll};
use crate::text::{
    decimal, decimal_text, holds_nul, law_decimal_reads_back, law_text_without_nul,
};
use crate::utils::{as_func_proto, func_proto_of, FuncObject};
use crate::utils::{get_native_function, native_function, nodes_of, TableNode};

verus! {

/// The operations that a trampoline is made of.
#[derive(Clone, Copy, Debug, PartialEq, Eq, Structural)]
#[allow(non_camel_case_types)]
pub enum SQOpCodes {
    OP_LOAD,
    OP_DMOVE,
    OP_MOVE,
    OP_FASTCALL_NATIVE,
    OP_RETURN,
}

/// An instruction of the script engine.
#[derive(Clone, Copy, Debug, PartialEq, Eq, Structural)]
pub struct SQInstruction {
    pub op: SQOpCodes,
    pub arg1: i32,
    pub output: i32,
    pub arg2: i16,
    pub arg3: i16,
}

/// What is read of the function that is to be hooked. Its parameters include the root table.
#[derive(Clone, Copy, Debug, PartialEq, Eq, Structural)]
pub struct ProtoShape {
    pub n_parameters: i32,
    pub n_default_params: i32,
    pub other_var_info_size: i32,
}

/// What the engine is asked for a new function: the DLL whose allocator makes it, and its sizes.
#[derive(Clone, Copy, Debug, PartialEq, Eq, Structural)]
pub struct ProtoRequest {
    pub engine: WhichDll,
    pub instructions: i32,
    pub literals: i32,
    pub parameters: i32,
    pub functions: i32,
    pub unknown_c8: i32,
    pub outer_vars: i32,
    pub line_infos: i32,
    pub locals: i32,
    pub default_params: i32,
    pub param_11: i32,
}

/// A trampoline for which the engine is asked.
pub struct TrampolineRequest {
    pub proto: ProtoRequest,
    pub hook_call: u64,
    pub function_id: String,
}

/// The arguments that a script passes: all parameters but the root table.
pub open spec fn arg_count(n_parameters: i32) -> int {
    if n_parameters == i32::MIN {
        n_parameters as int
    } else {
        n_parameters - 1
    }
}

/// Half of `n`, rounded towards zero.
pub open spec fn half(n: int) -> int {
    if n >= 0 {
        n / 2
    } else {
        -((-n) / 2)
    }
}

/// What is left of `n` beside its two halves.
pub open spec fn rest(n: int) -> int {
    n - 2 * half(n)
}

/// The instructions that a trampoline needs: one load, the moves, the call and the return.
pub open spec fn instruction_count(n_parameters: i32) -> int {
    3 + rest(arg_count(n_parameters)) + half(arg_count(n_parameters))
}

/// The function that the engine is asked for.
pub open spec fn proto_request(context: ScriptContext, n_parameters: i32) -> ProtoRequest {
    ProtoRequest {
        engine: engine_of(context),
        instructions: instruction_count(n_parameters) as i32,
        literals: 1,
        parameters: n_parameters,
        functions: 1,
        unknown_c8: 0,
        outer_vars: 0,
        line_infos: 0,
        locals: n_parameters,
        default_params: 0,
        param_11: 0,
    }
}

/// Why no trampoline can be asked for.
pub open spec fn request_error(
    org: ProtoShape,
    native: Option<u64>,
    function_id: Seq<char>,
) -> Option<Seq<char>> {
    if org.n_default_params > 0 {
        Some("default params are unsupported"@)
    } else if org.other_var_info_size > 0 {
        Some("outer values are unsupported"@)
    } else if native is None {
        Some("couldn't find the native trampoline function!"@)
    } else if function_id.contains('\0') {
        Some("failed to convert trampoline_name to a cstring"@)
    } else {
        None
    }
}

fn actual_arg_count(n_parameters: i32) -> (count: i32)
    ensures
        count == arg_count(n_parameters),
{
    if n_parameters == i32::MIN {
        n_parameters
    } else {
        n_parameters - 1
    }
}

fn needed_instructions(n_parameters: i32) -> (count: i32)
    ensures
        count == instruction_count(n_parameters),
{
    let args: i64 = actual_arg_count(n_parameters) as i64;
    let pairs: i64 = if args >= 0 {
        args / 2
    } else {
        0 - (0 - args) / 2
    };
    (3 + (args - 2 * pairs) + pairs) as i32
}

/// Starts a trampoline for the function `org`: checks that it can be hooked, finds the native
/// function `trampoline_name` that the trampoline calls, and says what the engine is to allocate.
///
/// `fill_trampoline` and `finish_trampoline` go on once the engine has answered.
pub fn compile_trampoline(
    context: ScriptContext,
    natives: Option<&Vec<TableNode>>,
    org: &ProtoShape,
    function_id: &str,
    trampoline_name: &str,
) -> (r: Result<TrampolineRequest, &'static str>)
    ensures
        r is Ok <==> request_error(
            *org,
            native_function(nodes_of(natives), trampoline_name@),
            function_id@,
        ) is None,
        r matches Err(err) ==> request_error(
            *org,
            native_function(nodes_of(natives), trampoline_name@),
            function_id@,
        ) == Some(err@),
        r matches Ok(request) ==> {
            &&& request.proto == proto_request(context, org.n_parameters)
            &&& request.proto.parameters == org.n_parameters
            &&& request.proto.locals == org.n_parameters
            &&& request.proto.default_params == 0
            &&& request.proto.outer_vars == 0
            &&& native_function(nodes_of(natives), trampoline_name@) == Some(request.hook_call)
            &&& request.function_id@ == function_id@
        },
{
    if org.n_default_params > 0 {
        return Err("default params are unsupported");
    }
    if org.other_var_info_size > 0 {
        return Err("outer values are unsupported");
    }
    match get_native_function(natives, trampoline_name) {
        Some(hook_call) => {
            if holds_nul(function_id) {
                return Err("failed to convert trampoline_name to a cstring");
            }
            Ok(
                TrampolineRequest {
                    proto: ProtoRequest {
                        engine: engine_for(context),
                        instructions: needed_instructions(org.n_parameters),
                        literals: 1,
                        parameters: org.n_parameters,
                        functions: 1,
                        unknown_c8: 0,
                        outer_vars: 0,
                        line_infos: 0,
                        locals: org.n_parameters,
                        default_params: 0,
                        param_11: 0,
                    },
                    hook_call,
                    function_id: String::from_str(function_id),
                },
            )
        },
        None => Err("couldn't find the native trampoline function!"),
    }
}

/// Loads the function id behind the return slot.
pub open spec fn load_id(n: i32) -> SQInstruction {
    SQInstruction { op: SQOpCodes::OP_LOAD, arg1: 0, output: (n + 1) as i32, arg2: 0, arg3: 0 }
}

/// Moves the arguments `2 * pair` and `2 * pair + 1`.
pub open spec fn move_pair(n: i32, pair: int) -> SQInstruction {
    SQInstruction {
        op: SQOpCodes::OP_DMOVE,
        arg1: (1 + 2 * pair) as i32,
        output: (2 + n + 2 * pair) as i32,
        arg2: (2 + n + 2 * pair + 1) as i16,
        arg3: (2 + 2 * pair) as i16,
    }
}

/// Moves the last argument, where their number is odd.
pub open spec fn move_last(n: i32) -> SQInstruction {
    SQInstruction {
        op: SQOpCodes::OP_MOVE,
        arg1: (n - 1) as i32,
        output: (1 + n + arg_count(n)) as i32,
        arg2: 0,
        arg3: 0,
    }
}

/// Calls the native function on the slots from `n` on.
pub open spec fn call_native(n: i32) -> SQInstruction {
    SQInstruction {
        op: SQOpCodes::OP_FASTCALL_NATIVE,
        arg1: 0,
        output: n,
        arg2: n as i16,
        arg3: ((n as i16) + 1) as i16,
    }
}

/// Returns what the native function returned.
pub open spec fn return_result(n: i32) -> SQInstruction {
    SQInstruction { op: SQOpCodes::OP_RETURN, arg1: n, output: 1, arg2: 0, arg3: 0 }
}

/// The arguments that are moved in pairs.
pub open spec fn pair_count(n: i32) -> int {
    if arg_count(n) > 0 {
        arg_count(n) / 2
    } else {
        0
    }
}

/// One argument is left over when the others are moved in pairs.
pub open spec fn has_last(n: i32) -> bool {
    arg_count(n) > 0 && arg_count(n) % 2 == 1
}

/// The instruction at `i` of a trampoline with `len` instructions; none where the slot keeps what
/// the engine put there.
pub open spec fn instruction_at(n: i32, len: int, i: int) -> Option<SQInstruction> {
    if has_last(n) && i == len - 3 {
        Some(move_last(n))
    } else if 1 <= i <= pair_count(n) {
        Some(move_pair(n, i - 1))
    } else if i == len - 1 {
        Some(return_result(n))
    } else if i == len - 2 {
        Some(call_native(n))
    } else if i == 0 {
        Some(load_id(n))
    } else {
        None
    }
}

/// The instructions of a trampoline with `len` instructions.
pub open spec fn instructions_of(n: i32, len: nat) -> Seq<Option<SQInstruction>> {
    Seq::new(len, |i: int| instruction_at(n, len as int, i))
}

/// `len` slots hold a trampoline for `n` parameters, and every number in it can be computed.
pub open spec fn can_fill(n: i32, len: int) -> bool {
    &&& len >= 2
    &&& has_last(n) ==> len >= 3 && 1 + n + arg_count(n) <= i32::MAX
    &&& n < i32::MAX
    &&& (n as i16) < i16::MAX
    &&& forall|i: int|
        1 <= i < len && i <= pair_count(n) ==> #[trigger] pair_end(n, i - 1) <= i32::MAX
}

/// The slot that the second argument of a pair is moved to.
pub open spec fn pair_end(n: i32, pair: int) -> int {
    2 + n + 2 * pair + 1
}

/// Whether `len` slots hold a trampoline for `n` parameters, and every number in it can be computed.
pub fn trampoline_fits(n: i32, len: usize) -> (fits: bool)
    ensures
        fits == can_fill(n, len as int),
{
    let args = actual_arg_count(n);
    if len < 2 || n == i32::MAX || #[verifier::truncate] (n as i16) == i16::MAX {
        return false;
    }
    if args > 0 && args % 2 == 1 && (len < 3 || 1 + n as i64 + args as i64 > i32::MAX as i64) {
        return false;
    }
    let pairs: usize = if args > 0 {
        args as usize / 2
    } else {
        0
    };
    let last: usize = if pairs < len {
        pairs
    } else {
        len - 1
    };
    if last > 0 && 2 + n as i128 + 2 * (last as i128 - 1) + 1 > i32::MAX as i128 {
        assert(pair_end(n, last - 1) > i32::MAX);
        return false;
    }
    true
}

/// Writes the instructions of a trampoline into `len` slots.
pub fn trampoline_instructions(n: i32, len: usize) -> (code: Vec<Option<SQInstruction>>)
    requires
        can_fill(n, len as int),
    ensures
        code@ == instructions_of(n, len as nat),
{
    let args = actual_arg_count(n);
    let odd = args > 0 && args % 2 == 1;
    let pairs: i32 = if args > 0 {
        args / 2
    } else {
        0
    };
    let mut code: Vec<Option<SQInstruction>> = Vec::new();
    let mut i: usize = 0;
    while i < len
        invariant
            i <= len,
            can_fill(n, len as int),
            args == arg_count(n),
            odd == has_last(n),
            pairs == pair_count(n),
            code@ == Seq::new(i as nat, |k: int| instruction_at(n, len as int, k)),
        decreases len - i,
    {
        let slot = if odd && i == len - 3 {
            Some(
                SQInstruction {
                    op: SQOpCodes::OP_MOVE,
                    arg1: n - 1,
                    output: 1 + n + args,
                    arg2: 0,
                    arg3: 0,
                },
            )
        } else if 1 <= i && i <= pairs as usize {
            let first: i32 = 2 * (i as i32 - 1);
            let second: i32 = first + 1;
            assert(pair_end(n, i - 1) <= i32::MAX);
            Some(
                SQInstruction {
                    op: SQOpCodes::OP_DMOVE,
                    arg1: 1 + first,
                    output: 1 + 1 + n + first,
                    arg2: #[verifier::truncate] ((1 + 1 + n + second) as i16),
                    arg3: #[verifier::truncate] ((1 + second) as i16),
                },
            )
        } else if i == len - 1 {
            Some(
                SQInstruction { op: SQOpCodes::OP_RETURN, arg1: n, output: 1, arg2: 0, arg3: 0 },
            )
        } else if i == len - 2 {
            let base: i16 = #[verifier::truncate] (n as i16);
            Some(
                SQInstruction {
                    op: SQOpCodes::OP_FASTCALL_NATIVE,
                    arg1: 0,
                    output: n,
                    arg2: base,
                    arg3: base + 1i16,
                },
            )
        } else if i == 0 {
            Some(
                SQInstruction { op: SQOpCodes::OP_LOAD, arg1: 0, output: n + 1, arg2: 0, arg3: 0 },
            )
        } else {
            None
        };
        assert(slot == instruction_at(n, len as int, i as int));
        code.push(slot);
        i += 1;
        assert(code@ =~= Seq::new(i as nat, |k: int| instruction_at(n, len as int, k)));
    }
    code
}

/// What the engine allocated for a trampoline: the number of its instruction slots, parameters and
/// local variables, and which of the other arrays are there.
#[derive(Clone, Copy, Debug, PartialEq, Eq, Structural)]
pub struct CreatedProto {
    pub instructions: usize,
    pub parameters: u32,
    pub locals: u32,
    pub has_functions: bool,
    pub has_shared_state: bool,
    pub has_literals: bool,
}

/// A trampoline that waits for its strings.
pub struct TrampolineDraft {
    /// The texts for which the string table is asked, in this order.
    pub texts: Vec<String>,
    /// The parameters of the hooked function.
    pub n_parameters: i32,
    pub created: CreatedProto,
}

/// What is written into the allocated function, and how to go on.
pub struct TrampolineStage {
    pub instructions: Vec<Option<SQInstruction>>,
    /// The only function that the trampoline calls, where there is room for it.
    pub function: Option<SQObject>,
    pub next: Result<TrampolineDraft, &'static str>,
}

/// The name of the parameter `i`; the root table goes by `this`.
pub open spec fn parameter_name(i: int) -> Seq<char> {
    if i == 0 {
        "this"@
    } else {
        "param"@ + decimal(i as nat)
    }
}

/// The texts that a trampoline with these arrays needs. Where there is no room for the function id,
/// nothing is asked for after it.
pub open spec fn trampoline_texts(function_id: Seq<char>, created: CreatedProto) -> Seq<Seq<char>> {
    if created.has_literals {
        seq![function_id] + Seq::new(created.parameters as nat, |i: int| parameter_name(i))
            + seq!["TRAMPOLINE"@, "sqhooks/src/utils.rs"@]
    } else {
        seq![function_id]
    }
}

/// Why the allocated function cannot become a trampoline.
pub open spec fn fill_error(created: Option<CreatedProto>) -> Option<Seq<char>> {
    match created {
        None => Some("sqfunctionproto_create returned a null proto func"@),
        Some(created) => if !created.has_functions {
            Some("sqfunctionproto_create failed to allocate functions"@)
        } else if !created.has_shared_state {
            Some("no shared state"@)
        } else {
            None
        },
    }
}

/// The function that a trampoline calls, where the engine allocated room for it.
pub open spec fn called_function(created: Option<CreatedProto>, hook_call: u64) -> Option<SQObject> {
    match created {
        Some(created) => if created.has_functions {
            Some(
                SQObject {
                    ty: SQObjectType::OT_NATIVECLOSURE,
                    struct_number: 0,
                    val: hook_call,
                },
            )
        } else {
            None
        },
        None => None,
    }
}

proof fn lemma_decimal_without_nul(n: nat)
    ensures
        !decimal(n).contains('\0'),
    decreases n,
{
    if n >= 10 {
        lemma_decimal_without_nul(n / 10);
        let head = decimal(n / 10);
        let all = decimal(n);
        assert forall|i: int| 0 <= i < all.len() implies #[trigger] all[i] != '\0' by {
            if i < head.len() {
                assert(all[i] == head[i]);
                assert(head.contains(all[i]));
            }
        }
    }
}

/// Each text that a trampoline asks for can be asked for: where the function id holds no NUL, the
/// bytes of none of them do.
pub proof fn law_texts_can_be_asked_for(
    function_id: Seq<char>,
    created: CreatedProto,
    i: int,
)
    requires
        !function_id.contains('\0'),
        0 <= i < trampoline_texts(function_id, created).len(),
    ensures
        !encode_utf8(trampoline_texts(function_id, created)[i]).contains(0u8),
{
    reveal_strlit("this");
    reveal_strlit("param");
    reveal_strlit("TRAMPOLINE");
    reveal_strlit("sqhooks/src/utils.rs");
    let text = trampoline_texts(function_id, created)[i];
    if 1 < i <= created.parameters {
        let number = decimal((i - 1) as nat);
        lemma_decimal_without_nul((i - 1) as nat);
        assert(text == "param"@ + number);
        assert forall|k: int| 0 <= k < text.len() implies #[trigger] text[k] != '\0' by {
            if k >= 5 {
                assert(text[k] == number[k - 5]);
                assert(number.contains(text[k]));
            }
        }
    }
    law_text_without_nul(text);
}

/// The views of a list of strings.
pub open spec fn text_views(texts: Seq<String>) -> Seq<Seq<char>> {
    texts.map_values(|text: String| text@)
}

fn texts_for(function_id: String, created: &CreatedProto) -> (texts: Vec<String>)
    ensures
        text_views(texts@) == trampoline_texts(function_id@, *created),
{
    let ghost id = function_id@;
    let mut texts: Vec<String> = Vec::new();
    texts.push(function_id);
    assert(text_views(texts@) =~= seq![id]);
    if !created.has_literals {
        return texts;
    }
    let mut i: u32 = 0;
    while i < created.parameters
        invariant
            i <= created.parameters,
            text_views(texts@) == seq![id] + Seq::new(i as nat, |k: int| parameter_name(k)),
        decreases created.parameters - i,
    {
        let ghost before = texts@;
        let name = if i == 0 {
            String::from_str("this")
        } else {
            let mut name = String::from_str("param");
            let number = decimal_text(i as u64);
            name.append(number.as_str());
            name
        };
        texts.push(name);
        i += 1;
        assert(text_views(texts@) =~= text_views(before).push(parameter_name(i - 1)));
        assert(text_views(texts@) =~= seq![id] + Seq::new(i as nat, |k: int| parameter_name(k)));
    }
    let ghost before = text_views(texts@);
    texts.push(String::from_str("TRAMPOLINE"));
    texts.push(String::from_str("sqhooks/src/utils.rs"));
    assert(text_views(texts@) =~= before + seq!["TRAMPOLINE"@, "sqhooks/src/utils.rs"@]);
    texts
}

/// Goes on once the engine has answered the request: `created` is none where it gave no function.
pub fn fill_trampoline(request: TrampolineRequest, created: Option<&CreatedProto>) -> (stage:
    TrampolineStage)
    requires
        request.hook_call != 0,
        created matches Some(created) ==> can_fill(
            request.proto.parameters,
            created.instructions as int,
        ),
    ensures
        stage.instructions@ == (match created {
            Some(created) => instructions_of(
                request.proto.parameters,
                created.instructions as nat,
            ),
            None => Seq::empty(),
        }),
        stage.function == called_function(created_of(created), request.hook_call),
        stage.next is Ok <==> fill_error(created_of(created)) is None,
        stage.next matches Err(err) ==> fill_error(created_of(created)) == Some(err@),
        stage.next matches Ok(draft) ==> {
            &&& created == Some(&draft.created)
            &&& text_views(draft.texts@) == trampoline_texts(request.function_id@, draft.created)
            &&& draft.n_parameters == request.proto.parameters
        },
{
    match created {
        None => TrampolineStage {
            instructions: Vec::new(),
            function: None,
            next: Err("sqfunctionproto_create returned a null proto func"),
        },
        Some(created) => {
            let n = request.proto.parameters;
            let instructions = trampoline_instructions(n, created.instructions);
            let function = if created.has_functions {
                Some(wrap_in_object(SQObjectType::OT_NATIVECLOSURE, request.hook_call))
            } else {
                None
            };
            let next = if !created.has_functions {
                Err("sqfunctionproto_create failed to allocate functions")
            } else if !created.has_shared_state {
                Err("no shared state")
            } else {
                Ok(
                    TrampolineDraft {
                        texts: texts_for(request.function_id, created),
                        n_parameters: n,
                        created: *created,
                    },
                )
            };
            TrampolineStage { instructions, function, next }
        },
    }
}

/// What the engine allocated, if anything.
pub open spec fn created_of(created: Option<&CreatedProto>) -> Option<CreatedProto> {
    match created {
        Some(created) => Some(*created),
        None => None,
    }
}

/// The kinds of type descriptor that local variables of a trampoline have.
#[derive(Clone, Copy, Debug, PartialEq, Eq, Structural)]
pub enum SQTypeGroup {
    TyPrimitive,
}

/// The type of a local variable.
#[derive(Clone, Copy, Debug, PartialEq, Eq, Structural)]
pub struct TypeDescriptor {
    pub group: SQTypeGroup,
    pub type_hash: u32,
    pub prim_type: SQObjectType,
}

/// A local variable of a function.
#[derive(Clone, Copy, Debug, PartialEq, Eq, Structural)]
pub struct SQLocalVarInfo {
    pub name: SQObject,
    pub type_descriptor: TypeDescriptor,
    pub start_op: i32,
    pub end_op: i32,
    pub stackpos: i32,
    pub dword24: i32,
}

/// The contents of a trampoline beside its instructions and the function that it calls.
pub struct TrampolineParts {
    pub literal: SQObject,
    pub parameters: Vec<SQObject>,
    /// The local variables that are written, from the first on.
    pub locals: Vec<SQLocalVarInfo>,
    pub func_name: SQObject,
    pub file_name: SQObject,
}

/// The name of the local variable for the parameter `i`.
pub open spec fn local_name(parameters: Seq<SQObject>, i: int) -> SQObject {
    if 0 <= i < parameters.len() {
        parameters[i]
    } else {
        SQObject { ty: SQObjectType::OT_NULL, struct_number: 0, val: 0 }
    }
}

/// The local variable for the parameter `i`, which is in scope of all the instructions.
pub open spec fn local_var(parameters: Seq<SQObject>, instructions: usize, i: int) -> SQLocalVarInfo {
    SQLocalVarInfo {
        name: local_name(parameters, i),
        type_descriptor: TypeDescriptor {
            group: SQTypeGroup::TyPrimitive,
            type_hash: 42391,
            prim_type: SQObjectType::OT_NULL,
        },
        start_op: 0,
        end_op: (instructions - 1) as i32,
        stackpos: i as i32,
        dword24: (-1int) as i32,
    }
}

/// The local variables that are written: as many as there are parameters and room.
pub open spec fn local_count(n_parameters: i32, created: CreatedProto) -> int {
    if n_parameters <= 0 {
        0
    } else if n_parameters < created.locals {
        n_parameters as int
    } else {
        created.locals as int
    }
}

/// The local variables of a trampoline: those of the parameters in reverse order.
pub open spec fn local_vars(
    parameters: Seq<SQObject>,
    n_parameters: i32,
    created: CreatedProto,
) -> Seq<SQLocalVarInfo> {
    Seq::new(
        local_count(n_parameters, created) as nat,
        |k: int| local_var(parameters, created.instructions, n_parameters - 1 - k),
    )
}

/// The names of the local variables of a trampoline.
pub open spec fn local_names(
    parameters: Seq<SQObject>,
    n_parameters: i32,
    created: CreatedProto,
) -> Seq<SQObject> {
    Seq::new(
        local_count(n_parameters, created) as nat,
        |k: int| local_name(parameters, n_parameters - 1 - k),
    )
}

/// The references to strings that a trampoline holds beside those that came with the strings
/// themselves: to the function id, to each parameter but `this`, to the name of each local
/// variable, and to the names of the function and its file.
pub open spec fn trampoline_references(
    strings: Seq<SQObject>,
    n_parameters: i32,
    created: CreatedProto,
) -> Seq<SQObject> {
    let parameters = strings.subrange(1, 1 + created.parameters);
    seq![strings[0]] + parameters.skip(if created.parameters == 0 {
        0
    } else {
        1
    }) + local_names(parameters, n_parameters, created) + seq![
        strings[1 + created.parameters],
        strings[2 + created.parameters],
    ]
}

/// The references that are counted when a trampoline is put together. The function id is counted
/// also where there is no room for it.
pub open spec fn counted_references(
    strings: Seq<SQObject>,
    n_parameters: i32,
    created: CreatedProto,
) -> Seq<SQObject> {
    if created.has_literals {
        trampoline_references(strings, n_parameters, created)
    } else {
        seq![strings[0]]
    }
}

/// `count` strings are those for the texts of the trampoline.
pub open spec fn has_strings(created: CreatedProto, count: nat) -> bool {
    if created.has_literals {
        count == 3 + created.parameters
    } else {
        count >= 1
    }
}

/// Counts the references to `objs`.
fn count_references(objs: &Vec<SQObject>, counts: &mut RefCounts)
    requires
        can_increment_all(old(counts)@, objs@),
    ensures
        final(counts)@ == incremented_all(old(counts)@, objs@),
{
    let ghost start = counts@;
    assert(objs@.take(0) =~= Seq::<SQObject>::empty());
    let mut i: usize = 0;
    while i < objs.len()
        invariant
            i <= objs.len(),
            can_increment_all(start, objs@),
            counts@ == incremented_all(start, objs@.take(i as int)),
        decreases objs.len() - i,
    {
        proof {
            lemma_incremented_all_next(start, objs@, i as int);
        }
        increment_ref_sqobject(objs[i], counts);
        i += 1;
    }
    assert(objs@.take(objs.len() as int) =~= objs@);
}

/// The strings from `from` up to `to`.
fn copied(strings: &Vec<SQObject>, from: usize, to: usize) -> (r: Vec<SQObject>)
    requires
        from <= to <= strings.len(),
    ensures
        r@ == strings@.subrange(from as int, to as int),
{
    let mut r: Vec<SQObject> = Vec::new();
    let mut i: usize = from;
    while i < to
        invariant
            from <= i <= to <= strings.len(),
            r@ == strings@.subrange(from as int, i as int),
        decreases to - i,
    {
        r.push(strings[i]);
        i += 1;
        assert(r@ =~= strings@.subrange(from as int, i as int));
    }
    r
}

fn local_total(n_parameters: i32, created: &CreatedProto) -> (total: u32)
    ensures
        total == local_count(n_parameters, *created),
{
    if n_parameters <= 0 {
        0
    } else if (n_parameters as u32) < created.locals {
        n_parameters as u32
    } else {
        created.locals
    }
}

/// The local variables of a trampoline.
fn locals_for(parameters: &Vec<SQObject>, n: i32, created: &CreatedProto) -> (locals: Vec<
    SQLocalVarInfo,
>)
    requires
        created.instructions > 0,
    ensures
        locals@ == local_vars(parameters@, n, *created),
{
    let mut locals: Vec<SQLocalVarInfo> = Vec::new();
    let total = local_total(n, created);
    let last_op: i32 = #[verifier::truncate] ((created.instructions - 1) as i32);
    let mut k: u32 = 0;
    while k < total
        invariant
            k <= total,
            n > 0 || total == 0,
            total == local_count(n, *created),
            last_op == (created.instructions - 1) as i32,
            locals@ == Seq::new(
                k as nat,
                |j: int| local_var(parameters@, created.instructions, n - 1 - j),
            ),
        decreases total - k,
    {
        let stackpos: i32 = n - 1 - k as i32;
        let name = if (stackpos as usize) < parameters.len() {
            parameters[stackpos as usize]
        } else {
            null_sq_object()
        };
        locals.push(
            SQLocalVarInfo {
                name,
                type_descriptor: TypeDescriptor {
                    group: SQTypeGroup::TyPrimitive,
                    type_hash: 42391,
                    prim_type: SQObjectType::OT_NULL,
                },
                start_op: 0,
                end_op: last_op,
                stackpos,
                dword24: -1,
            },
        );
        k += 1;
        assert(locals@ =~= Seq::new(
            k as nat,
            |j: int| local_var(parameters@, created.instructions, n - 1 - j),
        ));
    }
    locals
}

/// Lists the references that `finish_trampoline` counts, given a string for each text.
pub fn references_to_count(draft: &TrampolineDraft, strings: &Vec<SQObject>) -> (refs: Vec<
    SQObject,
>)
    requires
        has_strings(draft.created, strings.len() as nat),
        draft.created.has_literals ==> draft.created.instructions > 0,
    ensures
        refs@ == counted_references(strings@, draft.n_parameters, draft.created),
{
    let mut refs: Vec<SQObject> = Vec::new();
    refs.push(strings[0]);
    if !draft.created.has_literals {
        assert(refs@ =~= seq![strings[0]]);
        return refs;
    }
    let count = draft.created.parameters as usize;
    let first: usize = if count == 0 {
        0
    } else {
        1
    };
    let parameters = copied(strings, 1, 1 + count);
    let mut but_this = copied(&parameters, first, count);
    refs.append(&mut but_this);
    let locals = locals_for(&parameters, draft.n_parameters, &draft.created);
    let ghost head = refs@;
    let ghost names = local_names(parameters@, draft.n_parameters, draft.created);
    let mut k: usize = 0;
    while k < locals.len()
        invariant
            k <= locals.len(),
            locals@ == local_vars(parameters@, draft.n_parameters, draft.created),
            names == local_names(parameters@, draft.n_parameters, draft.created),
            refs@ == head + names.take(k as int),
        decreases locals.len() - k,
    {
        refs.push(locals[k].name);
        k += 1;
        assert(names.take(k as int) =~= names.take(k - 1).push(names[k - 1]));
        assert(refs@ =~= head + names.take(k as int));
    }
    refs.push(strings[1 + count]);
    refs.push(strings[2 + count]);
    assert(refs@ =~= trampoline_references(strings@, draft.n_parameters, draft.created));
    refs
}

/// Goes on once the string table has given a string for each text: puts the trampoline together and
/// counts the references that it holds. A reference to the function id is counted also where there
/// is no room for it.
pub fn finish_trampoline(
    draft: &TrampolineDraft,
    strings: &Vec<SQObject>,
    counts: &mut RefCounts,
) -> (r: Result<TrampolineParts, &'static str>)
    requires
        has_strings(draft.created, strings.len() as nat),
        draft.created.has_literals ==> draft.created.instructions > 0,
        can_increment_all(
            old(counts)@,
            counted_references(strings@, draft.n_parameters, draft.created),
        ),
    ensures
        r is Ok <==> draft.created.has_literals,
        r matches Err(err) ==> err@ == "sqfunctionproto_create failed to allocate literals"@,
        r matches Ok(parts) ==> {
            &&& parts.literal == strings[0]
            &&& parts.parameters@ == strings@.subrange(1, 1 + draft.created.parameters)
            &&& parts.locals@ == local_vars(parts.parameters@, draft.n_parameters, draft.created)
            &&& parts.func_name == strings[1 + draft.created.parameters]
            &&& parts.file_name == strings[2 + draft.created.parameters]
        },
        final(counts)@ == incremented_all(
            old(counts)@,
            counted_references(strings@, draft.n_parameters, draft.created),
        ),
{
    let refs = references_to_count(draft, strings);
    count_references(&refs, counts);
    if !draft.created.has_literals {
        return Err("sqfunctionproto_create failed to allocate literals");
    }
    let count = draft.created.parameters as usize;
    let parameters = copied(strings, 1, 1 + count);
    let locals = locals_for(&parameters, draft.n_parameters, &draft.created);
    Ok(
        TrampolineParts {
            literal: strings[0],
            parameters,
            locals,
            func_name: strings[1 + count],
            file_name: strings[2 + count],
        },
    )
}

/// The places of a trampoline that hold a string: the literal, the parameters, the names of the
/// local variables, and the names of the function and its file.
pub open spec fn string_places(
    strings: Seq<SQObject>,
    n_parameters: i32,
    created: CreatedProto,
) -> Seq<SQObject> {
    let parameters = strings.subrange(1, 1 + created.parameters);
    seq![strings[0]] + parameters + local_names(parameters, n_parameters, created) + seq![
        strings[1 + created.parameters],
        strings[2 + created.parameters],
    ]
}

proof fn lemma_references_to_add(left: Seq<SQObject>, right: Seq<SQObject>, addr: u64)
    ensures
        references_to(left + right, addr) == references_to(left, addr) + references_to(right, addr),
{
    let pred = |obj: SQObject| count_addr(obj) == Some(addr);
    Seq::filter_distributes_over_add(left, right, pred);
}

/// A trampoline counts every string that it holds: together with the reference that came with each
/// string, a string has at least as many references as there are places that hold it.
pub proof fn law_trampoline_counts_its_strings(
    strings: Seq<SQObject>,
    n_parameters: i32,
    created: CreatedProto,
    addr: u64,
)
    requires
        strings.len() == 3 + created.parameters,
    ensures
        references_to(strings, addr) + references_to(
            trampoline_references(strings, n_parameters, created),
            addr,
        ) >= references_to(string_places(strings, n_parameters, created), addr),
{
    let parameters = strings.subrange(1, 1 + created.parameters);
    let names = local_names(parameters, n_parameters, created);
    let first = seq![strings[0]];
    let last = seq![strings[1 + created.parameters], strings[2 + created.parameters]];
    let skipped: int = if created.parameters == 0 {
        0
    } else {
        1
    };
    let head = parameters.take(skipped);
    let tail = parameters.skip(skipped);
    assert(strings =~= first + parameters + last);
    assert(parameters =~= head + tail);
    lemma_references_to_add(first + parameters, last, addr);
    lemma_references_to_add(first, parameters, addr);
    lemma_references_to_add(head, tail, addr);
    lemma_references_to_add(first + parameters + names, last, addr);
    lemma_references_to_add(first + parameters, names, addr);
    lemma_references_to_add(first + tail + names, last, addr);
    lemma_references_to_add(first + tail, names, addr);
    lemma_references_to_add(first, tail, addr);
}

/// `prefix1,prefix2,...` up to `prefix` and the number `count`.
pub open spec fn numbered_list(prefix: Seq<char>, count: nat) -> Seq<char>
    decreases count,
{
    if count == 0 {
        Seq::empty()
    } else if count == 1 {
        prefix + decimal(1)
    } else {
        numbered_list(prefix, (count - 1) as nat) + ","@ + prefix + decimal(count)
    }
}

/// The arguments that the source of a trampoline spells out.
pub open spec fn spelled_args(n_parameters: i32) -> nat {
    if n_parameters <= 1 {
        0
    } else {
        (n_parameters - 1) as nat
    }
}

/// The script source of a trampoline.
pub open spec fn trampoline_source_of(
    n_parameters: i32,
    function_id: Seq<char>,
    trampoline_name: Seq<char>,
) -> Seq<char> {
    "__EXTRACT(var function ("@ + numbered_list("var a"@, spelled_args(n_parameters))
        + ") {return "@ + trampoline_name + "(\""@ + function_id + (if n_parameters == 1 {
        "\"  "@
    } else {
        "\", "@
    }) + numbered_list("a"@, spelled_args(n_parameters)) + ")})"@
}

fn numbered(prefix: &str, n_parameters: i32) -> (list: String)
    ensures
        list@ == numbered_list(prefix@, spelled_args(n_parameters)),
{
    let mut list = String::new();
    let mut i: i32 = 1;
    while i < n_parameters
        invariant
            1 <= i,
            i <= n_parameters || i == 1,
            list@ == numbered_list(prefix@, (i - 1) as nat),
        decreases n_parameters - i,
    {
        let number = decimal_text(i as u64);
        if i > 1 {
            list.append(",");
        }
        list.append(prefix);
        list.append(number.as_str());
        i += 1;
        assert(list@ =~= numbered_list(prefix@, (i - 1) as nat));
    }
    list
}

/// Writes the script source that, once it is compiled and run, hands a trampoline to `__EXTRACT`.
pub fn trampoline_source(n_parameters: i32, function_id: &str, trampoline_name: &str) -> (code:
    String)
    ensures
        code@ == trampoline_source_of(n_parameters, function_id@, trampoline_name@),
{
    let args = numbered("var a", n_parameters);
    let args_untyped = numbered("a", n_parameters);
    let mut code = String::from_str("__EXTRACT(var function (");
    code.append(args.as_str());
    code.append(") {return ");
    code.append(trampoline_name);
    code.append("(\"");
    code.append(function_id);
    if n_parameters == 1 {
        code.append("\"  ");
    } else {
        code.append("\", ");
    }
    code.append(args_untyped.as_str());
    code.append(")})");
    code
}

/// A trampoline that was compiled from source: the addresses of its closure and its function, and
/// their reference counts.
#[derive(Clone, Copy, Debug, PartialEq, Eq, Structural)]
pub struct CompiledTrampoline {
    pub closure: u64,
    pub closure_ref: i32,
    pub proto: u64,
    pub proto_ref: i32,
}

/// Why there is no trampoline that was compiled from source.
pub open spec fn extraction_error(
    compiled: bool,
    table_made: bool,
    extracted: Option<u64>,
    closure: FuncObject,
) -> Option<Seq<char>> {
    if !compiled {
        Some("failed to compile trampoline"@)
    } else if !table_made {
        Some("failed to create tmp table"@)
    } else if extracted is None {
        Some("found none sqclosure sqobject"@)
    } else if extracted == Some(0u64) {
        Some("found null sqclosure sqobject"@)
    } else {
        match func_proto_of(closure) {
            Err(err) => Some(err),
            Ok(_) => None,
        }
    }
}

/// Picks up the trampoline whose source was compiled and run. `compiled` and `table_made` say
/// whether that and the new table succeeded, `extracted` is what `__EXTRACT` was handed, and
/// `closure` and `closure_ref` are what stands there.
pub fn _compile_trampoline(
    compiled: bool,
    table_made: bool,
    extracted: &mut Option<u64>,
    closure: &FuncObject,
    closure_ref: i32,
) -> (r: Result<CompiledTrampoline, &'static str>)
    requires
        extraction_error(compiled, table_made, *old(extracted), *closure) is None ==> closure_ref
            < i32::MAX && func_proto_of(*closure)->Ok_0.ui_ref < i32::MAX,
    ensures
        r is Ok <==> extraction_error(compiled, table_made, *old(extracted), *closure) is None,
        r matches Err(err) ==> extraction_error(compiled, table_made, *old(extracted), *closure)
            == Some(err@),
        *final(extracted) == (if compiled && table_made {
            None
        } else {
            *old(extracted)
        }),
        r matches Ok(trampoline) ==> {
            let proto = func_proto_of(*closure)->Ok_0;
            &&& *old(extracted) == Some(trampoline.closure)
            &&& trampoline.closure_ref == closure_ref + 1
            &&& trampoline.proto == proto.addr
            &&& trampoline.proto_ref == proto.ui_ref + 1
        },
{
    if !compiled {
        return Err("failed to compile trampoline");
    }
    if !table_made {
        return Err("failed to create tmp table");
    }
    match extracted.take() {
        None => Err("found none sqclosure sqobject"),
        Some(addr) => {
            if addr == 0 {
                return Err("found null sqclosure sqobject");
            }
            match as_func_proto(closure) {
                Err(err) => Err(err),
                Ok(proto) => Ok(
                    CompiledTrampoline {
                        closure: addr,
                        closure_ref: closure_ref + 1,
                        proto: proto.addr,
                        proto_ref: proto.ui_ref + 1,
                    },
                ),
            }
        },
    }
}

/// A trampoline has the parameters of the function that it stands for: the function that the engine
/// is asked for has as many parameters, and as many local variables, as the hooked one. It has room
/// for the function id and for the function that it calls, and nothing beside.
pub proof fn law_request_keeps_parameters(context: ScriptContext, n_parameters: i32)
    ensures
        ({
            let request = proto_request(context, n_parameters);
            &&& request.parameters == n_parameters
            &&& request.locals == n_parameters
            &&& request.literals == 1
            &&& request.functions == 1
            &&& request.unknown_c8 == 0
            &&& request.outer_vars == 0
            &&& request.line_infos == 0
            &&& request.default_params == 0
            &&& request.param_11 == 0
            &&& request.instructions == instruction_count(n_parameters)
            &&& request.engine == WhichDll::Server <==> context == ScriptContext::SERVER
            &&& request.engine == WhichDll::Client <==> context != ScriptContext::SERVER
        }),
{
}

/// A trampoline takes a load, a call and a return, and one move for every two arguments, the last
/// of which may go alone.
pub proof fn law_instruction_count(n_parameters: i32)
    ensures
        n_parameters >= 1 ==> {
            let moves = instruction_count(n_parameters) - 3;
            n_parameters - 1 <= 2 * moves <= n_parameters
        },
        i32::MIN < n_parameters <= 0 ==> {
            let missing = 3 - instruction_count(n_parameters);
            1 - n_parameters <= 2 * missing <= 2 - n_parameters
        },
        i32::MIN <= instruction_count(n_parameters) <= i32::MAX,
{
}

/// A trampoline is asked for exactly where the function has neither default parameters nor outer
/// values, the native function is there and the function id can be a C string; otherwise the first
/// of these that fails is told.
pub proof fn law_which_functions_get_a_trampoline(
    org: ProtoShape,
    native: Option<u64>,
    function_id: Seq<char>,
)
    ensures
        request_error(org, native, function_id) is None <==> org.n_default_params <= 0
            && org.other_var_info_size <= 0 && native is Some && forall|i: int|
            0 <= i < function_id.len() ==> #[trigger] function_id[i] != '\0',
        org.n_default_params > 0 ==> request_error(org, native, function_id) == Some(
            "default params are unsupported"@,
        ),
        org.n_default_params <= 0 && org.other_var_info_size > 0 ==> request_error(
            org,
            native,
            function_id,
        ) == Some("outer values are unsupported"@),
        org.n_default_params <= 0 && org.other_var_info_size <= 0 && native is None
            ==> request_error(org, native, function_id) == Some(
            "couldn't find the native trampoline function!"@,
        ),
        org.n_default_params <= 0 && org.other_var_info_size <= 0 && native is Some
            && function_id.contains('\0') ==> request_error(org, native, function_id) == Some(
            "failed to convert trampoline_name to a cstring"@,
        ),
{
    if function_id.contains('\0') {
        let i = choose|i: int| 0 <= i < function_id.len() && function_id[i] == '\0';
        assert(function_id[i] == '\0');
    }
}

/// Slots hold a trampoline exactly where there are two for the call and the return, a third one where
/// an argument is moved alone, and every slot number that is written down can be computed.
pub proof fn law_which_slots_hold_a_trampoline(n: i32, len: int)
    ensures
        can_fill(n, len) <==> {
            &&& len >= 2
            &&& n != i32::MAX
            &&& n as i16 != i16::MAX
            &&& n >= 2 && n % 2 == 0 ==> len >= 3 && 2 * n <= i32::MAX
            &&& forall|i: int| 1 <= i < len && #[trigger] (2 * i) < n ==> n + 2 * i < i32::MAX
        },
{
    if can_fill(n, len) {
        assert forall|i: int| 1 <= i < len && #[trigger] (2 * i) < n implies n + 2 * i
            < i32::MAX by {
            assert(pair_end(n, i - 1) <= i32::MAX);
        }
    }
    if forall|i: int| 1 <= i < len && #[trigger] (2 * i) < n ==> n + 2 * i < i32::MAX {
        assert forall|i: int| 1 <= i < len && i <= pair_count(n) implies #[trigger] pair_end(
            n,
            i - 1,
        ) <= i32::MAX by {
            assert((2 * i) < n);
        }
    }
}

/// Enough slots hold a trampoline: as many as it asks for, or more, unless a number in it gets too
/// great.
pub proof fn law_more_slots_hold_a_trampoline(n: i32, len: int)
    requires
        len >= 3,
        2 * n <= i32::MAX,
        n as i16 != i16::MAX,
    ensures
        can_fill(n, len),
{
    assert forall|i: int| 1 <= i < len && i <= pair_count(n) implies #[trigger] pair_end(n, i - 1)
        <= i32::MAX by {
        assert(2 * i <= n - 1);
    }
}

/// What each slot of a trampoline holds. The slot `i` moves the arguments `2 * i - 1` and `2 * i`,
/// while there are such; where the number of parameters is even, the third slot from the end moves
/// the last argument; the last slots return and call, and the first one loads the function id. What
/// comes first in this list wins where two of them meet.
pub proof fn law_slots_of_a_trampoline(n: i32, len: nat, i: int)
    requires
        can_fill(n, len as int),
        0 <= i < len,
    ensures
        ({
            let slot = instructions_of(n, len)[i];
            let alone = n >= 2 && n % 2 == 0 && i == len - 3;
            let pair = !alone && i >= 1 && 2 * i < n;
            &&& instructions_of(n, len).len() == len
            &&& alone ==> (slot matches Some(ins) && {
                &&& ins.op == SQOpCodes::OP_MOVE
                &&& ins.arg1 == n - 1
                &&& ins.output == 2 * n
                &&& ins.arg2 == 0
                &&& ins.arg3 == 0
            })
            &&& pair ==> (slot matches Some(ins) && {
                &&& ins.op == SQOpCodes::OP_DMOVE
                &&& ins.arg1 == 2 * i - 1
                &&& ins.output == n + 2 * i
                &&& ins.arg2 == (n + 2 * i + 1) as i16
                &&& ins.arg3 == (2 * i) as i16
            })
            &&& !alone && !pair && i == len - 1 ==> (slot matches Some(ins) && {
                &&& ins.op == SQOpCodes::OP_RETURN
                &&& ins.arg1 == n
                &&& ins.output == 1
                &&& ins.arg2 == 0
                &&& ins.arg3 == 0
            })
            &&& !alone && !pair && i == len - 2 ==> (slot matches Some(ins) && {
                &&& ins.op == SQOpCodes::OP_FASTCALL_NATIVE
                &&& ins.arg1 == 0
                &&& ins.output == n
                &&& ins.arg2 == n as i16
                &&& ins.arg3 == ins.arg2 + 1
            })
            &&& !alone && !pair && i == 0 && len > 2 ==> (slot matches Some(ins) && {
                &&& ins.op == SQOpCodes::OP_LOAD
                &&& ins.arg1 == 0
                &&& ins.output == n + 1
                &&& ins.arg2 == 0
                &&& ins.arg3 == 0
            })
            &&& !alone && !pair && 0 < i < len - 2 ==> slot is None
        }),
{
    let slot = instructions_of(n, len)[i];
    assert(slot == instruction_at(n, len as int, i));
    if i >= 1 && 2 * i < n {
        assert(pair_end(n, i - 1) <= i32::MAX);
        assert(2 + n + 2 * (i - 1) + 1 == n + 2 * i + 1);
        assert(2 + 2 * (i - 1) == 2 * i);
    }
}

/// A function that the engine gave becomes a trampoline exactly where there is room for the function
/// that it calls and the VM has its shared state; that function is the native one that was found.
pub proof fn law_which_functions_are_filled(created: CreatedProto, hook_call: u64)
    ensures
        created_of(Some(&created)) == Some(created),
        created_of(None) is None,
        fill_error(Some(created)) is None <==> created.has_functions && created.has_shared_state,
        !created.has_functions ==> fill_error(Some(created)) == Some(
            "sqfunctionproto_create failed to allocate functions"@,
        ),
        created.has_functions && !created.has_shared_state ==> fill_error(Some(created)) == Some(
            "no shared state"@,
        ),
        fill_error(None) == Some("sqfunctionproto_create returned a null proto func"@),
        called_function(None, hook_call) is None,
        called_function(Some(created), hook_call) is Some <==> created.has_functions,
        called_function(Some(created), hook_call) matches Some(obj) ==> {
            &&& obj.ty == SQObjectType::OT_NATIVECLOSURE
            &&& obj.struct_number == 0
            &&& obj.val == hook_call
        },
{
}

/// The string table is asked for the function id first, then for a name for each parameter, and for
/// the names of the function and its file; where there is no room for the function id, for it alone.
pub proof fn law_texts_of_a_trampoline(function_id: Seq<char>, created: CreatedProto)
    ensures
        ({
            let texts = trampoline_texts(function_id, created);
            &&& texts[0] == function_id
            &&& has_strings(created, texts.len())
            &&& !created.has_literals ==> texts.len() == 1
            &&& created.has_literals ==> {
                &&& texts.len() == created.parameters + 3
                &&& created.parameters > 0 ==> texts[1] == "this"@
                &&& forall|i: int|
                    1 <= i < created.parameters ==> #[trigger] texts[1 + i] == "param"@ + decimal(
                        i as nat,
                    )
                &&& texts[texts.len() - 2] == "TRAMPOLINE"@
                &&& texts[texts.len() - 1] == "sqhooks/src/utils.rs"@
            }
        }),
{
}

/// No two parameters have the same name.
pub proof fn law_parameter_names_differ(i: int, j: int)
    requires
        0 <= i < j,
    ensures
        parameter_name(i) != parameter_name(j),
{
    reveal_strlit("this");
    reveal_strlit("param");
    if i == 0 {
        assert(parameter_name(j)[0] == 'p');
    } else {
        law_decimal_reads_back(i as nat);
        law_decimal_reads_back(j as nat);
        assert(parameter_name(i).skip(5) =~= decimal(i as nat));
        assert(parameter_name(j).skip(5) =~= decimal(j as nat));
    }
}

/// The local variables of a trampoline are its parameters from the last one on, each under its name
/// and in its slot, in scope of all the instructions; there are as many as there are parameters and
/// room.
pub proof fn law_locals_are_the_parameters(
    parameters: Seq<SQObject>,
    n_parameters: i32,
    created: CreatedProto,
    k: int,
)
    requires
        0 < created.instructions <= i32::MAX,
    ensures
        ({
            let locals = local_vars(parameters, n_parameters, created);
            &&& n_parameters <= 0 ==> locals.len() == 0
            &&& n_parameters > 0 ==> locals.len() <= n_parameters && locals.len() <= created.locals
                && (locals.len() == n_parameters || locals.len() == created.locals)
            &&& 0 <= k < locals.len() ==> {
                let local = locals[k];
                &&& local.stackpos + k + 1 == n_parameters
                &&& local.stackpos < parameters.len() ==> local.name
                    == parameters[local.stackpos as int]
                &&& local.stackpos >= parameters.len() ==> local.name.ty == SQObjectType::OT_NULL
                    && local.name.val == 0
                &&& local.start_op == 0
                &&& local.end_op == created.instructions - 1
                &&& local.dword24 == -1
                &&& local.type_descriptor.type_hash == 42391
                &&& local.type_descriptor.prim_type == SQObjectType::OT_NULL
                &&& local_names(parameters, n_parameters, created)[k] == local.name
            }
            &&& local_names(parameters, n_parameters, created).len() == locals.len()
        }),
{
}

/// Beside the reference that came with each string, a trampoline counts one for each string but
/// `this` and one for the name of each local variable; and only the function id where there is no
/// room for it.
pub proof fn law_references_of_a_trampoline(
    strings: Seq<SQObject>,
    n_parameters: i32,
    created: CreatedProto,
    addr: u64,
)
    requires
        has_strings(created, strings.len()),
    ensures
        created.has_literals ==> references_to(
            counted_references(strings, n_parameters, created),
            addr,
        ) + (if created.parameters > 0 && count_addr(strings[1]) == Some(addr) {
            1int
        } else {
            0
        }) == references_to(strings, addr) + references_to(
            local_names(strings.subrange(1, 1 + created.parameters), n_parameters, created),
            addr,
        ),
        !created.has_literals ==> counted_references(strings, n_parameters, created)
            == seq![strings[0]],
{
    if created.has_literals {
        let parameters = strings.subrange(1, 1 + created.parameters);
        let names = local_names(parameters, n_parameters, created);
        let first = seq![strings[0]];
        let last = seq![strings[1 + created.parameters], strings[2 + created.parameters]];
        let skipped: int = if created.parameters == 0 {
            0
        } else {
            1
        };
        let head = parameters.take(skipped);
        let tail = parameters.skip(skipped);
        assert(strings =~= first + parameters + last);
        assert(parameters =~= head + tail);
        lemma_references_to_add(first + parameters, last, addr);
        lemma_references_to_add(first, parameters, addr);
        lemma_references_to_add(head, tail, addr);
        lemma_references_to_add(first + tail + names, last, addr);
        lemma_references_to_add(first + tail, names, addr);
        lemma_references_to_add(first, tail, addr);
        law_references_add_up(Seq::empty(), strings[1], addr);
        if created.parameters == 0 {
            assert(head =~= Seq::empty());
        } else {
            assert(head =~= Seq::empty().push(strings[1]));
        }
    }
}

/// A list of numbered arguments grows by a comma and the next one; a single one has no comma.
pub proof fn law_numbered_lists_grow(prefix: Seq<char>, count: nat)
    ensures
        numbered_list(prefix, 0).len() == 0,
        numbered_list(prefix, 1) == prefix + decimal(1),
        count >= 1 ==> numbered_list(prefix, count + 1) == numbered_list(prefix, count) + ","@
            + prefix + decimal(count + 1),
{
}

/// The source of a trampoline is a function of all the arguments but the root table, which calls the
/// native function with the function id and these same arguments.
pub proof fn law_source_of_a_trampoline(
    n_parameters: i32,
    function_id: Seq<char>,
    trampoline_name: Seq<char>,
)
    ensures
        n_parameters > 1 ==> trampoline_source_of(n_parameters, function_id, trampoline_name)
            == "__EXTRACT(var function ("@ + numbered_list("var a"@, (n_parameters - 1) as nat)
            + ") {return "@ + trampoline_name + "(\""@ + function_id + "\", "@ + numbered_list(
            "a"@,
            (n_parameters - 1) as nat,
        ) + ")})"@,
        n_parameters == 1 ==> trampoline_source_of(n_parameters, function_id, trampoline_name)
            == "__EXTRACT(var function ("@ + ") {return "@ + trampoline_name + "(\""@ + function_id
            + "\"  "@ + ")})"@,
        n_parameters < 1 ==> trampoline_source_of(n_parameters, function_id, trampoline_name)
            == "__EXTRACT(var function ("@ + ") {return "@ + trampoline_name + "(\""@ + function_id
            + "\", "@ + ")})"@,
{
    if n_parameters <= 1 {
        let start = "__EXTRACT(var function ("@;
        assert(start + Seq::empty() =~= start);
        let head = start + ") {return "@ + trampoline_name + "(\""@ + function_id;
        assert(head + "\"  "@ + Seq::empty() =~= head + "\"  "@);
        assert(head + "\", "@ + Seq::empty() =~= head + "\", "@);
    }
}

/// A trampoline that was compiled from source is there exactly where its source compiled, the table
/// was made, a closure was handed over, and that leads to a function.
pub proof fn law_which_sources_give_a_trampoline(
    compiled: bool,
    table_made: bool,
    extracted: Option<u64>,
    closure: FuncObject,
)
    ensures
        extraction_error(compiled, table_made, extracted, closure) is None <==> compiled
            && table_made && (extracted matches Some(addr) && addr != 0) && func_proto_of(closure)
            is Ok,
        !compiled ==> extraction_error(compiled, table_made, extracted, closure) == Some(
            "failed to compile trampoline"@,
        ),
        compiled && !table_made ==> extraction_error(compiled, table_made, extracted, closure)
            == Some("failed to create tmp table"@),
        compiled && table_made && extracted is None ==> extraction_error(
            compiled,
            table_made,
            extracted,
            closure,
        ) == Some("found none sqclosure sqobject"@),
        compiled && table_made && extracted == Some(0u64) ==> extraction_error(
            compiled,
            table_made,
            extracted,
            closure,
        ) == Some("found null sqclosure sqobject"@),
        compiled && table_made && (extracted matches Some(addr) && addr != 0) ==> (func_proto_of(
            closure,
        ) matches Err(err) ==> extraction_error(compiled, table_made, extracted, closure) == Some(
            err,
        )),
{
}

/// The views of a list of strings are those of each of them, in their order.
pub proof fn law_text_views(texts: Seq<String>)
    ensures
        text_views(texts).len() == texts.len(),
        forall|i: int| 0 <= i < texts.len() ==> #[trigger] text_views(texts)[i] == texts[i]@,
{
}

} // verus!
