//! What a trampoline does when the engine runs it.

use vstd::prelude::*;

use crate::squirrel::ScriptContext;
use crate::trampoline::{
    arg_count, can_fill, has_last, instruction_at, instruction_count, instructions_of, move_last,
    move_pair, pair_count, pair_end, proto_request,
};
use crate::trampoline::{SQInstruction, SQOpCodes};

verus! {

/// What a stack slot holds: what the slot `Entry` held when the function was entered, or the
/// literal with that number.
pub enum Content {
    Entry(int),
    Literal(int),
}

/// The stack when a function is entered. The slot 0 holds the root table, the slots from 1 on hold
/// the arguments.
pub open spec fn entered() -> Map<int, Content> {
    Map::total(|slot: int| Content::Entry(slot))
}

/// The stack after one of the instructions that fill it: `OP_LOAD` writes the literal `arg1` to
/// `output`, `OP_MOVE` copies the slot `arg1` to `output`, and `OP_DMOVE` then also copies `arg3`
/// to `arg2`.
pub open spec fn executed(stack: Map<int, Content>, ins: SQInstruction) -> Map<int, Content> {
    match ins.op {
        SQOpCodes::OP_LOAD => stack.insert(ins.output as int, Content::Literal(ins.arg1 as int)),
        SQOpCodes::OP_MOVE => stack.insert(ins.output as int, stack[ins.arg1 as int]),
        SQOpCodes::OP_DMOVE => {
            let first = stack.insert(ins.output as int, stack[ins.arg1 as int]);
            first.insert(ins.arg2 as int, first[ins.arg3 as int])
        },
        SQOpCodes::OP_FASTCALL_NATIVE => stack,
        SQOpCodes::OP_RETURN => stack,
    }
}

/// The stack after a stretch of code.
pub open spec fn run(stack: Map<int, Content>, code: Seq<Option<SQInstruction>>) -> Map<int, Content>
    decreases code.len(),
{
    if code.len() == 0 {
        stack
    } else {
        let before = run(stack, code.drop_last());
        match code.last() {
            Some(ins) => executed(before, ins),
            None => before,
        }
    }
}

/// The number of slots that a trampoline asks for holds it, and none of them is left unwritten.
pub proof fn law_requested_slots_suffice(n: i32)
    requires
        -1 <= n,
        2 * n <= i32::MAX,
        (n as i16) < i16::MAX,
    ensures
        can_fill(n, instruction_count(n)),
        forall|i: int|
            0 <= i < instruction_count(n) ==> (#[trigger] instructions_of(
                n,
                instruction_count(n) as nat,
            )[i]) is Some,
{
    let args = arg_count(n);
    assert(args == n - 1);
    assert(args > 0 ==> pair_count(n) == args / 2);
    assert forall|i: int| 1 <= i < instruction_count(n) && i <= pair_count(n) implies #[trigger]
    pair_end(n, i - 1) <= i32::MAX by {
        assert(2 * i <= args);
    }
}

/// Once the load and the moves of `pairs` pairs have run, the slots of the parameters are as they
/// were, and the function id and these arguments stand behind the return slot.
proof fn lemma_pairs_moved(n: i32, len: int, pairs: int)
    requires
        1 <= n <= 16384,
        len == instruction_count(n),
        0 <= pairs <= pair_count(n),
    ensures
        ({
            let stack = run(entered(), instructions_of(n, len as nat).take(1 + pairs));
            &&& forall|i: int| 0 <= i < n ==> #[trigger] stack[i] == Content::Entry(i)
            &&& stack[n + 1] == Content::Literal(0)
            &&& forall|i: int|
                0 <= i < 2 * pairs ==> #[trigger] stack[n + 2 + i] == Content::Entry(1 + i)
        }),
    decreases pairs,
{
    let code = instructions_of(n, len as nat);
    let prefix = code.take(1 + pairs);
    assert(prefix.drop_last() =~= code.take(pairs));
    if pairs == 0 {
        assert(code.take(0) =~= Seq::empty());
        assert(run(entered(), code.take(0)) == entered());
        assert(prefix.last() == instruction_at(n, len, 0));
    } else {
        lemma_pairs_moved(n, len, pairs - 1);
        let before = run(entered(), code.take(pairs));
        assert(prefix.last() == instruction_at(n, len, pairs));
        assert(2 * pairs <= n - 1);
        assert(!(has_last(n) && pairs == len - 3));
        let ins = move_pair(n, pairs - 1);
        assert(prefix.last() == Some(ins));
        assert(ins.arg1 == 2 * pairs - 1);
        assert(ins.output == n + 2 * pairs);
        assert(ins.arg2 == n + 2 * pairs + 1);
        assert(ins.arg3 == 2 * pairs);
        let stack = run(entered(), prefix);
        assert(stack == executed(before, ins));
        assert forall|i: int| 0 <= i < 2 * pairs implies #[trigger] stack[n + 2 + i]
            == Content::Entry(1 + i) by {
            if i < 2 * (pairs - 1) {
                assert(before[n + 2 + i] == Content::Entry(1 + i));
            }
        }
    }
}

/// A trampoline hands everything on. When it comes to its call, the slots from `n` on, which the
/// call takes, hold the place of the result, the function id and then all the arguments in their
/// order; and it returns what the call gave.
///
/// Beyond 16384 parameters the slots of the arguments no longer fit into an instruction.
pub proof fn law_trampoline_forwards(n: i32)
    requires
        1 <= n <= 16384,
    ensures
        ({
            let len = instruction_count(n);
            let code = instructions_of(n, len as nat);
            let stack = run(entered(), code.take(len - 2));
            &&& code[len - 2] matches Some(call) && {
                &&& call.op == SQOpCodes::OP_FASTCALL_NATIVE
                &&& call.arg1 == 0
                &&& call.arg2 == n
                &&& call.arg3 == n + 1
                &&& code[len - 1] matches Some(ret) && {
                    &&& ret.op == SQOpCodes::OP_RETURN
                    &&& ret.arg1 == call.output
                }
            }
            &&& stack[n + 1] == Content::Literal(0)
            &&& forall|i: int|
                0 <= i < arg_count(n) ==> #[trigger] stack[n + 2 + i] == Content::Entry(1 + i)
        }),
{
    let len = instruction_count(n);
    let code = instructions_of(n, len as nat);
    let pairs = pair_count(n);
    let args = arg_count(n);
    assert(args == n - 1);
    assert(pairs == args / 2);
    lemma_pairs_moved(n, len, pairs);
    if has_last(n) {
        assert(len == 4 + pairs);
        let prefix = code.take(len - 2);
        assert(prefix.drop_last() =~= code.take(1 + pairs));
        assert(prefix.last() == Some(move_last(n)));
        let before = run(entered(), code.take(1 + pairs));
        let stack = run(entered(), prefix);
        assert(stack == executed(before, move_last(n)));
        assert(before[n - 1] == Content::Entry(n - 1));
        assert(args == 2 * pairs + 1);
        assert forall|i: int| 0 <= i < args implies #[trigger] stack[n + 2 + i] == Content::Entry(
            1 + i,
        ) by {
            if i < 2 * pairs {
                assert(before[n + 2 + i] == Content::Entry(1 + i));
            }
        }
    } else {
        assert(len == 3 + pairs);
        assert(args == 2 * pairs);
    }
}

/// The code that is written from a request forwards every argument of the hooked function: before
/// the call, each of its `org_parameters - 1` arguments stands behind the function id, in its order.
pub proof fn law_request_forwards_all_arguments(context: ScriptContext, org_parameters: i32)
    requires
        1 <= org_parameters <= 16384,
    ensures
        ({
            let request = proto_request(context, org_parameters);
            let len = request.instructions as int;
            let code = instructions_of(request.parameters, len as nat);
            let stack = run(entered(), code.take(len - 2));
            &&& can_fill(request.parameters, len)
            &&& code[len - 2] matches Some(call) && {
                &&& call.op == SQOpCodes::OP_FASTCALL_NATIVE
                &&& call.output == org_parameters
                &&& call.arg2 == org_parameters
                &&& call.arg3 == org_parameters + 1
            }
            &&& code[len - 1] matches Some(ret) && {
                &&& ret.op == SQOpCodes::OP_RETURN
                &&& ret.arg1 == org_parameters
                &&& ret.output == 1
            }
            &&& stack[org_parameters + 1] == Content::Literal(0)
            &&& forall|arg: int|
                1 <= arg < org_parameters ==> #[trigger] stack[org_parameters + 1 + arg]
                    == Content::Entry(arg)
        }),
{
    let n = org_parameters;
    law_requested_slots_suffice(n);
    law_trampoline_forwards(n);
    let len = instruction_count(n);
    let stack = run(entered(), instructions_of(n, len as nat).take(len - 2));
    assert forall|arg: int| 1 <= arg < n implies #[trigger] stack[n + 1 + arg] == Content::Entry(
        arg,
    ) by {
        assert(stack[n + 2 + (arg - 1)] == Content::Entry(1 + (arg - 1)));
    }
}

/// The instruction copies what stands in the slot `from` to the slot `to`.
pub open spec fn copies(ins: SQInstruction, from: int, to: int) -> bool {
    ||| ins.op == SQOpCodes::OP_MOVE && ins.arg1 == from && ins.output == to
    ||| ins.op == SQOpCodes::OP_DMOVE && ins.arg1 == from && ins.output == to
    ||| ins.op == SQOpCodes::OP_DMOVE && ins.arg3 == from && ins.arg2 == to
}

/// For each argument of the hooked function the code that is written from a request has an
/// instruction that copies it to its place behind the function id.
pub proof fn law_each_argument_is_copied(context: ScriptContext, org_parameters: i32, arg: int)
    requires
        1 <= arg < org_parameters <= 16384,
    ensures
        ({
            let request = proto_request(context, org_parameters);
            let code = instructions_of(request.parameters, request.instructions as nat);
            exists|i: int|
                {
                    &&& 1 <= i < request.instructions - 2
                    &&& (#[trigger] code[i]) matches Some(ins) && copies(
                        ins,
                        arg,
                        org_parameters + 1 + arg,
                    )
                }
        }),
{
    let n = org_parameters;
    let request = proto_request(context, n);
    let len = instruction_count(n);
    assert(request.instructions == len);
    let code = instructions_of(request.parameters, request.instructions as nat);
    assert(arg_count(n) == n - 1);
    assert(pair_count(n) == (n - 1) / 2);
    let i = (arg + 1) / 2;
    assert(1 <= i < len - 2);
    if i <= pair_count(n) {
        assert(code[i] == instruction_at(n, len, i));
        assert(code[i] == Some(move_pair(n, i - 1)));
        assert(arg == 2 * i - 1 || arg == 2 * i);
        assert(copies(move_pair(n, i - 1), arg, n + 1 + arg));
    } else {
        assert(has_last(n));
        assert(len - 3 == i);
        assert(code[i] == instruction_at(n, len, i));
        assert(code[i] == Some(move_last(n)));
        assert(copies(move_last(n), arg, n + 1 + arg));
    }
}

} // verus!
