//! Functions with any number of arguments.

use vstd::prelude::*;
use vstd::string::*;

use crate::squirrel::SQObjectType;

verus! {

/// The search for the end of the arguments on the stack: they end at the first value that is
/// `null`.
pub struct Variadic {
    start: i32,
    next: i32,
}

impl Variadic {
    /// The position of the first argument.
    pub closed spec fn first(self) -> int {
        self.start as int
    }

    /// The position that is to be looked at next.
    pub closed spec fn pos(self) -> int {
        self.next as int
    }

    #[verifier::type_invariant]
    spec fn wf(self) -> bool {
        self.start <= self.next < i32::MAX
    }

    /// Starts the search at `stack_pos`.
    pub fn new(stack_pos: i32) -> (scan: Self)
        requires
            stack_pos < i32::MAX,
        ensures
            scan.first() == stack_pos,
            scan.pos() == stack_pos,
    {
        Variadic { start: stack_pos, next: stack_pos }
    }

    /// The position that is to be looked at next.
    pub fn stack_pos(&self) -> (pos: i32)
        ensures
            pos == self.pos(),
            self.first() <= pos < i32::MAX,
    {
        proof {
            use_type_invariant(self);
        }
        self.next
    }

    /// Looks at the tag of the value at the next position. Once the end is found, the result is the
    /// positions of all the arguments, and the position behind everything: no argument is to be
    /// fetched after these.
    pub fn get_from_sqvm_internal(&mut self, ty: SQObjectType) -> (found: Option<(Vec<i32>, i32)>)
        requires
            ty != SQObjectType::OT_NULL ==> old(self).pos() + 1 < i32::MAX,
        ensures
            found is Some <==> ty == SQObjectType::OT_NULL,
            found matches Some((positions, stack_pos)) ==> {
                &&& positions@ == arg_positions(old(self).first(), old(self).pos())
                &&& positions@.len() == old(self).pos() - old(self).first()
                &&& forall|i: int|
                    0 <= i < positions@.len() ==> #[trigger] positions@[i] == old(self).first() + i
                &&& stack_pos == i32::MAX
                &&& *final(self) == *old(self)
            },
            found is None ==> {
                &&& final(self).first() == old(self).first()
                &&& final(self).pos() == old(self).pos() + 1
            },
            forall|rest: Seq<SQObjectType>|
                #[trigger] found_args(old(self).first(), old(self).pos(), seq![ty] + rest) == (
                match found {
                    Some((positions, _)) => Some(positions@),
                    None => found_args(final(self).first(), final(self).pos(), rest),
                }),
    {
        proof {
            use_type_invariant(&*self);
            assert forall|rest: Seq<SQObjectType>| #[trigger]
                (seq![ty] + rest)[0] == ty && (seq![ty] + rest).drop_first() == rest by {
                assert((seq![ty] + rest).drop_first() =~= rest);
            }
        }
        if ty == SQObjectType::OT_NULL {
            let start = self.start;
            let end = self.next;
            let mut positions: Vec<i32> = Vec::new();
            let mut i: i32 = start;
            while i < end
                invariant
                    start <= i <= end,
                    positions@ == arg_positions(start as int, i as int),
                decreases end - i,
            {
                positions.push(i);
                i += 1;
                assert(positions@ =~= arg_positions(start as int, i as int));
            }
            Some((positions, i32::MAX))
        } else {
            self.next = self.next + 1;
            None
        }
    }

    /// The type of these arguments in the declaration of a script function, given that of a single
    /// one.
    pub fn get_sqvm_name(inner: &str) -> (name: String)
        ensures
            name@ == inner@ + " arg, ..."@,
    {
        String::from_str(inner).concat(" arg, ...")
    }
}

/// The positions from `start` up to `end`.
pub open spec fn arg_positions(start: int, end: int) -> Seq<i32> {
    Seq::new((end - start) as nat, |i: int| (start + i) as i32)
}

/// The arguments that the search finds which stands at `pos` and is shown the tags `types` one by
/// one: it goes on past every value that is not `null`.
pub open spec fn found_args(first: int, pos: int, types: Seq<SQObjectType>) -> Option<Seq<i32>>
    decreases types.len(),
{
    if types.len() == 0 {
        None
    } else if types[0] == SQObjectType::OT_NULL {
        Some(arg_positions(first, pos))
    } else {
        found_args(first, pos + 1, types.drop_first())
    }
}

/// The arguments are the values in front of the first `null`, whatever comes after it.
pub proof fn law_args_end_at_first_null(
    first: int,
    pos: int,
    types: Seq<SQObjectType>,
    null: int,
)
    requires
        0 <= null < types.len(),
        types[null] == SQObjectType::OT_NULL,
        forall|i: int| 0 <= i < null ==> #[trigger] types[i] != SQObjectType::OT_NULL,
    ensures
        found_args(first, pos, types) == Some(arg_positions(first, pos + null)),
    decreases null,
{
    if null > 0 {
        let rest = types.drop_first();
        assert forall|i: int| 0 <= i < null - 1 implies #[trigger] rest[i] != SQObjectType::OT_NULL by {
            assert(rest[i] == types[i + 1]);
        }
        assert(types[0] != SQObjectType::OT_NULL);
        law_args_end_at_first_null(first, pos + 1, rest, null - 1);
    }
}

/// The positions of arguments follow each other, from the first one up to the end.
pub proof fn law_positions_follow_each_other(start: i32, end: i32)
    requires
        start <= end,
    ensures
        arg_positions(start as int, end as int).len() == end - start,
        forall|i: int|
            0 <= i < end - start ==> #[trigger] arg_positions(start as int, end as int)[i] == start
                + i,
{
}

/// The search goes on until it is shown a `null`, and the arguments are all it went past: from the
/// first one up to that `null`.
pub proof fn law_search_ends_only_at_null(
    first: int,
    pos: int,
    types: Seq<SQObjectType>,
)
    ensures
        (forall|i: int| 0 <= i < types.len() ==> #[trigger] types[i] != SQObjectType::OT_NULL)
            ==> found_args(first, pos, types) is None,
        types.len() > 0 && types[0] == SQObjectType::OT_NULL ==> found_args(first, pos, types)
            == Some(arg_positions(first, pos)),
    decreases types.len(),
{
    if types.len() > 0 {
        let rest = types.drop_first();
        law_search_ends_only_at_null(first, pos + 1, rest);
        if forall|i: int| 0 <= i < types.len() ==> #[trigger] types[i] != SQObjectType::OT_NULL {
            assert forall|i: int| 0 <= i < rest.len() implies #[trigger] rest[i]
                != SQObjectType::OT_NULL by {
                assert(rest[i] == types[i + 1]);
            }
            assert(types[0] != SQObjectType::OT_NULL);
        }
    }
}

} // verus!
