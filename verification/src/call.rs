//! The decisions of a dynamic call: how much room the call needs, which
//! argument is pushed how and from where in the argument block, and how the
//! result comes back.
use vstd::prelude::*;
use crate::ctype::Type;
use crate::layout::{round_up, lemma_round_up};

verus! {

/// How a value of a type is pushed as an argument, or fetched as a result:
/// signed and unsigned types of one width go the same way.
#[derive(Clone, Copy, Debug, PartialEq, Eq, Structural)]
pub enum CallKind {
    Void,
    Bool,
    Char,
    Short,
    Int,
    Long,
    LongLong,
    Float,
    Double,
    Pointer,
    Struct,
}

impl Type {
    /// How a value of the type is passed to or returned from a call.
    pub open spec fn kind(self) -> CallKind {
        match self {
            Type::Void => CallKind::Void,
            Type::Bool => CallKind::Bool,
            Type::Char | Type::UChar => CallKind::Char,
            Type::Short | Type::UShort => CallKind::Short,
            Type::Int | Type::UInt => CallKind::Int,
            Type::Long | Type::ULong => CallKind::Long,
            Type::LongLong | Type::ULongLong => CallKind::LongLong,
            Type::Float => CallKind::Float,
            Type::Double => CallKind::Double,
            Type::Pointer => CallKind::Pointer,
            Type::Struct(_) => CallKind::Struct,
        }
    }

    /// How a value of the type is passed to or returned from a call.
    pub fn call_kind(&self) -> (r: CallKind)
        ensures
            r == self.kind(),
    {
        match self {
            Type::Void => CallKind::Void,
            Type::Bool => CallKind::Bool,
            Type::Char | Type::UChar => CallKind::Char,
            Type::Short | Type::UShort => CallKind::Short,
            Type::Int | Type::UInt => CallKind::Int,
            Type::Long | Type::ULong => CallKind::Long,
            Type::LongLong | Type::ULongLong => CallKind::LongLong,
            Type::Float => CallKind::Float,
            Type::Double => CallKind::Double,
            Type::Pointer => CallKind::Pointer,
            Type::Struct(_) => CallKind::Struct,
        }
    }
}

/// One argument of a call: the position of its type among the argument types,
/// how it is pushed, and where its bytes lie in the argument block.
#[derive(Clone, Copy, Debug, PartialEq, Eq, Structural)]
pub struct ArgStep {
    pub index: usize,
    pub kind: CallKind,
    pub offset: usize,
    pub size: usize,
}

/// The bytes an argument of this type takes in the argument block: a `Void`
/// argument takes none.
pub open spec fn arg_bytes(t: Type) -> nat {
    if t is Void {
        0
    } else {
        t.layout_size()
    }
}

/// The bytes that the arguments of the given types take, one after another.
pub open spec fn args_bytes(ts: Seq<Type>) -> nat
    decreases ts.len(),
{
    if ts.len() == 0 {
        0
    } else {
        args_bytes(ts.drop_last()) + arg_bytes(ts.last())
    }
}

/// The steps of a call with arguments of the given types: `Void` arguments are
/// skipped; every other one is read from the bytes that follow those of the
/// arguments before it.
pub open spec fn arg_plan(ts: Seq<Type>) -> Seq<ArgStep>
    decreases ts.len(),
{
    if ts.len() == 0 {
        Seq::empty()
    } else {
        let rest = arg_plan(ts.drop_last());
        let t = ts.last();
        if t is Void {
            rest
        } else {
            rest.push(
                ArgStep {
                    index: (ts.len() - 1) as usize,
                    kind: t.kind(),
                    offset: args_bytes(ts.drop_last()) as usize,
                    size: t.layout_size() as usize,
                },
            )
        }
    }
}

proof fn lemma_args_bytes_prefix(ts: Seq<Type>, i: nat, j: nat)
    requires
        i <= j <= ts.len(),
    ensures
        args_bytes(ts.subrange(0, i as int)) <= args_bytes(ts.subrange(0, j as int)),
    decreases j - i,
{
    if i < j {
        lemma_args_bytes_prefix(ts, i, (j - 1) as nat);
        assert(ts.subrange(0, j as int).drop_last() =~= ts.subrange(0, j - 1));
    }
}

/// The steps of a call whose arguments have the given types, in order, or
/// `None` when the arguments take more than `usize::MAX` bytes.
pub fn arg_steps(args_type: &[Type]) -> (r: Option<Vec<ArgStep>>)
    ensures
        r is Some <==> args_bytes(args_type@) <= usize::MAX,
        r matches Some(v) ==> v@ == arg_plan(args_type@),
{
    let ghost ts = args_type@;
    let mut steps: Vec<ArgStep> = Vec::new();
    let mut total: usize = 0;
    let mut i: usize = 0;
    while i < args_type.len()
        invariant
            i <= ts.len(),
            ts == args_type@,
            total as nat == args_bytes(ts.subrange(0, i as int)),
            steps@ == arg_plan(ts.subrange(0, i as int)),
        decreases ts.len() - i,
    {
        let t = &args_type[i];
        proof {
            assert(ts.subrange(0, i + 1).drop_last() =~= ts.subrange(0, i as int));
            assert(ts.subrange(0, i + 1).last() == ts[i as int]);
        }
        match t {
            Type::Void => {},
            _ => {
                let size = t.size();
                let next = match total.checked_add(size) {
                    Some(n) => n,
                    None => {
                        proof {
                            lemma_args_bytes_prefix(ts, (i + 1) as nat, ts.len());
                            assert(ts.subrange(0, ts.len() as int) =~= ts);
                        }
                        return None;
                    },
                };
                steps.push(ArgStep { index: i, kind: t.call_kind(), offset: total, size });
                total = next;
            },
        }
        i = i + 1;
    }
    proof {
        assert(ts.subrange(0, ts.len() as int) =~= ts);
    }
    Some(steps)
}

/// Laws of the steps of a call: exactly the arguments that are not `Void` are
/// pushed, in the order of their types, each with the kind and size of its
/// type; the first is read at offset 0 and each following one right after the
/// bytes of the one before; and together they cover the whole argument block.
pub proof fn lemma_arg_plan(ts: Seq<Type>)
    requires
        args_bytes(ts) <= usize::MAX,
        ts.len() <= usize::MAX,
    ensures
        ({
            let p = arg_plan(ts);
            &&& forall|j: int| 0 <= j < p.len() ==> #[trigger] p[j].index < ts.len()
            &&& forall|j: int| 0 <= j < p.len() ==> !(ts[#[trigger] p[j].index as int] is Void)
            &&& forall|j: int| 0 <= j < p.len() ==> #[trigger] p[j].kind == ts[p[j].index as int].kind()
            &&& forall|j: int| 0 <= j < p.len() ==> #[trigger] p[j].size == ts[p[j].index as int].layout_size()
            &&& forall|j: int| 0 <= j < p.len() - 1 ==> #[trigger] p[j].index < p[j + 1].index
            &&& forall|k: int| 0 <= k < ts.len() && !(ts[k] is Void) ==> exists|j: int| 0 <= j < p.len() && #[trigger] p[j].index == k
            &&& p.len() > 0 ==> p[0].offset == 0
            &&& forall|j: int| 0 <= j < p.len() - 1 ==> #[trigger] p[j].offset + p[j].size == p[j + 1].offset
            &&& p.len() == 0 ==> args_bytes(ts) == 0
            &&& p.len() > 0 ==> p[p.len() - 1].offset + p[p.len() - 1].size == args_bytes(ts)
        }),
{
    lemma_arg_plan_order(ts);
    lemma_arg_plan_covers(ts);
}

#[verifier::spinoff_prover]
#[verifier::rlimit(40)]
proof fn lemma_arg_plan_order(ts: Seq<Type>)
    requires
        args_bytes(ts) <= usize::MAX,
        ts.len() <= usize::MAX,
    ensures
        ({
            let p = arg_plan(ts);
            &&& forall|j: int| 0 <= j < p.len() ==> #[trigger] p[j].index < ts.len()
            &&& forall|j: int| 0 <= j < p.len() ==> !(ts[#[trigger] p[j].index as int] is Void)
            &&& forall|j: int| 0 <= j < p.len() ==> #[trigger] p[j].kind == ts[p[j].index as int].kind()
            &&& forall|j: int| 0 <= j < p.len() ==> #[trigger] p[j].size == ts[p[j].index as int].layout_size()
            &&& forall|j: int| 0 <= j < p.len() - 1 ==> #[trigger] p[j].index < p[j + 1].index
            &&& p.len() > 0 ==> p[0].offset == 0
            &&& forall|j: int| 0 <= j < p.len() - 1 ==> #[trigger] p[j].offset + p[j].size == p[j + 1].offset
            &&& p.len() == 0 ==> args_bytes(ts) == 0
            &&& p.len() > 0 ==> p[p.len() - 1].offset + p[p.len() - 1].size == args_bytes(ts)
        }),
    decreases ts.len(),
{
    if ts.len() > 0 {
        let rest = ts.drop_last();
        lemma_arg_plan_order(rest);
        let p = arg_plan(ts);
        let q = arg_plan(rest);
        assert forall|j: int| 0 <= j < q.len() implies #[trigger] rest[q[j].index as int] == ts[q[j].index as int] by {}
        if ts.last() is Void {
            assert(p == q);
        } else {
            assert(p == q.push(p[p.len() - 1]));
            assert forall|j: int| 0 <= j < q.len() implies p[j] == #[trigger] q[j] by {}
        }
    }
}

proof fn lemma_arg_plan_covers(ts: Seq<Type>)
    requires
        ts.len() <= usize::MAX,
    ensures
        ({
            let p = arg_plan(ts);
            forall|k: int| 0 <= k < ts.len() && !(ts[k] is Void) ==> exists|j: int| 0 <= j < p.len() && #[trigger] p[j].index == k
        }),
    decreases ts.len(),
{
    if ts.len() > 0 {
        let rest = ts.drop_last();
        lemma_arg_plan_covers(rest);
        let p = arg_plan(ts);
        let q = arg_plan(rest);
        assert forall|k: int| 0 <= k < ts.len() && !(ts[k] is Void) implies exists|j: int| 0 <= j < p.len() && #[trigger] p[j].index == k by {
            if k < ts.len() - 1 {
                assert(rest[k] == ts[k]);
                let j = choose|j: int| 0 <= j < q.len() && #[trigger] q[j].index == k;
                assert(p[j] == q[j]);
            } else {
                assert(p[p.len() - 1].index == k);
            }
        }
    }
}

/// The argument types that are not `Void`, in order.
pub open spec fn non_void(ts: Seq<Type>) -> Seq<Type>
    decreases ts.len(),
{
    if ts.len() == 0 {
        Seq::empty()
    } else {
        let rest = non_void(ts.drop_last());
        if ts.last() is Void {
            rest
        } else {
            rest.push(ts.last())
        }
    }
}

/// What a call does with each step: how the argument is pushed, and from which
/// bytes of the argument block.
pub open spec fn pushes(p: Seq<ArgStep>) -> Seq<(CallKind, usize, usize)> {
    Seq::new(p.len(), |j: int| (p[j].kind, p[j].offset, p[j].size))
}

proof fn lemma_non_void_plan(ts: Seq<Type>)
    ensures
        pushes(arg_plan(ts)) == pushes(arg_plan(non_void(ts))),
        args_bytes(ts) == args_bytes(non_void(ts)),
    decreases ts.len(),
{
    if ts.len() > 0 {
        let rest = ts.drop_last();
        lemma_non_void_plan(rest);
        if !(ts.last() is Void) {
            let n = non_void(ts);
            assert(n.drop_last() =~= non_void(rest));
            assert(n.last() == ts.last());
            let p = arg_plan(rest);
            let q = arg_plan(non_void(rest));
            let pa = arg_plan(ts);
            let qa = arg_plan(n);
            assert(pa == p.push(pa[pa.len() - 1]));
            assert(qa == q.push(qa[qa.len() - 1]));
            assert(pushes(p).len() == pushes(q).len());
            assert forall|j: int| 0 <= j < pa.len() implies #[trigger] pushes(pa)[j] == pushes(qa)[j] by {
                if j < p.len() {
                    assert(pushes(p)[j] == pushes(q)[j]);
                }
            }
            assert(pushes(pa) =~= pushes(qa));
        }
    }
}

/// `Void` argument types change nothing in a call: two lists of argument types
/// that differ only by `Void` items inserted or removed anywhere push the same
/// arguments, in the same way, read from the same bytes of an argument block of
/// the same size.
pub proof fn void_arguments_change_nothing(a: Seq<Type>, b: Seq<Type>)
    requires
        non_void(a) == non_void(b),
    ensures
        pushes(arg_plan(a)) == pushes(arg_plan(b)),
        args_bytes(a) == args_bytes(b),
{
    lemma_non_void_plan(a);
    lemma_non_void_plan(b);
}

/// The bookkeeping of the argument buffer of a caller: its capacity and the
/// number of bytes in use.
#[derive(Clone, Copy, Debug, PartialEq, Eq, Structural)]
pub struct VecHead {
    pub cap: usize,
    pub len: usize,
}

/// The room, in bytes, that `size` more bytes after `len` bytes take once
/// padded to `align`.
pub open spec fn needed(len: nat, size: nat, align: nat) -> nat {
    round_up(len + size, align)
}

/// The argument size that the buffer must be reallocated to so that `size`
/// more bytes fit: `None` when they already fit, else the larger of what is
/// needed and twice the capacity.
pub open spec fn reserve_target(head: VecHead, size: nat, align: nat) -> Option<nat> {
    let need = needed(head.len as nat, size, align);
    if need > head.cap {
        if need > 2 * head.cap {
            Some(need)
        } else {
            Some(2 * head.cap as nat)
        }
    } else {
        None
    }
}

impl VecHead {
    /// The bookkeeping of the buffer once it has been moved into one of
    /// `new_cap` bytes: the contents, and so their length, are kept.
    pub open spec fn grown_to(self, new_cap: usize) -> VecHead {
        VecHead { cap: new_cap, len: self.len }
    }

    /// The bookkeeping that a buffer moved into one of `new_cap` bytes must hold.
    pub fn grown(&self, new_cap: usize) -> (r: VecHead)
        ensures
            r == self.grown_to(new_cap),
    {
        VecHead { cap: new_cap, len: self.len }
    }

    /// Reserve space for `size` extra bytes, with the buffer's contents kept
    /// aligned to `align`: returns the argument size that the buffer must be
    /// reallocated to, or `None` when the space is already there.
    pub fn reserve(&self, size: usize, align: usize) -> (r: Option<usize>)
        requires
            align > 0,
            self.len + size <= usize::MAX,
            needed(self.len as nat, size as nat, align as nat) <= isize::MAX,
        ensures
            r is Some <==> reserve_target(*self, size as nat, align as nat) is Some,
            r matches Some(n) ==> reserve_target(*self, size as nat, align as nat) == Some(n as nat),
            r is None <==> exists|m: nat| #[trigger] multiple_of(m, align as nat) && self.len + size <= m
                <= self.cap,
            r matches Some(n) ==> n > self.cap && n >= 2 * self.cap && exists|m: nat|
                #[trigger] multiple_of(m, align as nat) && self.len + size <= m <= n,
    {
        proof {
            reserve_law(*self, size as nat, align as nat);
        }
        let sum = self.len + size;
        proof {
            lemma_round_up(sum as nat, align as nat);
        }
        let rem = sum % align;
        let need = if rem == 0 {
            sum
        } else {
            sum + (align - rem)
        };
        if need > self.cap {
            let twice = self.cap * 2;
            if need > twice {
                Some(need)
            } else {
                Some(twice)
            }
        } else {
            None
        }
    }
}

/// Once the buffer has been given the room that [`VecHead::reserve`] asked for
/// (its bookkeeping becoming [`VecHead::grown`]), the same request fits: the new
/// capacity holds what is needed, it is at least twice the old one, and asking
/// again gives `None`, so that reserving the same size twice grows the buffer
/// at most once.
pub proof fn reserve_settles(head: VecHead, size: nat, align: nat, n: nat)
    requires
        align > 0,
        reserve_target(head, size, align) == Some(n),
        n <= usize::MAX,
    ensures
        n >= needed(head.len as nat, size, align),
        n >= 2 * head.cap,
        n > head.cap,
        reserve_target(head.grown_to(n as usize), size, align) is None,
{
}

/// `m` is a multiple of `align`.
pub open spec fn multiple_of(m: nat, align: nat) -> bool {
    m % align == 0
}

/// Two multiples of `align` that both lie in `[x, x + align)` are equal.
proof fn lemma_one_multiple_in_window(m: nat, k: nat, x: nat, align: nat)
    requires
        align > 0,
        m % align == 0,
        k % align == 0,
        x <= m < x + align,
        x <= k < x + align,
    ensures
        m == k,
{
    let p = m / align;
    let q = k / align;
    assert(m == align * p && k == align * q) by (nonlinear_arith)
        requires
            align > 0,
            m % align == 0,
            k % align == 0,
            p == m / align,
            q == k / align,
    ;
    assert(p == q) by (nonlinear_arith)
        requires
            m == align * p,
            k == align * q,
            align > 0,
            m - k < align,
            k - m < align,
    ;
}

/// What reserving room means, in terms of the buffer alone: no growth is asked
/// for exactly when the `size` more bytes, padded to `align`, fit, that is when
/// some multiple of `align` no smaller than `len + size` is within the
/// capacity. When growth is asked for, the new size exceeds the capacity, is at
/// least twice it, leaves room for the padded bytes, and is either twice the
/// capacity or the one multiple of `align` in `[len + size, len + size + align)`.
pub proof fn reserve_law(head: VecHead, size: nat, align: nat)
    requires
        align > 0,
    ensures
        reserve_target(head, size, align) is None <==> exists|m: nat|
            #[trigger] multiple_of(m, align) && head.len + size <= m <= head.cap,
        reserve_target(head, size, align) matches Some(n) ==> {
            &&& n > head.cap
            &&& n >= 2 * head.cap
            &&& exists|m: nat| #[trigger] multiple_of(m, align) && head.len + size <= m <= n
            &&& (n == 2 * head.cap || (multiple_of(n, align) && head.len + size <= n < head.len + size + align))
        },
{
    let x = (head.len + size) as nat;
    let need = needed(head.len as nat, size, align);
    lemma_round_up(x, align);
    assert(multiple_of(need, align));
    if reserve_target(head, size, align) is None {
        assert(head.len + size <= need <= head.cap);
    } else {
        assert(head.len + size <= need);
    }
    if exists|m: nat| #[trigger] multiple_of(m, align) && head.len + size <= m <= head.cap {
        let m = choose|m: nat| #[trigger] multiple_of(m, align) && head.len + size <= m <= head.cap;
        if need > head.cap {
            // `m` lies below `need` and above `len + size`, so both are in the
            // window `[x, x + align)`, where only one multiple of `align` lies.
            lemma_one_multiple_in_window(m, need, x, align);
            assert(false);
        }
    }
}

} // verus!
