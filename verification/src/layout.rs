//! The layout rules of a C (`#[repr(C)]`) structure, stated over the sizes and
//! alignments of its fields, with the facts about them that the rest of the
//! library relies on.
use vstd::prelude::*;
use vstd::arithmetic::power2::{is_pow2, pow2, is_pow2_equiv, lemma_pow2_adds, lemma_pow2_pos, lemma_pow2_strictly_increases};
use vstd::arithmetic::power::pow;

verus! {

/// Number of padding bytes needed after `x` bytes so that the next byte is a
/// multiple of `align`.
pub open spec fn padding(x: nat, align: nat) -> nat {
    if align == 0 || x % align == 0 {
        0
    } else {
        (align - x % align) as nat
    }
}

/// `x` rounded up to the next multiple of `align`.
pub open spec fn round_up(x: nat, align: nat) -> nat {
    x + padding(x, align)
}

/// Every field is described by its `(size, alignment)`; a field is valid when its
/// alignment is a power of two and its size a multiple of it.
pub open spec fn field_valid(f: (nat, nat)) -> bool {
    is_pow2(f.1 as int) && f.0 % f.1 == 0
}

pub open spec fn fields_valid(fs: Seq<(nat, nat)>) -> bool {
    forall|i: int| 0 <= i < fs.len() ==> #[trigger] field_valid(fs[i])
}

/// The first byte past the first `n` fields laid out in order, each at the
/// first offset that satisfies its alignment.
pub open spec fn end_of(fs: Seq<(nat, nat)>, n: nat) -> nat
    decreases n,
{
    if n == 0 {
        0
    } else {
        round_up(end_of(fs, (n - 1) as nat), fs[n - 1].1) + fs[n - 1].0
    }
}

/// The offset of field `i`.
pub open spec fn offset_of(fs: Seq<(nat, nat)>, i: nat) -> nat {
    round_up(end_of(fs, i), fs[i as int].1)
}

/// The largest alignment among the first `n` fields, and 1 when there is none.
pub open spec fn max_align(fs: Seq<(nat, nat)>, n: nat) -> nat
    decreases n,
{
    if n == 0 {
        1
    } else {
        let m = max_align(fs, (n - 1) as nat);
        if fs[n - 1].1 > m {
            fs[n - 1].1
        } else {
            m
        }
    }
}

/// The alignment of a structure with these fields.
pub open spec fn struct_align(fs: Seq<(nat, nat)>) -> nat {
    max_align(fs, fs.len())
}

/// The size of a structure with these fields: the end of its last field,
/// rounded up to the structure's alignment.
pub open spec fn struct_size(fs: Seq<(nat, nat)>) -> nat {
    round_up(end_of(fs, fs.len()), struct_align(fs))
}

/// The offsets of all fields.
pub open spec fn struct_offsets(fs: Seq<(nat, nat)>) -> Seq<nat> {
    Seq::new(fs.len(), |i: int| offset_of(fs, i as nat))
}

pub proof fn lemma_round_up(x: nat, align: nat)
    requires
        align > 0,
    ensures
        round_up(x, align) % align == 0,
        x <= round_up(x, align) < x + align,
        x % align == 0 ==> round_up(x, align) == x,
{
    let r = x % align;
    let q = x / align;
    assert(x == q * align + r && 0 <= r < align) by (nonlinear_arith)
        requires
            align > 0,
            r == x % align,
            q == x / align,
    ;
    if r != 0 {
        assert((x + (align - r)) % (align as int) == 0) by (nonlinear_arith)
            requires
                x == q * align + r,
                align > 0,
                0 < r < align,
        {
            assert(x + (align - r) == (q + 1) * align);
        }
    }
}

/// The end of the first `i` fields never lies past the end of the first `j >= i`.
pub proof fn lemma_end_monotone(fs: Seq<(nat, nat)>, i: nat, j: nat)
    requires
        i <= j,
    ensures
        end_of(fs, i) <= end_of(fs, j),
    decreases j - i,
{
    if i < j {
        lemma_end_monotone(fs, i, (j - 1) as nat);
    }
}

/// The field after field `i` ends past the end of field `i`.
pub proof fn lemma_field_ends(fs: Seq<(nat, nat)>, i: nat)
    requires
        i < fs.len(),
        forall|k: int| 0 <= k < fs.len() ==> #[trigger] fs[k].1 > 0,
    ensures
        offset_of(fs, i) + fs[i as int].0 == end_of(fs, i + 1),
        end_of(fs, i) <= offset_of(fs, i),
        offset_of(fs, i) % fs[i as int].1 == 0,
{
    lemma_round_up(end_of(fs, i), fs[i as int].1);
}

proof fn lemma_pow2_divides(a: nat, b: nat)
    requires
        is_pow2(a as int),
        is_pow2(b as int),
        a <= b,
    ensures
        b % a == 0,
{
    is_pow2_equiv(a as int);
    is_pow2_equiv(b as int);
    let i = choose|i: nat| pow(2, i) == a as int;
    let j = choose|j: nat| pow(2, j) == b as int;
    if j < i {
        lemma_pow2_strictly_increases(j, i);
        assert(false);
    }
    lemma_pow2_adds(i, (j - i) as nat);
    lemma_pow2_pos(i);
    let c = pow2((j - i) as nat);
    assert(pow2(i) * c == pow2(j));
    assert((a * c) % a == 0) by (nonlinear_arith)
        requires
            a > 0,
    ;
}

/// The alignment of the first `n` fields is a power of two of which every one
/// of their alignments is a divisor.
pub proof fn lemma_max_align(fs: Seq<(nat, nat)>, n: nat)
    requires
        n <= fs.len(),
        fields_valid(fs),
    ensures
        is_pow2(max_align(fs, n) as int),
        max_align(fs, n) >= 1,
        forall|k: int| 0 <= k < n ==> max_align(fs, n) % #[trigger] fs[k].1 == 0,
        forall|k: int| 0 <= k < n ==> #[trigger] fs[k].1 <= max_align(fs, n),
    decreases n,
{
    reveal(is_pow2);
    if n > 0 {
        lemma_max_align(fs, (n - 1) as nat);
        let m = max_align(fs, n);
        assert(field_valid(fs[n - 1]));
        assert forall|k: int| 0 <= k < n implies m % #[trigger] fs[k].1 == 0 by {
            assert(field_valid(fs[k]));
            lemma_pow2_divides(fs[k].1, m);
        }
    }
}

/// Field alignments are positive when the fields are valid.
pub proof fn lemma_valid_aligns_positive(fs: Seq<(nat, nat)>)
    requires
        fields_valid(fs),
    ensures
        forall|k: int| 0 <= k < fs.len() ==> #[trigger] fs[k].1 > 0,
{
    assert forall|k: int| 0 <= k < fs.len() implies #[trigger] fs[k].1 > 0 by {
        assert(field_valid(fs[k]));
        reveal(is_pow2);
    }
}

/// Laws of the C layout of a structure whose fields are valid:
/// every field starts at a multiple of its own alignment, fields follow one
/// another in order without overlapping, all of them lie within the structure,
/// the structure's alignment is a power of two that every field alignment
/// divides, and the structure's size is a multiple of its alignment.
pub proof fn lemma_struct_layout(fs: Seq<(nat, nat)>)
    requires
        fields_valid(fs),
    ensures
        forall|i: int| 0 <= i < fs.len() ==> #[trigger] offset_of(fs, i as nat) % fs[i].1 == 0,
        forall|i: int| 0 <= i < fs.len() - 1 ==> #[trigger] offset_of(fs, i as nat) + fs[i].0
            <= offset_of(fs, (i + 1) as nat),
        forall|i: int| 0 <= i < fs.len() ==> #[trigger] offset_of(fs, i as nat) + fs[i].0
            <= struct_size(fs),
        fs.len() > 0 ==> offset_of(fs, 0) == 0,
        is_pow2(struct_align(fs) as int),
        forall|i: int| 0 <= i < fs.len() ==> struct_align(fs) % #[trigger] fs[i].1 == 0,
        struct_size(fs) % struct_align(fs) == 0,
        end_of(fs, fs.len()) <= struct_size(fs),
{
    lemma_valid_aligns_positive(fs);
    lemma_max_align(fs, fs.len());
    lemma_round_up(end_of(fs, fs.len()), struct_align(fs));
    assert forall|i: int| 0 <= i < fs.len() implies #[trigger] offset_of(fs, i as nat) % fs[i].1 == 0 by {
        lemma_field_ends(fs, i as nat);
    }
    assert forall|i: int| 0 <= i < fs.len() - 1 implies #[trigger] offset_of(fs, i as nat) + fs[i].0
        <= offset_of(fs, (i + 1) as nat) by {
        lemma_field_ends(fs, i as nat);
        lemma_field_ends(fs, (i + 1) as nat);
    }
    assert forall|i: int| 0 <= i < fs.len() implies #[trigger] offset_of(fs, i as nat) + fs[i].0
        <= struct_size(fs) by {
        lemma_field_ends(fs, i as nat);
        lemma_end_monotone(fs, (i + 1) as nat, fs.len());
    }
    if fs.len() > 0 {
        lemma_round_up(0, fs[0].1);
    }
}

/// The first `n` fields end at 0 exactly when none of them takes a byte.
pub proof fn lemma_end_zero(fs: Seq<(nat, nat)>, n: nat)
    requires
        n <= fs.len(),
        forall|k: int| 0 <= k < fs.len() ==> #[trigger] fs[k].1 > 0,
    ensures
        end_of(fs, n) == 0 <==> forall|k: int| 0 <= k < n ==> #[trigger] fs[k].0 == 0,
    decreases n,
{
    if n > 0 {
        lemma_end_zero(fs, (n - 1) as nat);
        lemma_round_up(end_of(fs, (n - 1) as nat), fs[n - 1].1);
        lemma_round_up(0, fs[n - 1].1);
    }
}

/// A structure takes no byte exactly when none of its fields does.
pub proof fn lemma_struct_size_zero(fs: Seq<(nat, nat)>)
    requires
        fields_valid(fs),
    ensures
        struct_size(fs) == 0 <==> forall|k: int| 0 <= k < fs.len() ==> #[trigger] fs[k].0 == 0,
{
    lemma_valid_aligns_positive(fs);
    lemma_max_align(fs, fs.len());
    lemma_end_zero(fs, fs.len());
    lemma_round_up(end_of(fs, fs.len()), struct_align(fs));
    lemma_round_up(0, struct_align(fs));
}

} // verus!
