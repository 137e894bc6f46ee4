//! The C types that can be passed to and returned from a dynamic call, and the
//! structures built out of them.
use vstd::prelude::*;
use vstd::layout::{size_of, align_of};
use vstd::arithmetic::power2::is_pow2;
use libc::{c_char, c_int, c_long, c_longlong, c_short};
use crate::layout::{
    field_valid, fields_valid, end_of, offset_of, max_align, struct_align, struct_size,
    struct_offsets, round_up, lemma_struct_layout, lemma_end_monotone, lemma_struct_size_zero,
    lemma_max_align,
};

verus! {

/// Structure describing a type that is passed to, or returned from, a dynamic call.
pub enum Type {
    /// The `c_void` type, a one-byte type (`core::ffi::c_void` is a
    /// `#[repr(u8)]` enum).
    Void,
    /// The `bool` type.
    Bool,
    /// The `c_char` type.
    Char,
    /// The `c_uchar` type.
    UChar,
    /// The `c_short` type.
    Short,
    /// The `c_ushort` type.
    UShort,
    /// The `c_int` type.
    Int,
    /// The `c_uint` type.
    UInt,
    /// The `c_long` type.
    Long,
    /// The `c_ulong` type.
    ULong,
    /// The `c_longlong` type.
    LongLong,
    /// The `c_ulonglong` type.
    ULongLong,
    /// The `c_float` type.
    Float,
    /// The `c_double` type.
    Double,
    /// The `*mut c_void` type.
    Pointer,
    /// A structure, see [`Struct`].
    Struct(Struct),
}

/// A dynamically declared structure with the layout of a `#[repr(C)]` struct.
pub struct Struct {
    fields: Vec<Type>,
    offsets: Vec<usize>,
    size: usize,
    align: usize,
    shape: Ghost<Seq<u8>>,
}

/// What a [`Struct`] is: the offset of each field, the size and alignment of
/// the whole, and its shape (see [`Type::shape`]), which names the types of its
/// fields, and of theirs, all the way down.
pub struct StructView {
    pub offsets: Seq<nat>,
    pub size: nat,
    pub align: nat,
    pub shape: Seq<u8>,
}

/// The shapes of the first `n` of the given types, one after another.
pub open spec fn shapes(types: Seq<Type>, n: nat) -> Seq<u8>
    decreases n,
{
    if n == 0 {
        Seq::empty()
    } else {
        shapes(types, (n - 1) as nat) + types[n - 1].shape()
    }
}

/// The shape of a structure whose fields have the given types: `{`, the shapes
/// of the fields, `}`.
pub open spec fn struct_shape(types: Seq<Type>) -> Seq<u8> {
    seq!['{' as u8] + shapes(types, types.len()) + seq!['}' as u8]
}

/// The `(size, alignment)` of each of the given types.
pub open spec fn field_layouts(types: Seq<Type>) -> Seq<(nat, nat)> {
    Seq::new(types.len(), |i: int| (types[i].layout_size(), types[i].layout_align()))
}

/// The layout of a `#[repr(C)]` structure whose fields have the given types.
pub open spec fn repr_c(types: Seq<Type>) -> StructView {
    let fs = field_layouts(types);
    StructView {
        offsets: struct_offsets(fs),
        size: struct_size(fs),
        align: struct_align(fs),
        shape: struct_shape(types),
    }
}

impl Type {
    /// The alignment of the type. A C `float` and `double` are taken to be laid
    /// out as a 32-bit and a 64-bit unsigned integer: the sizes agree on every
    /// target, the alignments on the common ones (the tests compare them).
    pub open spec fn layout_align(self) -> nat {
        match self {
            Type::Void => 1,
            Type::Bool => 1,
            Type::Char | Type::UChar => align_of::<c_char>(),
            Type::Short | Type::UShort => align_of::<c_short>(),
            Type::Int | Type::UInt => align_of::<c_int>(),
            Type::Long | Type::ULong => align_of::<c_long>(),
            Type::LongLong | Type::ULongLong => align_of::<c_longlong>(),
            Type::Float => align_of::<u32>(),
            Type::Double => align_of::<u64>(),
            Type::Pointer => align_of::<usize>(),
            Type::Struct(s) => s@.align,
        }
    }

    /// The size of the type (for `float` and `double`, see [`Type::layout_align`]).
    pub open spec fn layout_size(self) -> nat {
        match self {
            Type::Void => 1,
            Type::Bool => 1,
            Type::Char | Type::UChar => size_of::<c_char>(),
            Type::Short | Type::UShort => size_of::<c_short>(),
            Type::Int | Type::UInt => size_of::<c_int>(),
            Type::Long | Type::ULong => size_of::<c_long>(),
            Type::LongLong | Type::ULongLong => size_of::<c_longlong>(),
            Type::Float => size_of::<u32>(),
            Type::Double => size_of::<u64>(),
            Type::Pointer => size_of::<usize>(),
            Type::Struct(s) => s@.size,
        }
    }

    /// The character that stands for the type in a call signature, and 0 for a structure.
    pub open spec fn sig(self) -> u8 {
        match self {
            Type::Void => 'v' as u8,
            Type::Bool => 'B' as u8,
            Type::Char => 'c' as u8,
            Type::UChar => 'C' as u8,
            Type::Short => 's' as u8,
            Type::UShort => 'S' as u8,
            Type::Int => 'i' as u8,
            Type::UInt => 'I' as u8,
            Type::Long => 'j' as u8,
            Type::ULong => 'J' as u8,
            Type::LongLong => 'l' as u8,
            Type::ULongLong => 'L' as u8,
            Type::Float => 'f' as u8,
            Type::Double => 'd' as u8,
            Type::Pointer => 'p' as u8,
            Type::Struct(_) => 0,
        }
    }

    /// The shape of the type: its signature character, or for a structure the
    /// shape of the structure (see [`struct_shape`]).
    pub open spec fn shape(self) -> Seq<u8> {
        match self {
            Type::Struct(s) => s@.shape,
            _ => seq![self.sig()],
        }
    }

    /// A type is well formed when the structure it names, if any, is.
    pub open spec fn wf(self) -> bool {
        match self {
            Type::Struct(s) => s.inv(),
            _ => true,
        }
    }

    /// `self` is a copy of `other`: the same type, and for a structure one with
    /// the same layout and shape, so with fields of the same types.
    pub open spec fn mirrors(self, other: Type) -> bool {
        match self {
            Type::Struct(a) => match other {
                Type::Struct(b) => a@ == b@,
                _ => false,
            },
            _ => self == other,
        }
    }

    /// The alignment of the type, all memory positions for this type have to be a multiple of
    /// this value.
    pub fn align(&self) -> (r: usize)
        ensures
            r as nat == self.layout_align(),
    {
        match self {
            Type::Void => 1,
            Type::Bool => 1,
            Type::Char | Type::UChar => core::mem::align_of::<c_char>(),
            Type::Short | Type::UShort => core::mem::align_of::<c_short>(),
            Type::Int | Type::UInt => core::mem::align_of::<c_int>(),
            Type::Long | Type::ULong => core::mem::align_of::<c_long>(),
            Type::LongLong | Type::ULongLong => core::mem::align_of::<c_longlong>(),
            Type::Float => core::mem::align_of::<u32>(),
            Type::Double => core::mem::align_of::<u64>(),
            Type::Pointer => core::mem::align_of::<usize>(),
            Type::Struct(x) => x.align(),
        }
    }

    /// The size of the type.
    pub fn size(&self) -> (r: usize)
        ensures
            r as nat == self.layout_size(),
    {
        match self {
            Type::Void => 1,
            Type::Bool => 1,
            Type::Char | Type::UChar => core::mem::size_of::<c_char>(),
            Type::Short | Type::UShort => core::mem::size_of::<c_short>(),
            Type::Int | Type::UInt => core::mem::size_of::<c_int>(),
            Type::Long | Type::ULong => core::mem::size_of::<c_long>(),
            Type::LongLong | Type::ULongLong => core::mem::size_of::<c_longlong>(),
            Type::Float => core::mem::size_of::<u32>(),
            Type::Double => core::mem::size_of::<u64>(),
            Type::Pointer => core::mem::size_of::<usize>(),
            Type::Struct(x) => x.size(),
        }
    }

    /// The signature character of the type; a structure has none and gives 0.
    pub fn sig_code(&self) -> (r: u8)
        ensures
            r == self.sig(),
    {
        match self {
            Type::Void => 'v' as u8,
            Type::Bool => 'B' as u8,
            Type::Char => 'c' as u8,
            Type::UChar => 'C' as u8,
            Type::Short => 's' as u8,
            Type::UShort => 'S' as u8,
            Type::Int => 'i' as u8,
            Type::UInt => 'I' as u8,
            Type::Long => 'j' as u8,
            Type::ULong => 'J' as u8,
            Type::LongLong => 'l' as u8,
            Type::ULongLong => 'L' as u8,
            Type::Float => 'f' as u8,
            Type::Double => 'd' as u8,
            Type::Pointer => 'p' as u8,
            Type::Struct(_) => 0,
        }
    }

    /// A copy of the type; a structure is copied field by field.
    pub fn duplicate(&self) -> (r: Type)
        ensures
            r.mirrors(*self),
        decreases self,
    {
        match self {
            Type::Void => Type::Void,
            Type::Bool => Type::Bool,
            Type::Char => Type::Char,
            Type::UChar => Type::UChar,
            Type::Short => Type::Short,
            Type::UShort => Type::UShort,
            Type::Int => Type::Int,
            Type::UInt => Type::UInt,
            Type::Long => Type::Long,
            Type::ULong => Type::ULong,
            Type::LongLong => Type::LongLong,
            Type::ULongLong => Type::ULongLong,
            Type::Float => Type::Float,
            Type::Double => Type::Double,
            Type::Pointer => Type::Pointer,
            Type::Struct(s) => Type::Struct(s.duplicate()),
        }
    }
}

/// The layout of every well formed type is valid: its alignment is a power of
/// two, and its size is a multiple of its alignment, so that every memory
/// position for the type is a multiple of its alignment.
pub proof fn type_layout_valid(t: Type)
    requires
        t.wf(),
    ensures
        field_valid((t.layout_size(), t.layout_align())),
        t.layout_align() > 0,
        is_pow2(t.layout_align() as int),
        t.layout_size() % t.layout_align() == 0,
{
    broadcast use vstd::layout::align_properties;
    reveal(is_pow2);
    match t {
        Type::Struct(s) => {
            lemma_struct_layout(field_layouts(s.field_types()));
        },
        _ => {},
    }
}

/// Every type but a structure takes at least one byte; a structure takes
/// none exactly when none of its fields does (an empty structure, or one whose
/// fields are all such structures).
pub proof fn type_size_positive(t: Type)
    requires
        t.wf(),
    ensures
        !(t is Struct) ==> t.layout_size() >= 1,
        t matches Type::Struct(s) ==> (t.layout_size() == 0 <==> forall|i: int|
            0 <= i < s.field_types().len() ==> #[trigger] s.field_types()[i].layout_size() == 0),
{
    broadcast use vstd::layout::layout_of_primitives;
    match t {
        Type::Struct(s) => {
            let fs = field_layouts(s.field_types());
            lemma_struct_size_zero(fs);
            let ts = s.field_types();
            if forall|i: int| 0 <= i < ts.len() ==> #[trigger] ts[i].layout_size() == 0 {
                assert forall|i: int| 0 <= i < fs.len() implies #[trigger] fs[i].0 == 0 by {
                    assert(ts[i].layout_size() == 0);
                }
            }
            if forall|i: int| 0 <= i < fs.len() ==> #[trigger] fs[i].0 == 0 {
                assert forall|i: int| 0 <= i < ts.len() implies #[trigger] ts[i].layout_size() == 0 by {
                    assert(fs[i].0 == 0);
                }
            }
        },
        _ => {},
    }
}

/// A copy of a type has the layout of the type.
pub proof fn lemma_mirror_layout(a: Type, b: Type)
    requires
        a.mirrors(b),
    ensures
        a.layout_size() == b.layout_size(),
        a.layout_align() == b.layout_align(),
        a.sig() == b.sig(),
        a.shape() == b.shape(),
{
}

/// Types that are copies of one another have the same shapes.
pub proof fn lemma_mirror_shapes(a: Seq<Type>, b: Seq<Type>, n: nat)
    requires
        n <= a.len(),
        n <= b.len(),
        forall|j: int| 0 <= j < n ==> #[trigger] a[j].mirrors(b[j]),
    ensures
        shapes(a, n) == shapes(b, n),
    decreases n,
{
    if n > 0 {
        lemma_mirror_shapes(a, b, (n - 1) as nat);
        lemma_mirror_layout(a[n - 1], b[n - 1]);
    }
}

/// Laws of the layout of a structure: every field starts at a multiple of its
/// own alignment; the first field starts at offset 0; each field ends at or
/// before the start of the next, so fields keep their order and never overlap;
/// every field lies within the structure; the structure's alignment is a power
/// of two that is a multiple of every field's alignment (so that every field of
/// a well placed structure is well placed); and the structure's size is a
/// multiple of its alignment.
pub proof fn struct_layout_law(s: Struct)
    requires
        s.inv(),
    ensures
        ({
            let fs = field_layouts(s.field_types());
            &&& s@.offsets.len() == fs.len()
            &&& forall|i: int| 0 <= i < fs.len() ==> #[trigger] s@.offsets[i] % fs[i].1 == 0
            &&& fs.len() > 0 ==> s@.offsets[0] == 0
            &&& forall|i: int| 0 <= i < fs.len() - 1 ==> #[trigger] s@.offsets[i] + fs[i].0
                <= s@.offsets[i + 1]
            &&& forall|i: int| 0 <= i < fs.len() ==> #[trigger] s@.offsets[i] + fs[i].0 <= s@.size
            &&& is_pow2(s@.align as int)
            &&& forall|i: int| 0 <= i < fs.len() ==> s@.align % #[trigger] fs[i].1 == 0
            &&& s@.size % s@.align == 0
        }),
{
    let fs = field_layouts(s.field_types());
    lemma_struct_layout(fs);
    assert forall|i: int| 0 <= i < fs.len() - 1 implies #[trigger] s@.offsets[i] + fs[i].0
        <= s@.offsets[i + 1] by {
        assert(offset_of(fs, i as nat) + fs[i].0 <= offset_of(fs, (i + 1) as nat));
    }
}

impl View for Struct {
    type V = StructView;

    closed spec fn view(&self) -> StructView {
        StructView {
            offsets: Seq::new(self.offsets@.len(), |i: int| self.offsets@[i] as nat),
            size: self.size as nat,
            align: self.align as nat,
            shape: self.shape@,
        }
    }
}

impl Struct {
    /// The structure's invariant: its fields are valid and laid out as in a
    /// `#[repr(C)]` structure.
    #[verifier::type_invariant]
    pub closed spec fn inv(self) -> bool {
        &&& self.offsets@.len() == self.fields@.len()
        &&& fields_valid(field_layouts(self.fields@))
        &&& self@ == repr_c(self.fields@)
    }

    /// The types of the fields, in order.
    pub closed spec fn field_types(self) -> Seq<Type> {
        self.fields@
    }

    /// Creates a `#[repr(C)]` struct out of enumerating all its types through `types`.
    pub fn new(types: &[Type]) -> (r: Struct)
        requires
            struct_size(field_layouts(types@)) <= usize::MAX,
        ensures
            r@ == repr_c(types@),
            r.field_types().len() == types@.len(),
            forall|i: int| 0 <= i < types@.len() ==> #[trigger] r.field_types()[i].mirrors(types@[i]),
    {
        match Struct::try_new(types) {
            Some(s) => s,
            None => {
                proof {
                    assert(false);
                }
                Struct {
                    fields: Vec::new(),
                    offsets: Vec::new(),
                    size: 0,
                    align: 1,
                    shape: Ghost(struct_shape(Seq::empty())),
                }
            },
        }
    }

    /// Creates a `#[repr(C)]` struct out of `types`, or `None` when its size
    /// would exceed `usize::MAX`.
    pub fn try_new(types: &[Type]) -> (r: Option<Struct>)
        ensures
            r is Some <==> struct_size(field_layouts(types@)) <= usize::MAX,
            r matches Some(s) ==> {
                &&& s@ == repr_c(types@)
                &&& s.field_types().len() == types@.len()
                &&& forall|i: int| 0 <= i < types@.len() ==> #[trigger] s.field_types()[i].mirrors(types@[i])
            },
    {
        let ghost fs = field_layouts(types@);
        let mut fields: Vec<Type> = Vec::new();
        let mut offsets: Vec<usize> = Vec::new();
        let mut end: usize = 0;
        let mut align: usize = 1;
        let mut i: usize = 0;
        while i < types.len()
            invariant
                i <= types@.len(),
                fs == field_layouts(types@),
                fields@.len() == i,
                offsets@.len() == i,
                end as nat == end_of(fs, i as nat),
                align as nat == max_align(fs, i as nat),
                forall|j: int| 0 <= j < i ==> #[trigger] fields@[j].mirrors(types@[j]),
                forall|j: int| 0 <= j < i ==> #[trigger] offsets@[j] as nat == offset_of(fs, j as nat),
                forall|j: int| 0 <= j < i ==> #[trigger] field_valid(fs[j]),
            decreases types@.len() - i,
        {
            let t = &types[i];
            match t {
                Type::Struct(s) => {
                    proof {
                        use_type_invariant(s);
                    }
                },
                _ => {},
            }
            proof {
                type_layout_valid(*t);
            }
            let a = t.align();
            let sz = t.size();
            let off = match round_up_checked(end, a) {
                Some(o) => o,
                None => {
                    proof {
                        lemma_end_monotone(fs, (i + 1) as nat, fs.len());
                    }
                    return None;
                },
            };
            let e = match off.checked_add(sz) {
                Some(e) => e,
                None => {
                    proof {
                        lemma_end_monotone(fs, (i + 1) as nat, fs.len());
                    }
                    return None;
                },
            };
            let copy = t.duplicate();
            fields.push(copy);
            offsets.push(off);
            end = e;
            if a > align {
                align = a;
            }
            i = i + 1;
        }
        proof {
            assert(fs.subrange(0, fs.len() as int) =~= fs);
            assert(fields_valid(fs));
            lemma_max_align(fs, fs.len());
        }
        let size = match round_up_checked(end, align) {
            Some(s) => s,
            None => {
                return None;
            },
        };
        proof {
            assert forall|j: int| 0 <= j < fs.len() implies #[trigger] field_layouts(fields@)[j] == fs[j] by {
                lemma_mirror_layout(fields@[j], types@[j]);
            }
            assert(field_layouts(fields@) =~= fs);
            assert(Seq::new(offsets@.len(), |j: int| offsets@[j] as nat) =~= struct_offsets(fs));
            lemma_mirror_shapes(fields@, types@, fs.len());
        }
        Some(Struct { fields, offsets, size, align, shape: Ghost(struct_shape(types@)) })
    }

    /// The size of the struct.
    pub fn size(&self) -> (r: usize)
        ensures
            r as nat == self@.size,
    {
        self.size
    }

    /// The align of the struct, see [`Type::align`].
    pub fn align(&self) -> (r: usize)
        ensures
            r as nat == self@.align,
    {
        self.align
    }

    /// The types of the fields, in order.
    pub fn fields(&self) -> (r: &[Type])
        ensures
            r@ == self.field_types(),
    {
        self.fields.as_slice()
    }

    /// The offset of each field from the start of the structure.
    pub fn offsets(&self) -> (r: &[usize])
        ensures
            r@.len() == self@.offsets.len(),
            forall|i: int| 0 <= i < r@.len() ==> r@[i] as nat == #[trigger] self@.offsets[i],
    {
        self.offsets.as_slice()
    }

    /// A copy of the structure, with copies of its fields.
    pub fn duplicate(&self) -> (r: Struct)
        ensures
            r@ == self@,
            r.field_types().len() == self.field_types().len(),
            forall|i: int| 0 <= i < r.field_types().len() ==> #[trigger] r.field_types()[i].mirrors(
                self.field_types()[i],
            ),
        decreases self,
    {
        proof {
            use_type_invariant(self);
        }
        let mut fields: Vec<Type> = Vec::new();
        let mut offsets: Vec<usize> = Vec::new();
        let mut i: usize = 0;
        while i < self.fields.len()
            invariant
                i <= self.fields@.len(),
                self.offsets@.len() == self.fields@.len(),
                fields@.len() == i,
                offsets@ == self.offsets@.subrange(0, i as int),
                forall|j: int| 0 <= j < i ==> #[trigger] fields@[j].mirrors(self.fields@[j]),
            decreases self.fields@.len() - i,
        {
            proof {
                assert(decreases_to!(*self => self.fields));
            }
            let t = self.fields[i].duplicate();
            fields.push(t);
            offsets.push(self.offsets[i]);
            i = i + 1;
        }
        proof {
            assert forall|j: int| 0 <= j < fields@.len() implies #[trigger] field_layouts(fields@)[j]
                == field_layouts(self.fields@)[j] by {
                lemma_mirror_layout(fields@[j], self.fields@[j]);
            }
            assert(field_layouts(fields@) =~= field_layouts(self.fields@));
            assert(offsets@ =~= self.offsets@);
            lemma_mirror_shapes(fields@, self.fields@, fields@.len());
        }
        Struct { fields, offsets, size: self.size, align: self.align, shape: Ghost(self.shape@) }
    }
}

/// `x` rounded up to a multiple of `align`, or `None` when that exceeds `usize::MAX`.
fn round_up_checked(x: usize, align: usize) -> (r: Option<usize>)
    requires
        align > 0,
    ensures
        r is Some <==> round_up(x as nat, align as nat) <= usize::MAX,
        r matches Some(v) ==> v as nat == round_up(x as nat, align as nat),
{
    let rem = x % align;
    if rem == 0 {
        Some(x)
    } else {
        x.checked_add(align - rem)
    }
}

} // verus!
