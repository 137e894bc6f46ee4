use dyncall::ctype::{Struct, Type};

fn primitives() -> Vec<Type> {
    vec![
        Type::Void,
        Type::Bool,
        Type::Char,
        Type::UChar,
        Type::Short,
        Type::UShort,
        Type::Int,
        Type::UInt,
        Type::Long,
        Type::ULong,
        Type::LongLong,
        Type::ULongLong,
        Type::Float,
        Type::Double,
        Type::Pointer,
    ]
}

#[test]
fn primitive_sizes_match_c_types() {
    let expected: Vec<usize> = vec![
        core::mem::size_of::<libc::c_void>(),
        1,
        core::mem::size_of::<libc::c_char>(),
        core::mem::size_of::<libc::c_char>(),
        core::mem::size_of::<libc::c_short>(),
        core::mem::size_of::<libc::c_short>(),
        core::mem::size_of::<libc::c_int>(),
        core::mem::size_of::<libc::c_int>(),
        core::mem::size_of::<libc::c_long>(),
        core::mem::size_of::<libc::c_long>(),
        core::mem::size_of::<libc::c_longlong>(),
        core::mem::size_of::<libc::c_longlong>(),
        core::mem::size_of::<f32>(),
        core::mem::size_of::<f64>(),
        core::mem::size_of::<usize>(),
    ];
    let types = primitives();
    for (t, e) in types.iter().zip(expected.iter()) {
        assert_eq!(t.size(), *e, "{}", t.sig_code());
    }
}

#[test]
fn primitive_aligns_match_c_types() {
    let expected: Vec<usize> = vec![
        core::mem::align_of::<libc::c_void>(),
        1,
        core::mem::align_of::<libc::c_char>(),
        core::mem::align_of::<libc::c_char>(),
        core::mem::align_of::<libc::c_short>(),
        core::mem::align_of::<libc::c_short>(),
        core::mem::align_of::<libc::c_int>(),
        core::mem::align_of::<libc::c_int>(),
        core::mem::align_of::<libc::c_long>(),
        core::mem::align_of::<libc::c_long>(),
        core::mem::align_of::<libc::c_longlong>(),
        core::mem::align_of::<libc::c_longlong>(),
        core::mem::align_of::<f32>(),
        core::mem::align_of::<f64>(),
        core::mem::align_of::<usize>(),
    ];
    let types = primitives();
    for (t, e) in types.iter().zip(expected.iter()) {
        assert_eq!(t.align(), *e, "{}", t.sig_code());
    }
}

#[test]
fn exact_primitive_sizes() {
    assert_eq!(Type::Void.size(), 1);
    assert_eq!(Type::Bool.size(), 1);
    assert_eq!(Type::Char.size(), 1);
    assert_eq!(Type::Short.size(), 2);
    assert_eq!(Type::Int.size(), 4);
    assert_eq!(Type::LongLong.size(), 8);
    assert_eq!(Type::Float.size(), 4);
    assert_eq!(Type::Double.size(), 8);
}

#[test]
fn every_size_is_a_multiple_of_the_alignment() {
    for t in primitives() {
        let a = t.align();
        assert!(a > 0 && a.is_power_of_two());
        assert_eq!(t.size() % a, 0);
    }
    let s = Struct::new(&[Type::Char, Type::Double, Type::Short]);
    let t = Type::Struct(s);
    assert_eq!(t.size() % t.align(), 0);
}

#[test]
fn signature_codes() {
    let codes: Vec<u8> = primitives().iter().map(|t| t.sig_code()).collect();
    assert_eq!(codes, b"vBcCsSiIjJlLfdp".to_vec());
    let s = Struct::new(&[Type::Int]);
    assert_eq!(Type::Struct(s).sig_code(), 0);
}

#[test]
fn struct_char_int() {
    let s = Struct::new(&[Type::Char, Type::Int]);
    assert_eq!(s.offsets(), &[0, 4]);
    assert_eq!(s.size(), 8);
    assert_eq!(s.align(), 4);
    assert_eq!(s.fields().len(), 2);
}

#[test]
fn struct_char_double_short() {
    let s = Struct::new(&[Type::Char, Type::Double, Type::Short]);
    let d = core::mem::align_of::<f64>();
    assert_eq!(s.offsets(), &[0, d, d + 8]);
    let end = d + 10;
    let size = (end + d - 1) / d * d;
    assert_eq!(s.size(), size);
    assert_eq!(s.align(), d);
}

#[test]
fn struct_without_fields() {
    let s = Struct::new(&[]);
    assert_eq!(s.size(), 0);
    assert_eq!(s.align(), 1);
    assert!(s.offsets().is_empty());
}

#[test]
fn struct_with_padding_at_the_end() {
    let s = Struct::new(&[Type::Int, Type::Char]);
    assert_eq!(s.offsets(), &[0, 4]);
    assert_eq!(s.size(), 8);
}

#[test]
fn nested_struct() {
    let inner = Struct::new(&[Type::Short, Type::Char]);
    assert_eq!(inner.size(), 4);
    assert_eq!(inner.align(), 2);
    let outer = Struct::new(&[Type::Char, Type::Struct(inner), Type::Char]);
    assert_eq!(outer.offsets(), &[0, 2, 6]);
    assert_eq!(outer.size(), 8);
    assert_eq!(outer.align(), 2);
    match &outer.fields()[1] {
        Type::Struct(copy) => {
            assert_eq!(copy.size(), 4);
            assert_eq!(copy.offsets(), &[0, 2]);
            assert_eq!(copy.fields().len(), 2);
        }
        other => panic!("unexpected field {}", other.sig_code()),
    }
}

#[test]
fn struct_of_every_primitive_keeps_fields_aligned() {
    let types = primitives();
    let s = Struct::new(&types);
    for (i, t) in types.iter().enumerate() {
        assert_eq!(s.offsets()[i] % t.align(), 0);
        if i + 1 < types.len() {
            assert!(s.offsets()[i] + t.size() <= s.offsets()[i + 1]);
        }
        assert_eq!(s.align() % t.align(), 0);
    }
    assert_eq!(s.size() % s.align(), 0);
}

#[test]
fn try_new_gives_the_same_layout() {
    let s = Struct::try_new(&[Type::Char, Type::Int]).unwrap();
    assert_eq!(s.size(), 8);
    assert_eq!(s.offsets(), &[0, 4]);
}

#[test]
fn duplicate_copies_a_struct() {
    let s = Struct::new(&[Type::Bool, Type::Pointer]);
    let c = s.duplicate();
    assert_eq!(c.size(), s.size());
    assert_eq!(c.align(), s.align());
    assert_eq!(c.offsets(), s.offsets());
    let t = Type::Struct(c).duplicate();
    assert_eq!(t.size(), s.size());
    assert_eq!(Type::UInt.duplicate().sig_code(), b'I');
}

#[test]
fn sizes_are_positive_but_for_empty_structs() {
    for t in primitives() {
        assert!(t.size() >= 1);
    }
    let empty = Struct::new(&[]);
    let holds_empty = Struct::new(&[Type::Struct(empty)]);
    assert_eq!(holds_empty.size(), 0);
    assert_eq!(Type::Struct(holds_empty).size(), 0);
    let one = Struct::new(&[Type::Struct(Struct::new(&[])), Type::Bool]);
    assert!(one.size() >= 1);
}

#[test]
fn void_is_one_byte() {
    assert_eq!(Type::Void.size(), 1);
    assert_eq!(Type::Void.align(), 1);
    assert_eq!(Type::Void.size(), core::mem::size_of::<libc::c_void>());
    assert_eq!(Type::Void.align(), core::mem::align_of::<libc::c_void>());
    assert_eq!(Type::Pointer.size(), core::mem::size_of::<usize>());
}
