use dyncall::call::{arg_steps, ArgStep, CallKind, VecHead};
use dyncall::ctype::{Struct, Type};

#[test]
fn call_kinds_merge_signedness() {
    assert_eq!(Type::Void.call_kind(), CallKind::Void);
    assert_eq!(Type::Bool.call_kind(), CallKind::Bool);
    assert_eq!(Type::Char.call_kind(), CallKind::Char);
    assert_eq!(Type::UChar.call_kind(), CallKind::Char);
    assert_eq!(Type::Short.call_kind(), CallKind::Short);
    assert_eq!(Type::UShort.call_kind(), CallKind::Short);
    assert_eq!(Type::Int.call_kind(), CallKind::Int);
    assert_eq!(Type::UInt.call_kind(), CallKind::Int);
    assert_eq!(Type::Long.call_kind(), CallKind::Long);
    assert_eq!(Type::ULong.call_kind(), CallKind::Long);
    assert_eq!(Type::LongLong.call_kind(), CallKind::LongLong);
    assert_eq!(Type::ULongLong.call_kind(), CallKind::LongLong);
    assert_eq!(Type::Float.call_kind(), CallKind::Float);
    assert_eq!(Type::Double.call_kind(), CallKind::Double);
    assert_eq!(Type::Pointer.call_kind(), CallKind::Pointer);
    assert_eq!(Type::Struct(Struct::new(&[Type::Int])).call_kind(), CallKind::Struct);
}

#[test]
fn void_arguments_are_skipped() {
    let types = vec![Type::Int, Type::Void, Type::Double, Type::Char];
    let steps = arg_steps(&types).unwrap();
    assert_eq!(
        steps,
        vec![
            ArgStep { index: 0, kind: CallKind::Int, offset: 0, size: 4 },
            ArgStep { index: 2, kind: CallKind::Double, offset: 4, size: 8 },
            ArgStep { index: 3, kind: CallKind::Char, offset: 12, size: 1 },
        ]
    );
}

#[test]
fn struct_arguments_take_their_size() {
    let s = Struct::new(&[Type::Char, Type::Int]);
    let types = vec![Type::Struct(s), Type::Short];
    let steps = arg_steps(&types).unwrap();
    assert_eq!(steps[0], ArgStep { index: 0, kind: CallKind::Struct, offset: 0, size: 8 });
    assert_eq!(steps[1], ArgStep { index: 1, kind: CallKind::Short, offset: 8, size: 2 });
}

#[test]
fn no_arguments() {
    assert_eq!(arg_steps(&[]), Some(vec![]));
    assert_eq!(arg_steps(&[Type::Void, Type::Void]), Some(vec![]));
}

#[test]
fn reserve_when_it_fits() {
    let head = VecHead { cap: 64, len: 10 };
    assert_eq!(head.reserve(8, 8), None);
    assert_eq!(head.reserve(54, 1), None);
}

#[test]
fn reserve_rounds_to_the_alignment() {
    // 60 + 4 = 64 fits exactly; 61 + 4 = 65 rounds up to 72.
    assert_eq!(VecHead { cap: 64, len: 60 }.reserve(4, 8), None);
    assert_eq!(VecHead { cap: 64, len: 61 }.reserve(4, 8), Some(128));
}

#[test]
fn reserve_doubles_the_capacity() {
    let head = VecHead { cap: 16, len: 12 };
    assert_eq!(head.reserve(8, 4), Some(32));
}

#[test]
fn reserve_grows_to_what_is_needed() {
    let head = VecHead { cap: 16, len: 12 };
    assert_eq!(head.reserve(100, 8), Some(112));
    let grown = VecHead { cap: 112, len: 12 };
    assert_eq!(grown.reserve(100, 8), None);
}

#[test]
fn reserve_from_an_empty_buffer() {
    let head = VecHead { cap: 0, len: 0 };
    assert_eq!(head.reserve(0, 16), None);
    assert_eq!(head.reserve(1, 16), Some(16));
}

#[test]
fn grown_buffer_keeps_its_contents_and_settles() {
    let head = VecHead { cap: 16, len: 12 };
    let n = head.reserve(8, 4).unwrap();
    let grown = head.grown(n);
    assert_eq!(grown, VecHead { cap: 32, len: 12 });
    assert_eq!(grown.reserve(8, 4), None);
}

#[test]
fn void_arguments_change_no_step() {
    let with_voids = vec![Type::Void, Type::Short, Type::Void, Type::Void, Type::Pointer, Type::Void];
    let without = vec![Type::Short, Type::Pointer];
    let a = arg_steps(&with_voids).unwrap();
    let b = arg_steps(&without).unwrap();
    assert_eq!(a.len(), b.len());
    for (x, y) in a.iter().zip(b.iter()) {
        assert_eq!((x.kind, x.offset, x.size), (y.kind, y.offset, y.size));
    }
    assert_eq!(a[0].index, 1);
    assert_eq!(a[1].index, 4);
}
