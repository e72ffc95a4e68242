use rayexec::array::{
    Array, BooleanArray, Int64Array, ListArray, NullArray, PrimitiveArray, StructArray, Utf8Array,
};
use rayexec::batch::Batch;
use rayexec::error::ErrorKind;

fn int64(values: &[i64]) -> Array {
    Array::Int64(Int64Array::from_values(values.to_vec()))
}

fn utf8(values: &[&str]) -> Array {
    Array::Utf8(Utf8Array::from_strs(values))
}

fn list(child: Array, offsets: Vec<usize>) -> Array {
    Array::List(ListArray::try_new(child, offsets, None).unwrap())
}

#[test]
fn concat_primitive() {
    let arrs = [&int64(&[1]), &int64(&[2, 3]), &int64(&[4, 5, 6])];

    let got = rayexec::concat::concat(&arrs).unwrap();
    let expected = int64(&[1, 2, 3, 4, 5, 6]);

    assert_eq!(expected, got);
}

#[test]
fn concat_varlen() {
    let arrs = [
        &utf8(&["a"]),
        &utf8(&["bb", "ccc"]),
        &utf8(&["dddd", "eeeee", "ffffff"]),
    ];

    let got = rayexec::concat::concat(&arrs).unwrap();
    let expected = utf8(&["a", "bb", "ccc", "dddd", "eeeee", "ffffff"]);

    assert_eq!(expected, got);
}

#[test]
fn concat_list_arrays_equal_list_sizes() {
    let lists = vec![
        list(utf8(&["a", "b", "c"]), vec![0, 3]),
        list(utf8(&["d", "e", "f"]), vec![0, 3]),
        list(utf8(&["g", "h", "i"]), vec![0, 3]),
    ];
    let refs: Vec<_> = lists.iter().collect();

    let got = rayexec::concat::concat(&refs).unwrap();
    let expected = list(
        utf8(&["a", "b", "c", "d", "e", "f", "g", "h", "i"]),
        vec![0, 3, 6, 9],
    );

    assert_eq!(expected, got)
}

#[test]
fn concat_list_arrays_different_list_sizes() {
    let lists = vec![
        list(utf8(&["a", "c"]), vec![0, 2]),
        list(utf8(&["f"]), vec![0, 1]),
        list(utf8(&["g", "h", "i"]), vec![0, 3]),
    ];
    let refs: Vec<_> = lists.iter().collect();

    let got = rayexec::concat::concat(&refs).unwrap();
    let expected = list(utf8(&["a", "c", "f", "g", "h", "i"]), vec![0, 2, 3, 6]);

    assert_eq!(expected, got)
}

#[test]
fn concat_utf8_offsets() {
    let arrs = [
        &utf8(&["a"]),
        &utf8(&["bb", "ccc"]),
        &utf8(&["dddd", "eeeee", "ffffff"]),
    ];
    match rayexec::concat::concat(&arrs).unwrap() {
        Array::Utf8(v) => {
            assert_eq!(v.offsets, vec![0, 1, 3, 6, 10, 15, 21]);
            assert_eq!(v.data, b"abbcccddddeeeeeffffff".to_vec());
        }
        other => panic!("unexpected array: {other:?}"),
    }
}

#[test]
fn concat_list_child_and_offsets() {
    let lists = vec![
        list(utf8(&["a", "c"]), vec![0, 2]),
        list(utf8(&["f"]), vec![0, 1]),
        list(utf8(&["g", "h", "i"]), vec![0, 3]),
    ];
    let refs: Vec<_> = lists.iter().collect();
    match rayexec::concat::concat(&refs).unwrap() {
        Array::List(l) => {
            assert_eq!(l.offsets, vec![0, 2, 3, 6]);
            assert_eq!(*l.child, utf8(&["a", "c", "f", "g", "h", "i"]));
            assert_eq!(l.validity, None);
        }
        other => panic!("unexpected array: {other:?}"),
    }
}

#[test]
fn concat_single_array_is_unchanged() {
    let a = utf8(&["x", "", "yz"]);
    assert_eq!(rayexec::concat::concat(&[&a]).unwrap(), a);
    let b = int64(&[7, 8]);
    assert_eq!(rayexec::concat::concat(&[&b]).unwrap(), b);
}

#[test]
fn concat_length_is_sum_of_lengths() {
    let arrs = [&int64(&[1, 2]), &int64(&[]), &int64(&[3, 4, 5])];
    let got = rayexec::concat::concat(&arrs).unwrap();
    assert_eq!(got.len(), 5);
}

#[test]
fn concat_is_associative() {
    let a = utf8(&["a", "bb"]);
    let b = utf8(&["ccc"]);
    let c = utf8(&["", "dddd"]);
    let bc = rayexec::concat::concat(&[&b, &c]).unwrap();
    let ab = rayexec::concat::concat(&[&a, &b]).unwrap();
    let left = rayexec::concat::concat(&[&a, &bc]).unwrap();
    let right = rayexec::concat::concat(&[&ab, &c]).unwrap();
    let all = rayexec::concat::concat(&[&a, &b, &c]).unwrap();
    assert_eq!(left, right);
    assert_eq!(left, all);
}

#[test]
fn concat_nulls_sums_lengths() {
    let a = Array::Null(NullArray::new(2));
    let b = Array::Null(NullArray::new(3));
    assert_eq!(rayexec::concat::concat(&[&a, &b]).unwrap(), Array::Null(NullArray::new(5)));
}

#[test]
fn concat_validity_absent_when_all_absent() {
    let got = rayexec::concat::concat(&[&int64(&[1]), &int64(&[2])]).unwrap();
    assert_eq!(got.validity(), None);
}

#[test]
fn concat_validity_keeps_masks_at_their_offsets() {
    let a = int64(&[1, 2]);
    let b = Array::Int64(PrimitiveArray::try_new(vec![3, 4, 5], Some(vec![false, true, false])).unwrap());
    let c = int64(&[6]);
    let got = rayexec::concat::concat(&[&a, &b, &c]).unwrap();
    assert_eq!(
        got.validity(),
        Some(&vec![true, true, false, true, false, true])
    );
    assert!(!got.is_valid(2));
    assert!(got.is_valid(5));
}

#[test]
fn concat_empty_input_is_invalid_argument() {
    let err = rayexec::concat::concat(&[]).unwrap_err();
    assert_eq!(err.kind, ErrorKind::InvalidArgument);
}

#[test]
fn concat_mixed_types_is_type_mismatch() {
    let err = rayexec::concat::concat(&[&int64(&[1]), &utf8(&["a"])]).unwrap_err();
    assert_eq!(err.kind, ErrorKind::TypeMismatch);
    assert_eq!(
        err.msg,
        "Cannot concat arrays of differing types: expected Int64, got Utf8"
    );
}

#[test]
fn concat_batches_empty_input() {
    let b = rayexec::concat::concat_batches(&[]).unwrap();
    assert_eq!(b.num_columns(), 0);
    assert_eq!(b.num_rows(), 0);
}

#[test]
fn concat_batches_without_columns() {
    let b1 = Batch::try_new(vec![]).unwrap();
    let b2 = Batch::try_new(vec![]).unwrap();
    let b = rayexec::concat::concat_batches(&[b1, b2]).unwrap();
    assert_eq!(b.num_columns(), 0);
    assert_eq!(b.num_rows(), 0);
}

#[test]
fn concat_batches_column_by_column() {
    let b1 = Batch::try_new(vec![int64(&[1]), utf8(&["a"])]).unwrap();
    let b2 = Batch::try_new(vec![int64(&[2, 3]), utf8(&["b", "c"])]).unwrap();
    let b = rayexec::concat::concat_batches(&[b1, b2]).unwrap();
    assert_eq!(b.num_rows(), 3);
    assert_eq!(b.column(0), Some(&int64(&[1, 2, 3])));
    assert_eq!(b.column(1), Some(&utf8(&["a", "b", "c"])));
    assert_eq!(b.column(2), None);
}

#[test]
fn concat_batches_width_mismatch() {
    let b1 = Batch::try_new(vec![int64(&[1])]).unwrap();
    let b2 = Batch::try_new(vec![int64(&[2]), int64(&[3])]).unwrap();
    let err = rayexec::concat::concat_batches(&[b1, b2]).unwrap_err();
    assert_eq!(err.kind, ErrorKind::SchemaMismatch);
}

#[test]
fn batch_rejects_unequal_columns() {
    let err = Batch::try_new(vec![int64(&[1]), int64(&[1, 2])]).unwrap_err();
    assert_eq!(err.kind, ErrorKind::SchemaMismatch);
}

#[test]
fn concat_struct_is_not_implemented() {
    let s = Array::Struct(StructArray {
        names: vec!["x".to_string()],
        children: vec![int64(&[1])],
        len: 1,
    });
    let err = rayexec::concat::concat(&[&s, &s]).unwrap_err();
    assert_eq!(err.kind, ErrorKind::NotImplemented);
}

#[test]
fn concat_list_of_lists() {
    let inner1 = list(int64(&[1, 2, 3]), vec![0, 1, 3]);
    let inner2 = list(int64(&[4]), vec![0, 1]);
    let a = list(inner1, vec![0, 2]);
    let b = list(inner2, vec![0, 1]);
    let got = rayexec::concat::concat(&[&a, &b]).unwrap();
    let expected = list(list(int64(&[1, 2, 3, 4]), vec![0, 1, 3, 4]), vec![0, 2, 3]);
    assert_eq!(got, expected);
}

#[test]
fn concat_boolean_with_masks() {
    let a = Array::Boolean(BooleanArray::try_new(vec![true], None).unwrap());
    let b = Array::Boolean(BooleanArray::try_new(vec![false, true], Some(vec![true, false])).unwrap());
    let got = rayexec::concat::concat(&[&a, &b]).unwrap();
    assert_eq!(
        got,
        Array::Boolean(
            BooleanArray::try_new(vec![true, false, true], Some(vec![true, true, false])).unwrap()
        )
    );
}

#[test]
fn list_offsets_are_checked() {
    assert!(ListArray::try_new(utf8(&["a"]), vec![0, 2], None).is_none());
    assert!(ListArray::try_new(utf8(&["a", "b"]), vec![0, 2, 1, 2], None).is_none());
    assert!(ListArray::try_new(utf8(&["a", "b"]), vec![0, 1, 2], Some(vec![true])).is_none());
}

#[test]
fn concat_struct_first_is_not_implemented_whatever_follows() {
    let s = Array::Struct(StructArray {
        names: vec!["x".to_string()],
        children: vec![int64(&[1])],
        len: 1,
    });
    let err = rayexec::concat::concat(&[&s, &int64(&[2])]).unwrap_err();
    assert_eq!(err.kind, ErrorKind::NotImplemented);
}

#[test]
fn concat_list_of_struct_with_other_type_is_type_mismatch() {
    let s = Array::Struct(StructArray {
        names: vec!["x".to_string()],
        children: vec![int64(&[1])],
        len: 1,
    });
    let l = list(s, vec![0, 1]);
    let err = rayexec::concat::concat(&[&l, &int64(&[2])]).unwrap_err();
    assert_eq!(err.kind, ErrorKind::TypeMismatch);
}

#[test]
fn concat_list_with_differing_children_is_type_mismatch() {
    let a = ListArray::try_new(int64(&[1]), vec![0, 1], None).unwrap();
    let b = ListArray::try_new(utf8(&["x"]), vec![0, 1], None).unwrap();
    let err = rayexec::concat::concat_list(&[&a, &b]).unwrap_err();
    assert_eq!(err.kind, ErrorKind::TypeMismatch);
}
