use std::sync::Arc;

use rayexec::array::{Array, Int32Array, Utf8Array, VarlenArray};
use rayexec::broadcast::{BroadcastState, RecvCursor, RecvPoll};
use rayexec::datasource::{partition_row_groups, rows_to_batch, scan_row_groups, ColumnValues};
use rayexec::datatype::DataType;
use rayexec::error::ErrorKind;
use rayexec::scalar::{Ascii, AsciiImpl};

fn take(p: RecvPoll<&'static str>) -> Option<Arc<&'static str>> {
    match p {
        RecvPoll::Ready(v) => v,
        RecvPoll::Pending => panic!("pending"),
    }
}

#[test]
fn ascii_kernel() {
    let input = Array::Utf8(Utf8Array::from_strs(&["a", "bb", ""]));
    let out = AsciiImpl.execute(&[&input]).unwrap();
    assert_eq!(out, Array::Int32(Int32Array::from_values(vec![97, 98, 0])));
}

#[test]
fn ascii_kernel_multibyte_first_char() {
    let input = Array::Utf8(Utf8Array::from_strs(&["é", "€x", "😀"]));
    let out = AsciiImpl.execute(&[&input]).unwrap();
    assert_eq!(
        out,
        Array::Int32(Int32Array::from_values(vec![0xE9, 0x20AC, 0x1F600]))
    );
}

#[test]
fn ascii_kernel_keeps_validity() {
    let input = Array::Utf8(
        VarlenArray::try_new(vec![0, 1, 1, 3], b"abc".to_vec(), Some(vec![true, false, true]))
            .unwrap(),
    );
    let out = AsciiImpl.execute(&[&input]).unwrap();
    assert_eq!(out.len(), 3);
    assert_eq!(out.validity(), Some(&vec![true, false, true]));
    match out {
        Array::Int32(p) => assert_eq!(p.values, vec![97, 0, 98]),
        other => panic!("unexpected array: {other:?}"),
    }
}

#[test]
fn ascii_kernel_rejects_other_input() {
    let input = Array::Int32(Int32Array::from_values(vec![1]));
    let err = AsciiImpl.execute(&[&input]).unwrap_err();
    assert_eq!(err.kind, ErrorKind::InvalidArgument);
}

#[test]
fn ascii_plan() {
    assert_eq!(Ascii.name(), "ascii");
    let sigs = Ascii.signatures();
    assert_eq!(sigs.len(), 1);
    assert_eq!(sigs[0].input, vec![DataType::Utf8]);
    assert_eq!(sigs[0].return_type, DataType::Int32);
    assert_eq!(Ascii.plan(&[DataType::Utf8]).unwrap(), DataType::Int32);
    assert!(Ascii.plan(&[DataType::Int64]).is_err());
    assert!(Ascii.plan(&[]).is_err());
}

#[test]
fn broadcast_fan_out() {
    let mut state: BroadcastState<&'static str> = BroadcastState::new(2);
    state.send("b1");
    state.send("b2");
    state.finish();

    let r1_first = take(state.poll_recv(0, 0)).unwrap();
    assert_eq!(*r1_first, "b1");
    let r2_first = take(state.poll_recv(1, 0)).unwrap();
    assert_eq!(*r2_first, "b1");
    // Both receivers have taken the first item: its slot no longer holds it.
    drop(r1_first);
    assert_eq!(Arc::strong_count(&r2_first), 1);

    assert_eq!(*take(state.poll_recv(0, 1)).unwrap(), "b2");
    assert_eq!(*take(state.poll_recv(1, 1)).unwrap(), "b2");
    assert!(take(state.poll_recv(0, 2)).is_none());
    assert!(take(state.poll_recv(1, 2)).is_none());
}

#[test]
fn broadcast_registers_and_wakes() {
    let mut state: BroadcastState<u32> = BroadcastState::new(3);
    assert!(matches!(state.poll_recv(1, 0), RecvPoll::Pending));
    assert!(matches!(state.poll_recv(2, 1), RecvPoll::Pending));
    let woken = state.send(10);
    assert_eq!(woken, vec![false, true, false]);
    let woken = state.finish();
    assert_eq!(woken, vec![false, false, true]);
    assert!(take_u32(state.poll_recv(2, 1)).is_none());
}

fn take_u32(p: RecvPoll<u32>) -> Option<Arc<u32>> {
    match p {
        RecvPoll::Ready(v) => v,
        RecvPoll::Pending => panic!("pending"),
    }
}

#[test]
fn broadcast_send_never_waits() {
    let mut state: BroadcastState<u32> = BroadcastState::new(1);
    for i in 0..100 {
        state.send(i);
    }
    assert_eq!(*take_u32(state.poll_recv(0, 99)).unwrap(), 99);
}

#[test]
fn row_groups_round_robin() {
    let parts = partition_row_groups(7, 3);
    assert_eq!(parts, vec![vec![0, 3, 6], vec![1, 4], vec![2, 5]]);
    let parts = partition_row_groups(1, 3);
    assert_eq!(parts, vec![vec![0], vec![], vec![]]);
    let mut all: Vec<usize> = parts.into_iter().flatten().collect();
    all.sort();
    assert_eq!(all, vec![0]);
}

#[test]
fn ascii_kernel_uses_first_argument() {
    let input = Array::Utf8(Utf8Array::from_strs(&["z"]));
    let other = Array::Int32(Int32Array::from_values(vec![5]));
    let out = AsciiImpl.execute(&[&input, &other]).unwrap();
    assert_eq!(out, Array::Int32(Int32Array::from_values(vec![122])));
}

#[test]
fn decoded_rows_to_batch() {
    let cols = vec![
        ColumnValues::Int64(vec![Some(1), None, Some(3)]),
        ColumnValues::Boolean(vec![Some(true), Some(false), None]),
    ];
    let b = rows_to_batch(&[DataType::Int64, DataType::Boolean], &cols).unwrap();
    assert_eq!(b.num_rows(), 3);
    assert_eq!(b.column(0).unwrap().validity(), Some(&vec![true, false, true]));
    assert_eq!(b.column(1).unwrap().validity(), Some(&vec![true, true, false]));
    let err = rows_to_batch(&[DataType::Utf8], &vec![ColumnValues::Int64(vec![])]).unwrap_err();
    assert_eq!(err.kind, ErrorKind::NotImplemented);
}

#[test]
fn receiver_cursor_advances_on_each_receive() {
    let mut c = RecvCursor::new(2);
    assert!(c.can_advance());
    assert_eq!(c.advance(), (2, 0));
    assert_eq!(c.advance(), (2, 1));
}

#[test]
fn zero_partitions() {
    assert_eq!(scan_row_groups(0, 0).unwrap(), Vec::<Vec<usize>>::new());
    assert_eq!(scan_row_groups(2, 0).unwrap_err().kind, ErrorKind::InvalidArgument);
    assert_eq!(scan_row_groups(2, 2).unwrap(), vec![vec![0], vec![1]]);
}
