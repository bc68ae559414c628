use bytes::Bytes;
use nom::CompareResult;
use nombytes::{InputError, NomBytes, RangeType};
use std::cmp::Ordering;

fn text(nb: &NomBytes) -> &[u8] {
    nb.as_bytes()
}

#[test]
fn slices_by_every_shape() {
    let nb = NomBytes::new(Bytes::from("hello, world!"));
    assert_eq!(text(&nb.slice(RangeType::RangeTo(..6))), b"hello,");
    assert_eq!(text(&nb.slice(RangeType::RangeFrom(7..))), b"world!");
    assert_eq!(text(&nb.slice(RangeType::Range(5..7))), b", ");
    assert_eq!(text(&nb.slice(RangeType::RangeFull(..))), b"hello, world!");
}

#[test]
fn split_parts_rejoin() {
    let nb = NomBytes::from_str("parser");
    for i in 0..=6 {
        let (suffix, prefix) = nb.take_split(i);
        assert_eq!(prefix.input_len(), i);
        assert_eq!(suffix.input_len(), 6 - i);
        let mut joined = prefix.as_bytes().to_vec();
        joined.extend_from_slice(suffix.as_bytes());
        assert_eq!(joined, b"parser");
    }
    assert_eq!(nb.take(3).as_bytes(), b"par");
}

#[test]
fn offsets_survive_empty_slices() {
    let nb = NomBytes::from_str("hello");
    for i in 0..=5 {
        let before = nb.slice(RangeType::RangeTo(..i));
        let after = nb.slice(RangeType::RangeFrom(i..));
        assert_eq!(nb.offset(&after), i);
        assert_eq!(nb.offset(&before), 0);
    }
}

#[test]
fn empty_slice_keeps_its_range() {
    let nb = NomBytes::from_str("abc");
    let end = nb.slice(RangeType::RangeFrom(3..));
    assert_eq!(end.input_len(), 0);
    let (backing, range, _) = end.clone().into_raw();
    assert_eq!(backing.as_ref(), b"abc");
    assert_eq!(range, Some(RangeType::RangeFrom(3..)));
    let again = end.slice(RangeType::Range(0..0));
    assert_eq!(again.clone().into_raw().1, Some(RangeType::RangeFrom(3..)));
    assert_eq!(nb.offset(&again), 3);
    assert_eq!(end.offset(&again), 0);
}

#[test]
fn slicing_an_empty_buffer_gives_a_copy() {
    let empty = NomBytes::new(Bytes::new());
    let sliced = empty.slice(RangeType::Range(0..0));
    assert_eq!(sliced.input_len(), 0);
    assert_eq!(sliced.clone().into_raw().1, None);
    assert_eq!(empty.offset(&sliced), 0);
    assert_eq!(empty.offset(&empty), 0);
}

#[test]
fn non_empty_slices_drop_the_range() {
    let nb = NomBytes::from_str("abc");
    let (backing, range, _) = nb.slice(RangeType::Range(1..2)).into_raw();
    assert_eq!(backing.as_ref(), b"b");
    assert_eq!(range, None);
}

#[test]
fn split_policies() {
    let nb = NomBytes::from_str("abc");
    let is_a = |c: u8| c == b'a';
    assert_eq!(nb.split_at_position1(is_a).unwrap_err(), InputError::EmptyMatch);
    let (suffix, prefix) = nb.split_at_position(is_a).unwrap();
    assert_eq!(prefix.input_len(), 0);
    assert_eq!(suffix.as_bytes(), b"abc");

    let is_c = |c: u8| c == b'c';
    let (suffix, prefix) = nb.split_at_position1(is_c).unwrap();
    assert_eq!((prefix.as_bytes(), suffix.as_bytes()), (&b"ab"[..], &b"c"[..]));

    let is_z = |c: u8| c == b'z';
    assert_eq!(nb.split_at_position(is_z).unwrap_err(), InputError::Incomplete(1));
    assert_eq!(nb.split_at_position1(is_z).unwrap_err(), InputError::Incomplete(1));
    let (suffix, prefix) = nb.split_at_position_complete(is_z).unwrap();
    assert_eq!((prefix.as_bytes(), suffix.input_len()), (&b"abc"[..], 0));
    let (suffix, prefix) = nb.split_at_position1_complete(is_z).unwrap();
    assert_eq!((prefix.as_bytes(), suffix.input_len()), (&b"abc"[..], 0));
    assert_eq!(nb.split_at_position1_complete(is_a).unwrap_err(), InputError::EmptyMatch);

    let empty = NomBytes::from_str("");
    assert_eq!(empty.split_at_position1_complete(is_z).unwrap_err(), InputError::EmptyMatch);
    let (suffix, prefix) = empty.split_at_position_complete(is_z).unwrap();
    assert_eq!((prefix.input_len(), suffix.input_len()), (0, 0));
}

#[test]
fn position_and_slice_index() {
    let nb = NomBytes::from_str("a,b,c");
    assert_eq!(nb.position(|c| c == b','), Some(1));
    assert_eq!(nb.position(|c| c == b';'), None);
    assert_eq!(nb.slice_index(5), Ok(5));
    assert_eq!(nb.slice_index(2), Ok(2));
    assert_eq!(nb.slice_index(8), Err(InputError::Incomplete(3)));
}

#[test]
fn compare_follows_prefixes() {
    let nb = NomBytes::from_str("hello");
    assert_eq!(nb.compare(NomBytes::from_str("hello")), CompareResult::Ok);
    assert_eq!(nb.compare(NomBytes::from_str("hell")), CompareResult::Ok);
    assert_eq!(nb.compare(NomBytes::from_str("hello!")), CompareResult::Incomplete);
    assert_eq!(nb.compare(NomBytes::from_str("help")), CompareResult::Error);
    assert_eq!(nb.compare(NomBytes::from_str("jello")), CompareResult::Error);
    assert_eq!(nb.compare_str("he"), CompareResult::Ok);
    assert_eq!(nb.compare_str("HE"), CompareResult::Error);
    assert_eq!(nb.compare_no_case_str("HE"), CompareResult::Ok);
    assert_eq!(nb.compare_no_case(NomBytes::from_str("HELLO world")), CompareResult::Incomplete);
    assert_eq!(nb.compare_no_case(NomBytes::from_str("HELP")), CompareResult::Error);
}

#[test]
fn equality_and_order_follow_the_bytes() {
    let a = NomBytes::from_str("abc");
    let b = NomBytes::from_slice(b"xabcx").slice(RangeType::Range(1..4));
    assert!(a == b);
    assert!(a != NomBytes::from_str("abd"));
    assert_eq!(a.partial_cmp(&NomBytes::from_str("abd")), Some(Ordering::Less));
    assert_eq!(a.partial_cmp(&NomBytes::from_str("ab")), Some(Ordering::Greater));
    assert_eq!(a.partial_cmp(&b), Some(Ordering::Equal));
    let e1 = a.slice(RangeType::RangeFrom(3..));
    let e2 = NomBytes::from_str("");
    assert!(e1 == e2);
}

#[test]
fn text_views() {
    let nb = NomBytes::from_string(String::from("héllo"));
    assert_eq!(nb.to_str(), "héllo");
    assert_eq!(nb.try_to_str().unwrap(), "héllo");
    let bad = NomBytes::from_slice(&[b'a', 0xff, b'b']);
    let err = bad.try_to_str().unwrap_err();
    assert_eq!(err.valid_up_to(), 1);
    assert_eq!(bad.to_bytes().as_ref(), &[b'a', 0xff, b'b']);
    assert_eq!(bad.into_bytes().as_ref(), &[b'a', 0xff, b'b']);
}

#[test]
fn raw_parts_round_trip() {
    let nb = NomBytes::from_str("xyz").slice(RangeType::RangeTo(..0));
    let parts = nb.clone().into_raw();
    let back = NomBytes::from_raw(parts);
    assert_eq!(nb.offset(&back), 0);
    assert_eq!(back.input_len(), 0);
    assert_eq!(back.clone().into_raw().1, Some(RangeType::RangeTo(..0)));
    assert_eq!(back.to_bytes().len(), 0);
}

#[test]
fn offsets_of_cut_parts() {
    let nb = NomBytes::from_str("hello, world!");
    let tail = nb.slice(RangeType::RangeFrom(7..));
    assert_eq!(nb.offset(&tail), 7);
    assert_eq!(tail.start_index(), 7);
    let word = tail.slice(RangeType::Range(2..4));
    assert_eq!(nb.offset(&word), 9);
    assert_eq!(tail.offset(&word), 2);
    let end = tail.slice(RangeType::RangeFrom(6..));
    assert_eq!(nb.offset(&end), 13);
    let (suffix, prefix) = nb.split_at_position_complete(|c| c == b'z').unwrap();
    assert_eq!(nb.offset(&prefix), 0);
    assert_eq!(nb.offset(&suffix), 13);
    let (suffix, prefix) = nb.split_at_position(|c| c == b'h').unwrap();
    assert_eq!((nb.offset(&prefix), nb.offset(&suffix)), (0, 0));
    assert_eq!(nb.offset(&nb.take(0)), 0);
}

#[test]
fn taking_too_much_signals_the_shortfall() {
    let nb = NomBytes::from_str("abc");
    assert_eq!(nb.try_take(5).unwrap_err(), InputError::Incomplete(2));
    assert_eq!(nb.try_take(2).unwrap().as_bytes(), b"ab");
    assert_eq!(nb.try_take_split(4).unwrap_err(), InputError::Incomplete(1));
    let (suffix, prefix) = nb.try_take_split(1).unwrap();
    assert_eq!((prefix.as_bytes(), suffix.as_bytes()), (&b"a"[..], &b"bc"[..]));
    assert_eq!(nb.offset(&suffix), 1);
}

#[test]
fn into_bytes_hands_back_the_buffer() {
    let buffer = Bytes::from("shared");
    let nb = NomBytes::new(buffer.clone());
    let back = nb.into_bytes();
    assert_eq!(back.as_ptr(), buffer.as_ptr());
    assert_eq!(back.len(), buffer.len());
}
