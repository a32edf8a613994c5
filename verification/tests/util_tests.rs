use turi::util::{find_str_width_pos, slice_str_with_width};

#[test]
fn slice_test() {
    assert_eq!(slice_str_with_width("123456", 3), ("123", "456", 0));
    assert_eq!(slice_str_with_width("abcdefghi", 5), ("abcde", "fghi", 0));
}

#[test]
fn slice_left_test() {
    assert_eq!(slice_str_with_width("가나다라", 3), ("가", "나다라", 1));
}

#[test]
fn find_str_width_pos_counts_bytes() {
    assert_eq!(find_str_width_pos("가나다라", 5), (6, 1));
    assert_eq!(find_str_width_pos("ab", 10), (2, 8));
}
