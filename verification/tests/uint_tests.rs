use pwdg::util::uint::checked_sum;

#[test]
fn test_checked_sum_success() {
    assert_eq!(checked_sum(&vec![1 as u8, 2, 3]), Some(6));
    assert_eq!(checked_sum(&vec![100 as u16, 200, 300]), Some(600));
    assert_eq!(
        checked_sum(&vec![u32::MAX - 200, 100, 100]),
        Some(u32::MAX)
    );
}

#[test]
fn test_checked_sum_overflow() {
    assert_eq!(checked_sum(&vec![usize::MAX, 1]), None);
    assert_eq!(checked_sum(&vec![u32::MAX, 1]), None);
    assert_eq!(checked_sum(&vec![u32::MAX, u32::MAX, 578]), None);
    assert_eq!(checked_sum(&vec![u32::MAX - 60000, 30000, 30001]), None);
}

#[test]
fn test_checked_sum_empty_and_u64() {
    let empty: Vec<u64> = vec![];
    assert_eq!(checked_sum(&empty), Some(0));
    assert_eq!(checked_sum(&vec![u64::MAX, 0]), Some(u64::MAX));
    assert_eq!(checked_sum(&vec![u64::MAX, 1]), None);
}
