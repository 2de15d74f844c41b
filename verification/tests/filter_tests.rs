use pwdg::util::filter::filtered_range;

#[test]
fn test_filtered_range_no_exclusions() {
    let range: Vec<char> = ('a'..='c').collect();
    let result: Vec<char> = filtered_range(&range, &None);
    assert_eq!(result, vec!['a', 'b', 'c']);
}

#[test]
fn test_filtered_range_with_exclusions() {
    let range: Vec<char> = ('a'..='c').collect();
    let exclusions: Vec<char> = vec!['b'];
    let result: Vec<char> = filtered_range(&range, &Some(exclusions));
    assert_eq!(result, vec!['a', 'c']);
}

#[test]
fn test_filtered_range_empty_range() {
    let range: Vec<char> = ('a'..'a').collect();
    let result: Vec<char> = filtered_range(&range, &None);
    assert!(result.is_empty());
}

#[test]
fn test_filtered_range_full_exclusions() {
    let range: Vec<char> = ('a'..='c').collect();
    let exclusions: Vec<char> = vec!['a', 'b', 'c'];
    let result: Vec<char> = filtered_range(&range, &Some(exclusions));
    assert!(result.is_empty());
}

#[test]
fn test_filtered_range_non_overlapping_exclusions() {
    let range: Vec<char> = ('a'..='c').collect();
    let exclusions: Vec<char> = vec!['x', 'y', 'z'];
    let result: Vec<char> = filtered_range(&range, &Some(exclusions));
    assert_eq!(result, vec!['a', 'b', 'c']);
}

#[test]
fn test_filtered_range_keeps_order_and_duplicate_exclusions() {
    let range: Vec<char> = vec!['d', 'c', 'b', 'a'];
    let exclusions: Vec<char> = vec!['c', 'c', 'a'];
    let result: Vec<char> = filtered_range(&range, &Some(exclusions));
    assert_eq!(result, vec!['d', 'b']);
}
