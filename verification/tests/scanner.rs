use simpleasm::{Error, Scanner, ScannerAction};

fn rest(mut scanner: Scanner<u8>) -> Vec<u8> {
    let mut items = Vec::new();
    while let Some(item) = scanner.pop() {
        items.push(item);
    }
    items
}

#[test]
fn peek_and_pop() {
    let mut scanner = Scanner::new(vec![1u8, 2, 3]);
    assert_eq!(scanner.peek(), Some(&1));
    assert_eq!(scanner.pop(), Some(1));
    assert_eq!(scanner.peek(), Some(&2));
    assert_eq!(scanner.pop(), Some(2));
    assert_eq!(scanner.pop(), Some(3));
    assert_eq!(scanner.peek(), None);
    assert_eq!(scanner.pop(), None);
}

#[test]
fn test_looks_without_taking() {
    let mut scanner = Scanner::new(vec![4u8, 5]);
    assert!(scanner.test(|item| *item == 4));
    assert!(!scanner.test(|item| *item == 5));
    assert_eq!(rest(scanner), vec![4, 5]);
    let mut empty: Scanner<u8> = Scanner::new(vec![]);
    assert!(!empty.test(|_| true));
}

#[test]
fn take_takes_what_is_accepted() {
    let mut scanner = Scanner::new(vec![4u8, 5]);
    assert_eq!(scanner.take(|item| *item == 5), None);
    assert_eq!(scanner.take(|item| *item == 4), Some(4));
    assert_eq!(scanner.take(|item| *item == 4), None);
    assert_eq!(rest(scanner), vec![5]);
}

#[test]
fn take_while_takes_the_longest_run() {
    let mut scanner = Scanner::new(vec![2u8, 4, 6, 7, 8]);
    assert_eq!(scanner.take_while(|item| *item % 2 == 0), vec![2, 4, 6]);
    assert_eq!(scanner.take_while(|item| *item % 2 == 0), vec![]);
    assert_eq!(scanner.take_while(|_| true), vec![7, 8]);
    assert_eq!(scanner.take_while(|_| true), vec![]);
}

#[test]
fn transform_takes_what_it_makes_something_of() {
    let mut scanner = Scanner::new(vec![2u8, 3]);
    assert_eq!(scanner.transform(|item| if *item == 3 { Some("three") } else { None }), None);
    assert_eq!(scanner.transform(|item| if *item == 2 { Some("two") } else { None }), Some("two"));
    assert_eq!(scanner.transform(|item| if *item == 3 { Some("three") } else { None }), Some("three"));
    assert_eq!(scanner.transform(|_| Some(0)), None);
}

fn sum_of_ones(items: &[u8]) -> ScannerAction<u32> {
    match items.last() {
        Some(1) => ScannerAction::Request(items.len() as u32),
        Some(9) => ScannerAction::Return(99),
        Some(5) => ScannerAction::Require,
        _ => ScannerAction::Reject,
    }
}

#[test]
fn scan_takes_what_was_requested() {
    let mut scanner = Scanner::new(vec![1u8, 1, 1, 2, 1]);
    assert_eq!(scanner.scan(sum_of_ones), Ok(Some(3)));
    assert_eq!(rest(scanner), vec![2, 1]);
}

#[test]
fn scan_without_a_match_takes_nothing() {
    let mut scanner = Scanner::new(vec![2u8, 1]);
    assert_eq!(scanner.scan(sum_of_ones), Ok(None));
    assert_eq!(rest(scanner), vec![2, 1]);
    let mut empty: Scanner<u8> = Scanner::new(vec![]);
    assert_eq!(empty.scan(sum_of_ones), Ok(None));
}

#[test]
fn scan_returns_at_once() {
    let mut scanner = Scanner::new(vec![1u8, 9, 1]);
    assert_eq!(scanner.scan(sum_of_ones), Ok(Some(99)));
    assert_eq!(rest(scanner), vec![1]);
}

#[test]
fn scan_fails_where_more_was_required() {
    let mut scanner = Scanner::new(vec![1u8, 5, 2]);
    assert_eq!(scanner.scan(sum_of_ones), Err(Error::EOL));
    assert_eq!(rest(scanner), vec![2]);
    let mut at_end = Scanner::new(vec![1u8, 5]);
    assert_eq!(at_end.scan(sum_of_ones), Err(Error::EOL));
}

#[test]
fn scan_request_after_require_counts() {
    let mut scanner = Scanner::new(vec![5u8, 1, 2]);
    assert_eq!(scanner.scan(sum_of_ones), Ok(Some(2)));
    assert_eq!(rest(scanner), vec![2]);
    let mut to_end = Scanner::new(vec![1u8, 5, 1]);
    assert_eq!(to_end.scan(sum_of_ones), Ok(Some(3)));
    assert_eq!(rest(to_end), vec![]);
}
