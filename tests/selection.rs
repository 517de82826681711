use server_rs::model::{Test, TestRequest};
use server_rs::select::{leading_below, process_test_data, sort_by_value};

fn items(values: &[i64]) -> Vec<Test> {
    values.iter().map(|&value| Test { value }).collect()
}

fn request(values: &[i64], budget: i64) -> TestRequest {
    TestRequest { secret: "key".to_string(), tests: items(values), budget }
}

#[test]
fn sorted_run_below_budget() {
    let mut req = request(&[5, 1, 10, 2], 6);
    let out = process_test_data(&mut req);
    assert_eq!(out, items(&[1, 2, 5]));
    assert_eq!(req.tests, items(&[1, 2, 5, 10]));
}

#[test]
fn run_stops_at_first_item_not_below_budget() {
    assert_eq!(leading_below(&items(&[10, 1]), 5), items(&[]));
    assert_eq!(leading_below(&items(&[1, 7, 2]), 5), items(&[1]));
}

#[test]
fn request_is_sorted_before_the_run_is_taken() {
    let mut req = request(&[10, 1], 5);
    assert_eq!(process_test_data(&mut req), items(&[1]));
}

#[test]
fn budget_is_exclusive() {
    let mut req = request(&[3, 6, 6, 2], 6);
    assert_eq!(process_test_data(&mut req), items(&[2, 3]));
}

#[test]
fn empty_request_selects_nothing() {
    let mut req = request(&[], 100);
    assert_eq!(process_test_data(&mut req), items(&[]));
    assert!(req.tests.is_empty());
}

#[test]
fn everything_below_budget_is_selected() {
    let mut req = request(&[4, -3, 0, 4], 5);
    assert_eq!(process_test_data(&mut req), items(&[-3, 0, 4, 4]));
}

#[test]
fn extreme_values() {
    let mut req = request(&[i64::MAX, i64::MIN, 0], i64::MAX);
    assert_eq!(process_test_data(&mut req), items(&[i64::MIN, 0]));
    let mut none = request(&[i64::MIN, 0], i64::MIN);
    assert_eq!(process_test_data(&mut none), items(&[]));
}

#[test]
fn request_keeps_secret_and_budget() {
    let mut req = request(&[2, 1], 3);
    process_test_data(&mut req);
    assert_eq!(req.secret, "key");
    assert_eq!(req.budget, 3);
}

#[test]
fn sort_orders_by_value() {
    let mut v = items(&[3, -1, 3, 0, 7, -5]);
    sort_by_value(&mut v);
    assert_eq!(v, items(&[-5, -1, 0, 3, 3, 7]));
}

#[test]
fn selected_items_come_from_the_request() {
    let input = [9, 4, 4, 1, 12, 3];
    let mut req = request(&input, 8);
    let out = process_test_data(&mut req);
    assert_eq!(out, items(&[1, 3, 4, 4]));
    for t in &out {
        let selected = out.iter().filter(|u| u.value == t.value).count();
        let given = input.iter().filter(|&&v| v == t.value).count();
        assert!(selected <= given);
    }
}

#[test]
fn same_request_twice_same_results() {
    let mut first = request(&[8, 2, 2, 5, 1], 6);
    let mut second = request(&[8, 2, 2, 5, 1], 6);
    let a = process_test_data(&mut first);
    let b = process_test_data(&mut second);
    assert_eq!(a, b);
    let mut reordered = request(&[5, 1, 2, 8, 2], 6);
    assert_eq!(process_test_data(&mut reordered), a);
}
