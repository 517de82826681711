use vstd::prelude::*;
use vstd::relations::{sorted_by, total_ordering};

verus! {

/// One candidate item of a request: a single integer score.
#[derive(Clone, Copy, Debug, PartialEq, Eq, Structural)]
pub struct Test {
    pub value: i64,
}

/// A decoded request: the caller's secret, the candidate items and the budget.
#[derive(Debug)]
pub struct TestRequest {
    pub secret: String,
    pub tests: Vec<Test>,
    pub budget: i64,
}

/// The order in which items are sorted: ascending by value.
pub open spec fn by_value() -> spec_fn(Test, Test) -> bool {
    |a: Test, b: Test| a.value <= b.value
}

/// `s` sorted ascending by value.
pub open spec fn sorted_by_value(s: Seq<Test>) -> Seq<Test> {
    s.sort_by(by_value())
}

/// The longest leading run of `s` whose values are all below `budget`.
/// The run ends at the first item that is not below the budget, even when
/// later items would be.
pub open spec fn take_below(s: Seq<Test>, budget: i64) -> Seq<Test>
    decreases s.len(),
{
    if s.len() == 0 || s[0].value >= budget {
        Seq::empty()
    } else {
        seq![s[0]] + take_below(s.drop_first(), budget)
    }
}

/// What a request selects: the leading run below the budget, taken from
/// the items sorted ascending by value.
pub open spec fn selection(tests: Seq<Test>, budget: i64) -> Seq<Test> {
    take_below(sorted_by_value(tests), budget)
}

/// Ordering by value is a total order on items: an item is its value alone.
pub proof fn lemma_by_value_total()
    ensures
        total_ordering(by_value()),
{
    assert forall|a: Test, b: Test| #[trigger] by_value()(a, b) && #[trigger] by_value()(b, a)
        implies a == b by {
        assert(a.value == b.value);
    }
}

/// `sorted_by_value(s)` is sorted and holds the items of `s`.
pub proof fn lemma_sorted_by_value(s: Seq<Test>)
    ensures
        sorted_by(sorted_by_value(s), by_value()),
        sorted_by_value(s).to_multiset() == s.to_multiset(),
{
    lemma_by_value_total();
    s.lemma_sort_by_ensures(by_value());
}

/// A sorted arrangement of the items of `s` is `sorted_by_value(s)`.
pub proof fn lemma_sorted_arrangement_unique(s: Seq<Test>, t: Seq<Test>)
    requires
        sorted_by(t, by_value()),
        t.to_multiset() == s.to_multiset(),
    ensures
        t == sorted_by_value(s),
{
    lemma_by_value_total();
    lemma_sorted_by_value(s);
    vstd::seq_lib::lemma_sorted_unique(t, sorted_by_value(s), by_value());
}

} // verus!
