use vstd::prelude::*;
use vstd::relations::sorted_by;
use crate::model::{
    Test,
    TestRequest,
    by_value,
    sorted_by_value,
    take_below,
    selection,
    lemma_sorted_arrangement_unique,
};

verus! {

broadcast use vstd::seq_lib::group_to_multiset_ensures;

/// Sorts `v` ascending by value, in place.
pub fn sort_by_value(v: &mut Vec<Test>)
    ensures
        final(v)@ == sorted_by_value(old(v)@),
{
    let n = v.len();
    let mut i: usize = 0;
    while i < n
        invariant
            n == v.len(),
            i <= n,
            v@.to_multiset() == old(v)@.to_multiset(),
            forall|a: int, b: int| 0 <= a < b < i ==> v@[a].value <= v@[b].value,
            forall|a: int, b: int| 0 <= a < i <= b < n ==> v@[a].value <= v@[b].value,
        decreases n - i,
    {
        let mut m: usize = i;
        let mut j: usize = i + 1;
        while j < n
            invariant
                n == v.len(),
                i <= m < n,
                i < j <= n,
                m < j,
                forall|b: int| i <= b < j ==> v@[m as int].value <= v@[b].value,
            decreases n - j,
        {
            if v[j].value < v[m].value {
                m = j;
            }
            j = j + 1;
        }
        let a = v[i];
        let b = v[m];
        proof {
            let s = v@;
            assert(s.update(i as int, b).update(m as int, a).to_multiset() == s.to_multiset()) by {
                broadcast use vstd::multiset::group_multiset_axioms;
            };
        }
        v.set(i, b);
        v.set(m, a);
        i = i + 1;
    }
    proof {
        assert(sorted_by(v@, by_value()));
        lemma_sorted_arrangement_unique(old(v)@, v@);
    }
}

/// Unfolds `take_below` at position `i` of `s`.
proof fn lemma_take_below_step(s: Seq<Test>, budget: i64, i: int)
    requires
        0 <= i < s.len(),
        s[i].value < budget,
    ensures
        take_below(s.skip(i), budget) == seq![s[i]] + take_below(s.skip(i + 1), budget),
{
    assert(s.skip(i).drop_first() =~= s.skip(i + 1));
}

/// The items at the front of `v` whose values are below `budget`: copying
/// stops at the first item that is not below it.
pub fn leading_below(v: &Vec<Test>, budget: i64) -> (r: Vec<Test>)
    ensures
        r@ == take_below(v@, budget),
{
    let mut r: Vec<Test> = Vec::new();
    let mut i: usize = 0;
    proof {
        assert(v@.skip(0) =~= v@);
    }
    while i < v.len() && v[i].value < budget
        invariant
            i <= v.len(),
            take_below(v@, budget) == r@ + take_below(v@.skip(i as int), budget),
        decreases v.len() - i,
    {
        proof {
            lemma_take_below_step(v@, budget, i as int);
            assert(r@.push(v@[i as int]) + take_below(v@.skip(i + 1), budget)
                =~= r@ + (seq![v@[i as int]] + take_below(v@.skip(i + 1), budget)));
        }
        r.push(v[i]);
        i = i + 1;
    }
    proof {
        assert(take_below(v@.skip(i as int), budget) =~= Seq::<Test>::empty());
        assert(r@ + Seq::<Test>::empty() =~= r@);
    }
    r
}

/// Sorts the request's items ascending by value and returns the leading run
/// of them whose values are below the budget.
pub fn process_test_data(test_request: &mut TestRequest) -> (r: Vec<Test>)
    ensures
        final(test_request).tests@ == sorted_by_value(old(test_request).tests@),
        final(test_request).secret == old(test_request).secret,
        final(test_request).budget == old(test_request).budget,
        r@ == take_below(final(test_request).tests@, old(test_request).budget),
        r@ == selection(old(test_request).tests@, old(test_request).budget),
{
    sort_by_value(&mut test_request.tests);
    leading_below(&test_request.tests, test_request.budget)
}

/// `take_below(s, budget)` is the prefix of `s` that stops at the first item
/// not below the budget: every item in it is below the budget, and the item
/// right after it, if any, is not.
pub proof fn lemma_take_below_prefix(s: Seq<Test>, budget: i64)
    ensures
        take_below(s, budget).len() <= s.len(),
        take_below(s, budget) == s.take(take_below(s, budget).len() as int),
        forall|i: int|
            0 <= i < take_below(s, budget).len() ==> #[trigger] take_below(s, budget)[i].value
                < budget,
        take_below(s, budget).len() < s.len() ==> s[take_below(s, budget).len() as int].value
            >= budget,
    decreases s.len(),
{
    if s.len() > 0 && s[0].value < budget {
        lemma_take_below_prefix(s.drop_first(), budget);
        let rest = take_below(s.drop_first(), budget);
        assert(seq![s[0]] + rest =~= s.take(rest.len() + 1 as int));
        assert forall|i: int| 0 <= i < take_below(s, budget).len() implies #[trigger] take_below(
            s,
            budget,
        )[i].value < budget by {
            if i > 0 {
                assert(take_below(s, budget)[i] == rest[i - 1]);
            }
        }
    } else {
        assert(s.take(0) =~= Seq::<Test>::empty());
    }
}

/// No item is invented or altered: the selection is a prefix of the sorted
/// items, and each selected item occurs in the request at least as often as
/// it is selected.
pub proof fn lemma_selection_drawn_from_input(tests: Seq<Test>, budget: i64)
    ensures
        selection(tests, budget) == sorted_by_value(tests).take(
            selection(tests, budget).len() as int,
        ),
        selection(tests, budget).to_multiset().subset_of(tests.to_multiset()),
        forall|i: int|
            0 <= i < selection(tests, budget).len() ==> tests.contains(
                #[trigger] selection(tests, budget)[i],
            ),
{
    broadcast use vstd::multiset::group_multiset_axioms;

    let sorted = sorted_by_value(tests);
    let sel = selection(tests, budget);
    crate::model::lemma_sorted_by_value(tests);
    lemma_take_below_prefix(sorted, budget);
    let k = sel.len() as int;
    assert(sorted =~= sorted.take(k) + sorted.skip(k));
    vstd::seq_lib::lemma_multiset_commutative(sorted.take(k), sorted.skip(k));
    assert(sel.to_multiset().subset_of(tests.to_multiset()));
    assert forall|i: int| 0 <= i < sel.len() implies tests.contains(#[trigger] sel[i]) by {
        assert(sel.contains(sel[i]));
        assert(sel.to_multiset().count(sel[i]) > 0);
        assert(tests.to_multiset().count(sel[i]) > 0);
    }
}

/// The same request gives the same selection every time: whichever sorted
/// arrangement of the items a sort leaves, the leading run below the budget
/// is `selection(tests, budget)`.
pub proof fn lemma_selection_deterministic(
    tests: Seq<Test>,
    budget: i64,
    first: Seq<Test>,
    second: Seq<Test>,
)
    requires
        sorted_by(first, by_value()),
        sorted_by(second, by_value()),
        first.to_multiset() == tests.to_multiset(),
        second.to_multiset() == tests.to_multiset(),
    ensures
        take_below(first, budget) == take_below(second, budget),
        take_below(first, budget) == selection(tests, budget),
{
    lemma_sorted_arrangement_unique(tests, first);
    lemma_sorted_arrangement_unique(tests, second);
}

} // verus!
