//! The collector of violations: a set that holds each violation once and
//! hands them out in the order of [`error_less`].

use vstd::prelude::*;
use crate::error::{
    ErrorView, ValidationError, compare_errors, error_less, lemma_error_less_asymmetric,
    lemma_error_less_irreflexive, lemma_error_less_transitive,
};
use crate::text::Order;

verus! {

/// Whether each element comes before all later ones.
pub open spec fn sorted(s: Seq<ErrorView>) -> bool {
    forall|i: int, j: int| 0 <= i < j < s.len() ==> error_less(s[i], s[j])
}

/// What a sequence of violations denotes.
pub open spec fn views(errors: Seq<ValidationError>) -> Seq<ErrorView> {
    Seq::new(errors.len(), |i: int| errors[i]@)
}

/// Whether `report` lists exactly the violations of `set`, in order.
pub open spec fn is_report_of(report: Seq<ErrorView>, set: Set<ErrorView>) -> bool {
    &&& sorted(report)
    &&& forall|e: ErrorView| set.contains(e) <==> report.contains(e)
}

/// A set of violations, kept in the order in which they are reported.
#[derive(Debug, PartialEq, Eq)]
pub struct ErrorSet {
    errors: Vec<ValidationError>,
}

impl View for ErrorSet {
    type V = Set<ErrorView>;

    closed spec fn view(&self) -> Set<ErrorView> {
        views(self.errors@).to_set()
    }
}

impl ErrorSet {
    #[verifier::type_invariant]
    spec fn well_formed(&self) -> bool {
        sorted(views(self.errors@))
    }

    /// The empty set.
    pub fn new() -> (s: Self)
        ensures
            s@ == Set::<ErrorView>::empty(),
    {
        let s = ErrorSet { errors: Vec::new() };
        assert(s@ =~= Set::<ErrorView>::empty());
        s
    }

    /// The number of violations in the set.
    pub fn len(&self) -> (n: usize)
        ensures
            n == self@.len(),
            self@.finite(),
    {
        proof {
            use_type_invariant(self);
            lemma_sorted_no_duplicates(views(self.errors@));
            views(self.errors@).unique_seq_to_set();
        }
        self.errors.len()
    }

    /// Whether the set holds the violation.
    pub fn contains(&self, error: &ValidationError) -> (b: bool)
        ensures
            b == self@.contains(error@),
    {
        let (found, _) = self.position(error);
        found
    }

    /// Where `error` stands in the order: whether the set holds it, and the
    /// number of violations of the set that come before it.
    fn position(&self, error: &ValidationError) -> (r: (bool, usize))
        ensures
            r.0 == self@.contains(error@),
            r.1 <= self.errors@.len(),
            r.0 ==> r.1 < self.errors@.len() && views(self.errors@)[r.1 as int] == error@,
            forall|k: int| 0 <= k < r.1 ==> error_less(#[trigger] views(self.errors@)[k], error@),
            !r.0 ==> forall|k: int|
                r.1 <= k < self.errors@.len() ==> error_less(
                    error@,
                    #[trigger] views(self.errors@)[k],
                ),
    {
        proof {
            use_type_invariant(self);
        }
        let ghost seq = views(self.errors@);
        let mut lo: usize = 0;
        let mut hi: usize = self.errors.len();
        while lo < hi
            invariant
                lo <= hi <= self.errors@.len(),
                seq == views(self.errors@),
                sorted(seq),
                forall|k: int| 0 <= k < lo ==> error_less(#[trigger] seq[k], error@),
                forall|k: int| hi <= k < seq.len() ==> error_less(error@, #[trigger] seq[k]),
            decreases hi - lo,
        {
            let mid = lo + (hi - lo) / 2;
            match compare_errors(&self.errors[mid], error) {
                Order::Less => {
                    proof {
                        assert forall|k: int| 0 <= k < mid + 1 implies error_less(
                            #[trigger] seq[k],
                            error@,
                        ) by {
                            if k < mid {
                                lemma_error_less_transitive(seq[k], seq[mid as int], error@);
                            }
                        }
                    }
                    lo = mid + 1;
                },
                Order::Greater => {
                    proof {
                        assert forall|k: int| mid <= k < seq.len() implies error_less(
                            error@,
                            #[trigger] seq[k],
                        ) by {
                            if mid < k {
                                lemma_error_less_transitive(error@, seq[mid as int], seq[k]);
                            }
                        }
                    }
                    hi = mid;
                },
                Order::Equal => {
                    proof {
                        assert(seq[mid as int] == error@);
                        assert(seq.contains(error@));
                        assert forall|k: int| 0 <= k < mid implies error_less(
                            #[trigger] seq[k],
                            error@,
                        ) by {
                            assert(error_less(seq[k], seq[mid as int]));
                        }
                    }
                    return (true, mid);
                },
            }
        }
        proof {
            assert forall|k: int| 0 <= k < seq.len() implies seq[k] != error@ by {
                lemma_error_less_irreflexive(error@);
            }
        }
        (false, lo)
    }

    /// Adds a violation to the set. Says whether the set did not hold it yet.
    pub fn insert(&mut self, error: ValidationError) -> (added: bool)
        ensures
            final(self)@ == old(self)@.insert(error@),
            added == !old(self)@.contains(error@),
    {
        let (found, at) = self.position(&error);
        if found {
            assert(self@.insert(error@) =~= self@);
            return false;
        }
        let ghost before = views(self.errors@);
        proof {
            use_type_invariant(&*self);
        }
        let mut errors: Vec<ValidationError> = Vec::new();
        std::mem::swap(&mut errors, &mut self.errors);
        errors.insert(at, error);
        proof {
            let after = views(errors@);
            assert(after =~= before.insert(at as int, error@));
            assert forall|i: int, j: int| 0 <= i < j < after.len() implies error_less(
                after[i],
                after[j],
            ) by {
                if i < at && j > at {
                    assert(after[i] == before[i] && after[j] == before[j - 1]);
                } else if i > at {
                    assert(after[i] == before[i - 1] && after[j] == before[j - 1]);
                }
            }
            assert forall|e: ErrorView|
                after.contains(e) <==> (before.contains(e) || e == error@) by {
                if after.contains(e) {
                    let k = choose|k: int| 0 <= k < after.len() && after[k] == e;
                    if k < at {
                        assert(before[k] == e);
                    } else if k > at {
                        assert(before[k - 1] == e);
                    }
                }
                if before.contains(e) {
                    let k = choose|k: int| 0 <= k < before.len() && before[k] == e;
                    if k < at {
                        assert(after[k] == e);
                    } else {
                        assert(after[k + 1] == e);
                    }
                }
                if e == error@ {
                    assert(after[at as int] == e);
                }
            }
            assert(after.to_set() =~= before.to_set().insert(error@));
        }
        self.errors = errors;
        true
    }

    /// The violations of the set, in the order in which they are reported.
    pub fn into_sorted_vec(self) -> (v: Vec<ValidationError>)
        ensures
            is_report_of(views(v@), self@),
    {
        proof {
            use_type_invariant(&self);
        }
        self.errors
    }
}

/// A sorted sequence holds nothing twice.
pub proof fn lemma_sorted_no_duplicates(s: Seq<ErrorView>)
    requires
        sorted(s),
    ensures
        s.no_duplicates(),
{
    assert forall|i: int, j: int| 0 <= i < s.len() && 0 <= j < s.len() && i != j implies s[i]
        != s[j] by {
        lemma_error_less_irreflexive(s[i]);
    }
}

/// A set of violations has at most one report: two sorted sequences with the
/// same elements are the same sequence.
pub proof fn lemma_report_unique(a: Seq<ErrorView>, b: Seq<ErrorView>, set: Set<ErrorView>)
    requires
        is_report_of(a, set),
        is_report_of(b, set),
    ensures
        a == b,
    decreases a.len(),
{
    lemma_sorted_no_duplicates(a);
    lemma_sorted_no_duplicates(b);
    if a.len() == 0 {
        if b.len() > 0 {
            assert(b.contains(b[0]));
            assert(a.contains(b[0]));
        }
        assert(a =~= b);
    } else if b.len() == 0 {
        assert(a.contains(a[0]));
        assert(b.contains(a[0]));
    } else {
        // The last element of each is the greatest of the set.
        let x = a.last();
        let y = b.last();
        assert(a.contains(x));
        assert(b.contains(y));
        assert(b.contains(x));
        assert(a.contains(y));
        let i = choose|i: int| 0 <= i < b.len() && b[i] == x;
        let j = choose|j: int| 0 <= j < a.len() && a[j] == y;
        lemma_error_less_asymmetric(x, y);
        assert(x == y);
        let rest = set.remove(x);
        assert forall|e: ErrorView| rest.contains(e) <==> a.drop_last().contains(e) by {
            if a.drop_last().contains(e) {
                let k = choose|k: int| 0 <= k < a.drop_last().len() && a.drop_last()[k] == e;
                assert(a[k] == e);
                assert(a.contains(e));
                lemma_error_less_irreflexive(x);
            }
            if rest.contains(e) {
                assert(a.contains(e));
                let k = choose|k: int| 0 <= k < a.len() && a[k] == e;
                assert(a.drop_last()[k] == e);
            }
        }
        assert forall|e: ErrorView| rest.contains(e) <==> b.drop_last().contains(e) by {
            if b.drop_last().contains(e) {
                let k = choose|k: int| 0 <= k < b.drop_last().len() && b.drop_last()[k] == e;
                assert(b[k] == e);
                assert(b.contains(e));
                lemma_error_less_irreflexive(y);
            }
            if rest.contains(e) {
                assert(b.contains(e));
                let k = choose|k: int| 0 <= k < b.len() && b[k] == e;
                assert(b.drop_last()[k] == e);
            }
        }
        lemma_report_unique(a.drop_last(), b.drop_last(), rest);
        assert(a =~= a.drop_last().push(x));
        assert(b =~= b.drop_last().push(y));
    }
}

} // verus!
