//! Facts about sequences that loops over lists need.
use vstd::prelude::*;

verus! {

/// Filtering one element more keeps it exactly where it passes.
pub proof fn lemma_filter_take<A>(s: Seq<A>, f: spec_fn(A) -> bool, i: int)
    requires
        0 <= i < s.len(),
    ensures
        f(s[i]) ==> s.take(i + 1).filter(f) == s.take(i).filter(f).push(s[i]),
        !f(s[i]) ==> s.take(i + 1).filter(f) == s.take(i).filter(f),
{
    reveal(Seq::filter);
    assert(s.take(i + 1).drop_last() =~= s.take(i));
}

/// What a filter leaves are elements of the sequence that pass it, and every
/// such element is left.
pub proof fn lemma_filter_members<A>(s: Seq<A>, f: spec_fn(A) -> bool)
    ensures
        forall|x: A| #[trigger] s.filter(f).contains(x) <==> s.contains(x) && f(x),
    decreases s.len(),
{
    reveal(Seq::filter);
    if s.len() > 0 {
        let rest = s.drop_last();
        lemma_filter_members(rest, f);
        assert forall|x: A| #[trigger] s.filter(f).contains(x) implies s.contains(x) && f(x) by {
            if f(s.last()) && x == s.last() {
                assert(s[s.len() - 1] == x);
            } else {
                let k = choose|k: int| 0 <= k < s.filter(f).len() && s.filter(f)[k] == x;
                if f(s.last()) {
                    assert(rest.filter(f)[k] == x);
                }
                assert(rest.filter(f).contains(x));
                let j = choose|j: int| 0 <= j < rest.len() && rest[j] == x;
                assert(s[j] == x);
            }
        }
        assert forall|x: A| s.contains(x) && f(x) implies #[trigger] s.filter(f).contains(x) by {
            let j = choose|j: int| 0 <= j < s.len() && s[j] == x;
            if j == s.len() - 1 {
                assert(s.filter(f).last() == x);
            } else {
                assert(rest[j] == x);
                assert(rest.filter(f).contains(x));
                let k = choose|k: int| 0 <= k < rest.filter(f).len() && rest.filter(f)[k] == x;
                assert(s.filter(f)[k] == x);
            }
        }
    }
}

/// Two conditions that agree on every element filter alike.
pub proof fn lemma_filter_agree<A>(s: Seq<A>, f: spec_fn(A) -> bool, g: spec_fn(A) -> bool)
    requires
        forall|i: int| 0 <= i < s.len() ==> f(#[trigger] s[i]) == g(s[i]),
    ensures
        s.filter(f) == s.filter(g),
    decreases s.len(),
{
    reveal(Seq::filter);
    if s.len() > 0 {
        let rest = s.drop_last();
        assert forall|i: int| 0 <= i < rest.len() implies f(#[trigger] rest[i]) == g(rest[i]) by {
            assert(rest[i] == s[i]);
        }
        lemma_filter_agree(rest, f, g);
        assert(f(s[s.len() - 1]) == g(s[s.len() - 1]));
    }
}

} // verus!
