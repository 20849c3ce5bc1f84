use vstd::prelude::*;

verus! {

/// Maps each element of `s`, in order, to a sequence and concatenates the
/// results; the first element mapped to an error makes the whole an error.
pub open spec fn collect_all<A, T, E>(s: Seq<A>, f: spec_fn(A) -> Result<Seq<T>, E>) -> Result<
    Seq<T>,
    E,
>
    decreases s.len(),
{
    if s.len() == 0 {
        Ok(Seq::empty())
    } else {
        match collect_all(s.drop_last(), f) {
            Err(e) => Err(e),
            Ok(done) => match f(s.last()) {
                Ok(more) => Ok(done + more),
                Err(e) => Err(e),
            },
        }
    }
}

/// One more element of the prefix.
pub proof fn lemma_collect_step<A, T, E>(s: Seq<A>, f: spec_fn(A) -> Result<Seq<T>, E>, i: int)
    requires
        0 <= i < s.len(),
    ensures
        collect_all(s.take(i + 1), f) == match collect_all(s.take(i), f) {
            Err(e) => Err(e),
            Ok(done) => match f(s[i]) {
                Ok(more) => Ok(done + more),
                Err(e) => Err(e),
            },
        },
{
    assert(s.take(i + 1).drop_last() =~= s.take(i));
}

/// An error in a prefix is the error of the whole.
pub proof fn lemma_collect_prefix_err<A, T, E>(
    s: Seq<A>,
    f: spec_fn(A) -> Result<Seq<T>, E>,
    i: int,
)
    requires
        0 <= i <= s.len(),
        collect_all(s.take(i), f) is Err,
    ensures
        collect_all(s, f) == collect_all(s.take(i), f),
    decreases s.len() - i,
{
    if i == s.len() {
        assert(s.take(i) =~= s);
    } else {
        assert(s.drop_last().take(i) =~= s.take(i));
        lemma_collect_prefix_err(s.drop_last(), f, i);
    }
}

/// The whole sequence, as its own prefix.
pub proof fn lemma_take_all<A>(s: Seq<A>)
    ensures
        s.take(s.len() as int) == s,
{
    assert(s.take(s.len() as int) =~= s);
}

} // verus!
