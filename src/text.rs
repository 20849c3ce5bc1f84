use vstd::prelude::*;

verus! {

/// What `str::to_lowercase` makes of a string.
pub uninterp spec fn lower_of(s: Seq<char>) -> Seq<char>;

/// Relies on `str::to_lowercase`: its result depends on the characters
/// alone, and an empty string stays empty.
#[verifier::external_body]
pub(crate) fn lowercase(s: &str) -> (r: String)
    ensures
        r@ == lower_of(s@),
        s@.len() == 0 ==> r@.len() == 0,
{
    s.to_lowercase()
}

/// Position just after the last '/' of `s`, or 0 when there is none.
pub open spec fn after_last_slash(s: Seq<char>) -> int
    decreases s.len(),
{
    if s.len() == 0 {
        0
    } else if s.last() == '/' {
        s.len() as int
    } else {
        after_last_slash(s.drop_last())
    }
}

/// The text after the last '/' (the whole text when it holds none).
pub open spec fn last_segment(s: Seq<char>) -> Seq<char> {
    s.subrange(after_last_slash(s), s.len() as int)
}

proof fn lemma_after_last_slash_bounds(s: Seq<char>)
    ensures
        0 <= after_last_slash(s) <= s.len(),
    decreases s.len(),
{
    if s.len() > 0 && s.last() != '/' {
        lemma_after_last_slash_bounds(s.drop_last());
    }
}

/// The text after the last '/' of `s`.
pub fn last_segment_of(s: &str) -> (r: String)
    ensures
        r@ == last_segment(s@),
{
    let n = s.unicode_len();
    let mut i: usize = n;
    assert(s@.take(n as int) =~= s@);
    while i > 0 && s.get_char(i - 1) != '/'
        invariant
            n == s@.len(),
            i <= n,
            after_last_slash(s@) == after_last_slash(s@.take(i as int)),
        decreases i,
    {
        assert(s@.take(i as int).drop_last() =~= s@.take(i - 1));
        i = i - 1;
    }
    proof {
        if i > 0 {
            assert(s@.take(i as int).last() == '/');
        }
        lemma_after_last_slash_bounds(s@.take(i as int));
    }
    s.substring_char(i, n).to_string()
}

/// Whether `c` is dropped from a request name.
pub open spec fn is_name_punct(c: char) -> bool {
    c == '/' || c == '{' || c == '}'
}

/// `s` without its '/', '{' and '}' characters.
pub open spec fn strip_punct(s: Seq<char>) -> Seq<char>
    decreases s.len(),
{
    if s.len() == 0 {
        s
    } else if is_name_punct(s.last()) {
        strip_punct(s.drop_last())
    } else {
        strip_punct(s.drop_last()).push(s.last())
    }
}

pub proof fn lemma_strip_punct_append(a: Seq<char>, b: Seq<char>)
    ensures
        strip_punct(a + b) == strip_punct(a) + strip_punct(b),
    decreases b.len(),
{
    if b.len() == 0 {
        assert(a + b =~= a);
        assert(strip_punct(a) + strip_punct(b) =~= strip_punct(a));
    } else {
        assert((a + b).drop_last() =~= a + b.drop_last());
        lemma_strip_punct_append(a, b.drop_last());
        if !is_name_punct(b.last()) {
            assert(strip_punct(a) + strip_punct(b.drop_last()).push(b.last()) =~= (strip_punct(a)
                + strip_punct(b.drop_last())).push(b.last()));
        }
    }
}

/// Appends `s` to `out` without its '/', '{' and '}' characters.
pub fn push_stripped(out: &mut String, s: &str)
    ensures
        final(out)@ == old(out)@ + strip_punct(s@),
{
    let n = s.unicode_len();
    let mut i: usize = 0;
    while i < n
        invariant
            n == s@.len(),
            i <= n,
            out@ == old(out)@ + strip_punct(s@.take(i as int)),
        decreases n - i,
    {
        let c = s.get_char(i);
        assert(s@.take(i + 1).drop_last() =~= s@.take(i as int));
        if !(c == '/' || c == '{' || c == '}') {
            out.append(s.substring_char(i, i + 1));
            assert(s@.subrange(i as int, i + 1) =~= seq![c]);
        }
        i = i + 1;
    }
    assert(s@.take(n as int) =~= s@);
}

} // verus!
