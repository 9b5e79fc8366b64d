use vstd::prelude::*;

verus! {

/// Relies on `str::chars`, collected into a vector: the characters of `s`, in order.
#[verifier::external_body]
pub(crate) fn chars_of(s: &str) -> (r: Vec<char>)
    ensures
        r@ == s@,
{
    s.chars().collect()
}

/// Relies on `String`'s `FromIterator<&char>`: a string of exactly these characters.
#[verifier::external_body]
pub(crate) fn string_of(cs: &Vec<char>) -> (r: String)
    ensures
        r@ == cs@,
{
    cs.iter().collect()
}

/// Appends `s[start..end]` to `out`.
pub(crate) fn append_range(out: &mut Vec<char>, s: &Vec<char>, start: usize, end: usize)
    requires
        start <= end <= s@.len(),
    ensures
        final(out)@ == old(out)@ + s@.subrange(start as int, end as int),
{
    let mut i: usize = start;
    while i < end
        invariant
            start <= i <= end <= s@.len(),
            out@ == old(out)@ + s@.subrange(start as int, i as int),
        decreases end - i,
    {
        out.push(s[i]);
        assert(s@.subrange(start as int, i + 1) =~= s@.subrange(start as int, i as int).push(
            s@[i as int],
        ));
        i = i + 1;
    }
}

/// The characters `s[start..end]` as a string.
pub(crate) fn text_of(s: &Vec<char>, start: usize, end: usize) -> (r: String)
    requires
        start <= end <= s@.len(),
    ensures
        r@ == s@.subrange(start as int, end as int),
{
    let mut out: Vec<char> = Vec::new();
    append_range(&mut out, s, start, end);
    assert(out@ =~= s@.subrange(start as int, end as int));
    string_of(&out)
}

} // verus!
