use vstd::prelude::*;

verus! {

/// `s` holds no segment separator.
pub open spec fn no_colon(s: Seq<char>) -> bool {
    forall|i: int| 0 <= i < s.len() ==> s[i] != ':'
}

/// `r` is `g` followed by `':'` and one non-empty resource-instance segment.
pub open spec fn is_instance_of(g: Seq<char>, r: Seq<char>) -> bool {
    &&& r.len() > g.len() + 1
    &&& r.subrange(0, g.len() as int) == g
    &&& r[g.len() as int] == ':'
    &&& no_colon(r.subrange(g.len() + 1 as int, r.len() as int))
}

/// A granted permission `g` authorizes a required permission `r`: an exact
/// match, or `r` extends `g` by one instance segment.
pub open spec fn grants(g: Seq<char>, r: Seq<char>) -> bool {
    g == r || is_instance_of(g, r)
}

/// Compares the characters `a[from..to]` with `b[from..to]`.
fn same_chars(a: &str, b: &str, from: usize, to: usize) -> (r: bool)
    requires
        from <= to,
        to <= a@.len(),
        to <= b@.len(),
    ensures
        r == (a@.subrange(from as int, to as int) == b@.subrange(from as int, to as int)),
{
    let mut i: usize = from;
    while i < to
        invariant
            from <= i <= to,
            to <= a@.len(),
            to <= b@.len(),
            forall|k: int| from <= k < i ==> a@[k] == b@[k],
        decreases to - i,
    {
        if a.get_char(i) != b.get_char(i) {
            assert(a@.subrange(from as int, to as int)[i - from] != b@.subrange(
                from as int,
                to as int,
            )[i - from]);
            return false;
        }
        i = i + 1;
    }
    assert(a@.subrange(from as int, to as int) =~= b@.subrange(from as int, to as int));
    true
}

/// Whether the characters of `s` from index `from` on hold no `':'`.
fn tail_has_no_colon(s: &str, from: usize, len: usize) -> (r: bool)
    requires
        len == s@.len(),
        from <= len,
    ensures
        r == no_colon(s@.subrange(from as int, len as int)),
{
    let mut i: usize = from;
    while i < len
        invariant
            from <= i <= len,
            len == s@.len(),
            forall|k: int| from <= k < i ==> s@[k] != ':',
        decreases len - i,
    {
        if s.get_char(i) == ':' {
            assert(s@.subrange(from as int, len as int)[i - from] == ':');
            return false;
        }
        i = i + 1;
    }
    true
}

/// Decides whether the granted permission authorizes the required one.
/// Names are compared character by character, without any folding.
pub fn permission_matches(granted: &str, required: &str) -> (r: bool)
    ensures
        r == grants(granted@, required@),
{
    let glen = granted.unicode_len();
    let rlen = required.unicode_len();
    if glen == rlen {
        let eq = same_chars(granted, required, 0, glen);
        assert(granted@.subrange(0, glen as int) =~= granted@);
        assert(required@.subrange(0, rlen as int) =~= required@);
        eq
    } else if glen < rlen && rlen - glen > 1 {
        if !same_chars(granted, required, 0, glen) {
            assert(granted@.subrange(0, glen as int) =~= granted@);
            return false;
        }
        assert(granted@.subrange(0, glen as int) =~= granted@);
        if required.get_char(glen) != ':' {
            return false;
        }
        tail_has_no_colon(required, glen + 1, rlen)
    } else {
        false
    }
}

/// Every permission authorizes itself; a permission authorizes any single
/// instance segment appended to it; an instance permission does not
/// authorize its parent; and a permission does not authorize an instance of
/// a sibling.
pub proof fn lemma_grants_laws(g: Seq<char>, x: Seq<char>, y: Seq<char>)
    requires
        x.len() > 0,
        no_colon(x),
    ensures
        grants(g, g),
        grants(g, g + seq![':'] + x),
        !grants(g + seq![':'] + x, g),
        y.len() == g.len() && y != g ==> !grants(g, y + seq![':'] + x),
{
    let r = g + seq![':'] + x;
    assert(r.subrange(0, g.len() as int) =~= g);
    assert(r.subrange(g.len() + 1 as int, r.len() as int) =~= x);
    assert(r[g.len() as int] == ':');
    if y.len() == g.len() && y != g {
        let t = y + seq![':'] + x;
        assert(t.subrange(0, g.len() as int) =~= y);
    }
}

} // verus!
