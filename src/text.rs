//! Small string helpers with character-level contracts.

use vstd::prelude::*;

verus! {

/// True when both strings hold the same characters.
pub fn same_text(a: &str, b: &str) -> (r: bool)
    ensures
        r == (a@ == b@),
{
    let n = a.unicode_len();
    let m = b.unicode_len();
    if n != m {
        return false;
    }
    let mut i: usize = 0;
    while i < n
        invariant
            n == a@.len(),
            m == b@.len(),
            n == m,
            i <= n,
            a@.take(i as int) == b@.take(i as int),
        decreases n - i,
    {
        if a.get_char(i) != b.get_char(i) {
            assert(a@[i as int] != b@[i as int]);
            return false;
        }
        assert(a@.take(i + 1) =~= a@.take(i as int).push(a@[i as int]));
        assert(b@.take(i + 1) =~= b@.take(i as int).push(b@[i as int]));
        i = i + 1;
    }
    assert(a@ =~= a@.take(n as int));
    assert(b@ =~= b@.take(n as int));
    true
}

/// The part of `p` before its first `/`, or all of `p` when it has none.
pub open spec fn first_segment(p: Seq<char>) -> Seq<char>
    decreases p.len(),
{
    if p.len() == 0 {
        p
    } else if p[0] == '/' {
        Seq::empty()
    } else {
        seq![p[0]] + first_segment(p.drop_first())
    }
}

/// `s` without one leading `@`, if it starts with one.
pub open spec fn strip_at(s: Seq<char>) -> Seq<char> {
    if s.len() > 0 && s[0] == '@' {
        s.drop_first()
    } else {
        s
    }
}

/// Whether `p` holds a `/`.
pub open spec fn has_slash(p: Seq<char>) -> bool {
    exists|i: int| 0 <= i < p.len() && p[i] == '/'
}

/// The first segment of a path, as `split('/').next()` yields it.
pub fn first_path_segment(p: &str) -> (r: &str)
    ensures
        r@ == first_segment(p@),
{
    let n = p.unicode_len();
    let mut i: usize = 0;
    assert(p@.skip(0) =~= p@);
    assert(p@.take(0) + first_segment(p@) =~= first_segment(p@));
    while i < n
        invariant
            n == p@.len(),
            i <= n,
            first_segment(p@) == p@.take(i as int) + first_segment(p@.skip(i as int)),
        decreases n - i,
    {
        if p.get_char(i) == '/' {
            assert(p@.skip(i as int)[0] == '/');
            assert(p@.take(i as int) + Seq::<char>::empty() =~= p@.take(i as int));
            return p.substring_char(0, i);
        }
        assert(p@.skip(i as int).drop_first() =~= p@.skip(i + 1));
        assert(p@.take(i as int) + (seq![p@[i as int]] + first_segment(p@.skip(i + 1)))
            =~= p@.take(i + 1) + first_segment(p@.skip(i + 1)));
        i = i + 1;
    }
    assert(p@.skip(n as int) =~= Seq::<char>::empty());
    assert(p@.take(n as int) + Seq::<char>::empty() =~= p@);
    p
}

} // verus!
