use vstd::prelude::*;
use vstd::string::*;

verus! {

/// `a` comes strictly before `b` in the order `Ord` gives strings: by
/// character codes from the left, a proper prefix first.
pub open spec fn lex_lt(a: Seq<char>, b: Seq<char>) -> bool
    decreases a.len(),
{
    if a.len() == 0 {
        b.len() > 0
    } else if b.len() == 0 {
        false
    } else if (a[0] as int) < (b[0] as int) {
        true
    } else if (a[0] as int) > (b[0] as int) {
        false
    } else {
        lex_lt(a.drop_first(), b.drop_first())
    }
}

/// No text comes before itself.
pub proof fn lemma_lex_irreflexive(a: Seq<char>)
    ensures
        !lex_lt(a, a),
    decreases a.len(),
{
    if a.len() > 0 {
        lemma_lex_irreflexive(a.drop_first());
    }
}

/// Of two texts, one comes before the other unless they are equal.
pub proof fn lemma_lex_total(a: Seq<char>, b: Seq<char>)
    ensures
        a == b || lex_lt(a, b) || lex_lt(b, a),
    decreases a.len(),
{
    if a.len() > 0 && b.len() > 0 && a[0] as int == b[0] as int {
        lemma_lex_total(a.drop_first(), b.drop_first());
        assert(a[0] == b[0]);
        if a.drop_first() == b.drop_first() {
            assert(a =~= seq![a[0]] + a.drop_first());
            assert(b =~= seq![b[0]] + b.drop_first());
        }
    } else if a.len() == 0 && b.len() == 0 {
        assert(a =~= b);
    }
}

/// Two texts never come each before the other.
pub proof fn lemma_lex_asymmetric(a: Seq<char>, b: Seq<char>)
    ensures
        !(lex_lt(a, b) && lex_lt(b, a)),
    decreases a.len(),
{
    if a.len() > 0 && b.len() > 0 && a[0] as int == b[0] as int {
        lemma_lex_asymmetric(a.drop_first(), b.drop_first());
    }
}

/// The order is transitive.
pub proof fn lemma_lex_transitive(a: Seq<char>, b: Seq<char>, c: Seq<char>)
    requires
        lex_lt(a, b),
        lex_lt(b, c),
    ensures
        lex_lt(a, c),
    decreases a.len(),
{
    if a.len() > 0 && b.len() > 0 && c.len() > 0 && a[0] as int == b[0] as int && b[0] as int
        == c[0] as int {
        lemma_lex_transitive(a.drop_first(), b.drop_first(), c.drop_first());
    }
}

/// The first character where two texts differ decides their order, by
/// character code; a text comes before every longer text it starts.
pub proof fn lemma_lex_decided_by_first_difference(p: Seq<char>, x: char, y: char, a: Seq<char>, b: Seq<char>)
    ensures
        (x as int) < (y as int) ==> lex_lt(p.push(x) + a, p.push(y) + b),
        b.len() > 0 ==> lex_lt(p, p + b),
        !lex_lt(p + b, p),
    decreases p.len(),
{
    if p.len() > 0 {
        lemma_lex_decided_by_first_difference(p.drop_first(), x, y, a, b);
        assert((p.push(x) + a).drop_first() =~= p.drop_first().push(x) + a);
        assert((p.push(y) + b).drop_first() =~= p.drop_first().push(y) + b);
        assert((p + b).drop_first() =~= p.drop_first() + b);
        assert((p.push(x) + a)[0] == p[0]);
        assert((p.push(y) + b)[0] == p[0]);
        assert((p + b)[0] == p[0]);
    } else {
        assert(p.push(x) + a =~= seq![x] + a);
        assert((seq![x] + a)[0] == x);
        assert(p.push(y) + b =~= seq![y] + b);
        assert((seq![y] + b)[0] == y);
        assert(p + b =~= b);
    }
}

/// Compares two texts as `<` does on strings.
pub fn text_less(a: &str, b: &str) -> (r: bool)
    ensures
        r == lex_lt(a@, b@),
{
    let n = a.unicode_len();
    let m = b.unicode_len();
    let mut i: usize = 0;
    assert(a@.skip(0) =~= a@);
    assert(b@.skip(0) =~= b@);
    while i < n && i < m
        invariant
            n == a@.len(),
            m == b@.len(),
            i <= n,
            i <= m,
            lex_lt(a@, b@) == lex_lt(a@.skip(i as int), b@.skip(i as int)),
        decreases n - i,
    {
        let x = a.get_char(i);
        let y = b.get_char(i);
        if (x as u32) < (y as u32) {
            return true;
        }
        if (x as u32) > (y as u32) {
            return false;
        }
        assert(a@.skip(i as int).drop_first() =~= a@.skip(i + 1));
        assert(b@.skip(i as int).drop_first() =~= b@.skip(i + 1));
        i = i + 1;
    }
    i < m
}

} // verus!
