use vstd::prelude::*;
use vstd::std_specs::iter::IteratorSpec;

verus! {

broadcast use vstd::string::axiom_spec_iter, vstd::string::next_postcondition, vstd::utf8::char_u32_cast;

/// Lexicographic order on character sequences by code point: the order in
/// which claim names are kept inside a claim set.
pub open spec fn lex_lt(a: Seq<char>, b: Seq<char>) -> bool
    decreases a.len(),
{
    if b.len() == 0 {
        false
    } else if a.len() == 0 {
        true
    } else if a[0] != b[0] {
        (a[0] as u32) < (b[0] as u32)
    } else {
        lex_lt(a.drop_first(), b.drop_first())
    }
}

/// `lex_lt` relates any two distinct sequences, in exactly one direction.
pub proof fn lemma_lex_connected(a: Seq<char>, b: Seq<char>)
    ensures
        !lex_lt(a, b) && !lex_lt(b, a) ==> a == b,
        lex_lt(a, b) ==> !lex_lt(b, a) && a != b,
    decreases a.len(),
{
    if a.len() == 0 || b.len() == 0 {
        if !lex_lt(a, b) && !lex_lt(b, a) {
            assert(a =~= b);
        }
    } else {
        if a[0] == b[0] {
            lemma_lex_connected(a.drop_first(), b.drop_first());
            if !lex_lt(a, b) && !lex_lt(b, a) {
                assert(a.drop_first() =~= b.drop_first());
                assert(a =~= b) by {
                    assert(forall|i: int|
                        1 <= i < a.len() ==> a[i] == a.drop_first()[i - 1]);
                }
            }
            if lex_lt(a, b) {
                assert(a.drop_first() != b.drop_first());
            }
        } else {
            if !lex_lt(a, b) && !lex_lt(b, a) {
                assert((a[0] as u32) == (b[0] as u32));
                vstd::utf8::char_u32_cast(a[0], a[0] as u32);
                vstd::utf8::char_u32_cast(b[0], b[0] as u32);
                assert(false);
            }
        }
    }
}

/// `lex_lt` is transitive.
pub proof fn lemma_lex_trans(a: Seq<char>, b: Seq<char>, c: Seq<char>)
    requires
        lex_lt(a, b),
        lex_lt(b, c),
    ensures
        lex_lt(a, c),
    decreases a.len(),
{
    if a.len() == 0 || b.len() == 0 || c.len() == 0 {
    } else {
        if a[0] == b[0] && b[0] == c[0] {
            lemma_lex_trans(a.drop_first(), b.drop_first(), c.drop_first());
        }
    }
}

/// How two sequences compare once they agree on their first `k` elements:
/// the shorter one comes first, and otherwise the elements at position `k`
/// decide.
pub proof fn lemma_lex_prefix(a: Seq<char>, b: Seq<char>, k: int)
    requires
        0 <= k <= a.len(),
        k <= b.len(),
        a.take(k) == b.take(k),
    ensures
        k == a.len() && k == b.len() ==> a == b,
        k == a.len() && k < b.len() ==> lex_lt(a, b),
        k == b.len() && k < a.len() ==> lex_lt(b, a),
        k < a.len() && k < b.len() && a[k] != b[k] ==> (lex_lt(a, b) <==> (a[k] as u32) < (
        b[k] as u32)),
        k < a.len() && k < b.len() && a[k] != b[k] ==> (lex_lt(b, a) <==> (b[k] as u32) < (
        a[k] as u32)),
    decreases k,
{
    if k == 0 {
        if a.len() == 0 && b.len() == 0 {
            assert(a =~= b);
        }
    } else {
        assert(a[0] == b[0]) by {
            assert(a.take(k)[0] == a[0]);
            assert(b.take(k)[0] == b[0]);
        }
        assert(a.drop_first().take(k - 1) =~= a.take(k).drop_first());
        assert(b.drop_first().take(k - 1) =~= b.take(k).drop_first());
        lemma_lex_prefix(a.drop_first(), b.drop_first(), k - 1);
        if k == a.len() && k == b.len() && a.drop_first() == b.drop_first() {
            assert(a =~= b) by {
                assert(forall|i: int|
                    1 <= i < a.len() ==> a[i] == a.drop_first()[i - 1]);
            }
        }
        assert(k < a.len() ==> a.drop_first()[k - 1] == a[k]);
        assert(k < b.len() ==> b.drop_first()[k - 1] == b[k]);
    }
}

/// Three-way comparison result for claim names.
pub enum KeyCmp {
    Less,
    Equal,
    Greater,
}

/// Whether two strings hold the same characters.
pub fn str_eq(a: &str, b: &str) -> (r: bool)
    ensures
        r == (a@ == b@),
{
    matches!(str_compare(a, b), KeyCmp::Equal)
}

/// Compares two strings in the lexicographic code-point order `lex_lt`.
pub fn str_compare(a: &str, b: &str) -> (r: KeyCmp)
    ensures
        r is Less <==> lex_lt(a@, b@),
        r is Equal <==> a@ == b@,
        r is Greater <==> lex_lt(b@, a@),
{
    let mut ca = a.chars();
    let mut cb = b.chars();
    let ghost mut k: int = 0;
    loop
        invariant
            0 <= k <= a@.len(),
            k <= b@.len(),
            IteratorSpec::remaining(&ca) == a@.skip(k),
            IteratorSpec::remaining(&cb) == b@.skip(k),
            a@.take(k) == b@.take(k),
        decreases a@.len() - k,
    {
        let na = ca.next();
        let nb = cb.next();
        match (na, nb) {
            (None, None) => {
                proof {
                    lemma_lex_prefix(a@, b@, k);
                    lemma_lex_connected(a@, b@);
                }
                return KeyCmp::Equal;
            },
            (None, Some(_)) => {
                proof {
                    lemma_lex_prefix(a@, b@, k);
                    lemma_lex_connected(a@, b@);
                }
                return KeyCmp::Less;
            },
            (Some(_), None) => {
                proof {
                    lemma_lex_prefix(a@, b@, k);
                    lemma_lex_connected(b@, a@);
                }
                return KeyCmp::Greater;
            },
            (Some(x), Some(y)) => {
                proof {
                    assert(x == a@.skip(k)[0] && x == a@[k]);
                    assert(y == b@.skip(k)[0] && y == b@[k]);
                }
                if x == y {
                    proof {
                        assert(a@.skip(k).drop_first() =~= a@.skip(k + 1));
                        assert(b@.skip(k).drop_first() =~= b@.skip(k + 1));
                        assert(a@.take(k + 1) =~= b@.take(k + 1)) by {
                            assert(forall|i: int|
                                0 <= i < k ==> a@.take(k + 1)[i] == #[trigger] a@.take(k)[i]);
                            assert(forall|i: int|
                                0 <= i < k ==> b@.take(k + 1)[i] == #[trigger] b@.take(k)[i]);
                        }
                        k = k + 1;
                    }
                } else if (x as u32) < (y as u32) {
                    proof {
                        lemma_lex_prefix(a@, b@, k);
                        lemma_lex_connected(a@, b@);
                    }
                    return KeyCmp::Less;
                } else {
                    proof {
                        lemma_lex_prefix(a@, b@, k);
                        lemma_lex_connected(b@, a@);
                    }
                    return KeyCmp::Greater;
                }
            },
        }
    }
}

} // verus!
