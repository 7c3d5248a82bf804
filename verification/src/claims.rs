use vstd::prelude::*;

use crate::order::{lex_lt, lemma_lex_connected, lemma_lex_trans, str_compare, KeyCmp};
use crate::value::{data_is_null, entries_view, ClaimData, ClaimValue};
use crate::errors::ClaimError;
use crate::timestamp::{rfc3339_micros, parse_rfc3339, Timestamp};

pub mod reserved;

verus! {

/// One claim as it appears in the model: a name and a value.
pub type ClaimEntry = (Seq<char>, ClaimData);

/// The names are strictly ascending: each appears once, in lexicographic
/// order.
pub open spec fn entries_sorted(s: Seq<ClaimEntry>) -> bool {
    forall|i: int, j: int| 0 <= i < j < s.len() ==> lex_lt(s[i].0, s[j].0)
}

/// The value stored under a name, if any.
pub open spec fn lookup(s: Seq<ClaimEntry>, k: Seq<char>) -> Option<ClaimData>
    decreases s.len(),
{
    if s.len() == 0 {
        None
    } else if s[0].0 == k {
        Some(s[0].1)
    } else {
        lookup(s.drop_first(), k)
    }
}

/// The sequence after storing a value under a name: an existing entry is
/// overwritten in place, a new one enters at its ordered position.
pub open spec fn sorted_insert(s: Seq<ClaimEntry>, k: Seq<char>, v: ClaimData) -> Seq<ClaimEntry>
    decreases s.len(),
{
    if s.len() == 0 {
        seq![(k, v)]
    } else if lex_lt(k, s[0].0) {
        seq![(k, v)] + s
    } else if k == s[0].0 {
        seq![(k, v)] + s.drop_first()
    } else {
        seq![s[0]] + sorted_insert(s.drop_first(), k, v)
    }
}

/// The claim set built by storing a sequence of (name, value) pairs in order.
pub open spec fn claims_of_entries(s: Seq<ClaimEntry>) -> Seq<ClaimEntry>
    decreases s.len(),
{
    if s.len() == 0 {
        Seq::empty()
    } else {
        sorted_insert(claims_of_entries(s.drop_last()), s.last().0, s.last().1)
    }
}

/// The string stored under a name, if the entry exists and is a string.
pub open spec fn string_claim(s: Seq<ClaimEntry>, k: Seq<char>) -> Option<Seq<char>> {
    match lookup(s, k) {
        Some(ClaimData::Str(t)) => Some(t),
        _ => None,
    }
}

/// The timestamp stored under a name, if the entry exists, is a string, and
/// parses as an RFC 3339 date: its microseconds since the Unix epoch.
pub open spec fn time_claim(s: Seq<ClaimEntry>, k: Seq<char>) -> Option<int> {
    match lookup(s, k) {
        Some(ClaimData::Str(t)) => rfc3339_micros(t),
        _ => None,
    }
}

proof fn lemma_insert_sorted(s: Seq<ClaimEntry>, k: Seq<char>, v: ClaimData)
    requires
        entries_sorted(s),
    ensures
        entries_sorted(sorted_insert(s, k, v)),
    decreases s.len(),
{
    if s.len() == 0 {
    } else if lex_lt(k, s[0].0) {
        let r = seq![(k, v)] + s;
        assert forall|i: int, j: int| 0 <= i < j < r.len() implies lex_lt(r[i].0, r[j].0) by {
            if i == 0 {
                if j > 1 {
                    lemma_lex_trans(k, s[0].0, s[j - 1].0);
                }
            }
        }
    } else if k == s[0].0 {
        let r = seq![(k, v)] + s.drop_first();
        assert forall|i: int, j: int| 0 <= i < j < r.len() implies lex_lt(r[i].0, r[j].0) by {
            if i == 0 {
                assert(r[j].0 == s[j].0);
            } else {
                assert(r[i].0 == s[i].0 && r[j].0 == s[j].0);
            }
        }
    } else {
        lemma_lex_connected(k, s[0].0);
        lemma_insert_sorted(s.drop_first(), k, v);
        let t = sorted_insert(s.drop_first(), k, v);
        let r = seq![s[0]] + t;
        lemma_insert_entries(s.drop_first(), k, v);
        assert forall|i: int, j: int| 0 <= i < j < r.len() implies lex_lt(r[i].0, r[j].0) by {
            if i == 0 {
                // every entry of t is the new entry or one of the tail of s
                if t[j - 1] != (k, v) {
                    let m = choose|m: int|
                        0 <= m < s.drop_first().len() && t[j - 1] == s.drop_first()[m];
                    assert(s.drop_first()[m] == s[m + 1]);
                }
            }
        }
    }
}

/// Every entry of the inserted sequence is the new entry or one of the old.
pub proof fn lemma_insert_entries(s: Seq<ClaimEntry>, k: Seq<char>, v: ClaimData)
    ensures
        forall|j: int|
            0 <= j < sorted_insert(s, k, v).len() ==> (#[trigger] sorted_insert(s, k, v)[j]) == (k,
            v) || exists|m: int| 0 <= m < s.len() && sorted_insert(s, k, v)[j] == s[m],
    decreases s.len(),
{
    if s.len() == 0 {
    } else if lex_lt(k, s[0].0) {
    } else if k == s[0].0 {
        assert forall|j: int| 0 <= j < sorted_insert(s, k, v).len() implies (#[trigger] sorted_insert(
            s,
            k,
            v,
        )[j]) == (k, v) || exists|m: int| 0 <= m < s.len() && sorted_insert(s, k, v)[j]
            == s[m] by {
            if j > 0 {
                assert(sorted_insert(s, k, v)[j] == s[j]);
            }
        }
    } else {
        lemma_insert_entries(s.drop_first(), k, v);
        let t = sorted_insert(s.drop_first(), k, v);
        assert forall|j: int| 0 <= j < sorted_insert(s, k, v).len() implies (#[trigger] sorted_insert(
            s,
            k,
            v,
        )[j]) == (k, v) || exists|m: int| 0 <= m < s.len() && sorted_insert(s, k, v)[j]
            == s[m] by {
            if j > 0 {
                assert(sorted_insert(s, k, v)[j] == t[j - 1]);
                if t[j - 1] != (k, v) {
                    let m = choose|m: int|
                        0 <= m < s.drop_first().len() && t[j - 1] == s.drop_first()[m];
                    assert(s.drop_first()[m] == s[m + 1]);
                }
            }
        }
    }
}

/// Set-then-get law: after a value is stored under a name, that name maps to
/// exactly that value, and every other name maps to what it mapped to before.
pub proof fn lemma_insert_lookup(s: Seq<ClaimEntry>, k: Seq<char>, v: ClaimData)
    requires
        entries_sorted(s),
    ensures
        lookup(sorted_insert(s, k, v), k) == Some(v),
        forall|k2: Seq<char>| k2 != k ==> lookup(sorted_insert(s, k, v), k2) == lookup(s, k2),
    decreases s.len(),
{
    if s.len() == 0 {
        let r = seq![(k, v)];
        assert forall|k2: Seq<char>| k2 != k implies lookup(r, k2) == lookup(s, k2) by {
            assert(r.drop_first() =~= s);
        }
    } else if lex_lt(k, s[0].0) {
        lemma_lex_connected(k, s[0].0);
        let r = seq![(k, v)] + s;
        assert forall|k2: Seq<char>| k2 != k implies lookup(r, k2) == lookup(s, k2) by {
            assert(r.drop_first() =~= s);
        }
    } else if k == s[0].0 {
        let r = seq![(k, v)] + s.drop_first();
        assert(r.drop_first() =~= s.drop_first());
        assert forall|k2: Seq<char>| k2 != k implies lookup(r, k2) == lookup(s, k2) by {
            assert(lookup(r, k2) == lookup(s.drop_first(), k2));
            assert(lookup(s, k2) == lookup(s.drop_first(), k2));
        }
    } else {
        lemma_lex_connected(k, s[0].0);
        lemma_insert_lookup(s.drop_first(), k, v);
        let t = sorted_insert(s.drop_first(), k, v);
        let r = seq![s[0]] + t;
        assert(r.drop_first() =~= t);
        assert(r[0] == s[0]);
        assert(lookup(r, k) == lookup(t, k));
        assert forall|k2: Seq<char>| k2 != k implies lookup(r, k2) == lookup(s, k2) by {
            if k2 == s[0].0 {
            } else {
                assert(lookup(r, k2) == lookup(t, k2));
                assert(lookup(s, k2) == lookup(s.drop_first(), k2));
            }
        }
    }
}

/// A name that appears at no position maps to nothing.
proof fn lemma_lookup_absent(s: Seq<ClaimEntry>, k: Seq<char>)
    requires
        forall|i: int| 0 <= i < s.len() ==> (#[trigger] s[i]).0 != k,
    ensures
        lookup(s, k) == None::<ClaimData>,
    decreases s.len(),
{
    if s.len() > 0 {
        lemma_lookup_absent(s.drop_first(), k);
    }
}

/// A name that maps to something appears at some position.
proof fn lemma_lookup_present(s: Seq<ClaimEntry>, k: Seq<char>)
    requires
        lookup(s, k) is Some,
    ensures
        exists|i: int| 0 <= i < s.len() && (#[trigger] s[i]).0 == k && s[i].1 == lookup(s, k).unwrap(),
    decreases s.len(),
{
    if s.len() > 0 {
        if s[0].0 == k {
            assert(s[0].0 == k && s[0].1 == lookup(s, k).unwrap());
        } else {
            lemma_lookup_present(s.drop_first(), k);
            let i = choose|i: int|
                0 <= i < s.drop_first().len() && (#[trigger] s.drop_first()[i]).0 == k
                    && s.drop_first()[i].1 == lookup(s.drop_first(), k).unwrap();
            assert(s[i + 1].0 == k && s[i + 1].1 == lookup(s, k).unwrap());
        }
    }
}

/// Two sorted claim sequences that store the same value under every name are
/// the same sequence: iteration order is determined by contents alone.
pub proof fn lemma_claims_canonical(s1: Seq<ClaimEntry>, s2: Seq<ClaimEntry>)
    requires
        entries_sorted(s1),
        entries_sorted(s2),
        forall|k: Seq<char>| #[trigger] lookup(s1, k) == lookup(s2, k),
    ensures
        s1 == s2,
    decreases s1.len(),
{
    if s1.len() == 0 {
        if s2.len() > 0 {
            lemma_lookup_absent(s1, s2[0].0);
            assert(lookup(s2, s2[0].0) == Some(s2[0].1));
        }
        assert(s1 =~= s2);
    } else if s2.len() == 0 {
        lemma_lookup_absent(s2, s1[0].0);
        assert(lookup(s1, s1[0].0) == Some(s1[0].1));
    } else {
        // the head of each is its least name, so the heads agree
        assert(lookup(s1, s1[0].0) == Some(s1[0].1));
        assert(lookup(s2, s2[0].0) == Some(s2[0].1));
        lemma_lookup_present(s2, s1[0].0);
        let i = choose|i: int| 0 <= i < s2.len() && (#[trigger] s2[i]).0 == s1[0].0;
        lemma_lookup_present(s1, s2[0].0);
        let j = choose|j: int| 0 <= j < s1.len() && (#[trigger] s1[j]).0 == s2[0].0;
        lemma_lex_connected(s1[0].0, s2[0].0);
        if s1[0].0 != s2[0].0 {
            if lex_lt(s1[0].0, s2[0].0) {
                assert(i > 0);
                lemma_lex_trans(s1[0].0, s2[0].0, s2[i].0);
                lemma_lex_connected(s1[0].0, s2[i].0);
            } else {
                assert(j > 0);
                lemma_lex_trans(s2[0].0, s1[0].0, s1[j].0);
                lemma_lex_connected(s2[0].0, s1[j].0);
            }
        }
        assert(s1[0].0 == s2[0].0);
        assert(s1[0].1 == s2[0].1);
        // the head name appears in neither tail
        assert forall|m: int|
            0 <= m < s1.drop_first().len() implies (#[trigger] s1.drop_first()[m]).0
            != s1[0].0 by {
            assert(s1.drop_first()[m].0 == s1[m + 1].0);
            lemma_lex_connected(s1[0].0, s1[m + 1].0);
        }
        assert forall|m: int|
            0 <= m < s2.drop_first().len() implies (#[trigger] s2.drop_first()[m]).0
            != s2[0].0 by {
            assert(s2.drop_first()[m].0 == s2[m + 1].0);
            lemma_lex_connected(s2[0].0, s2[m + 1].0);
        }
        lemma_lookup_absent(s1.drop_first(), s1[0].0);
        lemma_lookup_absent(s2.drop_first(), s2[0].0);
        assert forall|k: Seq<char>| #[trigger] lookup(s1.drop_first(), k) == lookup(
            s2.drop_first(),
            k,
        ) by {
            if k == s1[0].0 {
            } else {
                assert(lookup(s1, k) == lookup(s1.drop_first(), k));
                assert(lookup(s2, k) == lookup(s2.drop_first(), k));
            }
        }
        assert(entries_sorted(s1.drop_first())) by {
            assert(forall|i: int, j: int|
                0 <= i < j < s1.drop_first().len() ==> lex_lt(
                    #[trigger] s1.drop_first()[i].0,
                    #[trigger] s1.drop_first()[j].0,
                ));
        }
        assert(entries_sorted(s2.drop_first())) by {
            assert(forall|i: int, j: int|
                0 <= i < j < s2.drop_first().len() ==> lex_lt(
                    #[trigger] s2.drop_first()[i].0,
                    #[trigger] s2.drop_first()[j].0,
                ));
        }
        lemma_claims_canonical(s1.drop_first(), s2.drop_first());
        assert(s1.len() == s2.len());
        assert forall|i: int| 0 <= i < s1.len() implies s1[i] == s2[i] by {
            if i > 0 {
                assert(s1[i] == s1.drop_first()[i - 1]);
                assert(s2[i] == s2.drop_first()[i - 1]);
            }
        }
        assert(s1 =~= s2);
    }
}

/// Builder round-trip law: storing a string under a name and reading that
/// name back through the string-typed view yields exactly that string, so a
/// reserved setter's input is what the matching getter reports.
pub proof fn lemma_set_then_get_string(s: Seq<ClaimEntry>, k: Seq<char>, x: Seq<char>)
    requires
        entries_sorted(s),
    ensures
        string_claim(sorted_insert(s, k, ClaimData::Str(x)), k) == Some(x),
{
    lemma_insert_lookup(s, k, ClaimData::Str(x));
}

/// Where a new entry lands: at the first position whose name is not below
/// the new name, replacing it when the names match.
proof fn lemma_insert_splice(s: Seq<ClaimEntry>, k: Seq<char>, v: ClaimData, i: int)
    requires
        0 <= i <= s.len(),
        forall|j: int| 0 <= j < i ==> lex_lt((#[trigger] s[j]).0, k),
        i < s.len() ==> !lex_lt(s[i].0, k),
    ensures
        i < s.len() && s[i].0 == k ==> sorted_insert(s, k, v) == s.update(i, (k, v)),
        (i == s.len() || s[i].0 != k) ==> sorted_insert(s, k, v) == s.insert(i, (k, v)),
    decreases i,
{
    if i == 0 {
        if s.len() == 0 {
            assert(sorted_insert(s, k, v) =~= s.insert(0, (k, v)));
        } else if s[0].0 == k {
            lemma_lex_connected(k, s[0].0);
            assert(seq![(k, v)] + s.drop_first() =~= s.update(0, (k, v)));
        } else {
            lemma_lex_connected(k, s[0].0);
            assert(lex_lt(k, s[0].0));
            assert(seq![(k, v)] + s =~= s.insert(0, (k, v)));
        }
    } else {
        assert(lex_lt(s[0].0, k));
        lemma_lex_connected(s[0].0, k);
        assert(!lex_lt(k, s[0].0) && k != s[0].0);
        let tail = s.drop_first();
        assert(forall|j: int| 0 <= j < i - 1 ==> (#[trigger] tail[j]).0 == s[j + 1].0);
        lemma_insert_splice(tail, k, v, i - 1);
        if i < s.len() && s[i].0 == k {
            assert(tail[i - 1].0 == k);
            assert(seq![s[0]] + tail.update(i - 1, (k, v)) =~= s.update(i, (k, v)));
        } else {
            assert(i == s.len() || tail[i - 1].0 != k);
            assert(seq![s[0]] + tail.insert(i - 1, (k, v)) =~= s.insert(i, (k, v)));
        }
    }
}

/// An ordered collection of claims for a token: names are unique and kept in
/// lexicographic order, so iteration is deterministic whatever the insertion
/// order was.
#[derive(Debug)]
pub struct Claims {
    entries: Vec<(String, ClaimValue)>,
}

impl View for Claims {
    type V = Seq<ClaimEntry>;

    closed spec fn view(&self) -> Seq<ClaimEntry> {
        self.entries@.map(|i: int, e: (String, ClaimValue)| (e.0@, e.1@))
    }
}

impl Default for Claims {
    fn default() -> (r: Self)
        ensures
            r@ == Seq::<ClaimEntry>::empty(),
            r.wf(),
    {
        Claims::new()
    }
}

impl Claims {
    /// The names are unique and strictly ordered.
    pub open spec fn wf(&self) -> bool {
        entries_sorted(self@)
    }

    /// An empty claim set.
    pub fn new() -> (r: Self)
        ensures
            r@ == Seq::<ClaimEntry>::empty(),
            r.wf(),
    {
        let r = Claims { entries: Vec::new() };
        proof {
            assert(r@ =~= Seq::<ClaimEntry>::empty());
        }
        r
    }

    /// Stores a value under a name, keeping the order: the verified heart of
    /// every setter.
    fn insert_pair(&mut self, key: &str, value: ClaimValue)
        requires
            old(self).wf(),
        ensures
            final(self).wf(),
            final(self)@ == sorted_insert(old(self)@, key@, value@),
    {
        let mut i: usize = 0;
        while i < self.entries.len()
            invariant
                old(self).wf(),
                *self == *old(self),
                0 <= i <= self.entries.len(),
                forall|j: int| 0 <= j < i ==> lex_lt((#[trigger] self@[j]).0, key@),
            decreases self.entries.len() - i,
        {
            match str_compare(self.entries[i].0.as_str(), key) {
                KeyCmp::Less => {
                    i = i + 1;
                },
                KeyCmp::Equal => {
                    proof {
                        assert(old(self)@[i as int].0 == key@);
                        crate::order::lemma_lex_connected(key@, key@);
                        lemma_insert_splice(old(self)@, key@, value@, i as int);
                        lemma_insert_sorted(old(self)@, key@, value@);
                    }
                    let kept = self.entries.remove(i);
                    self.entries.insert(i, (kept.0, value));
                    proof {
                        assert(self@ =~= old(self)@.update(i as int, (key@, value@)));
                        assert(self@ =~~= sorted_insert(old(self)@, key@, value@));
                    }
                    return ;
                },
                KeyCmp::Greater => {
                    proof {
                        crate::order::lemma_lex_connected(key@, self@[i as int].0);
                        lemma_insert_splice(old(self)@, key@, value@, i as int);
                        lemma_insert_sorted(old(self)@, key@, value@);
                    }
                    self.entries.insert(i, (key.to_owned(), value));
                    proof {
                        assert(self@ =~= old(self)@.insert(i as int, (key@, value@)));
                        assert(self@ =~~= sorted_insert(old(self)@, key@, value@));
                    }
                    return ;
                },
            }
        }
        proof {
            lemma_insert_splice(old(self)@, key@, value@, i as int);
            lemma_insert_sorted(old(self)@, key@, value@);
        }
        self.entries.push((key.to_owned(), value));
        proof {
            assert(self@ =~= old(self)@.insert(old(self)@.len() as int, (key@, value@)));
            assert(self@ =~~= sorted_insert(old(self)@, key@, value@));
        }
    }

    /// Stores a custom claim. A value that serializes to null — the scalar
    /// null, or a composite holding the JSON null value — is rejected with
    /// `InvalidValue` and the set stays unchanged; any other value is stored,
    /// overwriting an entry of the same name.
    pub fn set_claim(&mut self, key: &str, value: ClaimValue) -> (r: Result<(), ClaimError>)
        requires
            old(self).wf(),
        ensures
            final(self).wf(),
            data_is_null(value@) ==> r == Err::<(), ClaimError>(ClaimError::InvalidValue)
                && final(self)@ == old(self)@,
            !data_is_null(value@) ==> r == Ok::<(), ClaimError>(()) && final(self)@
                == sorted_insert(old(self)@, key@, value@),
    {
        if value.is_null() {
            return Err(ClaimError::InvalidValue);
        }
        self.insert_pair(key, value);
        Ok(())
    }

    /// The stored value under a name, if any.
    pub fn get_claim(&self, key: &str) -> (r: Option<&ClaimValue>)
        ensures
            r is Some <==> lookup(self@, key@) is Some,
            r is Some ==> r.unwrap()@ == lookup(self@, key@).unwrap(),
    {
        let mut i: usize = 0;
        proof {
            assert(self@.skip(0) =~= self@);
        }
        loop
            invariant
                0 <= i <= self.entries.len(),
                lookup(self@, key@) == lookup(self@.skip(i as int), key@),
            decreases self.entries.len() - i,
        {
            if i == self.entries.len() {
                proof {
                    assert(self@.skip(i as int) =~= Seq::<ClaimEntry>::empty());
                }
                return None;
            }
            proof {
                assert(self@.skip(i as int)[0] == self@[i as int]);
                assert(self@.skip(i as int).drop_first() =~= self@.skip(i as int + 1));
            }
            match str_compare(self.entries[i].0.as_str(), key) {
                KeyCmp::Equal => {
                    return Some(&self.entries[i].1);
                },
                _ => {
                    proof {
                        crate::order::lemma_lex_connected(self@[i as int].0, key@);
                    }
                    i = i + 1;
                },
            }
        }
    }

    /// The claims in order: each pair of the returned vector is one claim,
    /// names strictly ascending when the set is well formed.
    pub fn iter(&self) -> (r: &Vec<(String, ClaimValue)>)
        ensures
            r@.len() == self@.len(),
            forall|i: int|
                0 <= i < self@.len() ==> ((#[trigger] r@[i]).0@, r@[i].1@) == self@[i],
    {
        &self.entries
    }

    /// A deep copy of the claim set.
    pub fn duplicate(&self) -> (r: Claims)
        ensures
            r@ == self@,
    {
        let mut entries: Vec<(String, ClaimValue)> = Vec::new();
        let mut i: usize = 0;
        while i < self.entries.len()
            invariant
                0 <= i <= self.entries.len(),
                entries@.len() == i,
                forall|j: int|
                    0 <= j < i ==> ((#[trigger] entries@[j]).0@, entries@[j].1@) == self@[j],
            decreases self.entries.len() - i,
        {
            entries.push((self.entries[i].0.clone(), self.entries[i].1.duplicate()));
            i = i + 1;
        }
        let r = Claims { entries };
        proof {
            assert(r@.len() == self@.len());
            assert forall|j: int| 0 <= j < self@.len() implies r@[j] == self@[j] by {
                assert((entries@[j].0@, entries@[j].1@) == self@[j]);
            }
            assert(r@ =~= self@);
        }
        r
    }

    /// The claim set holding every (name, value) pair of a list, stored in
    /// order of appearance.
    pub fn from_entries(list: &Vec<(String, ClaimValue)>) -> (r: Claims)
        ensures
            r.wf(),
            r@ == claims_of_entries(entries_view(list@)),
    {
        let ghost all = entries_view(list@);
        let mut r = Claims::new();
        let mut i: usize = 0;
        proof {
            assert(all.take(0) =~= Seq::<ClaimEntry>::empty());
        }
        loop
            invariant
                0 <= i <= list@.len(),
                r.wf(),
                r@ == claims_of_entries(all.take(i as int)),
                all == entries_view(list@),
            decreases list@.len() - i,
        {
            if i == list.len() {
                proof {
                    assert(all.take(i as int) =~= all);
                }
                return r;
            }
            r.insert_pair(list[i].0.as_str(), list[i].1.duplicate());
            proof {
                assert(all.take(i as int + 1).drop_last() =~= all.take(i as int));
                assert(all.take(i as int + 1).last() == all[i as int]);
            }
            i = i + 1;
        }
    }

    /// The claim set a decoded token payload denotes: the set built from the
    /// payload's entries when it is an object, and the empty set otherwise. A
    /// payload of any other shape quietly becomes an empty set rather than an
    /// error; the quiet degradation is deliberate and worth knowing about.
    pub fn from_payload(payload: &serde_json::Value) -> (r: Claims)
        ensures
            r.wf(),
            crate::engine::payload_claims(*payload) is Some ==> r@ == claims_of_entries(
                crate::engine::payload_claims(*payload).unwrap(),
            ),
            crate::engine::payload_claims(*payload) is None ==> r@ == Seq::<ClaimEntry>::empty(),
    {
        match crate::engine::payload_entries(payload) {
            Some(list) => Claims::from_entries(&list),
            None => Claims::new(),
        }
    }

    /// Builder setter for the subject claim.
    pub fn with_subject(self, subject: &str) -> (r: Self)
        requires
            self.wf(),
        ensures
            r.wf(),
            r@ == sorted_insert(self@, reserved::SUBJECT@, ClaimData::Str(subject@)),
    {
        let mut s = self;
        s.insert_pair(reserved::SUBJECT, ClaimValue::Str(subject.to_owned()));
        s
    }

    /// Builder setter for the issuer claim.
    pub fn with_issuer(self, issuer: &str) -> (r: Self)
        requires
            self.wf(),
        ensures
            r.wf(),
            r@ == sorted_insert(self@, reserved::ISSUER@, ClaimData::Str(issuer@)),
    {
        let mut s = self;
        s.insert_pair(reserved::ISSUER, ClaimValue::Str(issuer.to_owned()));
        s
    }

    /// Builder setter for the audience claim.
    pub fn with_audience(self, audience: &str) -> (r: Self)
        requires
            self.wf(),
        ensures
            r.wf(),
            r@ == sorted_insert(self@, reserved::AUDIENCE@, ClaimData::Str(audience@)),
    {
        let mut s = self;
        s.insert_pair(reserved::AUDIENCE, ClaimValue::Str(audience.to_owned()));
        s
    }

    /// Builder setter for the expiration claim.
    pub fn with_expiration(self, expiration: &str) -> (r: Self)
        requires
            self.wf(),
        ensures
            r.wf(),
            r@ == sorted_insert(self@, reserved::EXPIRATION@, ClaimData::Str(expiration@)),
    {
        let mut s = self;
        s.insert_pair(reserved::EXPIRATION, ClaimValue::Str(expiration.to_owned()));
        s
    }

    /// Builder setter for the not-before claim.
    pub fn with_not_before(self, not_before: &str) -> (r: Self)
        requires
            self.wf(),
        ensures
            r.wf(),
            r@ == sorted_insert(self@, reserved::NOT_BEFORE@, ClaimData::Str(not_before@)),
    {
        let mut s = self;
        s.insert_pair(reserved::NOT_BEFORE, ClaimValue::Str(not_before.to_owned()));
        s
    }

    /// Builder setter for the issued-at claim.
    pub fn with_issued_at(self, issued_at: &str) -> (r: Self)
        requires
            self.wf(),
        ensures
            r.wf(),
            r@ == sorted_insert(self@, reserved::ISSUED_AT@, ClaimData::Str(issued_at@)),
    {
        let mut s = self;
        s.insert_pair(reserved::ISSUED_AT, ClaimValue::Str(issued_at.to_owned()));
        s
    }

    /// Builder setter for the token identifier claim.
    pub fn with_token_identifier(self, token_identifier: &str) -> (r: Self)
        requires
            self.wf(),
        ensures
            r.wf(),
            r@ == sorted_insert(
                self@,
                reserved::TOKEN_IDENTIFIER@,
                ClaimData::Str(token_identifier@),
            ),
    {
        let mut s = self;
        s.insert_pair(reserved::TOKEN_IDENTIFIER, ClaimValue::Str(token_identifier.to_owned()));
        s
    }

    fn get_string(&self, key: &str) -> (r: Option<String>)
        ensures
            r is Some <==> string_claim(self@, key@) is Some,
            r is Some ==> r.unwrap()@ == string_claim(self@, key@).unwrap(),
    {
        match self.get_claim(key) {
            Some(ClaimValue::Str(s)) => Some(s.clone()),
            _ => None,
        }
    }

    fn get_time(&self, key: &str) -> (r: Option<Timestamp>)
        ensures
            r is Some <==> time_claim(self@, key@) is Some,
            r is Some ==> r.unwrap().micros as int == time_claim(self@, key@).unwrap(),
    {
        match self.get_claim(key) {
            Some(ClaimValue::Str(s)) => match parse_rfc3339(s.as_str()) {
                Some(micros) => Some(Timestamp { micros }),
                None => None,
            },
            _ => None,
        }
    }

    /// The subject claim, when present as a string.
    pub fn get_subject(&self) -> (r: Option<String>)
        ensures
            r is Some <==> string_claim(self@, reserved::SUBJECT@) is Some,
            r is Some ==> r.unwrap()@ == string_claim(self@, reserved::SUBJECT@).unwrap(),
    {
        self.get_string(reserved::SUBJECT)
    }

    /// The issuer claim, when present as a string.
    pub fn get_issuer(&self) -> (r: Option<String>)
        ensures
            r is Some <==> string_claim(self@, reserved::ISSUER@) is Some,
            r is Some ==> r.unwrap()@ == string_claim(self@, reserved::ISSUER@).unwrap(),
    {
        self.get_string(reserved::ISSUER)
    }

    /// The audience claim, when present as a string.
    pub fn get_audience(&self) -> (r: Option<String>)
        ensures
            r is Some <==> string_claim(self@, reserved::AUDIENCE@) is Some,
            r is Some ==> r.unwrap()@ == string_claim(self@, reserved::AUDIENCE@).unwrap(),
    {
        self.get_string(reserved::AUDIENCE)
    }

    /// The token identifier claim, when present as a string.
    pub fn get_token_identifier(&self) -> (r: Option<String>)
        ensures
            r is Some <==> string_claim(self@, reserved::TOKEN_IDENTIFIER@) is Some,
            r is Some ==> r.unwrap()@ == string_claim(self@, reserved::TOKEN_IDENTIFIER@).unwrap(),
    {
        self.get_string(reserved::TOKEN_IDENTIFIER)
    }

    /// The expiration claim as a timestamp, when present as a string that
    /// parses as an RFC 3339 date.
    pub fn get_expiration(&self) -> (r: Option<Timestamp>)
        ensures
            r is Some <==> time_claim(self@, reserved::EXPIRATION@) is Some,
            r is Some ==> r.unwrap().micros as int == time_claim(
                self@,
                reserved::EXPIRATION@,
            ).unwrap(),
    {
        self.get_time(reserved::EXPIRATION)
    }

    /// The not-before claim as a timestamp, when present as a string that
    /// parses as an RFC 3339 date.
    pub fn get_not_before(&self) -> (r: Option<Timestamp>)
        ensures
            r is Some <==> time_claim(self@, reserved::NOT_BEFORE@) is Some,
            r is Some ==> r.unwrap().micros as int == time_claim(
                self@,
                reserved::NOT_BEFORE@,
            ).unwrap(),
    {
        self.get_time(reserved::NOT_BEFORE)
    }

    /// The issued-at claim as a timestamp, when present as a string that
    /// parses as an RFC 3339 date.
    pub fn get_issued_at(&self) -> (r: Option<Timestamp>)
        ensures
            r is Some <==> time_claim(self@, reserved::ISSUED_AT@) is Some,
            r is Some ==> r.unwrap().micros as int == time_claim(
                self@,
                reserved::ISSUED_AT@,
            ).unwrap(),
    {
        self.get_time(reserved::ISSUED_AT)
    }
}

} // verus!
