//! Splitting and joining byte strings on a delimiter byte.
//!
//! Message names are colon-segmented and version strings are dot-segmented,
//! so both models share this engine: a spec-level `split_on` / `join_with`
//! pair with round-trip lemmas, and an executable `split_bytes` proved
//! against `split_on`.

use vstd::prelude::*;

verus! {

/// Index of the first occurrence of `d` in `s`, or `s.len()` if `d` is absent.
pub open spec fn first_index(s: Seq<u8>, d: u8) -> nat
    decreases s.len(),
{
    if s.len() == 0 {
        0
    } else if s[0] == d {
        0
    } else {
        1 + first_index(s.drop_first(), d)
    }
}

/// No byte of `s` is `d`.
pub open spec fn free_of(s: Seq<u8>, d: u8) -> bool {
    forall|i: int| 0 <= i < s.len() ==> s[i] != d
}

/// No byte of any chunk is `d`.
pub open spec fn all_free_of(parts: Seq<Seq<u8>>, d: u8) -> bool {
    forall|i: int| 0 <= i < parts.len() ==> free_of(#[trigger] parts[i], d)
}

pub proof fn lemma_first_index(s: Seq<u8>, d: u8)
    ensures
        first_index(s, d) <= s.len(),
        forall|j: int| 0 <= j < first_index(s, d) ==> s[j] != d,
        first_index(s, d) < s.len() ==> s[first_index(s, d) as int] == d,
    decreases s.len(),
{
    if s.len() == 0 {
    } else if s[0] == d {
    } else {
        lemma_first_index(s.drop_first(), d);
        assert forall|j: int| 0 <= j < first_index(s, d) implies s[j] != d by {
            if j >= 1 {
                assert(s.drop_first()[j - 1] == s[j]);
            }
        }
    }
}

pub proof fn lemma_first_index_free(s: Seq<u8>, d: u8)
    requires
        free_of(s, d),
    ensures
        first_index(s, d) == s.len(),
{
    lemma_first_index(s, d);
}

pub proof fn lemma_first_index_concat(a: Seq<u8>, b: Seq<u8>, d: u8)
    requires
        free_of(a, d),
    ensures
        first_index(a + seq![d] + b, d) == a.len(),
    decreases a.len(),
{
    let s = a + seq![d] + b;
    if a.len() == 0 {
        assert(s[0] == d);
    } else {
        assert(s[0] == a[0]);
        lemma_first_index_concat(a.drop_first(), b, d);
        assert(s.drop_first() =~= a.drop_first() + seq![d] + b);
    }
}

/// `s` split on `d`: the maximal delimiter-free chunks, in order.
/// The empty string gives one empty chunk; each delimiter ends a chunk, so a
/// trailing delimiter produces a trailing empty chunk.
pub open spec fn split_on(s: Seq<u8>, d: u8) -> Seq<Seq<u8>>
    decreases s.len(),
{
    let i = first_index(s, d) as int;
    if i >= s.len() {
        seq![s]
    } else {
        seq![s.take(i)] + split_on(s.skip(i + 1), d)
    }
}

/// The chunks joined back, with `d` between consecutive chunks.
pub open spec fn join_with(parts: Seq<Seq<u8>>, d: u8) -> Seq<u8>
    decreases parts.len(),
{
    if parts.len() == 0 {
        seq![]
    } else if parts.len() == 1 {
        parts[0]
    } else {
        parts[0] + seq![d] + join_with(parts.drop_first(), d)
    }
}

/// Splitting is sound: it yields at least one chunk, every chunk is
/// delimiter-free, and joining the chunks back reproduces the input.
pub proof fn lemma_split_on(s: Seq<u8>, d: u8)
    ensures
        split_on(s, d).len() >= 1,
        all_free_of(split_on(s, d), d),
        join_with(split_on(s, d), d) == s,
    decreases s.len(),
{
    lemma_first_index(s, d);
    let i = first_index(s, d) as int;
    if i >= s.len() {
        assert(free_of(s, d));
        assert(all_free_of(seq![s], d));
    } else {
        lemma_split_on(s.skip(i + 1), d);
        let rest = split_on(s.skip(i + 1), d);
        let parts = seq![s.take(i)] + rest;
        assert(free_of(s.take(i), d));
        assert forall|k: int| 0 <= k < parts.len() implies free_of(#[trigger] parts[k], d) by {
            if k >= 1 {
                assert(parts[k] == rest[k - 1]);
            }
        }
        assert(parts.drop_first() =~~= rest);
        assert(join_with(parts, d) == s.take(i) + seq![d] + s.skip(i + 1));
        assert(s.take(i) + seq![d] + s.skip(i + 1) =~= s);
    }
}

/// Splitting inverts joining, provided no chunk contains the delimiter.
pub proof fn lemma_join_then_split(parts: Seq<Seq<u8>>, d: u8)
    requires
        parts.len() >= 1,
        all_free_of(parts, d),
    ensures
        split_on(join_with(parts, d), d) == parts,
    decreases parts.len(),
{
    if parts.len() == 1 {
        let s = parts[0];
        lemma_first_index_free(s, d);
        assert(split_on(s, d) =~~= parts);
    } else {
        let tail = parts.drop_first();
        let s = join_with(parts, d);
        assert(s == parts[0] + seq![d] + join_with(tail, d));
        lemma_first_index_concat(parts[0], join_with(tail, d), d);
        let i = parts[0].len() as int;
        assert(s.take(i) =~= parts[0]);
        assert(s.skip(i + 1) =~= join_with(tail, d));
        assert(all_free_of(tail, d)) by {
            assert forall|k: int| 0 <= k < tail.len() implies free_of(#[trigger] tail[k], d) by {
                assert(tail[k] == parts[k + 1]);
            }
        }
        lemma_join_then_split(tail, d);
        assert(split_on(s, d) =~~= parts);
    }
}

/// `rest` with `c` prepended onto its first chunk.
pub open spec fn prepend_first(c: Seq<u8>, parts: Seq<Seq<u8>>) -> Seq<Seq<u8>> {
    seq![c + parts[0]] + parts.drop_first()
}

pub proof fn lemma_split_cons_delim(s: Seq<u8>, d: u8)
    requires
        s.len() > 0,
        s[0] == d,
    ensures
        split_on(s, d) == seq![Seq::<u8>::empty()] + split_on(s.drop_first(), d),
{
    assert(first_index(s, d) == 0);
    assert(s.take(0) =~= Seq::<u8>::empty());
    assert(s.skip(1) =~= s.drop_first());
}

pub proof fn lemma_split_cons(s: Seq<u8>, d: u8)
    requires
        s.len() > 0,
        s[0] != d,
    ensures
        split_on(s, d) == prepend_first(seq![s[0]], split_on(s.drop_first(), d)),
{
    let t = s.drop_first();
    let k = first_index(t, d) as int;
    assert(first_index(s, d) == 1 + first_index(t, d));
    lemma_first_index(t, d);
    if k >= t.len() {
        assert(split_on(s, d) =~~= seq![s]);
        assert(split_on(t, d) =~~= seq![t]);
        assert(seq![s[0]] + t =~= s);
        assert(prepend_first(seq![s[0]], seq![t]) =~~= seq![s]);
    } else {
        assert(split_on(s, d) == seq![s.take(1 + k)] + split_on(s.skip(k + 2), d));
        assert(split_on(t, d) == seq![t.take(k)] + split_on(t.skip(k + 1), d));
        assert(s.take(1 + k) =~= seq![s[0]] + t.take(k));
        assert(s.skip(k + 2) =~= t.skip(k + 1));
        assert(prepend_first(seq![s[0]], split_on(t, d)) =~~= split_on(s, d));
    }
}

/// `done`, then `rest` with `cur` prepended onto its first chunk: the shape
/// of a partly finished split.
pub open spec fn split_state(done: Seq<Seq<u8>>, cur: Seq<u8>, rest: Seq<Seq<u8>>) -> Seq<Seq<u8>> {
    done + prepend_first(cur, rest)
}

/// Splits `s` on the delimiter `d`.
pub fn split_bytes(s: &[u8], d: u8) -> (r: Vec<Vec<u8>>)
    ensures
        r.deep_view() == split_on(s@, d),
{
    let mut parts: Vec<Vec<u8>> = Vec::new();
    let mut cur: Vec<u8> = Vec::new();
    let mut i: usize = 0;
    proof {
        assert(s@.skip(0) =~= s@);
        lemma_split_on(s@, d);
        assert(split_state(parts.deep_view(), cur@, split_on(s@, d)) =~~= split_on(s@, d));
    }
    while i < s.len()
        invariant
            i <= s@.len(),
            split_on(s@, d) == split_state(parts.deep_view(), cur@, split_on(s@.skip(i as int), d)),
        decreases s@.len() - i,
    {
        let ghost suffix = s@.skip(i as int);
        let ghost next = s@.skip(i as int + 1);
        proof {
            assert(suffix[0] == s@[i as int]);
            assert(suffix.drop_first() =~= next);
            lemma_split_on(next, d);
        }
        let b = s[i];
        if b == d {
            proof {
                lemma_split_cons_delim(suffix, d);
                let rest = split_on(next, d);
                assert(split_state(parts.deep_view(), cur@, seq![Seq::<u8>::empty()] + rest)
                    =~~= split_state(parts.deep_view().push(cur@), Seq::<u8>::empty(), rest));
            }
            let ghost old_parts = parts.deep_view();
            parts.push(cur);
            proof {
                assert(parts.deep_view() =~~= old_parts.push(cur@));
            }
            cur = Vec::new();
        } else {
            proof {
                lemma_split_cons(suffix, d);
                let rest = split_on(next, d);
                assert(split_state(parts.deep_view(), cur@, prepend_first(seq![suffix[0]], rest))
                    =~~= split_state(parts.deep_view(), cur@.push(suffix[0]), rest));
            }
            cur.push(b);
        }
        i = i + 1;
    }
    proof {
        assert(s@.skip(i as int) =~= Seq::<u8>::empty());
        assert(split_on(Seq::<u8>::empty(), d) =~~= seq![Seq::<u8>::empty()]);
        let ghost old_parts = parts.deep_view();
        assert(split_state(old_parts, cur@, seq![Seq::<u8>::empty()]) =~~= old_parts.push(cur@));
    }
    let ghost old_parts = parts.deep_view();
    parts.push(cur);
    proof {
        assert(parts.deep_view() =~~= old_parts.push(cur@));
    }
    parts
}

/// Byte-for-byte equality of two byte strings.
pub fn eq_bytes(a: &[u8], b: &[u8]) -> (r: bool)
    ensures
        r == (a@ == b@),
{
    if a.len() != b.len() {
        return false;
    }
    let mut i: usize = 0;
    while i < a.len()
        invariant
            a@.len() == b@.len(),
            i <= a@.len(),
            forall|j: int| 0 <= j < i ==> a@[j] == b@[j],
        decreases a@.len() - i,
    {
        if a[i] != b[i] {
            return false;
        }
        i = i + 1;
    }
    proof {
        assert(a@ =~= b@);
    }
    true
}

/// Appends all of `s` onto `v`.
pub fn append_bytes(v: &mut Vec<u8>, s: &[u8])
    ensures
        final(v)@ == old(v)@ + s@,
{
    let mut i: usize = 0;
    while i < s.len()
        invariant
            i <= s@.len(),
            v@ == old(v)@ + s@.take(i as int),
        decreases s@.len() - i,
    {
        v.push(s[i]);
        proof {
            assert(old(v)@ + s@.take(i as int) + seq![s@[i as int]]
                =~= old(v)@ + s@.take(i as int + 1));
        }
        i = i + 1;
    }
    proof {
        assert(s@.take(i as int) =~= s@);
    }
}

/// Copies a byte slice into a fresh vector.
pub fn copy_bytes(s: &[u8]) -> (r: Vec<u8>)
    ensures
        r@ == s@,
{
    let mut v: Vec<u8> = Vec::new();
    append_bytes(&mut v, s);
    v
}

} // verus!
