//! The message-name model.
//!
//! An Objective-C message name is either a single bare identifier (a message
//! taking only the receiver) or one or more identifier segments, every one of
//! them colon-terminated (one message argument per segment). The model parses
//! a byte string into segments, derives the required argument count, and
//! reproduces the canonical surface form.

use vstd::prelude::*;
use crate::bytesplit::{
    all_free_of, copy_bytes, eq_bytes, first_index, free_of, join_with, lemma_first_index,
    lemma_first_index_free, lemma_join_then_split, lemma_split_on, split_bytes, split_on,
};

verus! {

/// The colon byte that terminates a message-name segment.
pub const COLON: u8 = 58;

pub open spec fn is_ident_start(b: u8) -> bool {
    (65 <= b <= 90) || (97 <= b <= 122) || b == 95
}

pub open spec fn is_ident_cont(b: u8) -> bool {
    is_ident_start(b) || (48 <= b <= 57)
}

/// A nonempty identifier: a letter or underscore, then letters, digits or
/// underscores.
pub open spec fn is_ident(s: Seq<u8>) -> bool {
    &&& s.len() > 0
    &&& is_ident_start(s[0])
    &&& forall|i: int| 1 <= i < s.len() ==> is_ident_cont(#[trigger] s[i])
}

/// The mathematical model of a parsed message name.
pub struct ObjCMethNameV {
    /// The identifier segments, in order.
    pub segments: Seq<Seq<u8>>,
    /// Whether every segment is colon-terminated. When false the name is a
    /// single bare identifier.
    pub trailing_colons: bool,
}

/// Structural invariant of a message name: at least one segment, every
/// segment an identifier, and a bare name has exactly one segment.
pub open spec fn meth_name_wf(m: ObjCMethNameV) -> bool {
    &&& m.segments.len() >= 1
    &&& forall|i: int| 0 <= i < m.segments.len() ==> is_ident(#[trigger] m.segments[i])
    &&& !m.trailing_colons ==> m.segments.len() == 1
}

/// The number of arguments the message requires, counting the receiver:
/// one per colon-terminated segment plus the receiver, or just the receiver
/// for a bare name.
pub open spec fn spec_arg_count(m: ObjCMethNameV) -> nat {
    if m.trailing_colons {
        m.segments.len() + 1
    } else {
        1
    }
}

/// The canonical surface form: segments joined back, each colon-terminated
/// in the colon form, the bare identifier otherwise.
pub open spec fn canonical_seq(m: ObjCMethNameV) -> Seq<u8> {
    if m.trailing_colons {
        join_with(m.segments.push(Seq::empty()), COLON)
    } else {
        m.segments[0]
    }
}

/// Number of colons in `s`.
pub open spec fn colon_count(s: Seq<u8>) -> nat {
    (split_on(s, COLON).len() - 1) as nat
}

/// Parsing a message-name string. A bare identifier is a zero-argument
/// name; otherwise the string must be one or more identifier segments, all
/// colon-terminated. Anything else (the empty string, a bare segment after
/// a colon-terminated one, punctuation) is rejected.
pub open spec fn spec_parse_meth_name(s: Seq<u8>) -> Option<ObjCMethNameV> {
    if is_ident(s) {
        Some(ObjCMethNameV { segments: seq![s], trailing_colons: false })
    } else {
        let parts = split_on(s, COLON);
        if parts.len() >= 2 && parts.last() == Seq::<u8>::empty() && (forall|i: int|
            0 <= i < parts.len() - 1 ==> is_ident(#[trigger] parts[i])) {
            Some(ObjCMethNameV { segments: parts.drop_last(), trailing_colons: true })
        } else {
            None
        }
    }
}

/// An identifier contains no colon.
proof fn lemma_ident_colon_free(s: Seq<u8>)
    requires
        is_ident(s),
    ensures
        free_of(s, COLON),
{
}

/// Every successfully parsed name is well formed and reproduces its input
/// as its canonical form.
pub proof fn lemma_parse_sound(s: Seq<u8>)
    requires
        spec_parse_meth_name(s) is Some,
    ensures
        meth_name_wf(spec_parse_meth_name(s)->Some_0),
        canonical_seq(spec_parse_meth_name(s)->Some_0) == s,
{
    let m = spec_parse_meth_name(s)->Some_0;
    if is_ident(s) {
    } else {
        let parts = split_on(s, COLON);
        lemma_split_on(s, COLON);
        assert(m.segments.push(Seq::<u8>::empty()) =~~= parts);
    }
}

/// Re-parsing the canonical form of a well-formed name yields the name
/// itself: the surface form round-trips.
pub proof fn lemma_canonical_roundtrip(m: ObjCMethNameV)
    requires
        meth_name_wf(m),
    ensures
        spec_parse_meth_name(canonical_seq(m)) == Some(m),
{
    if !m.trailing_colons {
        let s = canonical_seq(m);
        assert(seq![s] =~~= m.segments);
    } else {
        let parts = m.segments.push(Seq::<u8>::empty());
        let s = join_with(parts, COLON);
        assert(all_free_of(parts, COLON)) by {
            assert forall|i: int| 0 <= i < parts.len() implies free_of(
                #[trigger] parts[i],
                COLON,
            ) by {
                if i < m.segments.len() {
                    lemma_ident_colon_free(m.segments[i]);
                }
            }
        }
        lemma_join_then_split(parts, COLON);
        // The joined form starts with the first segment, then a colon, so it
        // is not itself an identifier.
        assert(parts.len() >= 2);
        assert(s == parts[0] + seq![COLON] + join_with(parts.drop_first(), COLON));
        let j = parts[0].len() as int;
        assert(s[j] == COLON);
        assert(j >= 1);
        assert(!is_ident(s));
        assert(split_on(s, COLON).drop_last() =~~= m.segments);
    }
}

/// The argument count of a parsed name, related to the number of colons in
/// its surface form: one argument per colon, plus one for the receiver; a
/// bare name has no colon and exactly one argument.
pub proof fn lemma_argument_count(s: Seq<u8>)
    requires
        spec_parse_meth_name(s) is Some,
    ensures
        ({
            let m = spec_parse_meth_name(s)->Some_0;
            &&& m.trailing_colons ==> m.segments.len() == colon_count(s) && spec_arg_count(m)
                == colon_count(s) + 1
            &&& !m.trailing_colons ==> colon_count(s) == 0 && spec_arg_count(m) == 1
        }),
{
    let m = spec_parse_meth_name(s)->Some_0;
    if is_ident(s) {
        lemma_ident_colon_free(s);
        lemma_first_index_free(s, COLON);
    } else {
        lemma_split_on(s, COLON);
    }
}

/// A parsed message name. Immutable once parsed; the invariant guarantees a
/// well-formed segment structure.
pub struct ObjCMethName {
    segments: Vec<Vec<u8>>,
    trailing_colons: bool,
}

impl View for ObjCMethName {
    type V = ObjCMethNameV;

    closed spec fn view(&self) -> ObjCMethNameV {
        ObjCMethNameV { segments: self.segments.deep_view(), trailing_colons: self.trailing_colons }
    }
}

#[verifier::type_invariant]
spec fn meth_name_type_inv(m: ObjCMethName) -> bool {
    &&& meth_name_wf(m@)
    &&& m.segments@.len() < usize::MAX
}

/// Is `b` a valid identifier start byte?
fn byte_ident_start(b: u8) -> (r: bool)
    ensures
        r == is_ident_start(b),
{
    (65 <= b && b <= 90) || (97 <= b && b <= 122) || b == 95
}

/// Is `s` a valid identifier?
fn check_ident(s: &[u8]) -> (r: bool)
    ensures
        r == is_ident(s@),
{
    if s.len() == 0 {
        return false;
    }
    if !byte_ident_start(s[0]) {
        return false;
    }
    let mut i: usize = 1;
    while i < s.len()
        invariant
            1 <= i <= s@.len(),
            is_ident_start(s@[0]),
            forall|j: int| 1 <= j < i ==> is_ident_cont(#[trigger] s@[j]),
        decreases s@.len() - i,
    {
        let b = s[i];
        if !(byte_ident_start(b) || (48 <= b && b <= 57)) {
            return false;
        }
        i = i + 1;
    }
    true
}

impl ObjCMethName {
    /// Parses a message-name string; rejects the empty string and any name
    /// where a bare segment follows or accompanies colon-terminated ones.
    pub fn parse(s: &[u8]) -> (r: Option<ObjCMethName>)
        ensures
            match r {
                Some(m) => spec_parse_meth_name(s@) == Some(m@),
                None => spec_parse_meth_name(s@) is None,
            },
    {
        proof {
            lemma_split_on(s@, COLON);
            lemma_first_index(s@, COLON);
        }
        let mut parts = split_bytes(s, COLON);
        if parts.len() == 1 {
            // No colon anywhere: the name must be a single bare identifier.
            proof {
                assert(parts@[0]@ =~= parts.deep_view()[0]);
                assert(join_with(parts.deep_view(), COLON) == parts.deep_view()[0]);
            }
            let ok = check_ident(parts[0].as_slice());
            if ok {
                let m = ObjCMethName { segments: parts, trailing_colons: false };
                proof {
                    assert(m@.segments =~~= seq![s@]);
                    assert(spec_parse_meth_name(s@) == Some(m@));
                }
                Some(m)
            } else {
                None
            }
        } else {
            // At least one colon: every segment must be an identifier and the
            // final chunk (after the last colon) must be empty.
            proof {
                let fi = first_index(s@, COLON) as int;
                assert(fi < s@.len());
                assert(s@[fi] == COLON);
                assert(!is_ident(s@));
            }
            let last = parts.len() - 1;
            proof {
                assert(parts.deep_view()[last as int] =~= parts@[last as int]@);
            }
            if parts[last].len() != 0 {
                return None;
            }
            proof {
                assert(parts.deep_view().last() =~= Seq::<u8>::empty());
            }
            let mut i: usize = 0;
            while i < last
                invariant
                    i <= last,
                    last == parts.deep_view().len() - 1,
                    parts.deep_view().len() >= 2,
                    parts.deep_view() == split_on(s@, COLON),
                    !is_ident(s@),
                    parts.deep_view().last() == Seq::<u8>::empty(),
                    forall|j: int| 0 <= j < i ==> is_ident(#[trigger] parts.deep_view()[j]),
                decreases last - i,
            {
                proof {
                    assert(parts.deep_view()[i as int] =~= parts@[i as int]@);
                }
                if !check_ident(parts[i].as_slice()) {
                    return None;
                }
                i = i + 1;
            }
            let ghost whole = parts.deep_view();
            parts.pop();
            proof {
                assert(parts.deep_view() =~~= whole.drop_last());
            }
            let m = ObjCMethName { segments: parts, trailing_colons: true };
            proof {
                assert(m@.segments =~~= whole.drop_last());
                assert(spec_parse_meth_name(s@) == Some(m@));
            }
            Some(m)
        }
    }

    /// The number of arguments the message requires, counting the receiver.
    pub fn arg_count(&self) -> (r: usize)
        ensures
            r == spec_arg_count(self@),
    {
        proof {
            use_type_invariant(self);
        }
        if self.trailing_colons {
            self.segments.len() + 1
        } else {
            1
        }
    }

    /// The canonical surface form of the name: the segments joined back,
    /// colon-terminated in the colon form.
    pub fn as_string(&self) -> (r: Vec<u8>)
        ensures
            r@ == canonical_seq(self@),
    {
        proof {
            use_type_invariant(self);
        }
        if !self.trailing_colons {
            return copy_bytes(self.segments[0].as_slice());
        }
        let mut out: Vec<u8> = Vec::new();
        let mut i: usize = 0;
        proof {
            assert(self@.segments.skip(0) =~~= self@.segments);
        }
        while i < self.segments.len()
            invariant
                i <= self.segments@.len(),
                meth_name_wf(self@),
                self@.trailing_colons,
                canonical_seq(self@) == out@ + join_with(
                    self@.segments.skip(i as int).push(Seq::empty()),
                    COLON,
                ),
            decreases self.segments@.len() - i,
        {
            let ghost rest = self@.segments.skip(i as int).push(Seq::<u8>::empty());
            proof {
                assert(rest.len() >= 2);
                assert(rest[0] == self@.segments[i as int]);
                assert(rest.drop_first() =~~= self@.segments.skip(i as int + 1).push(
                    Seq::empty(),
                ));
            }
            append_segment(&mut out, &self.segments[i]);
            out.push(COLON);
            i = i + 1;
        }
        proof {
            assert(self@.segments.skip(i as int).push(Seq::<u8>::empty()) =~~= seq![
                Seq::<u8>::empty(),
            ]);
            assert(canonical_seq(self@) =~= out@);
        }
        out
    }

    /// True of the byte string `other` exactly when it is this name's
    /// canonical form.
    pub fn matches_canonical(&self, other: &[u8]) -> (r: bool)
        ensures
            r == (other@ == canonical_seq(self@)),
    {
        let own = self.as_string();
        eq_bytes(own.as_slice(), other)
    }
}

/// Appends one segment onto the buffer.
fn append_segment(out: &mut Vec<u8>, seg: &Vec<u8>)
    ensures
        final(out)@ == old(out)@ + seg@,
{
    crate::bytesplit::append_bytes(out, seg.as_slice())
}

} // verus!
