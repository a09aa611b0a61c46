//! The version-string model.
//!
//! A declared minimum version is written as one to three dot-separated
//! decimal components; missing minor and patch components default to zero.
//! Anything else (the empty string, four or more components, a non-numeric
//! component, a component beyond the representable range) is rejected.

use vstd::prelude::*;
use crate::bytesplit::{split_bytes, split_on};

verus! {

/// The dot byte that separates version components.
pub const DOT: u8 = 46;

/// A parsed (major, minor, patch) version triple. Parsed components are
/// never negative.
#[derive(Copy, Clone, Debug, PartialEq, Eq, Structural)]
pub struct Version {
    pub major: i64,
    pub minor: i64,
    pub patch: i64,
}

/// A nonempty string of decimal digits.
pub open spec fn is_digits(s: Seq<u8>) -> bool {
    s.len() > 0 && forall|i: int| 0 <= i < s.len() ==> 48 <= #[trigger] s[i] <= 57
}

/// The numeric value of a digit string, most significant digit first.
pub open spec fn digits_val(s: Seq<u8>) -> nat
    decreases s.len(),
{
    if s.len() == 0 {
        0
    } else {
        (digits_val(s.drop_last()) * 10 + (s.last() - 48)) as nat
    }
}

/// A valid version component: decimal digits whose value is representable.
pub open spec fn component_ok(s: Seq<u8>) -> bool {
    is_digits(s) && digits_val(s) <= i64::MAX
}

/// Parsing a version string: one to three dot-separated numeric components;
/// missing minor and patch default to zero.
pub open spec fn spec_parse_version(s: Seq<u8>) -> Option<Version> {
    let parts = split_on(s, DOT);
    if 1 <= parts.len() <= 3 && (forall|i: int|
        0 <= i < parts.len() ==> component_ok(#[trigger] parts[i])) {
        Some(
            Version {
                major: digits_val(parts[0]) as i64,
                minor: if parts.len() > 1 {
                    digits_val(parts[1]) as i64
                } else {
                    0
                },
                patch: if parts.len() > 2 {
                    digits_val(parts[2]) as i64
                } else {
                    0
                },
            },
        )
    } else {
        None
    }
}

/// A parsed version has no negative component.
pub open spec fn version_wf(v: Version) -> bool {
    v.major >= 0 && v.minor >= 0 && v.patch >= 0
}

/// On an all-digit string the value of a prefix never exceeds the value of
/// the whole string.
proof fn lemma_digits_val_monotone(s: Seq<u8>, k: int)
    requires
        0 <= k <= s.len(),
        is_digits(s),
    ensures
        digits_val(s.take(k)) <= digits_val(s),
    decreases s.len() - k,
{
    if k == s.len() {
        assert(s.take(k) =~= s);
    } else {
        lemma_digits_val_monotone(s, k + 1);
        assert(s.take(k + 1).drop_last() =~= s.take(k));
        assert(s.take(k + 1).last() == s[k]);
    }
}

/// Parses one decimal component, guarding against overflow.
fn parse_decimal_component(s: &[u8]) -> (r: Option<i64>)
    ensures
        match r {
            Some(v) => component_ok(s@) && v == digits_val(s@) && v >= 0,
            None => !component_ok(s@),
        },
{
    if s.len() == 0 {
        return None;
    }
    let mut acc: i64 = 0;
    let mut i: usize = 0;
    proof {
        assert(s@.take(0) =~= Seq::<u8>::empty());
    }
    while i < s.len()
        invariant
            i <= s@.len(),
            forall|j: int| 0 <= j < i ==> 48 <= #[trigger] s@[j] <= 57,
            0 <= acc,
            acc == digits_val(s@.take(i as int)),
        decreases s@.len() - i,
    {
        let b = s[i];
        if b < 48 || b > 57 {
            return None;
        }
        let d = (b - 48) as i64;
        proof {
            assert(s@.take(i as int + 1).drop_last() =~= s@.take(i as int));
            assert(s@.take(i as int + 1).last() == s@[i as int]);
        }
        if acc > (i64::MAX - d) / 10 {
            // The value overflows the representable range; since every later
            // digit only enlarges it, the whole component is invalid.
            proof {
                assert(digits_val(s@.take(i as int + 1)) > i64::MAX);
                if is_digits(s@) {
                    lemma_digits_val_monotone(s@, i as int + 1);
                }
            }
            return None;
        }
        acc = acc * 10 + d;
        i = i + 1;
    }
    proof {
        assert(s@.take(i as int) =~= s@);
    }
    Some(acc)
}

impl Version {
    /// Parses a version string of one to three dot-separated decimal
    /// components, defaulting missing minor and patch components to zero.
    pub fn parse(s: &[u8]) -> (r: Option<Version>)
        ensures
            r == spec_parse_version(s@),
            r is Some ==> version_wf(r->Some_0),
    {
        let parts = split_bytes(s, DOT);
        if parts.len() > 3 {
            return None;
        }
        proof {
            crate::bytesplit::lemma_split_on(s@, DOT);
            assert(parts@[0]@ =~= parts.deep_view()[0]);
        }
        let major = match parse_decimal_component(parts[0].as_slice()) {
            Some(v) => v,
            None => {
                return None;
            },
        };
        let minor = if parts.len() > 1 {
            proof {
                assert(parts@[1]@ =~= parts.deep_view()[1]);
            }
            match parse_decimal_component(parts[1].as_slice()) {
                Some(v) => v,
                None => {
                    return None;
                },
            }
        } else {
            0
        };
        let patch = if parts.len() > 2 {
            proof {
                assert(parts@[2]@ =~= parts.deep_view()[2]);
            }
            match parse_decimal_component(parts[2].as_slice()) {
                Some(v) => v,
                None => {
                    return None;
                },
            }
        } else {
            0
        };
        proof {
            assert forall|k: int| 0 <= k < split_on(s@, DOT).len() implies component_ok(
                #[trigger] split_on(s@, DOT)[k],
            ) by {
                assert(parts@[k]@ =~= parts.deep_view()[k]);
            }
        }
        Some(Version { major, minor, patch })
    }
}

} // verus!
