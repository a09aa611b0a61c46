//! The availability model.
//!
//! A declaration carries a map from operating-system identifier to a minimum
//! version triple, at most one entry per OS. The map yields an inclusion
//! filter (is anything declared for a given OS at all?) and a call-time
//! guard: on the running OS, the binding is supported exactly when the live
//! version is lexicographically at least the declared minimum.

use vstd::prelude::*;
use crate::version::Version;

verus! {

/// The operating systems a declaration can name.
#[allow(non_camel_case_types)]
#[derive(Copy, Clone, Debug, PartialEq, Eq, Structural)]
pub enum OS {
    iOS,
    macOS,
}

/// The surface name of an OS identifier, as bytes.
pub open spec fn spec_os_name(os: OS) -> Seq<u8> {
    match os {
        OS::iOS => seq![105u8, 111u8, 115u8],  // "ios"
        OS::macOS => seq![109u8, 97u8, 99u8, 111u8, 115u8],  // "macos"
    }
}

/// Which OS a surface name denotes, if any.
pub open spec fn spec_parse_os(name: Seq<u8>) -> Option<OS> {
    if name == spec_os_name(OS::iOS) {
        Some(OS::iOS)
    } else if name == spec_os_name(OS::macOS) {
        Some(OS::macOS)
    } else {
        None
    }
}

impl OS {
    /// Parses an OS identifier: `ios` or `macos`, nothing else.
    pub fn parse(name: &[u8]) -> (r: Option<OS>)
        ensures
            r == spec_parse_os(name@),
    {
        if name.len() == 3 && name[0] == 105 && name[1] == 111 && name[2] == 115 {
            proof {
                assert(name@ =~= spec_os_name(OS::iOS));
            }
            Some(OS::iOS)
        } else if name.len() == 5 && name[0] == 109 && name[1] == 97 && name[2] == 99 && name[3]
            == 111 && name[4] == 115 {
            proof {
                assert(name@ =~= spec_os_name(OS::macOS));
            }
            Some(OS::macOS)
        } else {
            proof {
                if name@ == spec_os_name(OS::iOS) {
                    assert(name@[0] == 105 && name@[1] == 111 && name@[2] == 115);
                }
                if name@ == spec_os_name(OS::macOS) {
                    assert(name@[0] == 109 && name@[1] == 97 && name@[2] == 99 && name@[3] == 111
                        && name@[4] == 115);
                }
            }
            None
        }
    }

    /// The printable name of the OS.
    pub fn as_str(&self) -> (r: &'static str)
        ensures
            *self == OS::iOS ==> r@ == "ios"@,
            *self == OS::macOS ==> r@ == "macos"@,
    {
        match self {
            OS::iOS => "ios",
            OS::macOS => "macos",
        }
    }

    /// The printable name of the OS, as bytes, matching `spec_os_name`.
    pub fn name_bytes(&self) -> (r: Vec<u8>)
        ensures
            r@ == spec_os_name(*self),
    {
        let mut v: Vec<u8> = Vec::new();
        match self {
            OS::iOS => {
                v.push(105);
                v.push(111);
                v.push(115);
            },
            OS::macOS => {
                v.push(109);
                v.push(97);
                v.push(99);
                v.push(111);
                v.push(115);
            },
        }
        proof {
            assert(v@ =~= spec_os_name(*self));
        }
        v
    }
}

/// Lexicographic order on version triples: `a` is at least `b`.
pub open spec fn spec_triple_ge(
    a_major: int,
    a_minor: int,
    a_patch: int,
    b_major: int,
    b_minor: int,
    b_patch: int,
) -> bool {
    ||| a_major > b_major
    ||| (a_major == b_major && a_minor > b_minor)
    ||| (a_major == b_major && a_minor == b_minor && a_patch >= b_patch)
}

/// The version triple reported by the running operating system.
#[derive(Copy, Clone, Debug, PartialEq, Eq, Structural)]
pub struct NSOperatingSystemVersion {
    pub major: i64,
    pub minor: i64,
    pub patch: i64,
}

impl NSOperatingSystemVersion {
    /// The triple as a tuple.
    pub fn as_tuple(&self) -> (r: (i64, i64, i64))
        ensures
            r == (self.major, self.minor, self.patch),
    {
        (self.major, self.minor, self.patch)
    }

    /// The call-time guard: the live version is at least the given minimum,
    /// comparing (major, minor, patch) lexicographically.
    pub fn atleast(&self, major: i64, minor: i64, patch: i64) -> (r: bool)
        ensures
            r == spec_triple_ge(
                self.major as int,
                self.minor as int,
                self.patch as int,
                major as int,
                minor as int,
                patch as int,
            ),
    {
        if self.major != major {
            self.major > major
        } else if self.minor != minor {
            self.minor > minor
        } else {
            self.patch >= patch
        }
    }
}

/// The per-declaration availability map: at most one minimum version per
/// operating system, by construction.
#[derive(Copy, Clone, Debug, PartialEq, Eq, Structural)]
pub struct OSVersions {
    pub ios: Option<Version>,
    pub macos: Option<Version>,
}

impl OSVersions {
    /// The declared minimum for `os`, if any.
    pub open spec fn spec_get(self, os: OS) -> Option<Version> {
        match os {
            OS::iOS => self.ios,
            OS::macOS => self.macos,
        }
    }

    /// The empty map.
    pub fn new() -> (r: OSVersions)
        ensures
            forall|os: OS| r.spec_get(os) is None,
    {
        OSVersions { ios: None, macos: None }
    }

    /// Inserts a minimum version for `os`, handing back the entry it
    /// displaces; a `Some` result is how a duplicate key is detected.
    pub fn insert(&mut self, os: OS, v: Version) -> (displaced: Option<Version>)
        ensures
            displaced == old(self).spec_get(os),
            final(self).spec_get(os) == Some(v),
            forall|o: OS| o != os ==> final(self).spec_get(o) == old(self).spec_get(o),
    {
        match os {
            OS::iOS => {
                let displaced = self.ios;
                self.ios = Some(v);
                displaced
            },
            OS::macOS => {
                let displaced = self.macos;
                self.macos = Some(v);
                displaced
            },
        }
    }

    /// The declared minimum for `os`, if any.
    pub fn get(&self, os: OS) -> (r: Option<Version>)
        ensures
            r == self.spec_get(os),
    {
        match os {
            OS::iOS => self.ios,
            OS::macOS => self.macos,
        }
    }

    /// The inclusion filter: is anything declared for `os`?
    pub fn has_entry(&self, os: OS) -> (r: bool)
        ensures
            r == (self.spec_get(os) is Some),
    {
        match os {
            OS::iOS => self.ios.is_some(),
            OS::macOS => self.macos.is_some(),
        }
    }

    /// The declared operating systems, iOS first.
    pub fn declared(&self) -> (r: Vec<OS>)
        ensures
            r@ == (if self.ios is Some {
                seq![OS::iOS]
            } else {
                Seq::empty()
            }) + (if self.macos is Some {
                seq![OS::macOS]
            } else {
                Seq::empty()
            }),
    {
        let mut v: Vec<OS> = Vec::new();
        if self.ios.is_some() {
            v.push(OS::iOS);
        }
        if self.macos.is_some() {
            v.push(OS::macOS);
        }
        proof {
            assert(v@ =~= (if self.ios is Some {
                seq![OS::iOS]
            } else {
                Seq::<OS>::empty()
            }) + (if self.macos is Some {
                seq![OS::macOS]
            } else {
                Seq::<OS>::empty()
            }));
        }
        v
    }

    /// The boolean "supported" predicate: true exactly when a minimum is
    /// declared for the running OS and the live version is at least that
    /// minimum; an OS with no declared entry is unsupported.
    pub open spec fn spec_supported(
        self,
        target: OS,
        live: NSOperatingSystemVersion,
    ) -> bool {
        match self.spec_get(target) {
            Some(min) => spec_triple_ge(
                live.major as int,
                live.minor as int,
                live.patch as int,
                min.major as int,
                min.minor as int,
                min.patch as int,
            ),
            None => false,
        }
    }

    /// Evaluates the "supported" predicate for the running OS.
    pub fn supported(&self, target: OS, live: &NSOperatingSystemVersion) -> (r: bool)
        ensures
            r == self.spec_supported(target, *live),
    {
        let min = match target {
            OS::iOS => self.ios,
            OS::macOS => self.macos,
        };
        match min {
            Some(m) => live.atleast(m.major, m.minor, m.patch),
            None => false,
        }
    }

    /// The declared minimum that the running OS fails to meet, if any: the
    /// `Some` case is what the debug-mode availability assertion reports.
    pub fn violation(&self, target: OS, live: &NSOperatingSystemVersion) -> (r: Option<Version>)
        ensures
            match r {
                Some(min) => self.spec_get(target) == Some(min) && !self.spec_supported(
                    target,
                    *live,
                ),
                None => self.spec_get(target) is None || self.spec_supported(target, *live),
            },
    {
        let min = match target {
            OS::iOS => self.ios,
            OS::macOS => self.macos,
        };
        match min {
            Some(m) => {
                if live.atleast(m.major, m.minor, m.patch) {
                    None
                } else {
                    Some(m)
                }
            },
            None => None,
        }
    }
}

} // verus!
