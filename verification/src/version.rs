//! Version tokens: opaque strings that are compared for equality only.
use crate::text::{lemma_trimmed_idempotent, text_from_bytes, text_of, trim, trimmed};
use vstd::prelude::*;
use vstd::string::*;

verus! {

/// A version token: the trimmed text of a version pointer or marker.
///
/// Two tokens are the same version exactly when they are the same string; no
/// order between versions is assumed.
#[derive(Debug)]
pub struct Version {
    token: String,
}

impl View for Version {
    type V = Seq<char>;

    closed spec fn view(&self) -> Seq<char> {
        self.token@
    }
}

/// The token of a version, where there is one.
pub open spec fn token_of(version: Option<Version>) -> Option<Seq<char>> {
    match version {
        Some(found) => Some(found@),
        None => None,
    }
}

/// What was read of a file, as a mathematical value.
pub open spec fn contents_of(read: Option<Vec<u8>>) -> Option<Seq<u8>> {
    match read {
        Some(bytes) => Some(bytes@),
        None => None,
    }
}

/// The version that a pointer object with contents `pointer` names: its
/// text without the surrounding whitespace. None where the object is no text.
pub open spec fn latest_of(pointer: Seq<u8>) -> Option<Seq<char>> {
    match text_of(pointer) {
        Some(text) => Some(trimmed(text)),
        None => None,
    }
}

/// The version that a marker records, given what was read of it: that of its
/// text, or none where the marker is missing, unreadable or no text.
pub open spec fn installed_of(marker: Option<Seq<u8>>) -> Option<Seq<char>> {
    match marker {
        Some(bytes) => latest_of(bytes),
        None => None,
    }
}

/// Whether `latest` is what `marker` records, so that nothing is to be done.
pub open spec fn up_to_date(latest: Seq<char>, marker: Option<Seq<u8>>) -> bool {
    installed_of(marker) == Some(latest)
}

impl Version {
    #[verifier::type_invariant]
    spec fn is_trimmed(self) -> bool {
        trimmed(self.token@) == self.token@
    }

    /// The version that a pointer object or marker file with contents `text`
    /// names: the text without its surrounding whitespace.
    pub fn from_text(text: &str) -> (v: Version)
        ensures
            v@ == trimmed(text@),
    {
        proof {
            lemma_trimmed_idempotent(text@);
        }
        Version { token: trim(text).to_owned() }
    }

    /// The version that a pointer object with contents `pointer` names, or
    /// `None` where the object is not UTF-8.
    pub fn latest(pointer: Vec<u8>) -> (v: Option<Version>)
        ensures
            token_of(v) == latest_of(pointer@),
    {
        match text_from_bytes(pointer) {
            Some(text) => Some(Version::from_text(text.as_str())),
            None => None,
        }
    }

    /// The installed version, from what was read of the marker file: `None`
    /// where the marker is missing, unreadable or not UTF-8, which is no
    /// error but the state before the first install.
    pub fn installed(marker: Option<Vec<u8>>) -> (v: Option<Version>)
        ensures
            token_of(v) == installed_of(contents_of(marker)),
    {
        match marker {
            Some(bytes) => Version::latest(bytes),
            None => None,
        }
    }

    /// Whether this version is the installed one. Any difference counts,
    /// also an installed version that looks newer: versions have no order.
    pub fn is_installed(&self, installed: &Option<Version>) -> (r: bool)
        ensures
            r == (token_of(*installed) == Some(self@)),
    {
        match installed {
            Some(found) => self.same_as(found),
            None => false,
        }
    }

    /// The token as text.
    pub fn as_str(&self) -> (s: &str)
        ensures
            s@ == self@,
            trimmed(s@) == s@,
    {
        proof {
            use_type_invariant(self);
        }
        self.token.as_str()
    }

    /// Whether `self` and `other` are the same version.
    pub fn same_as(&self, other: &Version) -> (r: bool)
        ensures
            r == (self@ == other@),
    {
        self.token == other.token
    }

    /// The bytes that record this version in a marker file: its UTF-8 encoding.
    pub fn to_bytes(&self) -> (bytes: Vec<u8>)
        ensures
            bytes@ == vstd::utf8::encode_utf8(self@),
    {
        self.token.as_str().as_bytes_vec()
    }
}

impl Clone for Version {
    fn clone(&self) -> (v: Version)
        ensures
            v@ == self@,
    {
        proof {
            use_type_invariant(self);
        }
        Version { token: self.token.clone() }
    }
}

impl PartialEq for Version {
    fn eq(&self, other: &Version) -> (r: bool) {
        self.token == other.token
    }
}

impl vstd::std_specs::cmp::PartialEqSpecImpl for Version {
    open spec fn obeys_eq_spec() -> bool {
        true
    }

    open spec fn eq_spec(&self, other: &Version) -> bool {
        self@ == other@
    }
}

} // verus!
