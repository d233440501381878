//! `Version`: `latest` or a semantic version `major.minor.patch`.

use crate::strings::{
    dec_digits, lemma_dec_digits, lemma_split_join, parse_u64, parseable_u64, parsed_u64,
    spec_join, spec_split, split_char, str_eq, u64_to_dec,
};
use vstd::prelude::*;

verus! {

#[derive(Debug, PartialEq, Eq, Structural, Clone, Copy)]
pub enum Version {
    Latest,
    Semver { major: u64, minor: u64, patch: u64 },
}

#[derive(Debug, PartialEq, Eq)]
pub enum VersionParsingError {
    InvalidVersionFormat { raw: String },
}

/// The canonical string form: `latest`, or `M.N.P` in decimal.
pub open spec fn version_chars(v: Version) -> Seq<char> {
    match v {
        Version::Latest => "latest"@,
        Version::Semver { major, minor, patch } => dec_digits(major as int) + "."@ + dec_digits(
            minor as int,
        ) + "."@ + dec_digits(patch as int),
    }
}

/// Parsing a version string: the word `latest`, or exactly three
/// `.`-separated decimal numerals that fit in `u64` (each tolerating a
/// leading `+`, as Rust's integer parsing does).
pub open spec fn parse_version(s: Seq<char>) -> Option<Version> {
    if s == "latest"@ {
        Some(Version::Latest)
    } else {
        let ps = spec_split(s, '.');
        if ps.len() == 3 && parseable_u64(ps[0]) && parseable_u64(ps[1]) && parseable_u64(ps[2]) {
            Some(
                Version::Semver {
                    major: parsed_u64(ps[0]) as u64,
                    minor: parsed_u64(ps[1]) as u64,
                    patch: parsed_u64(ps[2]) as u64,
                },
            )
        } else {
            None
        }
    }
}

impl Version {
    pub fn new(major: u64, minor: u64, patch: u64) -> (r: Self)
        ensures
            r == (Version::Semver { major, minor, patch }),
    {
        Version::Semver { major, minor, patch }
    }

    /// The canonical string form.
    pub fn to_string(&self) -> (r: String)
        ensures
            r@ == version_chars(*self),
    {
        match self {
            Version::Latest => "latest".to_owned(),
            Version::Semver { major, minor, patch } => {
                let mut r = u64_to_dec(*major);
                r.append(".");
                let minor_s = u64_to_dec(*minor);
                r.append(minor_s.as_str());
                r.append(".");
                let patch_s = u64_to_dec(*patch);
                r.append(patch_s.as_str());
                r
            },
        }
    }

    /// Parses the canonical string form; [`parse_version`] says
    /// exactly which strings are accepted.
    pub fn from_str(s: &str) -> (r: Result<Self, VersionParsingError>)
        ensures
            r is Ok <==> parse_version(s@) is Some,
            r matches Ok(v) ==> Some(v) == parse_version(s@),
            r matches Err(VersionParsingError::InvalidVersionFormat { raw }) ==> raw@ == s@,
    {
        if str_eq(s, "latest") {
            return Ok(Version::Latest);
        }
        let parts = split_char(s, '.');
        if parts.len() == 3 {
            let major = parse_u64(parts[0].as_str());
            let minor = parse_u64(parts[1].as_str());
            let patch = parse_u64(parts[2].as_str());
            match (major, minor, patch) {
                (Some(major), Some(minor), Some(patch)) => Ok(
                    Version::Semver { major, minor, patch },
                ),
                _ => Err(VersionParsingError::InvalidVersionFormat { raw: s.to_owned() }),
            }
        } else {
            Err(VersionParsingError::InvalidVersionFormat { raw: s.to_owned() })
        }
    }
}

/// A decimal numeral never contains `.` and never reads `latest`.
proof fn lemma_dec_digits_no_dot(n: int)
    requires
        0 <= n,
    ensures
        !dec_digits(n).contains('.'),
{
    lemma_dec_digits(n);
    assert forall|i: int| 0 <= i < dec_digits(n).len() implies dec_digits(n)[i] != '.' by {
        assert(crate::strings::is_digit(dec_digits(n)[i]));
    }
    if dec_digits(n).contains('.') {
        let i = choose|i: int| 0 <= i < dec_digits(n).len() && dec_digits(n)[i] == '.';
    }
}

/// Parsing undoes printing for every version.
pub proof fn lemma_version_round_trip(v: Version)
    ensures
        parse_version(version_chars(v)) == Some(v),
{
    match v {
        Version::Latest => {
        },
        Version::Semver { major, minor, patch } => {
            reveal_strlit(".");
            reveal_strlit("latest");
            let a = dec_digits(major as int);
            let b = dec_digits(minor as int);
            let c = dec_digits(patch as int);
            lemma_dec_digits(major as int);
            lemma_dec_digits(minor as int);
            lemma_dec_digits(patch as int);
            lemma_dec_digits_no_dot(major as int);
            lemma_dec_digits_no_dot(minor as int);
            lemma_dec_digits_no_dot(patch as int);
            let s = version_chars(v);
            let parts = seq![a, b, c];
            assert(spec_join(seq![c], '.') == c);
            assert(seq![b, c].drop_first() =~= seq![c]);
            assert(spec_join(seq![b, c], '.') == b + seq!['.'] + c);
            assert(parts.drop_first() =~= seq![b, c]);
            assert(spec_join(parts, '.') == a + seq!['.'] + (b + seq!['.'] + c));
            assert(s =~= spec_join(parts, '.'));
            // The printed form is not the word `latest`: it has a dot
            // where `latest` has none.
            assert(s[a.len() as int] == '.');
            if s == "latest"@ {
                assert(s.len() == 6);
                assert(a.len() < 6);
                assert(forall|i: int| 0 <= i < 6 ==> "latest"@[i] != '.');
            }
            assert(forall|i: int| 0 <= i < parts.len() ==> !(#[trigger] parts[i]).contains('.'));
            lemma_split_join(parts, '.');
            let ps = spec_split(s, '.');
            assert(ps == parts);
            assert(crate::strings::strip_plus(a) == a);
            assert(crate::strings::strip_plus(b) == b);
            assert(crate::strings::strip_plus(c) == c);
            assert(parseable_u64(ps[0]));
            assert(parsed_u64(ps[0]) == major as int);
        },
    }
}

} // verus!
