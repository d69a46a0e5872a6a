use vstd::prelude::*;

use crate::project::grammar::{chars_of, trim_bounds, trimmed};
use crate::project::slice_of;

verus! {

/// The licensing of a project; `Oss` stands for MIT and Apache 2.0 together.
#[derive(Debug, Clone, Copy, PartialEq, Eq, Structural)]
pub enum LicenseType {
    Oss,
    Mit,
    Apache2,
    Private,
}

/// A license name that names no license type; it carries the name, trimmed.
#[derive(Debug, Clone, PartialEq, Eq)]
pub struct UnknownLicenseType(pub String);

impl Default for LicenseType {
    fn default() -> (r: Self)
        ensures
            r == LicenseType::Oss,
    {
        LicenseType::Oss
    }
}

/// `c` is `lower`, or the upper-case form of the ASCII letter `lower`.
pub open spec fn ascii_matches(c: char, lower: char) -> bool {
    c == lower || ('a' <= lower <= 'z' && c as u32 + 32 == lower as u32)
}

/// `s` spells `word` (given in lower case) up to the case of ASCII letters.
pub open spec fn spells(s: Seq<char>, word: Seq<char>) -> bool {
    s.len() == word.len() && forall|i: int| 0 <= i < s.len() ==> ascii_matches(s[i], word[i])
}

/// The license type a trimmed name stands for.
pub open spec fn license_named(s: Seq<char>) -> Option<LicenseType> {
    if spells(s, "oss"@) || spells(s, "default"@) {
        Some(LicenseType::Oss)
    } else if spells(s, "mit"@) {
        Some(LicenseType::Mit)
    } else if spells(s, "apache"@) || spells(s, "apache2"@) {
        Some(LicenseType::Apache2)
    } else if spells(s, "private"@) {
        Some(LicenseType::Private)
    } else {
        None
    }
}

fn spells_word(v: &Vec<char>, lo: usize, hi: usize, word: &str) -> (r: bool)
    requires
        lo <= hi <= v@.len(),
    ensures
        r == spells(v@.subrange(lo as int, hi as int), word@),
{
    let w = chars_of(word);
    let ghost s = v@.subrange(lo as int, hi as int);
    if hi - lo != w.len() {
        return false;
    }
    let mut i: usize = 0;
    while i < w.len()
        invariant
            i <= w@.len(),
            w@ == word@,
            hi - lo == w@.len(),
            hi <= v@.len(),
            s == v@.subrange(lo as int, hi as int),
            forall|j: int| 0 <= j < i ==> ascii_matches(#[trigger] s[j], w@[j]),
        decreases w@.len() - i,
    {
        let c = v[lo + i];
        let l = w[i];
        assert(s[i as int] == c);
        if !(c == l || ('a' <= l && l <= 'z' && c as u32 == l as u32 - 32)) {
            return false;
        }
        i = i + 1;
    }
    true
}

impl LicenseType {
    /// The name of the license type, as the command line writes it.
    pub fn as_str(&self) -> (r: &'static str)
        ensures
            r@ == match self {
                LicenseType::Oss => "oss"@,
                LicenseType::Mit => "mit"@,
                LicenseType::Apache2 => "apache2"@,
                LicenseType::Private => "private"@,
            },
    {
        match self {
            LicenseType::Oss => "oss",
            LicenseType::Mit => "mit",
            LicenseType::Apache2 => "apache2",
            LicenseType::Private => "private",
        }
    }

    /// Reads a license type from its name: `oss` or `default`, `mit`, `apache` or `apache2`,
    /// `private`, in any ASCII case, around whitespace.
    pub fn from_name(s: &str) -> (r: Result<LicenseType, UnknownLicenseType>)
        ensures
            exists|lo: int, hi: int|
                {
                    &&& trimmed(s@, lo, hi)
                    &&& match r {
                        Ok(t) => license_named(s@.subrange(lo, hi)) == Some(t),
                        Err(e) => license_named(s@.subrange(lo, hi)) is None && e.0@
                            == s@.subrange(lo, hi),
                    }
                },
    {
        let v = chars_of(s);
        let (lo, hi) = trim_bounds(&v);
        let r = if spells_word(&v, lo, hi, "oss") || spells_word(&v, lo, hi, "default") {
            Ok(LicenseType::Oss)
        } else if spells_word(&v, lo, hi, "mit") {
            Ok(LicenseType::Mit)
        } else if spells_word(&v, lo, hi, "apache") || spells_word(&v, lo, hi, "apache2") {
            Ok(LicenseType::Apache2)
        } else if spells_word(&v, lo, hi, "private") {
            Ok(LicenseType::Private)
        } else {
            Err(UnknownLicenseType(slice_of(s, lo, hi)))
        };
        assert(trimmed(s@, lo as int, hi as int));
        r
    }
}

/// A license file to render: its license type and its file name.
pub struct LicenseFile {
    pub license_type: LicenseType,
    pub file_name: &'static str,
}

/// The license files a license type asks for: `Oss` gives `LICENSE-MIT` and `LICENSE-APACHE`,
/// any other type a single `LICENSE`.
pub fn license_files(license_type: LicenseType) -> (r: Vec<LicenseFile>)
    ensures
        license_type == LicenseType::Oss ==> r@.len() == 2 && r@[0].license_type == LicenseType::Mit
            && r@[0].file_name@ == "LICENSE-MIT"@ && r@[1].license_type == LicenseType::Apache2
            && r@[1].file_name@ == "LICENSE-APACHE"@,
        license_type != LicenseType::Oss ==> r@.len() == 1 && r@[0].license_type == license_type
            && r@[0].file_name@ == "LICENSE"@,
{
    let mut r: Vec<LicenseFile> = Vec::new();
    match license_type {
        LicenseType::Oss => {
            r.push(LicenseFile { license_type: LicenseType::Mit, file_name: "LICENSE-MIT" });
            r.push(LicenseFile { license_type: LicenseType::Apache2, file_name: "LICENSE-APACHE" });
        },
        other => {
            r.push(LicenseFile { license_type: other, file_name: "LICENSE" });
        },
    }
    r
}

} // verus!
