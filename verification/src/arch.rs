//! Processor architecture of an R installation.

use vstd::prelude::*;
use crate::text::{ascii_lower, ascii_lower_chars, chars_eq, chars_of, contains_chars, contains_seq, to_lowercase, unicode_lowercase};

verus! {

#[derive(Debug, Clone, Copy, PartialEq, Eq, Structural, PartialOrd, Ord, Hash)]
pub enum Architecture {
    Arm64,
    X64,
    X86,
}

/// Architecture named by markers in lowercase text, if any.
pub open spec fn arch_marker(h: Seq<char>) -> Option<Architecture> {
    if contains_seq(h, "aarch64"@) || contains_seq(h, "arm64"@) {
        Some(Architecture::Arm64)
    } else if contains_seq(h, "x86_64"@) || contains_seq(h, "x64"@) {
        Some(Architecture::X64)
    } else if contains_seq(h, "i386"@) || contains_seq(h, "i686"@) || contains_seq(h, "x86"@) {
        Some(Architecture::X86)
    } else {
        None
    }
}

pub open spec fn serialized_spec(a: Architecture) -> Seq<char> {
    match a {
        Architecture::Arm64 => "arm64"@,
        Architecture::X64 => "x86_64"@,
        Architecture::X86 => "x86"@,
    }
}

/// Accepted spellings, compared after ASCII lowercasing.
pub open spec fn parse_serialized_spec(v: Seq<char>) -> Option<Architecture> {
    let l = ascii_lower(v);
    if l == "arm64"@ || l == "aarch64"@ {
        Some(Architecture::Arm64)
    } else if l == "x64"@ || l == "x86_64"@ || l == "amd64"@ {
        Some(Architecture::X64)
    } else if l == "x86"@ || l == "i386"@ || l == "i686"@ {
        Some(Architecture::X86)
    } else {
        None
    }
}

pub fn marker_exec(h: &[char]) -> (r: Option<Architecture>)
    ensures
        r == arch_marker(h@),
{
    let aarch64 = chars_of("aarch64");
    let arm64 = chars_of("arm64");
    let x86_64 = chars_of("x86_64");
    let x64 = chars_of("x64");
    let i386 = chars_of("i386");
    let i686 = chars_of("i686");
    let x86 = chars_of("x86");
    if contains_chars(h, aarch64.as_slice()) || contains_chars(h, arm64.as_slice()) {
        Some(Architecture::Arm64)
    } else if contains_chars(h, x86_64.as_slice()) || contains_chars(h, x64.as_slice()) {
        Some(Architecture::X64)
    } else if contains_chars(h, i386.as_slice()) || contains_chars(h, i686.as_slice())
        || contains_chars(h, x86.as_slice()) {
        Some(Architecture::X86)
    } else {
        None
    }
}

fn eq_lit(a: &[char], lit: &str) -> (r: bool)
    ensures
        r == (a@ == lit@),
{
    let l = chars_of(lit);
    chars_eq(a, l.as_slice())
}

impl Architecture {
    /// Infers the architecture from markers in the lowercased path text;
    /// without a marker, the architecture of the host.
    pub fn infer_from_path(path: &str, host: Architecture) -> (r: Architecture)
        ensures
            r == (match arch_marker(unicode_lowercase(path@)) {
                Some(a) => a,
                None => host,
            }),
    {
        let lower = to_lowercase(path);
        let h = chars_of(lower.as_str());
        match marker_exec(h.as_slice()) {
            Some(a) => a,
            None => host,
        }
    }

    pub fn as_serialized_str(&self) -> (r: &'static str)
        ensures
            r@ == serialized_spec(*self),
    {
        match self {
            Architecture::Arm64 => "arm64",
            Architecture::X64 => "x86_64",
            Architecture::X86 => "x86",
        }
    }

    pub fn from_serialized_str(value: &str) -> (r: Option<Architecture>)
        ensures
            r == parse_serialized_spec(value@),
    {
        let v = chars_of(value);
        let l = ascii_lower_chars(v.as_slice());
        let s = l.as_slice();
        if eq_lit(s, "arm64") || eq_lit(s, "aarch64") {
            Some(Architecture::Arm64)
        } else if eq_lit(s, "x64") || eq_lit(s, "x86_64") || eq_lit(s, "amd64") {
            Some(Architecture::X64)
        } else if eq_lit(s, "x86") || eq_lit(s, "i386") || eq_lit(s, "i686") {
            Some(Architecture::X86)
        } else {
            None
        }
    }

    /// The text that `Display` shows: the serialized name.
    pub fn display_string(&self) -> (r: String)
        ensures
            r@ == serialized_spec(*self),
    {
        self.as_serialized_str().to_owned()
    }
}

/// Reading back the serialized name of an architecture gives the same architecture.
pub proof fn lemma_serialized_round_trip(a: Architecture)
    ensures
        parse_serialized_spec(serialized_spec(a)) == Some(a),
{
    reveal_strlit("arm64");
    reveal_strlit("x86_64");
    reveal_strlit("x86");
    reveal_strlit("aarch64");
    reveal_strlit("x64");
    reveal_strlit("amd64");
    reveal_strlit("i386");
    reveal_strlit("i686");
    match a {
        Architecture::Arm64 => {
            assert(ascii_lower("arm64"@) =~= "arm64"@);
        },
        Architecture::X64 => {
            assert(ascii_lower("x86_64"@) =~= "x86_64"@);
            assert("x86_64"@ != "arm64"@);
            assert("x86_64"@ != "aarch64"@);
        },
        Architecture::X86 => {
            assert(ascii_lower("x86"@) =~= "x86"@);
            assert("x86"@ != "arm64"@);
            assert("x86"@ != "aarch64"@);
            assert("x86"@[2] != "x64"@[2]);
            assert("x86"@ != "x64"@);
            assert("x86"@ != "x86_64"@);
            assert("x86"@ != "amd64"@);
        },
    }
}

proof fn lemma_lower_fixed(s: Seq<char>)
    requires
        forall|i: int| 0 <= i < s.len() ==> !('A' <= #[trigger] s[i] && s[i] <= 'Z'),
    ensures
        ascii_lower(s) == s,
{
    assert(ascii_lower(s) =~= s);
}

/// The serialized name of an architecture reads back as that architecture.
pub proof fn law_serialized_name_round_trips(a: Architecture)
    ensures
        parse_serialized_spec(serialized_spec(a)) == Some(a),
{
    reveal_strlit("arm64");
    reveal_strlit("aarch64");
    reveal_strlit("x64");
    reveal_strlit("x86_64");
    reveal_strlit("amd64");
    reveal_strlit("x86");
    reveal_strlit("i386");
    reveal_strlit("i686");
    let n = serialized_spec(a);
    lemma_lower_fixed(n);
    match a {
        Architecture::Arm64 => {},
        Architecture::X64 => {
            assert(n != "arm64"@ && n != "aarch64"@ && n != "x64"@) by {
                assert(n.len() == 6);
            }
        },
        Architecture::X86 => {
            assert(n != "arm64"@ && n != "aarch64"@ && n != "x86_64"@ && n != "amd64"@) by {
                assert(n.len() == 3);
            }
            assert(n != "x64"@) by {
                assert(n[1] == '8');
            }
        },
    }
}

/// Reading an architecture name ignores ASCII case: two names that agree
/// once lowercased read the same.
pub proof fn law_name_reading_ignores_case(u: Seq<char>, v: Seq<char>)
    requires
        ascii_lower(u) == ascii_lower(v),
    ensures
        parse_serialized_spec(u) == parse_serialized_spec(v),
{
}

} // verus!
