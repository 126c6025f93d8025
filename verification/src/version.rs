//! The version value itself: a (major, minor, patch) triple of 32-bit
//! unsigned integers, its canonical display text, two project-specific
//! textual encodings, and a best-effort parser.

use vstd::prelude::*;

use crate::digits::all_digits;
use crate::digits::digits_of;
use crate::digits::digits_val;
use crate::digits::lemma_decimal_is_digits;
use crate::digits::lemma_decimal_val;
use crate::digits::parse_u32;
use crate::digits::spec_decimal;
use crate::digits::spec_parse_u32;
use crate::digits::u32_to_decimal;
use crate::split::find_dot;
use crate::split::lemma_split_dots_first_dot;
use crate::split::lemma_split_dots_no_dot;
use crate::split::lemma_split_dots_nonempty;
use crate::split::spec_split_dots;

verus! {

/// A tool release: major.minor.patch. Plain value semantics, equality
/// by fields, no ordering.
#[derive(Debug, Copy, Clone, Eq, PartialEq, Structural)]
pub struct Version {
    pub major: u32,
    pub minor: u32,
    pub patch: u32,
}

/// The canonical display text: `major.minor.patch`.
pub open spec fn spec_display(v: Version) -> Seq<char> {
    spec_decimal(v.major as nat) + seq!['.'] + spec_decimal(v.minor as nat) + seq!['.']
        + spec_decimal(v.patch as nat)
}

/// The unstable-tool encoding: a literal `0.`, then the major and minor
/// texts run together with no separator, then `.patch`.
pub open spec fn spec_unstable_tool(v: Version) -> Seq<char> {
    seq!['0', '.'] + spec_decimal(v.major as nat) + spec_decimal(v.minor as nat) + seq!['.']
        + spec_decimal(v.patch as nat)
}

/// The stable-tool encoding: the major and minor texts run together
/// with no separator, then `.patch.0`.
pub open spec fn spec_stable_tool(v: Version) -> Seq<char> {
    spec_decimal(v.major as nat) + spec_decimal(v.minor as nat) + seq!['.'] + spec_decimal(
        v.patch as nat,
    ) + seq!['.', '0']
}

/// Best-effort parsing: split the input on every dot, then the first
/// three tokens must each parse as a 32-bit unsigned integer. Fewer
/// than three tokens, or any of the first three failing, gives no
/// value; tokens after the third are ignored.
pub open spec fn spec_from_string(s: Seq<char>) -> Option<Version> {
    let toks = spec_split_dots(s);
    if toks.len() >= 3 {
        match (spec_parse_u32(toks[0]), spec_parse_u32(toks[1]), spec_parse_u32(toks[2])) {
            (Some(major), Some(minor), Some(patch)) => Some(Version { major, minor, patch }),
            _ => None,
        }
    } else {
        None
    }
}

impl Version {
    /// A version with the three given fields; no validation.
    pub fn new(major: u32, minor: u32, patch: u32) -> (v: Version)
        ensures
            v == (Version { major, minor, patch }),
    {
        Version { major, minor, patch }
    }

    /// The version configured at build time, if any: the surrounding
    /// application reads the build-time key and hands its value here;
    /// an absent value or unparsable text gives no version.
    pub fn from_env_var(cfg_version: Option<&str>) -> (r: Option<Version>)
        ensures
            r == (match cfg_version {
                Some(s) => spec_from_string(s@),
                None => None,
            }),
    {
        match cfg_version {
            Some(s) => Self::from_string(s),
            None => None,
        }
    }

    /// Best-effort parsing of dot-separated text; see
    /// [`spec_from_string`] for exactly which inputs give a version.
    pub fn from_string(version_str: &str) -> (r: Option<Version>)
        ensures
            r == spec_from_string(version_str@),
    {
        let s = version_str;
        let n = s.unicode_len();
        let i1: usize = match find_dot(s, 0) {
            Some(i) => i,
            None => {
                proof {
                    lemma_split_dots_no_dot(s@);
                }
                return None;
            },
        };
        let i2: usize = match find_dot(s, i1 + 1) {
            Some(i) => i,
            None => {
                proof {
                    lemma_split_dots_first_dot(s@, i1 as int);
                    lemma_split_dots_no_dot(s@.skip(i1 + 1));
                }
                return None;
            },
        };
        let i3: usize = match find_dot(s, i2 + 1) {
            Some(i) => i,
            None => n,
        };
        let t1 = s.substring_char(0, i1);
        let t2 = s.substring_char(i1 + 1, i2);
        let t3 = s.substring_char(i2 + 1, i3);
        proof {
            let r1 = s@.skip(i1 + 1);
            let r2 = s@.skip(i2 + 1);
            lemma_split_dots_first_dot(s@, i1 as int);
            assert(r1[i2 - i1 - 1] == s@[i2 as int]);
            lemma_split_dots_first_dot(r1, i2 - i1 - 1);
            assert(r1.skip(i2 - i1) =~= r2);
            if i3 < n {
                assert(r2[i3 - i2 - 1] == s@[i3 as int]);
                lemma_split_dots_first_dot(r2, i3 - i2 - 1);
                lemma_split_dots_nonempty(r2.skip(i3 - i2));
                assert(r2.take(i3 - i2 - 1) =~= t3@);
            } else {
                lemma_split_dots_no_dot(r2);
                assert(r2 =~= t3@);
            }
            assert(s@.take(i1 as int) =~= t1@);
            assert(r1.take(i2 - i1 - 1) =~= t2@);
            assert(spec_split_dots(s@).len() >= 3);
            assert(spec_split_dots(s@)[0] == t1@);
            assert(spec_split_dots(s@)[1] == t2@);
            assert(spec_split_dots(s@)[2] == t3@);
        }
        let major: u32 = match parse_u32(t1) {
            Some(x) => x,
            None => {
                return None;
            },
        };
        let minor: u32 = match parse_u32(t2) {
            Some(x) => x,
            None => {
                return None;
            },
        };
        let patch: u32 = match parse_u32(t3) {
            Some(x) => x,
            None => {
                return None;
            },
        };
        Some(Version { major, minor, patch })
    }

    /// The canonical display text, `major.minor.patch`.
    pub fn display(&self) -> (r: String)
        ensures
            r@ == spec_display(*self),
    {
        proof {
            reveal_strlit(".");
        }
        let a = u32_to_decimal(self.major);
        let b = u32_to_decimal(self.minor);
        let c = u32_to_decimal(self.patch);
        let r = a.concat(".").concat(b.as_str()).concat(".").concat(c.as_str());
        assert(r@ =~= spec_display(*self));
        r
    }

    /// The unstable-tool encoding, `0.{major}{minor}.{patch}`: major
    /// and minor are adjacent text, not a sum.
    pub fn to_unstable_tool_string(&self) -> (r: String)
        ensures
            r@ == spec_unstable_tool(*self),
    {
        proof {
            reveal_strlit("0.");
            reveal_strlit(".");
        }
        let a = u32_to_decimal(self.major);
        let b = u32_to_decimal(self.minor);
        let c = u32_to_decimal(self.patch);
        let r = String::from_str("0.").concat(a.as_str()).concat(b.as_str()).concat(".").concat(
            c.as_str(),
        );
        assert(r@ =~= spec_unstable_tool(*self));
        r
    }

    /// The stable-tool encoding, `{major}{minor}.{patch}.0`: major and
    /// minor are adjacent text, not a sum.
    pub fn to_stable_tool_string(&self) -> (r: String)
        ensures
            r@ == spec_stable_tool(*self),
    {
        proof {
            reveal_strlit(".");
            reveal_strlit(".0");
        }
        let a = u32_to_decimal(self.major);
        let b = u32_to_decimal(self.minor);
        let c = u32_to_decimal(self.patch);
        let r = a.concat(b.as_str()).concat(".").concat(c.as_str()).concat(".0");
        assert(r@ =~= spec_stable_tool(*self));
        r
    }
}

/// The current stable release line.
pub fn current_stable() -> (v: Version)
    ensures
        v == (Version { major: 1, minor: 20, patch: 0 }),
{
    Version { major: 1, minor: 20, patch: 0 }
}

/// The current beta release line.
pub fn current_beta() -> (v: Version)
    ensures
        v == (Version { major: 1, minor: 21, patch: 0 }),
{
    Version { major: 1, minor: 21, patch: 0 }
}

/// The current nightly release line.
pub fn current_nightly() -> (v: Version)
    ensures
        v == (Version { major: 1, minor: 22, patch: 0 }),
{
    Version { major: 1, minor: 22, patch: 0 }
}

/// The release channel configured at build time, if any: the
/// surrounding application reads the build-time key and hands its
/// value here; this is a pure lookup with no failure mode beyond
/// absence.
pub fn channel<'a>(cfg_release_channel: Option<&'a str>) -> (r: Option<&'a str>)
    ensures
        r == cfg_release_channel,
{
    cfg_release_channel
}

/// Two versions are equal exactly when all three fields agree; any
/// differing field makes them unequal.
pub proof fn lemma_version_eq(a: Version, b: Version)
    ensures
        (a == b) <==> (a.major == b.major && a.minor == b.minor && a.patch == b.patch),
{
}

/// Round-trip: parsing the canonical display text of any version gives
/// exactly that version back.
pub proof fn lemma_display_round_trip(v: Version)
    ensures
        spec_from_string(spec_display(v)) == Some(v),
{
    let d1 = spec_decimal(v.major as nat);
    let d2 = spec_decimal(v.minor as nat);
    let d3 = spec_decimal(v.patch as nat);
    lemma_decimal_is_digits(v.major as nat);
    lemma_decimal_is_digits(v.minor as nat);
    lemma_decimal_is_digits(v.patch as nat);
    lemma_decimal_val(v.major as nat);
    lemma_decimal_val(v.minor as nat);
    lemma_decimal_val(v.patch as nat);
    let s = spec_display(v);
    let i1 = d1.len() as int;
    let i2 = i1 + 1 + d2.len() as int;
    assert(s[i1] == '.');
    assert(s[i2] == '.');
    lemma_split_dots_first_dot(s, i1);
    let r1 = s.skip(i1 + 1);
    assert(r1[d2.len() as int] == s[i2]);
    lemma_split_dots_first_dot(r1, d2.len() as int);
    let r2 = r1.skip(d2.len() as int + 1);
    assert(r2 =~= d3);
    lemma_split_dots_no_dot(d3);
    assert(s.take(i1) =~= d1);
    assert(r1.take(d2.len() as int) =~= d2);
    let toks = spec_split_dots(s);
    assert(toks.len() == 3);
    assert(toks[0] == d1 && toks[1] == d2 && toks[2] == d3);
    assert(digits_of(d1) == d1);
    assert(digits_of(d2) == d2);
    assert(digits_of(d3) == d3);
    assert(spec_parse_u32(d1) == Some(v.major));
    assert(spec_parse_u32(d2) == Some(v.minor));
    assert(spec_parse_u32(d3) == Some(v.patch));
}

} // verus!
