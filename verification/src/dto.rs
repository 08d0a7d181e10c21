use vstd::prelude::*;
use vstd::string::StringSliceAdditionalSpecFns;

use crate::ace::text::{trim_seq, trim_text};

pub mod errors;
pub mod posts;

verus! {

/// The length of `s` in bytes, as `str::len` gives it.
pub open spec fn byte_len(s: &str) -> usize {
    s.spec_bytes().len() as usize
}

/// Whether a submit button of a form was the one pressed.
pub struct SubmitType(pub bool);

impl SubmitType {
    /// A button that the form names was pressed; one it leaves out was not.
    pub fn from_field(present: bool) -> (r: SubmitType)
        ensures
            r.0 == present,
    {
        SubmitType(present)
    }

    /// Whether the button was pressed.
    pub fn pressed(&self) -> (r: bool)
        ensures
            r == self.0,
    {
        self.0
    }
}

/// A form value with the white space at both ends removed.
#[derive(Clone, Copy)]
pub struct TrimmedStr<'v>(pub &'v str);

impl<'v> TrimmedStr<'v> {
    /// The value of a form field, trimmed.
    pub fn from_value(value: &'v str) -> (r: TrimmedStr<'v>)
        ensures
            r.0@ == trim_seq(value@),
    {
        TrimmedStr(trim_text(value))
    }

    /// The trimmed text.
    pub fn as_str(&self) -> (r: &'v str)
        ensures
            r@ == self.0@,
    {
        self.0
    }

    /// The length of the trimmed text in bytes, which form validation counts.
    pub fn len(&self) -> (r: usize)
        ensures
            r == byte_len(self.0),
    {
        self.0.len()
    }
}

/// Whether `c` is a lower-case ASCII letter or a decimal digit.
pub open spec fn is_lower_alnum(c: char) -> bool {
    ('a' <= c && c <= 'z') || ('0' <= c && c <= '9')
}

/// The part before the `@` of a group key: runs of lower-case letters and digits joined
/// by single hyphens.
pub open spec fn is_group_name(s: Seq<char>) -> bool {
    &&& s.len() > 0
    &&& forall|i: int| 0 <= i < s.len() ==> is_lower_alnum(#[trigger] s[i]) || s[i] == '-'
    &&& s[0] != '-'
    &&& s.last() != '-'
    &&& forall|i: int| 0 <= i < s.len() - 1 ==> !(#[trigger] s[i] == '-' && s[i + 1] == '-')
}

/// The part between the `@` and the last dot: lower-case letters, digits and hyphens.
pub open spec fn is_group_domain(s: Seq<char>) -> bool {
    &&& s.len() > 0
    &&& forall|i: int| 0 <= i < s.len() ==> is_lower_alnum(#[trigger] s[i]) || s[i] == '-'
}

/// The part after the last dot: lower-case letters.
pub open spec fn is_group_tld(s: Seq<char>) -> bool {
    &&& s.len() > 0
    &&& forall|i: int| 0 <= i < s.len() ==> 'a' <= #[trigger] s[i] && s[i] <= 'z'
}

/// A group key such as `styrelsen@dsekt.se`: what the pattern
/// `^[a-z0-9]+(-[a-z0-9]+)*@[-a-z0-9]+\.[a-z]+$` matches.
pub open spec fn is_group_key(s: Seq<char>) -> bool {
    exists|at: int, dot: int|
        #![trigger s[at], s[dot]]
        0 <= at < dot < s.len() && s[at] == '@' && s[dot] == '.'
            && is_group_name(s.subrange(0, at))
            && is_group_domain(s.subrange(at + 1, dot))
            && is_group_tld(s.subrange(dot + 1, s.len() as int))
}

/// `regex::Regex::is_match` with the group key pattern, which compiles: true exactly when
/// the whole of `s` has the shape that the pattern describes.
#[verifier::external_body]
fn group_key_matches(s: &str) -> (r: bool)
    ensures
        r == is_group_key(s@),
{
    let re = regex::Regex::new("^[a-z0-9]+(-[a-z0-9]+)*@[-a-z0-9]+\\.[a-z]+$").unwrap();
    re.is_match(s)
}

/// Checks that `s` is a group key; the error is the message shown on the form.
pub fn valid_groupkey(s: &str) -> (r: Result<(), String>)
    ensures
        r is Ok <==> is_group_key(s@),
        r matches Err(m) ==> m@ == "invalid groupkey"@,
{
    if group_key_matches(s) {
        Ok(())
    } else {
        Err(String::from_str("invalid groupkey"))
    }
}

/// The group that a post is written for, as a group key.
#[derive(Clone, Copy)]
pub struct GroupKeyDto<'v>(pub &'v str);

impl<'v> GroupKeyDto<'v> {
    /// The value of a form field: it must be a group key as written, and is kept trimmed.
    pub fn from_value(value: &'v str) -> (r: Result<GroupKeyDto<'v>, String>)
        ensures
            r is Ok <==> is_group_key(value@),
            r matches Ok(k) ==> k.0@ == trim_seq(value@),
            r matches Err(m) ==> m@ == "invalid groupkey"@,
    {
        match valid_groupkey(value) {
            Ok(()) => Ok(GroupKeyDto(trim_text(value))),
            Err(e) => Err(e),
        }
    }
}

} // verus!
