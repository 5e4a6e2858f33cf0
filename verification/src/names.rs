//! Package names: texts of letters, digits and hyphens.

use crate::named::{Duplicate, Named};
use crate::text::{chars_of, copy_str};
use vstd::prelude::*;

verus! {

/// Whether `c` is a letter or a digit of any script, as the standard
/// library's character tables have it.
pub uninterp spec fn alphanumeric(c: char) -> bool;

/// `char::is_alphanumeric` of the standard library. Its answer is read
/// from tables of the Unicode standard, so it is only given a name here.
#[verifier::external_body]
pub(crate) fn char_is_alphanumeric(c: char) -> (r: bool)
    ensures
        r == alphanumeric(c),
{
    c.is_alphanumeric()
}

/// A character that may stand in a package name.
pub open spec fn name_char(c: char) -> bool {
    alphanumeric(c) || c == '-'
}

/// Every character of `s` may stand in a package name.
pub open spec fn name_text(s: Seq<char>) -> bool {
    forall|i: int| 0 <= i < s.len() ==> name_char(#[trigger] s[i])
}

/// The position of the first character of `s` that may not stand in a
/// package name, or the length of `s` if there is none.
pub open spec fn first_bad_name_char(s: Seq<char>) -> int
    decreases s.len(),
{
    if s.len() == 0 || !name_char(s[0]) {
        0
    } else {
        1 + first_bad_name_char(s.drop_first())
    }
}

/// Where the search ends at the length of the text, every character may
/// stand in a name, and where it ends before, the character found there
/// may not.
pub proof fn lemma_first_bad_name_char(s: Seq<char>)
    ensures
        0 <= first_bad_name_char(s) <= s.len(),
        first_bad_name_char(s) == s.len() <==> name_text(s),
        first_bad_name_char(s) < s.len() ==> !name_char(s[first_bad_name_char(s)]),
    decreases s.len(),
{
    if s.len() > 0 && name_char(s[0]) {
        let t = s.drop_first();
        lemma_first_bad_name_char(t);
        if first_bad_name_char(s) == s.len() {
            assert forall|i: int| 0 <= i < s.len() implies name_char(#[trigger] s[i]) by {
                if i > 0 {
                    assert(s[i] == t[i - 1]);
                }
            }
        } else {
            assert(s[first_bad_name_char(s)] == t[first_bad_name_char(t)]);
        }
        if name_text(s) {
            assert forall|i: int| 0 <= i < t.len() implies name_char(#[trigger] t[i]) by {
                assert(t[i] == s[i + 1]);
            }
        }
    } else if s.len() > 0 {
        assert(!name_char(s[0]));
    }
}

/// What is wrong with `s` as a package name, if anything is: it holds a
/// character that may not stand in one, of which the first is named.
pub open spec fn name_error(s: Seq<char>) -> Option<ParseNameError> {
    if name_text(s) {
        None
    } else {
        Some(ParseNameError(s[first_bad_name_char(s)]))
    }
}

/// Whether a character may stand in a package name, given whether it is a
/// letter or digit.
pub fn is_name_char(c: char, is_alphanumeric: bool) -> (r: bool)
    ensures
        r == (is_alphanumeric || c == '-'),
{
    is_alphanumeric || c == '-'
}

/// A text is no package name: it holds this character.
#[derive(Clone, Copy, Debug, PartialEq, Eq, Structural)]
pub struct ParseNameError(pub char);

fn index_of_first_bad_name_char(s: &Vec<char>) -> (i: usize)
    ensures
        i == first_bad_name_char(s@),
        i <= s.len(),
{
    let mut i: usize = 0;
    proof {
        assert(s@.skip(0) == s@);
    }
    while i < s.len() && is_name_char(s[i], char_is_alphanumeric(s[i]))
        invariant
            i <= s.len(),
            first_bad_name_char(s@) == i + first_bad_name_char(s@.skip(i as int)),
        decreases s.len() - i,
    {
        proof {
            assert(s@.skip(i as int).drop_first() == s@.skip(i + 1));
        }
        i += 1;
    }
    i
}

/// Hands `s` back if it is a package name, and names the first character
/// that may not stand in one if it is not.
pub fn assure_pkg_name(s: &str) -> (r: Result<&str, ParseNameError>)
    ensures
        match r {
            Ok(t) => t@ == s@ && name_text(s@),
            Err(e) => !name_text(s@) && name_error(s@) == Some(e),
        },
{
    let v = chars_of(s);
    let bad = index_of_first_bad_name_char(&v);
    proof {
        lemma_first_bad_name_char(s@);
    }
    if bad < v.len() {
        Err(ParseNameError(v[bad]))
    } else {
        Ok(s)
    }
}

/// The name of a package.
#[derive(Debug)]
pub struct PkgName {
    text: String,
}

/// The name of a package, by its longer name.
pub type PackageName = PkgName;

impl View for PkgName {
    type V = Seq<char>;

    closed spec fn view(&self) -> Seq<char> {
        self.text@
    }
}

impl PkgName {
    #[verifier::type_invariant]
    spec fn well_formed(&self) -> bool {
        name_text(self.text@)
    }

    /// Reads a package name from its text.
    pub fn parse(s: &str) -> (r: Result<PkgName, ParseNameError>)
        ensures
            match r {
                Ok(n) => n@ == s@ && name_text(s@),
                Err(e) => !name_text(s@) && name_error(s@) == Some(e),
            },
    {
        match assure_pkg_name(s) {
            Ok(t) => Ok(PkgName { text: copy_str(t) }),
            Err(e) => Err(e),
        }
    }

    /// The text of the name.
    pub fn as_str(&self) -> (r: &str)
        ensures
            r@ == self@,
            name_text(self@),
    {
        proof {
            use_type_invariant(self);
        }
        self.text.as_str()
    }

    /// The text of the name, as a string of its own.
    pub fn to_string(&self) -> (r: String)
        ensures
            r@ == self@,
    {
        copy_str(self.text.as_str())
    }
}

impl Clone for PkgName {
    fn clone(&self) -> (r: Self)
        ensures
            r == *self,
    {
        proof {
            use_type_invariant(self);
        }
        PkgName { text: self.text.clone() }
    }
}

impl PartialEq for PkgName {
    fn eq(&self, other: &Self) -> (r: bool) {
        crate::text::same_text(self.text.as_str(), other.text.as_str())
    }
}

impl vstd::std_specs::cmp::PartialEqSpecImpl for PkgName {
    open spec fn obeys_eq_spec() -> bool {
        true
    }

    open spec fn eq_spec(&self, other: &Self) -> bool {
        self@ == other@
    }
}

impl Eq for PkgName {

}

impl core::str::FromStr for PkgName {
    type Err = ParseNameError;

    /// Reads a package name from its text, as `parse` does.
    fn from_str(s: &str) -> (r: Result<Self, Self::Err>)
        ensures
            match r {
                Ok(n) => n@ == s@ && name_text(s@),
                Err(e) => !name_text(s@) && name_error(s@) == Some(e),
            },
    {
        PkgName::parse(s)
    }
}

impl Named for PkgName {
    open spec fn name(&self) -> Seq<char> {
        self@
    }

    fn name_chars(&self) -> (r: Vec<char>) {
        chars_of(self.text.as_str())
    }
}

impl Duplicate for PkgName {
    fn duplicate(&self) -> (r: Self) {
        self.clone()
    }
}

} // verus!
