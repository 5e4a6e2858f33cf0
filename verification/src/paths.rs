//! Paths and addresses: the file name at the end of a path, the file name
//! that an address ends in, and the test that a member of an archive stays
//! below the directory it is unpacked into.

use crate::text::{
    chars_of, find_first, find_last, index_of_first, index_of_last, same_chars, slice_chars,
    string_of,
};
use vstd::prelude::*;

verus! {

/// Why the `url` crate took a text for no address. Nothing of it is read
/// here.
#[verifier::external_type_specification]
#[verifier::external_body]
pub struct ExUrlParseError(url::ParseError);

/// The path of the address that the `url` crate reads from `text`, in the
/// form in which that crate hands it out, or nothing where the crate takes
/// `text` for no address.
pub uninterp spec fn url_path_of(text: Seq<char>) -> Option<Seq<char>>;

/// `Url::parse` of the `url` crate, and `Url::path` of what it gave. The
/// result is the path of the address under the name `url_path_of`; an
/// error comes back exactly where that name has nothing.
#[verifier::external_body]
pub(crate) fn url_path(text: &str) -> (r: Result<String, url::ParseError>)
    ensures
        match r {
            Ok(p) => url_path_of(text@) == Some(p@),
            Err(_) => url_path_of(text@) is None,
        },
{
    match url::Url::parse(text) {
        Ok(u) => Ok(u.path().to_string()),
        Err(e) => Err(e),
    }
}

/// The last segment of the path of an address: what follows the last
/// slash of a path that starts with a slash. Other paths have no segments.
pub open spec fn last_segment_of(path: Seq<char>) -> Option<Seq<char>> {
    if path.len() > 0 && path[0] == '/' {
        Some(path.skip(find_last(path, '/') + 1))
    } else {
        None
    }
}

/// The last segment of the path of an address.
pub fn last_segment(path: &str) -> (r: Option<String>)
    ensures
        match r {
            Some(t) => last_segment_of(path@) == Some(t@),
            None => last_segment_of(path@) is None,
        },
{
    let v = chars_of(path);
    if v.len() == 0 || v[0] != '/' {
        return None;
    }
    match index_of_last(&v, '/') {
        Some(at) => {
            let t = slice_chars(&v, at + 1, v.len());
            proof {
                assert(t@ == v@.skip(at + 1));
            }
            Some(string_of(&t))
        },
        None => {
            proof {
                lemma_find_last_bounds(v@, '/');
                lemma_find_last_none(v@, '/', 0);
            }
            None
        },
    }
}

/// The search for the last `c` ends at a place of `s` that holds `c`, or
/// at -1.
pub proof fn lemma_find_last_bounds(s: Seq<char>, c: char)
    ensures
        -1 <= find_last(s, c) < s.len(),
        find_last(s, c) >= 0 ==> s[find_last(s, c)] == c,
    decreases s.len(),
{
    if s.len() > 0 && s.last() != c {
        lemma_find_last_bounds(s.drop_last(), c);
    }
}

/// Where the search for the last `c` finds none, no place of `s` holds
/// `c`.
pub proof fn lemma_find_last_none(s: Seq<char>, c: char, i: int)
    requires
        find_last(s, c) == -1,
        0 <= i < s.len(),
    ensures
        s[i] != c,
    decreases s.len(),
{
    if i < s.len() - 1 {
        lemma_find_last_none(s.drop_last(), c, i);
    }
}

/// The search for the first `c` ends within `s` or at its length.
pub proof fn lemma_find_first_bounds(s: Seq<char>, c: char)
    ensures
        0 <= find_first(s, c) <= s.len(),
    decreases s.len(),
{
    if s.len() > 0 && s[0] != c {
        lemma_find_first_bounds(s.drop_first(), c);
    }
}

/// A path without the slashes and the components `.` at its end.
pub open spec fn trimmed(s: Seq<char>) -> Seq<char>
    decreases s.len(),
{
    if s.len() == 0 {
        s
    } else if s.last() == '/' {
        trimmed(s.drop_last())
    } else if s.last() == '.' && (s.len() == 1 || s[s.len() - 2] == '/') {
        trimmed(s.drop_last())
    } else {
        s
    }
}

/// The text `..`, which names the directory above.
pub open spec fn parent_token() -> Seq<char> {
    seq!['.', '.']
}

/// The text `.`, which names the directory itself.
pub open spec fn current_token() -> Seq<char> {
    seq!['.']
}

/// The final component of a path whose components are separated by
/// slashes: the last component that is neither empty nor `.`. A path that
/// has no such component, or that ends in `..`, has none.
pub open spec fn final_component_of(path: Seq<char>) -> Option<Seq<char>> {
    let t = trimmed(path);
    let name = t.skip(find_last(t, '/') + 1);
    if t.len() == 0 || name == parent_token() {
        None
    } else {
        Some(name)
    }
}

fn trimmed_len(v: &Vec<char>) -> (n: usize)
    ensures
        n <= v.len(),
        trimmed(v@) == v@.take(n as int),
{
    let mut n: usize = v.len();
    proof {
        assert(v@.take(v.len() as int) == v@);
    }
    while n > 0
        invariant
            n <= v.len(),
            trimmed(v@) == trimmed(v@.take(n as int)),
        ensures
            n <= v.len(),
            trimmed(v@) == v@.take(n as int),
        decreases n,
    {
        let ghost t = v@.take(n as int);
        proof {
            assert(t.last() == v@[n - 1]);
            assert(t.drop_last() == v@.take(n - 1));
            if n >= 2 {
                assert(t[n - 2] == v@[n - 2]);
            }
        }
        let c = v[n - 1];
        if c == '/' {
            n -= 1;
        } else if c == '.' && (n == 1 || v[n - 2] == '/') {
            n -= 1;
        } else {
            break ;
        }
    }
    n
}

fn parent_chars() -> (r: Vec<char>)
    ensures
        r@ == parent_token(),
{
    let mut r: Vec<char> = Vec::new();
    r.push('.');
    r.push('.');
    r
}

/// The final component of a path.
pub fn final_component(path: &str) -> (r: Option<String>)
    ensures
        match r {
            Some(t) => final_component_of(path@) == Some(t@),
            None => final_component_of(path@) is None,
        },
{
    let v = chars_of(path);
    let n = trimmed_len(&v);
    let t = slice_chars(&v, 0, n);
    proof {
        assert(t@ == v@.take(n as int));
    }
    if n == 0 {
        return None;
    }
    let start: usize = match index_of_last(&t, '/') {
        Some(at) => at + 1,
        None => 0,
    };
    let name = slice_chars(&t, start, n);
    proof {
        assert(name@ == t@.skip(start as int));
    }
    let parent = parent_chars();
    if same_chars(&name, &parent) {
        None
    } else {
        Some(string_of(&name))
    }
}

/// Whether the path `s`, read from a place `depth` directories below the
/// root of the unpacking, never climbs above that root. Empty components
/// and `.` leave the depth as it is, `..` takes one from it and any other
/// component adds one.
pub open spec fn stays_below(s: Seq<char>, depth: nat) -> bool
    decreases s.len(),
{
    if s.len() == 0 {
        true
    } else {
        let k = find_first(s, '/');
        let component = s.take(k);
        let rest = if 0 <= k < s.len() {
            s.skip(k + 1)
        } else {
            Seq::<char>::empty()
        };
        if component == parent_token() {
            depth > 0 && stays_below(rest, (depth - 1) as nat)
        } else if component.len() == 0 || component == current_token() {
            stays_below(rest, depth)
        } else {
            stays_below(rest, depth + 1)
        }
    }
}

/// Whether `c` occurs in `s`.
pub open spec fn holds_char(s: Seq<char>, c: char) -> bool {
    exists|i: int| 0 <= i < s.len() && s[i] == c
}

/// Whether the name of a member of an archive is safe to unpack: it holds
/// no NUL character, does not start at the root, and never climbs above
/// the directory it is unpacked into.
pub open spec fn safe_name(s: Seq<char>) -> bool {
    &&& !holds_char(s, '\0')
    &&& !(s.len() > 0 && s[0] == '/')
    &&& stays_below(s, 0)
}

fn current_chars() -> (r: Vec<char>)
    ensures
        r@ == current_token(),
{
    let mut r: Vec<char> = Vec::new();
    r.push('.');
    r
}

/// Whether the name of a member of an archive is safe to unpack.
pub fn is_safe_name(name: &str) -> (r: bool)
    ensures
        r == safe_name(name@),
{
    let v = chars_of(name);
    let nul = index_of_first(&v, '\0');
    proof {
        lemma_find_first_holds(v@, '\0');
    }
    if nul < v.len() {
        return false;
    }
    if v.len() > 0 && v[0] == '/' {
        return false;
    }
    let parent = parent_chars();
    let current = current_chars();
    let mut at: usize = 0;
    let mut depth: usize = 0;
    proof {
        assert(v@.skip(0) == v@);
    }
    while at < v.len()
        invariant
            v@ == name@,
            at <= v.len(),
            depth <= at,
            parent@ == parent_token(),
            current@ == current_token(),
            stays_below(v@, 0) == stays_below(v@.skip(at as int), depth as nat),
        decreases v.len() - at,
    {
        let rest = slice_chars(&v, at, v.len());
        let k = index_of_first(&rest, '/');
        let component = slice_chars(&rest, 0, k);
        proof {
            assert(rest@ == v@.skip(at as int));
            assert(component@ == rest@.take(k as int));
            if k < rest.len() {
                assert(rest@.skip(k + 1) == v@.skip(at + k + 1));
            } else {
                assert(v@.skip(v.len() as int) == Seq::<char>::empty());
            }
        }
        if same_chars(&component, &parent) {
            if depth == 0 {
                return false;
            }
            depth -= 1;
        } else if component.len() == 0 || same_chars(&component, &current) {
        } else {
            depth += 1;
        }
        if k < rest.len() {
            at = at + k + 1;
        } else {
            at = v.len();
        }
    }
    true
}

/// The search for the first `c` ends before the length of `s` exactly
/// where `s` holds `c`.
pub proof fn lemma_find_first_holds(s: Seq<char>, c: char)
    ensures
        find_first(s, c) < s.len() <==> holds_char(s, c),
        0 <= find_first(s, c) <= s.len(),
    decreases s.len(),
{
    if s.len() > 0 && s[0] != c {
        let t = s.drop_first();
        lemma_find_first_holds(t, c);
        if holds_char(s, c) {
            let i = choose|i: int| 0 <= i < s.len() && s[i] == c;
            assert(t[i - 1] == c);
        }
        if holds_char(t, c) {
            let i = choose|i: int| 0 <= i < t.len() && t[i] == c;
            assert(s[i + 1] == c);
        }
    }
}

} // verus!
