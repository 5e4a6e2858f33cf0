//! Lists of architectures for which a source or a package is meant.

use crate::named::{
    has_name, lemma_lone_name, lemma_with_item, sorted_by_name, Named, NamedSet,
};
use crate::text::{chars_of, string_of};
use vstd::prelude::*;

verus! {

/// The token that stands for every architecture.
pub open spec fn any_token() -> Seq<char> {
    seq!['a', 'n', 'y']
}

/// The token of a package that does not depend on the architecture.
pub open spec fn all_token() -> Seq<char> {
    seq!['a', 'l', 'l']
}

fn any_chars() -> (r: Vec<char>)
    ensures
        r@ == any_token(),
{
    let mut r: Vec<char> = Vec::new();
    r.push('a');
    r.push('n');
    r.push('y');
    r
}

fn all_chars() -> (r: Vec<char>)
    ensures
        r@ == all_token(),
{
    let mut r: Vec<char> = Vec::new();
    r.push('a');
    r.push('l');
    r.push('l');
    r
}

/// A list of architectures was given without a member.
#[derive(Clone, Copy, Debug, PartialEq, Eq, Structural)]
pub struct EmptyArchList;

/// Whether the token `n` belongs to the list made of the tokens `raw`:
/// it is among them, and where `any` is among them too, it is `any` or
/// `all`.
pub open spec fn arch_member(raw: Seq<String>, n: Seq<char>) -> bool {
    has_name(raw, n) && (has_name(raw, any_token()) ==> n == any_token() || n == all_token())
}

/// Whether the list made of the tokens `raw` holds `all` beside something
/// else.
pub open spec fn tokens_mix_all(raw: Seq<String>) -> bool {
    arch_member(raw, all_token()) && exists|n: Seq<char>|
        n != all_token() && #[trigger] arch_member(raw, n)
}

/// A list that holds the tokens that belong to the list made of `raw`
/// holds `all` beside something else exactly when that list does.
pub proof fn lemma_mixes_all(a: ArchList, raw: Seq<String>)
    requires
        forall|n: Seq<char>| a.has(n) <==> arch_member(raw, n),
    ensures
        a.mixes_all() == tokens_mix_all(raw),
{
    assert(a.has(all_token()) <==> arch_member(raw, all_token()));
    if a.mixes_all() {
        let n = choose|n: Seq<char>| n != all_token() && #[trigger] has_name(a@, n);
        assert(a.has(n));
        assert(arch_member(raw, n));
    }
    if tokens_mix_all(raw) {
        let n = choose|n: Seq<char>| n != all_token() && #[trigger] arch_member(raw, n);
        assert(a.has(n));
        assert(has_name(a@, n));
    }
}

/// A set of architecture tokens that is not empty. Where it holds `any`,
/// it holds nothing but `any` and `all`.
pub struct ArchList {
    tokens: NamedSet<String>,
}

impl View for ArchList {
    type V = Seq<String>;

    closed spec fn view(&self) -> Seq<String> {
        self.tokens@
    }
}

impl ArchList {
    #[verifier::type_invariant]
    spec fn well_formed(&self) -> bool {
        &&& self.tokens@.len() > 0
        &&& has_name(self.tokens@, any_token()) ==> forall|i: int|
            0 <= i < self.tokens@.len() ==> (#[trigger] self.tokens@[i])@ == any_token()
                || self.tokens@[i]@ == all_token()
    }

    /// Whether the list holds the token `n`.
    pub open spec fn has(&self, n: Seq<char>) -> bool {
        has_name(self@, n)
    }

    /// Whether the list holds `all` beside something else.
    pub open spec fn mixes_all(&self) -> bool {
        self.has(all_token()) && exists|n: Seq<char>|
            n != all_token() && #[trigger] has_name(self@, n)
    }

    /// Makes a list of the tokens `raw`. A token that occurs twice counts
    /// once, and where `any` is among them only `any` and `all` are kept.
    pub fn from_tokens(raw: &Vec<String>) -> (r: Result<ArchList, EmptyArchList>)
        ensures
            match r {
                Ok(a) => {
                    &&& raw@.len() > 0
                    &&& sorted_by_name(a@)
                    &&& forall|n: Seq<char>| a.has(n) <==> arch_member(raw@, n)
                },
                Err(_) => raw@.len() == 0,
            },
    {
        if raw.len() == 0 {
            return Err(EmptyArchList);
        }
        let mut set: NamedSet<String> = NamedSet::new();
        let mut i: usize = 0;
        while i < raw.len()
            invariant
                i <= raw.len(),
                sorted_by_name(set@),
                forall|n: Seq<char>| has_name(set@, n) <==> has_name(raw@.take(i as int), n),
            decreases raw.len() - i,
        {
            let x = raw[i].clone();
            proof {
                lemma_with_item(set@, x);
                let before = raw@.take(i as int);
                let after = raw@.take(i + 1);
                assert forall|n: Seq<char>| has_name(after, n) <==> has_name(before, n) || n
                    == x.name() by {
                    if has_name(before, n) {
                        let k = choose|k: int| 0 <= k < before.len() && (#[trigger] before[k]).name()
                            == n;
                        assert(after[k] == before[k]);
                    }
                    if n == x.name() {
                        assert(after[i as int] == x);
                    }
                    if has_name(after, n) {
                        let k = choose|k: int| 0 <= k < after.len() && (#[trigger] after[k]).name()
                            == n;
                        if k < i {
                            assert(before[k] == after[k]);
                        }
                    }
                }
            }
            let ghost old_set = set@;
            let (next, _) = set.insert(x);
            set = next;
            i += 1;
            proof {
                let before = raw@.take(i - 1);
                let after = raw@.take(i as int);
                assert forall|n: Seq<char>| has_name(set@, n) <==> has_name(after, n) by {
                    assert(has_name(set@, n) <==> has_name(old_set, n) || n == x.name());
                    assert(has_name(old_set, n) <==> has_name(before, n));
                    assert(has_name(after, n) <==> has_name(before, n) || n == x.name());
                }
            }
        }
        proof {
            assert(raw@.take(raw.len() as int) == raw@);
            assert(has_name(raw@, raw@[0].name()));
        }
        let any = any_chars();
        let all = all_chars();
        if set.locate(&any).1 {
            let has_all = set.locate(&all).1;
            let mut kept: NamedSet<String> = NamedSet::new();
            let ghost k0 = kept@;
            let all_text = string_of(&all);
            if has_all {
                proof {
                    lemma_with_item(kept@, all_text);
                }
                let (next, _) = kept.insert(all_text);
                kept = next;
            }
            let ghost k1 = kept@;
            let any_text = string_of(&any);
            proof {
                lemma_with_item(kept@, any_text);
            }
            let (next, _) = kept.insert(any_text);
            kept = next;
            proof {
                assert forall|n: Seq<char>| has_name(kept@, n) <==> arch_member(raw@, n) by {
                    assert(has_name(set@, n) <==> has_name(raw@, n));
                    assert(has_name(set@, any_token()) <==> has_name(raw@, any_token()));
                    assert(has_name(set@, all_token()) <==> has_name(raw@, all_token()));
                    assert(!has_name(k0, n));
                    assert(has_name(k1, n) <==> has_all && n == all_token());
                    assert(has_name(kept@, n) <==> has_name(k1, n) || n == any_token());
                }
                assert forall|k: int| 0 <= k < kept@.len() implies (#[trigger] kept@[k])@
                    == any_token() || kept@[k]@ == all_token() by {
                    assert(has_name(kept@, kept@[k].name()));
                }
                assert(has_name(kept@, any_token()));
            }
            Ok(ArchList { tokens: kept })
        } else {
            proof {
                assert(has_name(set@, raw@[0].name()));
            }
            Ok(ArchList { tokens: set })
        }
    }

    /// The number of tokens.
    pub fn len(&self) -> (n: usize)
        ensures
            n == self@.len(),
            n > 0,
            sorted_by_name(self@),
    {
        proof {
            use_type_invariant(self);
        }
        self.tokens.len()
    }

    /// The token at position `i` in the order of the tokens.
    pub fn token(&self, i: usize) -> (r: &str)
        requires
            i < self@.len(),
        ensures
            r@ == self@[i as int]@,
    {
        self.tokens.get(i).as_str()
    }

    /// Whether a build for the architecture `arch` is covered: the list
    /// holds `any`, `all` or `arch` itself.
    pub fn contains(&self, arch: &str) -> (r: bool)
        ensures
            r == (self.has(any_token()) || self.has(all_token()) || self.has(arch@)),
    {
        let any = any_chars();
        let all = all_chars();
        let own = chars_of(arch);
        self.tokens.locate(&any).1 || self.tokens.locate(&all).1 || self.tokens.locate(&own).1
    }

    /// Whether the list holds `all`.
    pub fn contains_all(&self) -> (r: bool)
        ensures
            r == self.has(all_token()),
    {
        let all = all_chars();
        self.tokens.locate(&all).1
    }

    /// Whether one package can be built for the list: `all` stands alone
    /// or not at all.
    pub fn is_valid_for_package(&self) -> (r: bool)
        ensures
            r == (self.has(all_token()) ==> self@.len() == 1),
            r == !self.mixes_all(),
    {
        let n = self.tokens.len();
        proof {
            lemma_lone_name(self@, all_token());
        }
        if self.contains_all() {
            n == 1
        } else {
            true
        }
    }

    /// A copy of the list.
    pub fn duplicate(&self) -> (r: Self)
        ensures
            r@ == self@,
    {
        proof {
            use_type_invariant(self);
        }
        ArchList { tokens: self.tokens.duplicate() }
    }
}

} // verus!
