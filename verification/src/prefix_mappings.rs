//! The namespace-prefix registry.
//!
//! A [`Prefix`] is a validated short name; a [`PrefixMappings`] value maps
//! prefixes to absolute namespace identifiers and resolves compact
//! identifiers (`prefix:local`) to full identifiers.

use vstd::prelude::*;

verus! {

use vstd::string::StrSliceExecFns;
use vstd::string::StringExecFns;

use crate::iri::{is_absolute_iri, check_absolute_iri, IriBuf};
use crate::text::str_eq;

#[derive(Clone, Copy, Debug, PartialEq, Eq, Structural)]
pub enum Error {
    /// The prefix violates the character or emptiness rules.
    InvalidPrefix,
    /// The literal is not a well-formed absolute identifier.
    InvalidIri,
}

pub open spec fn is_ascii_letter(c: char) -> bool {
    (97 <= c as u32 && c as u32 <= 122) || (65 <= c as u32 && c as u32 <= 90)
}

pub open spec fn is_ascii_digit(c: char) -> bool {
    48 <= c as u32 && c as u32 <= 57
}

pub open spec fn prefix_start_char(c: char) -> bool {
    is_ascii_letter(c) || c == '_'
}

pub open spec fn prefix_rest_char(c: char) -> bool {
    is_ascii_letter(c) || is_ascii_digit(c) || c == '_' || c == '-' || c == '.'
}

/// A valid prefix is non-empty, starts with an ASCII letter or underscore,
/// and continues with ASCII letters, digits, `_`, `-` or `.` only.  In
/// particular it never contains a colon.
pub open spec fn is_valid_prefix(s: Seq<char>) -> bool {
    &&& s.len() > 0
    &&& prefix_start_char(s[0])
    &&& forall|i: int| 1 <= i < s.len() ==> prefix_rest_char(#[trigger] s[i])
}

pub(crate) fn prefix_chars_ok(s: &str) -> (r: bool)
    ensures
        r == is_valid_prefix(s@),
{
    let n = s.unicode_len();
    if n == 0 {
        return false;
    }
    let c0 = s.get_char(0);
    let v0 = c0 as u32;
    if !((97 <= v0 && v0 <= 122) || (65 <= v0 && v0 <= 90) || c0 == '_') {
        return false;
    }
    let mut i: usize = 1;
    while i < n
        invariant
            1 <= i <= n,
            n == s@.len(),
            prefix_start_char(s@[0]),
            forall|j: int| 1 <= j < i ==> prefix_rest_char(#[trigger] s@[j]),
        decreases n - i,
    {
        let c = s.get_char(i);
        let v = c as u32;
        if !((97 <= v && v <= 122) || (65 <= v && v <= 90) || (48 <= v && v <= 57) || c == '_'
            || c == '-' || c == '.') {
            proof {
                assert(!prefix_rest_char(s@[i as int]));
            }
            return false;
        }
        i = i + 1;
    }
    true
}

/// A validated short namespace prefix.
#[derive(Debug, PartialEq, Eq, Hash)]
pub struct Prefix(String);

impl View for Prefix {
    type V = Seq<char>;

    closed spec fn view(&self) -> Seq<char> {
        self.0@
    }
}

impl DeepView for Prefix {
    type V = Seq<char>;

    open spec fn deep_view(&self) -> Seq<char> {
        self.view()
    }
}

impl Clone for Prefix {
    fn clone(&self) -> (r: Self)
        ensures
            r == *self,
    {
        Prefix(self.0.clone())
    }
}

impl Prefix {
    /// Validates `prefix` against [`is_valid_prefix`] and takes a copy of it.
    /// Construction succeeds exactly on the valid strings, and the value
    /// round-trips: [`Prefix::as_str`] returns the same characters.
    pub fn new(prefix: &str) -> (r: Result<Self, Error>)
        ensures
            is_valid_prefix(prefix@) ==> (r matches Ok(p) && p@ == prefix@),
            !is_valid_prefix(prefix@) ==> r == Err::<Prefix, Error>(Error::InvalidPrefix),
    {
        if prefix_chars_ok(prefix) {
            Ok(Prefix(prefix.to_owned()))
        } else {
            Err(Error::InvalidPrefix)
        }
    }

    pub fn as_str(&self) -> (r: &str)
        ensures
            r@ == self@,
    {
        self.0.as_str()
    }

    pub fn into_inner(self) -> (r: String)
        ensures
            r@ == self@,
    {
        self.0
    }
}

impl core::str::FromStr for Prefix {
    type Err = Error;

    fn from_str(s: &str) -> Result<Self, Self::Err> {
        Prefix::new(s)
    }
}

/// Index of the first colon in `s` at or after `i`, if any.
pub open spec fn first_colon_from(s: Seq<char>, i: int) -> Option<int>
    decreases s.len() - i when 0 <= i <= s.len()
{
    if i < s.len() {
        if s[i] == ':' {
            Some(i)
        } else {
            first_colon_from(s, i + 1)
        }
    } else {
        None
    }
}

pub open spec fn first_colon(s: Seq<char>) -> Option<int> {
    first_colon_from(s, 0)
}

proof fn lemma_first_colon_found(s: Seq<char>, i: int, c: int)
    requires
        0 <= i <= c < s.len(),
        s[c] == ':',
        forall|j: int| i <= j < c ==> s[j] != ':',
    ensures
        first_colon_from(s, i) == Some(c),
    decreases c - i,
{
    if i < c {
        lemma_first_colon_found(s, i + 1, c);
    }
}

proof fn lemma_first_colon_none(s: Seq<char>, i: int)
    requires
        0 <= i <= s.len(),
        forall|j: int| i <= j < s.len() ==> s[j] != ':',
    ensures
        first_colon_from(s, i) is None,
    decreases s.len() - i,
{
    if i < s.len() {
        lemma_first_colon_none(s, i + 1);
    }
}

/// The compact-identifier expansion rule over a registry `m`: if `s` has a
/// colon whose left-hand side is a syntactically valid prefix bound in `m`,
/// the result is the bound namespace identifier concatenated with the local
/// part; otherwise `s` itself, verbatim.
pub open spec fn spec_expanded(m: Map<Seq<char>, Seq<char>>, s: Seq<char>) -> Seq<char> {
    match first_colon(s) {
        Some(c) => {
            let p = s.subrange(0, c);
            let local = s.subrange(c + 1, s.len() as int);
            if is_valid_prefix(p) && m.dom().contains(p) {
                m[p] + local
            } else {
                s
            }
        },
        None => s,
    }
}

spec fn as_map(s: Seq<(Prefix, IriBuf)>) -> Map<Seq<char>, Seq<char>>
    decreases s.len(),
{
    if s.len() == 0 {
        Map::empty()
    } else {
        as_map(s.drop_last()).insert(s.last().0@, s.last().1@)
    }
}

proof fn lemma_as_map_skip_unmatched(s: Seq<(Prefix, IriBuf)>, i: int, k: Seq<char>)
    requires
        0 <= i <= s.len(),
        forall|j: int| i <= j < s.len() ==> s[j].0@ != k,
    ensures
        as_map(s).dom().contains(k) == as_map(s.take(i)).dom().contains(k),
        as_map(s).dom().contains(k) ==> as_map(s)[k] == as_map(s.take(i))[k],
    decreases s.len() - i,
{
    if i == s.len() {
        assert(s.take(i) =~= s);
    } else {
        assert(forall|j: int| i <= j < s.drop_last().len() ==> s.drop_last()[j].0@ != k);
        lemma_as_map_skip_unmatched(s.drop_last(), i, k);
        assert(s.drop_last().take(i) =~= s.take(i));
        assert(s.last().0@ != k);
    }
}

proof fn lemma_as_map_concat(a: Seq<(Prefix, IriBuf)>, b: Seq<(Prefix, IriBuf)>)
    ensures
        as_map(a + b) == as_map(a).union_prefer_right(as_map(b)),
    decreases b.len(),
{
    if b.len() == 0 {
        assert(a + b =~= a);
        assert(as_map(a).union_prefer_right(Map::empty()) =~= as_map(a));
    } else {
        assert((a + b).drop_last() =~= a + b.drop_last());
        assert((a + b).last() == b.last());
        lemma_as_map_concat(a, b.drop_last());
        assert(as_map(a).union_prefer_right(as_map(b.drop_last())).insert(b.last().0@, b.last().1@)
            =~= as_map(a).union_prefer_right(
            as_map(b.drop_last()).insert(b.last().0@, b.last().1@),
        ));
    }
}

/// A registry of namespace prefixes.  Its mathematical content is a map from
/// prefix characters to namespace-identifier characters; on repeated
/// insertion of one prefix the last binding wins.
#[derive(Debug, PartialEq, Eq)]
pub struct PrefixMappings {
    entries: Vec<(Prefix, IriBuf)>,
}

impl View for PrefixMappings {
    type V = Map<Seq<char>, Seq<char>>;

    closed spec fn view(&self) -> Map<Seq<char>, Seq<char>> {
        as_map(self.entries@)
    }
}

impl Default for PrefixMappings {
    fn default() -> (r: Self)
        ensures
            r@ == Map::<Seq<char>, Seq<char>>::empty(),
    {
        PrefixMappings { entries: Vec::new() }
    }
}

impl PrefixMappings {
    pub fn new() -> (r: Self)
        ensures
            r@ == Map::<Seq<char>, Seq<char>>::empty(),
    {
        PrefixMappings { entries: Vec::new() }
    }

    /// Binds `prefix` to `iri`, overwriting and returning any previous
    /// binding of the same prefix.
    pub fn insert_prefix_mapping(&mut self, prefix: Prefix, iri: IriBuf) -> (r: Option<IriBuf>)
        ensures
            final(self)@ == old(self)@.insert(prefix@, iri@),
            r is Some <==> old(self)@.dom().contains(prefix@),
            r matches Some(prev) ==> prev@ == old(self)@[prefix@],
    {
        let prev: Option<IriBuf> = match self.get_by_str(prefix.as_str()) {
            Some(i) => Some(i.clone()),
            None => None,
        };
        self.entries.push((prefix, iri));
        proof {
            assert(self.entries@.drop_last() =~= old(self).entries@);
            assert(self@ == old(self)@.insert(prefix@, iri@));
        }
        prev
    }

    /// Looks a prefix up by its characters.
    pub fn get_by_str(&self, prefix: &str) -> (r: Option<&IriBuf>)
        ensures
            r is Some <==> self@.dom().contains(prefix@),
            r matches Some(i) ==> self@.dom().contains(prefix@) && i@ == self@[prefix@],
    {
        let n = self.entries.len();
        let mut i: usize = n;
        while i > 0
            invariant
                i <= n,
                n == self.entries.len(),
                forall|j: int| i <= j < n ==> self.entries@[j].0@ != prefix@,
            decreases i,
    {
            i = i - 1;
            if str_eq(self.entries[i].0.as_str(), prefix) {
                proof {
                    lemma_as_map_skip_unmatched(self.entries@, i + 1, prefix@);
                    assert(self.entries@.take(i + 1).drop_last() =~= self.entries@.take(i as int));
                    assert(self.entries@.take(i + 1).last() == self.entries@[i as int]);
                    assert(as_map(self.entries@.take(i + 1)) == as_map(
                        self.entries@.take(i as int),
                    ).insert(self.entries@[i as int].0@, self.entries@[i as int].1@));
                }
                return Some(&self.entries[i].1);
            }
        }
        proof {
            lemma_as_map_skip_unmatched(self.entries@, 0, prefix@);
            assert(self.entries@.take(0) =~= Seq::<(Prefix, IriBuf)>::empty());
        }
        None
    }

    /// Looks a prefix value up.
    pub fn get(&self, prefix: Prefix) -> (r: Option<&IriBuf>)
        ensures
            r is Some <==> self@.dom().contains(prefix@),
            r matches Some(i) ==> self@.dom().contains(prefix@) && i@ == self@[prefix@],
    {
        self.get_by_str(prefix.as_str())
    }

    /// Folds every binding of `other` into `self`; on a conflict the binding
    /// of `other` wins.
    pub fn merge(&mut self, other: PrefixMappings)
        ensures
            final(self)@ == old(self)@.union_prefer_right(other@),
    {
        let ghost a = self.entries@;
        let ghost b = other.entries@;
        let mut other = other;
        self.entries.append(&mut other.entries);
        proof {
            lemma_as_map_concat(a, b);
        }
    }

    /// Resolves a literal: validates it as an absolute identifier, then
    /// applies the compact-identifier expansion rule against this registry.
    /// An ill-formed literal is rejected whether or not its prefix part is
    /// bound; a well-formed literal whose prefix is absent or invalid is used
    /// verbatim.
    pub fn expand(&self, iri_or_prefixed_name: String) -> (r: Result<IriBuf, Error>)
        ensures
            is_absolute_iri(iri_or_prefixed_name@) ==> (r matches Ok(i) && i@ == spec_expanded(
                self@,
                iri_or_prefixed_name@,
            )),
            !is_absolute_iri(iri_or_prefixed_name@) ==> r == Err::<IriBuf, Error>(Error::InvalidIri),
    {
        if !check_absolute_iri(iri_or_prefixed_name.as_str()) {
            return Err(Error::InvalidIri);
        }
        let s = iri_or_prefixed_name.as_str();
        let n = s.unicode_len();
        let mut k: usize = 0;
        let mut colon: Option<usize> = None;
        while k < n
            invariant
                k <= n,
                n == s@.len(),
                match colon {
                    Some(c) => c < k && s@[c as int] == ':' && (forall|j: int|
                        0 <= j < c ==> s@[j] != ':'),
                    None => forall|j: int| 0 <= j < k ==> s@[j] != ':',
                },
            decreases n - k,
        {
            if colon.is_none() {
                if s.get_char(k) == ':' {
                    colon = Some(k);
                }
            }
            k = k + 1;
        }
        match colon {
            None => {
                proof {
                    lemma_first_colon_none(s@, 0);
                }
                Ok(IriBuf::from_text(iri_or_prefixed_name))
            },
            Some(c) => {
                proof {
                    lemma_first_colon_found(s@, 0, c as int);
                }
                let p = s.substring_char(0, c);
                let local = s.substring_char(c + 1, n);
                if !prefix_chars_ok(p) {
                    Ok(IriBuf::from_text(iri_or_prefixed_name))
                } else {
                    match self.get_by_str(p) {
                        Some(ns) => {
                            let combined = ns.as_str().to_owned().concat(local);
                            Ok(IriBuf::from_text(combined))
                        },
                        None => Ok(IriBuf::from_text(iri_or_prefixed_name)),
                    }
                }
            },
        }
    }
}

} // verus!
