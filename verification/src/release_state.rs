//! Pre-release tags and the persisted release state: which packages are in
//! pre-release (with their tag) and which are queued to graduate from `0.x`.
use vstd::prelude::*;

use crate::text::{insert_sorted, lemma_seq_lt_irreflexive, lemma_seq_lt_total, lemma_seq_lt_transitive, owned, seq_lt, str_eq, str_lt, strictly_sorted, views};

verus! {

/// A character allowed in a pre-release tag: ASCII letters, digits and `-`.
pub open spec fn tag_char_ok(c: char) -> bool {
    ('a' <= c && c <= 'z') || ('A' <= c && c <= 'Z') || ('0' <= c && c <= '9') || c == '-'
}

/// A pre-release tag is a non-empty word of letters, digits and hyphens.
pub open spec fn valid_prerelease_tag(s: Seq<char>) -> bool {
    s.len() > 0 && forall|i: int| 0 <= i < s.len() ==> tag_char_ok(#[trigger] s[i])
}

/// Checks a pre-release tag.
pub fn is_valid_prerelease_tag(tag: &str) -> (r: bool)
    ensures
        r == valid_prerelease_tag(tag@),
{
    let n = tag.unicode_len();
    if n == 0 {
        return false;
    }
    let mut i: usize = 0;
    while i < n
        invariant
            n == tag@.len(),
            i <= n,
            forall|j: int| 0 <= j < i ==> tag_char_ok(#[trigger] tag@[j]),
        decreases n - i,
    {
        let c = tag.get_char(i);
        let ok = ('a' <= c && c <= 'z') || ('A' <= c && c <= 'Z') || ('0' <= c && c <= '9') || c == '-';
        if !ok {
            return false;
        }
        i = i + 1;
    }
    true
}

/// The kind of pre-release a version is published as.
#[derive(Debug, PartialEq, Eq)]
pub enum PrereleaseSpec {
    Alpha,
    Beta,
    Rc,
    Custom(String),
}

impl Clone for PrereleaseSpec {
    fn clone(&self) -> (r: Self)
        ensures
            r == *self,
    {
        match self {
            PrereleaseSpec::Alpha => PrereleaseSpec::Alpha,
            PrereleaseSpec::Beta => PrereleaseSpec::Beta,
            PrereleaseSpec::Rc => PrereleaseSpec::Rc,
            PrereleaseSpec::Custom(s) => PrereleaseSpec::Custom(s.clone()),
        }
    }
}

/// The identifier a pre-release spec stands for.
pub open spec fn spec_identifier(p: PrereleaseSpec) -> Seq<char> {
    match p {
        PrereleaseSpec::Alpha => "alpha"@,
        PrereleaseSpec::Beta => "beta"@,
        PrereleaseSpec::Rc => "rc"@,
        PrereleaseSpec::Custom(s) => s@,
    }
}

/// `p` is what parsing `tag` gives: the well-known spec for `alpha`,
/// `beta` and `rc`, a custom spec holding the tag otherwise.
pub open spec fn parsed_as(tag: Seq<char>, p: PrereleaseSpec) -> bool {
    match p {
        PrereleaseSpec::Alpha => tag == "alpha"@,
        PrereleaseSpec::Beta => tag == "beta"@,
        PrereleaseSpec::Rc => tag == "rc"@,
        PrereleaseSpec::Custom(s) => s@ == tag && tag != "alpha"@ && tag != "beta"@ && tag != "rc"@,
    }
}

/// The same pre-release spec: the same variant, and for custom specs the
/// same text.
pub open spec fn same_spec(p: PrereleaseSpec, q: PrereleaseSpec) -> bool {
    match (p, q) {
        (PrereleaseSpec::Alpha, PrereleaseSpec::Alpha) => true,
        (PrereleaseSpec::Beta, PrereleaseSpec::Beta) => true,
        (PrereleaseSpec::Rc, PrereleaseSpec::Rc) => true,
        (PrereleaseSpec::Custom(a), PrereleaseSpec::Custom(b)) => a@ == b@,
        _ => false,
    }
}

/// A spec is written as the text it is parsed from: parsing a tag and
/// writing the spec back gives the tag.
pub proof fn law_parsed_spec_writes_back(tag: Seq<char>, p: PrereleaseSpec)
    requires
        parsed_as(tag, p),
    ensures
        spec_identifier(p) == tag,
{
}

/// Parsing the identifier of a spec gives the same spec back, for every
/// spec that is not a custom spelling of a well-known tag.
pub proof fn law_spec_parses_back(p: PrereleaseSpec, q: PrereleaseSpec)
    requires
        !(p matches PrereleaseSpec::Custom(s) && (s@ == "alpha"@ || s@ == "beta"@ || s@ == "rc"@)),
        parsed_as(spec_identifier(p), q),
    ensures
        same_spec(p, q),
{
    reveal_strlit("alpha");
    reveal_strlit("beta");
    reveal_strlit("rc");
    assert("alpha"@ != "beta"@ && "alpha"@ != "rc"@ && "beta"@ != "rc"@) by {
        assert("alpha"@[0] != "beta"@[0]);
        assert("alpha"@[0] != "rc"@[0]);
        assert("beta"@[0] != "rc"@[0]);
    }
}

/// A text that is not a valid pre-release tag.
#[derive(Debug, PartialEq, Eq)]
pub struct PrereleaseSpecParseError {
    pub input: String,
}

impl PrereleaseSpecParseError {
    /// What is wrong with the tag.
    pub fn to_string(&self) -> (r: String)
        ensures
            r@ == "invalid pre-release tag '"@ + self.input@ + "'"@,
    {
        let mut s = String::new();
        s.append("invalid pre-release tag '");
        s.append(self.input.as_str());
        s.append("'");
        s
    }
}

impl PrereleaseSpec {
    /// The identifier of the spec, such as `alpha`.
    pub fn identifier(&self) -> (r: String)
        ensures
            r@ == spec_identifier(*self),
    {
        match self {
            PrereleaseSpec::Alpha => owned("alpha"),
            PrereleaseSpec::Beta => owned("beta"),
            PrereleaseSpec::Rc => owned("rc"),
            PrereleaseSpec::Custom(s) => s.clone(),
        }
    }

    /// The identifier of the spec, as it is written in state files.
    pub fn to_string(&self) -> (r: String)
        ensures
            r@ == spec_identifier(*self),
    {
        self.identifier()
    }

    /// Parses a tag: the well-known `alpha`, `beta` and `rc`, or any other
    /// valid tag as a custom one.
    pub fn parse(tag: &str) -> (r: Result<PrereleaseSpec, PrereleaseSpecParseError>)
        ensures
            r is Ok <==> valid_prerelease_tag(tag@),
            r matches Ok(p) ==> parsed_as(tag@, p),
            r matches Err(e) ==> e.input@ == tag@,
    {
        proof {
            reveal_strlit("alpha");
            reveal_strlit("beta");
            reveal_strlit("rc");
        }
        if !is_valid_prerelease_tag(tag) {
            return Err(PrereleaseSpecParseError { input: owned(tag) });
        }
        if str_eq(tag, "alpha") {
            Ok(PrereleaseSpec::Alpha)
        } else if str_eq(tag, "beta") {
            Ok(PrereleaseSpec::Beta)
        } else if str_eq(tag, "rc") {
            Ok(PrereleaseSpec::Rc)
        } else {
            Ok(PrereleaseSpec::Custom(owned(tag)))
        }
    }
}

/// The keys of an entry list.
pub open spec fn entry_keys(e: Seq<(String, String)>) -> Seq<Seq<char>> {
    e.map_values(|p: (String, String)| p.0@)
}

/// The value an entry list holds for a key, if it holds one.
pub open spec fn entry_lookup(e: Seq<(String, String)>, k: Seq<char>) -> Option<Seq<char>>
    decreases e.len(),
{
    if e.len() == 0 {
        None
    } else if e.last().0@ == k {
        Some(e.last().1@)
    } else {
        entry_lookup(e.drop_last(), k)
    }
}

proof fn lemma_lookup_index(e: Seq<(String, String)>, k: Seq<char>, i: int)
    requires
        strictly_sorted(entry_keys(e)),
        0 <= i < e.len(),
        e[i].0@ == k,
    ensures
        entry_lookup(e, k) == Some(e[i].1@),
    decreases e.len(),
{
    if i < e.len() - 1 {
        assert(seq_lt(entry_keys(e)[i], entry_keys(e)[e.len() - 1]));
        lemma_seq_lt_irreflexive(k);
        assert(entry_keys(e.drop_last()) =~= entry_keys(e).drop_last());
        lemma_lookup_index(e.drop_last(), k, i);
    }
}

proof fn lemma_lookup_absent(e: Seq<(String, String)>, k: Seq<char>)
    requires
        !entry_keys(e).contains(k),
    ensures
        entry_lookup(e, k) is None,
    decreases e.len(),
{
    if e.len() > 0 {
        assert(entry_keys(e)[e.len() - 1] == e.last().0@);
        assert(entry_keys(e.drop_last()) =~= entry_keys(e).drop_last());
        if entry_keys(e.drop_last()).contains(k) {
            let j = choose|j: int| 0 <= j < entry_keys(e.drop_last()).len() && entry_keys(e.drop_last())[j] == k;
            assert(entry_keys(e)[j] == k);
        }
        lemma_lookup_absent(e.drop_last(), k);
    }
}

proof fn lemma_lookup_by_key(e: Seq<(String, String)>, k: Seq<char>)
    requires
        strictly_sorted(entry_keys(e)),
    ensures
        entry_lookup(e, k) is Some <==> entry_keys(e).contains(k),
        entry_lookup(e, k) is Some ==> exists|i: int| 0 <= i < e.len() && e[i].0@ == k && e[i].1@ == entry_lookup(e, k)->0,
{
    if entry_keys(e).contains(k) {
        let i = choose|i: int| 0 <= i < entry_keys(e).len() && entry_keys(e)[i] == k;
        lemma_lookup_index(e, k, i);
    } else {
        lemma_lookup_absent(e, k);
    }
}

/// The abstract contents of a list of string pairs.
pub open spec fn pair_views(s: Seq<(String, String)>) -> Seq<(Seq<char>, Seq<char>)> {
    s.map_values(|p: (String, String)| (p.0@, p.1@))
}

/// The packages in pre-release, each with its tag, kept in name order.
#[derive(Debug)]
pub struct PrereleaseState {
    entries: Vec<(String, String)>,
}

impl PrereleaseState {
    /// The invariant: names are strictly increasing.
    pub closed spec fn wf(&self) -> bool {
        strictly_sorted(entry_keys(self.entries@))
    }

    /// The tag recorded for a package, if any.
    pub closed spec fn lookup(&self, name: Seq<char>) -> Option<Seq<char>> {
        entry_lookup(self.entries@, name)
    }

    /// The names in pre-release, in order.
    pub closed spec fn names(&self) -> Seq<Seq<char>> {
        entry_keys(self.entries@)
    }

    /// The entries in order, as (name, tag) pairs.
    pub closed spec fn pairs(&self) -> Seq<(Seq<char>, Seq<char>)> {
        pair_views(self.entries@)
    }

    /// The state as a map from package name to tag.
    pub open spec fn tags(&self) -> Map<Seq<char>, Seq<char>> {
        Map::new(|k: Seq<char>| self.lookup(k) is Some, |k: Seq<char>| self.lookup(k)->0)
    }

    pub proof fn lemma_wf_facts(&self)
        requires
            self.wf(),
        ensures
            strictly_sorted(self.names()),
            forall|k: Seq<char>| (#[trigger] self.lookup(k) is Some) <==> self.names().contains(k),
            self.names().len() == self.pairs().len(),
            forall|i: int| 0 <= i < self.pairs().len() ==> #[trigger] self.pairs()[i].0 == self.names()[i],
            forall|i: int| 0 <= i < self.pairs().len() ==> self.lookup(#[trigger] self.pairs()[i].0) == Some(self.pairs()[i].1),
    {
        assert forall|k: Seq<char>| (#[trigger] self.lookup(k) is Some) <==> self.names().contains(k) by {
            lemma_lookup_by_key(self.entries@, k);
        }
        assert forall|i: int| 0 <= i < self.pairs().len() implies self.lookup(#[trigger] self.pairs()[i].0) == Some(self.pairs()[i].1) by {
            lemma_lookup_index(self.entries@, self.entries@[i].0@, i);
        }
    }

    /// An empty state.
    pub fn new() -> (s: PrereleaseState)
        ensures
            s.wf(),
            s.names().len() == 0,
            forall|k: Seq<char>| s.lookup(k) is None,
    {
        PrereleaseState { entries: Vec::new() }
    }

    /// Whether no package is in pre-release.
    pub fn is_empty(&self) -> (r: bool)
        ensures
            r == (self.names().len() == 0),
    {
        self.entries.len() == 0
    }

    /// The tag recorded for `name`.
    pub fn get(&self, name: &str) -> (r: Option<String>)
        requires
            self.wf(),
        ensures
            r matches Some(t) ==> self.lookup(name@) == Some(t@),
            r is None ==> self.lookup(name@) is None,
    {
        let mut i: usize = 0;
        while i < self.entries.len()
            invariant
                i <= self.entries.len(),
                self.wf(),
                forall|j: int| 0 <= j < i ==> self.entries@[j].0@ != name@,
            decreases self.entries.len() - i,
        {
            if str_eq(self.entries[i].0.as_str(), name) {
                proof {
                    lemma_lookup_index(self.entries@, name@, i as int);
                }
                return Some(self.entries[i].1.clone());
            }
            i = i + 1;
        }
        proof {
            if entry_keys(self.entries@).contains(name@) {
                let k = choose|k: int| 0 <= k < entry_keys(self.entries@).len() && entry_keys(self.entries@)[k] == name@;
                assert(self.entries@[k].0@ == name@);
            }
            lemma_lookup_absent(self.entries@, name@);
        }
        None
    }

    /// Whether `name` is in pre-release.
    pub fn contains(&self, name: &str) -> (r: bool)
        requires
            self.wf(),
        ensures
            r == (self.lookup(name@) is Some),
    {
        self.get(name).is_some()
    }

    /// Records `tag` for `name`, replacing an earlier tag.
    pub fn insert(&mut self, name: String, tag: String)
        requires
            old(self).wf(),
        ensures
            final(self).wf(),
            final(self).lookup(name@) == Some(tag@),
            forall|k: Seq<char>| k != name@ ==> final(self).lookup(k) == old(self).lookup(k),
    {
        let ghost old_e = self.entries@;
        let mut i: usize = 0;
        while i < self.entries.len() && str_lt(self.entries[i].0.as_str(), name.as_str())
            invariant
                i <= self.entries.len(),
                self.entries@ == old_e,
                strictly_sorted(entry_keys(old_e)),
                forall|j: int| 0 <= j < i ==> seq_lt(#[trigger] entry_keys(old_e)[j], name@),
            decreases self.entries.len() - i,
        {
            i = i + 1;
        }
        let found = i < self.entries.len() && str_eq(self.entries[i].0.as_str(), name.as_str());
        if found {
            self.entries.set(i, (name, tag));
        } else {
            proof {
                if i < old_e.len() {
                    lemma_seq_lt_total(entry_keys(old_e)[i as int], name@);
                }
            }
            self.entries.insert(i, (name, tag));
        }
        proof {
            let ne = self.entries@;
            let ok = entry_keys(old_e);
            let nk = entry_keys(ne);
            if found {
                assert(nk =~= ok.update(i as int, name@));
            } else {
                assert(nk =~= ok.insert(i as int, name@));
            }
            assert forall|a: int, b: int| #![trigger nk[a], nk[b]] 0 <= a < b < nk.len() implies seq_lt(nk[a], nk[b]) by {
                if found {
                    if a == i {
                        assert(seq_lt(ok[a], ok[b]));
                    } else if b == i {
                        assert(seq_lt(ok[a], name@));
                    } else {
                        assert(seq_lt(ok[a], ok[b]));
                    }
                } else {
                    if b < i {
                        assert(seq_lt(ok[a], ok[b]));
                    } else if b == i {
                        assert(seq_lt(ok[a], name@));
                    } else if a < i {
                        if b - 1 > i {
                            assert(seq_lt(ok[i as int], ok[b - 1]));
                            lemma_seq_lt_transitive(name@, ok[i as int], ok[b - 1]);
                        }
                        lemma_seq_lt_transitive(ok[a], name@, ok[b - 1]);
                    } else if a == i {
                        if b - 1 > i {
                            assert(seq_lt(ok[i as int], ok[b - 1]));
                            lemma_seq_lt_transitive(name@, ok[i as int], ok[b - 1]);
                        }
                    } else {
                        assert(seq_lt(ok[a - 1], ok[b - 1]));
                    }
                }
            }
            lemma_lookup_index(ne, name@, i as int);
            assert forall|k: Seq<char>| k != name@ implies entry_lookup(ne, k) == entry_lookup(old_e, k) by {
                lemma_lookup_by_key(ne, k);
                lemma_lookup_by_key(old_e, k);
                if entry_lookup(old_e, k) is Some {
                    let j = choose|j: int| 0 <= j < old_e.len() && old_e[j].0@ == k && old_e[j].1@ == entry_lookup(old_e, k)->0;
                    let nj = if found || j < i { j } else { j + 1 };
                    assert(ne[nj] == old_e[j]);
                    lemma_lookup_index(ne, k, nj);
                }
                if entry_lookup(ne, k) is Some {
                    let j = choose|j: int| 0 <= j < ne.len() && ne[j].0@ == k && ne[j].1@ == entry_lookup(ne, k)->0;
                    let oj = if found || j < i { j } else { j - 1 };
                    assert(old_e[oj] == ne[j]);
                    lemma_lookup_index(old_e, k, oj);
                }
            }
        }
    }

    /// Drops `name` from the state, handing back its tag.
    pub fn remove(&mut self, name: &str) -> (r: Option<String>)
        requires
            old(self).wf(),
        ensures
            final(self).wf(),
            r matches Some(t) ==> old(self).lookup(name@) == Some(t@),
            r is None ==> old(self).lookup(name@) is None,
            final(self).lookup(name@) is None,
            forall|k: Seq<char>| k != name@ ==> final(self).lookup(k) == old(self).lookup(k),
    {
        let ghost old_e = self.entries@;
        let mut i: usize = 0;
        while i < self.entries.len()
            invariant
                i <= self.entries.len(),
                self.entries@ == old_e,
                old_e == old(self).entries@,
                strictly_sorted(entry_keys(old_e)),
                forall|j: int| 0 <= j < i ==> old_e[j].0@ != name@,
            decreases self.entries.len() - i,
        {
            if str_eq(self.entries[i].0.as_str(), name) {
                proof {
                    lemma_lookup_index(old_e, name@, i as int);
                }
                let (_, tag) = self.entries.remove(i);
                proof {
                    let ne = self.entries@;
                    assert(entry_keys(ne) =~= entry_keys(old_e).remove(i as int));
                    let ok = entry_keys(old_e);
                    let nk = entry_keys(ne);
                    assert forall|a: int, b: int| #![trigger nk[a], nk[b]] 0 <= a < b < nk.len() implies seq_lt(nk[a], nk[b]) by {
                        let oa = if a < i { a } else { a + 1 };
                        let ob = if b < i { b } else { b + 1 };
                        assert(seq_lt(ok[oa], ok[ob]));
                    }
                    if entry_keys(ne).contains(name@) {
                        let j = choose|j: int| 0 <= j < entry_keys(ne).len() && entry_keys(ne)[j] == name@;
                        let oj = if j < i { j } else { j + 1 };
                        assert(ok[oj] == name@);
                        assert(seq_lt(ok[if oj < i { oj } else { i as int }], ok[if oj < i { i as int } else { oj }]));
                        lemma_seq_lt_irreflexive(name@);
                    }
                    lemma_lookup_absent(ne, name@);
                    assert forall|k: Seq<char>| k != name@ implies entry_lookup(ne, k) == entry_lookup(old_e, k) by {
                        lemma_lookup_by_key(ne, k);
                        lemma_lookup_by_key(old_e, k);
                        if entry_lookup(old_e, k) is Some {
                            let j = choose|j: int| 0 <= j < old_e.len() && old_e[j].0@ == k && old_e[j].1@ == entry_lookup(old_e, k)->0;
                            let nj = if j < i { j } else { j - 1 };
                            assert(ne[nj] == old_e[j]);
                            lemma_lookup_index(ne, k, nj);
                        }
                        if entry_lookup(ne, k) is Some {
                            let j = choose|j: int| 0 <= j < ne.len() && ne[j].0@ == k && ne[j].1@ == entry_lookup(ne, k)->0;
                            let oj = if j < i { j } else { j + 1 };
                            assert(old_e[oj] == ne[j]);
                            lemma_lookup_index(old_e, k, oj);
                        }
                    }
                }
                return Some(tag);
            }
            i = i + 1;
        }
        proof {
            if entry_keys(old_e).contains(name@) {
                let k = choose|k: int| 0 <= k < entry_keys(old_e).len() && entry_keys(old_e)[k] == name@;
                assert(old_e[k].0@ == name@);
            }
            lemma_lookup_absent(old_e, name@);
        }
        None
    }

    /// The state itself if its names are in strict order; otherwise a state
    /// rebuilt from its entries, the later tag of a name winning.
    pub fn into_valid(self) -> (r: PrereleaseState)
        ensures
            r.wf(),
            self.wf() ==> r.tags() == self.tags(),
    {
        let mut ok = true;
        let mut i: usize = 1;
        while i < self.entries.len()
            invariant
                1 <= i,
                ok ==> forall|a: int, b: int|
                    #![trigger entry_keys(self.entries@)[a], entry_keys(self.entries@)[b]]
                    0 <= a < b < i && b < self.entries@.len() ==> seq_lt(entry_keys(self.entries@)[a], entry_keys(self.entries@)[b]),
                !ok ==> !strictly_sorted(entry_keys(self.entries@)),
            decreases self.entries.len() - i,
        {
            if ok && !str_lt(self.entries[i - 1].0.as_str(), self.entries[i].0.as_str()) {
                ok = false;
                proof {
                    let k = entry_keys(self.entries@);
                    assert(!seq_lt(k[i - 1], k[i as int]));
                }
            }
            proof {
                if ok {
                    let k = entry_keys(self.entries@);
                    assert forall|a: int, b: int| #![trigger k[a], k[b]] 0 <= a < b < i + 1 && b < self.entries@.len() implies seq_lt(k[a], k[b]) by {
                        if b == i && a < i - 1 {
                            crate::text::lemma_seq_lt_transitive(k[a], k[i - 1], k[b]);
                        }
                    }
                }
            }
            i = i + 1;
        }
        if ok {
            proof {
                let k = entry_keys(self.entries@);
                assert forall|a: int, b: int| #![trigger k[a], k[b]] 0 <= a < b < k.len() implies seq_lt(k[a], k[b]) by {
                }
            }
            return self;
        }
        let mut r = PrereleaseState::new();
        let mut j: usize = 0;
        while j < self.entries.len()
            invariant
                j <= self.entries.len(),
                r.wf(),
            decreases self.entries.len() - j,
        {
            r.insert(self.entries[j].0.clone(), self.entries[j].1.clone());
            j = j + 1;
        }
        r
    }

    /// The (name, tag) entries in name order.
    pub fn entries(&self) -> (r: Vec<(String, String)>)
        ensures
            pair_views(r@) == self.pairs(),
    {
        let mut r: Vec<(String, String)> = Vec::new();
        let mut i: usize = 0;
        while i < self.entries.len()
            invariant
                i <= self.entries.len(),
                r@ == self.entries@.take(i as int),
            decreases self.entries.len() - i,
        {
            let e = &self.entries[i];
            r.push((e.0.clone(), e.1.clone()));
            proof {
                assert(r@ =~= self.entries@.take(i + 1));
            }
            i = i + 1;
        }
        proof {
            assert(self.entries@.take(self.entries.len() as int) =~= self.entries@);
        }
        r
    }
}

impl Clone for PrereleaseState {
    fn clone(&self) -> (r: Self)
        ensures
            r.wf() == self.wf(),
            forall|k: Seq<char>| r.lookup(k) == self.lookup(k),
            r.names() == self.names(),
            r.pairs() == self.pairs(),
    {
        let mut v: Vec<(String, String)> = Vec::new();
        let mut i: usize = 0;
        while i < self.entries.len()
            invariant
                i <= self.entries.len(),
                v@ == self.entries@.take(i as int),
            decreases self.entries.len() - i,
        {
            let e = &self.entries[i];
            v.push((e.0.clone(), e.1.clone()));
            proof {
                assert(v@ =~= self.entries@.take(i + 1));
            }
            i = i + 1;
        }
        proof {
            assert(self.entries@.take(self.entries.len() as int) =~= self.entries@);
        }
        PrereleaseState { entries: v }
    }
}

/// The packages queued to graduate from `0.x` to `1.0.0`, kept in name order.
#[derive(Debug)]
pub struct GraduationState {
    names: Vec<String>,
}

impl GraduationState {
    /// The invariant: names are strictly increasing.
    pub closed spec fn wf(&self) -> bool {
        strictly_sorted(views(self.names@))
    }

    /// The queued names, in order.
    pub closed spec fn members(&self) -> Seq<Seq<char>> {
        views(self.names@)
    }

    /// The queue is kept in name order, each name once.
    pub proof fn law_queue_sorted(&self)
        requires
            self.wf(),
        ensures
            strictly_sorted(self.members()),
    {
    }

    /// An empty queue.
    pub fn new() -> (s: GraduationState)
        ensures
            s.wf(),
            s.members().len() == 0,
    {
        GraduationState { names: Vec::new() }
    }

    /// Whether nothing is queued.
    pub fn is_empty(&self) -> (r: bool)
        ensures
            r == (self.members().len() == 0),
    {
        self.names.len() == 0
    }

    /// Whether `name` is queued.
    pub fn contains(&self, name: &str) -> (r: bool)
        ensures
            r == self.members().contains(name@),
    {
        crate::text::contains_str(&self.names, name)
    }

    /// Queues `name`.
    pub fn add(&mut self, name: String)
        requires
            old(self).wf(),
        ensures
            final(self).wf(),
            forall|k: Seq<char>| final(self).members().contains(k) <==> (old(self).members().contains(k) || k == name@),
    {
        insert_sorted(&mut self.names, name);
    }

    /// Drops `name` from the queue; tells whether it was queued.
    pub fn remove(&mut self, name: &str) -> (r: bool)
        requires
            old(self).wf(),
        ensures
            final(self).wf(),
            r == old(self).members().contains(name@),
            forall|k: Seq<char>| final(self).members().contains(k) <==> (old(self).members().contains(k) && k != name@),
    {
        let ghost old_v = views(self.names@);
        let mut i: usize = 0;
        while i < self.names.len()
            invariant
                i <= self.names.len(),
                views(self.names@) == old_v,
                old_v == views(old(self).names@),
                self.names@ == old(self).names@,
                strictly_sorted(old_v),
                forall|j: int| 0 <= j < i ==> old_v[j] != name@,
            decreases self.names.len() - i,
        {
            if str_eq(self.names[i].as_str(), name) {
                self.names.remove(i);
                proof {
                    let nv = views(self.names@);
                    assert(nv =~= old_v.remove(i as int));
                    assert forall|a: int, b: int| #![trigger nv[a], nv[b]] 0 <= a < b < nv.len() implies seq_lt(nv[a], nv[b]) by {
                        let oa = if a < i { a } else { a + 1 };
                        let ob = if b < i { b } else { b + 1 };
                        assert(seq_lt(old_v[oa], old_v[ob]));
                    }
                    assert(old_v[i as int] == name@);
                    assert forall|k: Seq<char>| nv.contains(k) <==> (old_v.contains(k) && k != name@) by {
                        if nv.contains(k) {
                            let j = choose|j: int| 0 <= j < nv.len() && nv[j] == k;
                            let oj = if j < i { j } else { j + 1 };
                            assert(old_v[oj] == k);
                            if k == name@ {
                                assert(seq_lt(old_v[if oj < i { oj } else { i as int }], old_v[if oj < i { i as int } else { oj }]));
                                lemma_seq_lt_irreflexive(k);
                            }
                        }
                        if old_v.contains(k) && k != name@ {
                            let j = choose|j: int| 0 <= j < old_v.len() && old_v[j] == k;
                            assert(j != i);
                            let nj = if j < i { j } else { j - 1 };
                            assert(nv[nj] == k);
                        }
                    }
                }
                return true;
            }
            i = i + 1;
        }
        proof {
            if old_v.contains(name@) {
                let j = choose|j: int| 0 <= j < old_v.len() && old_v[j] == name@;
                assert(old_v[j] == name@);
            }
        }
        false
    }

    /// The queue itself if its names are in strict order; otherwise a queue
    /// rebuilt from its names.
    pub fn into_valid(self) -> (r: GraduationState)
        ensures
            r.wf(),
            self.wf() ==> r.members() == self.members(),
    {
        let mut ok = true;
        let mut i: usize = 1;
        while i < self.names.len()
            invariant
                1 <= i,
                ok ==> forall|a: int, b: int|
                    #![trigger views(self.names@)[a], views(self.names@)[b]]
                    0 <= a < b < i && b < self.names@.len() ==> seq_lt(views(self.names@)[a], views(self.names@)[b]),
                !ok ==> !strictly_sorted(views(self.names@)),
            decreases self.names.len() - i,
        {
            if ok && !str_lt(self.names[i - 1].as_str(), self.names[i].as_str()) {
                ok = false;
                proof {
                    let k = views(self.names@);
                    assert(!seq_lt(k[i - 1], k[i as int]));
                }
            }
            proof {
                if ok {
                    let k = views(self.names@);
                    assert forall|a: int, b: int| #![trigger k[a], k[b]] 0 <= a < b < i + 1 && b < self.names@.len() implies seq_lt(k[a], k[b]) by {
                        if b == i && a < i - 1 {
                            crate::text::lemma_seq_lt_transitive(k[a], k[i - 1], k[b]);
                        }
                    }
                }
            }
            i = i + 1;
        }
        if ok {
            proof {
                let k = views(self.names@);
                assert forall|a: int, b: int| #![trigger k[a], k[b]] 0 <= a < b < k.len() implies seq_lt(k[a], k[b]) by {
                }
            }
            return self;
        }
        let mut r = GraduationState::new();
        let mut j: usize = 0;
        while j < self.names.len()
            invariant
                j <= self.names.len(),
                r.wf(),
            decreases self.names.len() - j,
        {
            r.add(self.names[j].clone());
            j = j + 1;
        }
        r
    }

    /// The queued names in order.
    pub fn names(&self) -> (r: Vec<String>)
        ensures
            views(r@) == self.members(),
    {
        crate::model::clone_strings(&self.names)
    }
}

impl Clone for GraduationState {
    fn clone(&self) -> (r: Self)
        ensures
            r.wf() == self.wf(),
            r.members() == self.members(),
    {
        GraduationState { names: crate::model::clone_strings(&self.names) }
    }
}

} // verus!
