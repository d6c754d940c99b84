//! Semantic versions, bump types and the version arithmetic of a release.
use vstd::prelude::*;

use crate::config::ZeroVersionBehavior;

use crate::text::{append_decimal, decimal};

verus! {

/// How far a changeset moves a package's version.
#[derive(Debug, PartialEq, Eq, Structural, Clone, Copy, Hash)]
pub enum BumpType {
    NoBump,
    Patch,
    Minor,
    Major,
}

impl BumpType {
    /// Position of the bump in the order `None < Patch < Minor < Major`.
    pub open spec fn rank(self) -> nat {
        match self {
            BumpType::NoBump => 0,
            BumpType::Patch => 1,
            BumpType::Minor => 2,
            BumpType::Major => 3,
        }
    }

    /// A bump that leaves the version unchanged.
    pub fn is_noop(&self) -> (r: bool)
        ensures
            r == (*self == BumpType::NoBump),
    {
        match self {
            BumpType::NoBump => true,
            _ => false,
        }
    }

    /// Whether `self` is a larger bump than `other`.
    pub fn exceeds(&self, other: &BumpType) -> (r: bool)
        ensures
            r == (self.rank() > other.rank()),
    {
        let a: u8 = match self {
            BumpType::NoBump => 0,
            BumpType::Patch => 1,
            BumpType::Minor => 2,
            BumpType::Major => 3,
        };
        let b: u8 = match other {
            BumpType::NoBump => 0,
            BumpType::Patch => 1,
            BumpType::Minor => 2,
            BumpType::Major => 3,
        };
        a > b
    }
}

/// The largest bump of a list, `None` for an empty list; of two equal bumps
/// the earlier one is kept.
pub open spec fn max_bump_of(s: Seq<BumpType>) -> Option<BumpType>
    decreases s.len(),
{
    if s.len() == 0 {
        Option::None
    } else {
        match max_bump_of(s.drop_last()) {
            Option::None => Option::Some(s.last()),
            Option::Some(m) => if s.last().rank() > m.rank() {
                Option::Some(s.last())
            } else {
                Option::Some(m)
            },
        }
    }
}

/// The maximum of a non-empty list is one of its elements and bounds all of them.
pub proof fn lemma_max_bump_of(s: Seq<BumpType>)
    ensures
        (max_bump_of(s) is None) == (s.len() == 0),
        max_bump_of(s) is Some ==> s.contains(max_bump_of(s)->0),
        max_bump_of(s) is Some ==> forall|i: int|
            0 <= i < s.len() ==> (#[trigger] s[i]).rank() <= max_bump_of(s)->0.rank(),
    decreases s.len(),
{
    if s.len() > 0 {
        lemma_max_bump_of(s.drop_last());
        let m = max_bump_of(s);
        if max_bump_of(s.drop_last()) is Some {
            let pm = max_bump_of(s.drop_last())->0;
            if m->0 == pm {
                let k = choose|k: int| 0 <= k < s.drop_last().len() && s.drop_last()[k] == pm;
                assert(s[k] == pm);
            }
            assert forall|i: int| 0 <= i < s.len() implies (#[trigger] s[i]).rank() <= m->0.rank() by {
                if i < s.len() - 1 {
                    assert(s.drop_last()[i] == s[i]);
                }
            }
        }
        assert(s[s.len() - 1] == s.last());
    }
}

/// The largest bump in `bumps`, or `None` when the list is empty.
pub fn max_bump_type(bumps: &[BumpType]) -> (r: Option<BumpType>)
    ensures
        r == max_bump_of(bumps@),
{
    let mut best: Option<BumpType> = Option::None;
    let mut i: usize = 0;
    while i < bumps.len()
        invariant
            i <= bumps@.len(),
            best == max_bump_of(bumps@.take(i as int)),
        decreases bumps@.len() - i,
    {
        proof {
            assert(bumps@.take(i + 1).drop_last() =~= bumps@.take(i as int));
        }
        let b = bumps[i];
        best = match best {
            Option::None => Option::Some(b),
            Option::Some(m) => if b.exceeds(&m) {
                Option::Some(b)
            } else {
                Option::Some(m)
            },
        };
        i = i + 1;
    }
    proof {
        assert(bumps@.take(bumps@.len() as int) =~= bumps@);
    }
    best
}

/// The abstract value of a version.
pub struct VersionView {
    pub major: nat,
    pub minor: nat,
    pub patch: nat,
    pub pre: Seq<char>,
    pub build: Seq<char>,
}

/// A semantic version `major.minor.patch[-pre][+build]`.
#[derive(Debug, PartialEq, Eq)]
pub struct Version {
    pub major: u64,
    pub minor: u64,
    pub patch: u64,
    /// Pre-release identifiers, empty for a normal release.
    pub pre: String,
    /// Build metadata, empty when absent.
    pub build: String,
}

impl View for Version {
    type V = VersionView;

    open spec fn view(&self) -> VersionView {
        VersionView {
            major: self.major as nat,
            minor: self.minor as nat,
            patch: self.patch as nat,
            pre: self.pre@,
            build: self.build@,
        }
    }
}

impl Clone for Version {
    fn clone(&self) -> (r: Self)
        ensures
            r == *self,
    {
        Version {
            major: self.major,
            minor: self.minor,
            patch: self.patch,
            pre: self.pre.clone(),
            build: self.build.clone(),
        }
    }
}

/// The value a version has after `bump` is applied: the bumped component
/// grows by one, the smaller components restart at zero and the
/// pre-release and build parts are dropped; a `None` bump changes nothing.
pub open spec fn bump_spec(v: VersionView, bump: BumpType) -> VersionView {
    match bump {
        BumpType::NoBump => v,
        BumpType::Patch => VersionView {
            major: v.major,
            minor: v.minor,
            patch: v.patch + 1,
            pre: Seq::empty(),
            build: Seq::empty(),
        },
        BumpType::Minor => VersionView {
            major: v.major,
            minor: v.minor + 1,
            patch: 0,
            pre: Seq::empty(),
            build: Seq::empty(),
        },
        BumpType::Major => VersionView {
            major: v.major + 1,
            minor: 0,
            patch: 0,
            pre: Seq::empty(),
            build: Seq::empty(),
        },
    }
}

/// A bump is representable when the component it raises is below the
/// integer limit.
pub open spec fn bump_fits(v: VersionView, bump: BumpType) -> bool {
    match bump {
        BumpType::NoBump => true,
        BumpType::Patch => v.patch < u64::MAX,
        BumpType::Minor => v.minor < u64::MAX,
        BumpType::Major => v.major < u64::MAX,
    }
}

/// Semantic-version precedence ignoring build metadata, on versions whose
/// pre-release parts are equal or where one of them is a normal release.
pub open spec fn release_precedes(a: VersionView, b: VersionView) -> bool {
    if a.major != b.major {
        a.major < b.major
    } else if a.minor != b.minor {
        a.minor < b.minor
    } else if a.patch != b.patch {
        a.patch < b.patch
    } else {
        a.pre.len() > 0 && b.pre.len() == 0
    }
}

/// A real bump always moves a version forward.
pub proof fn law_bump_moves_forward(v: VersionView, bump: BumpType)
    requires
        bump != BumpType::NoBump,
    ensures
        release_precedes(v, bump_spec(v, bump)),
{
}

/// The textual form of a version, as semver displays it.
pub open spec fn version_text(v: VersionView) -> Seq<char> {
    decimal(v.major) + seq!['.'] + decimal(v.minor) + seq!['.'] + decimal(v.patch) + (if v.pre.len()
        > 0 {
        seq!['-'] + v.pre
    } else {
        Seq::empty()
    }) + (if v.build.len() > 0 {
        seq!['+'] + v.build
    } else {
        Seq::empty()
    })
}

/// Whether a version carries pre-release identifiers.
pub open spec fn is_prerelease_spec(v: VersionView) -> bool {
    v.pre.len() > 0
}

/// Whether a version is in the initial-development range `0.x`.
pub open spec fn is_zero_version_spec(v: VersionView) -> bool {
    v.major == 0
}

/// Whether `version` is a pre-release.
pub fn is_prerelease(version: &Version) -> (r: bool)
    ensures
        r == is_prerelease_spec(version@),
{
    version.pre.as_str().unicode_len() > 0
}

/// Whether `version` is below `1.0.0` in its major component.
pub fn is_zero_version(version: &Version) -> (r: bool)
    ensures
        r == is_zero_version_spec(version@),
{
    version.major == 0
}

/// Applies `bump` to `version`.
pub fn bump_version(version: &Version, bump: BumpType) -> (r: Version)
    requires
        bump_fits(version@, bump),
    ensures
        r@ == bump_spec(version@, bump),
{
    match bump {
        BumpType::NoBump => version.clone(),
        BumpType::Patch => Version {
            major: version.major,
            minor: version.minor,
            patch: version.patch + 1,
            pre: String::new(),
            build: String::new(),
        },
        BumpType::Minor => Version {
            major: version.major,
            minor: version.minor + 1,
            patch: 0,
            pre: String::new(),
            build: String::new(),
        },
        BumpType::Major => Version {
            major: version.major + 1,
            minor: 0,
            patch: 0,
            pre: String::new(),
            build: String::new(),
        },
    }
}

/// The bump that applies to a version: with `EffectiveMinor`, a major bump
/// of a `0.x` version raises its minor component.
pub open spec fn effective_bump(v: VersionView, bump: BumpType, zero: ZeroVersionBehavior) -> BumpType {
    if v.major == 0 && bump == BumpType::Major && zero == ZeroVersionBehavior::EffectiveMinor {
        BumpType::Minor
    } else {
        bump
    }
}

/// The release a bump makes of a version: a pre-release becomes the normal
/// release it leads up to; a normal release is bumped as `effective_bump`
/// says.
pub open spec fn release_version_spec(v: VersionView, bump: BumpType, zero: ZeroVersionBehavior) -> VersionView {
    if is_prerelease_spec(v) {
        VersionView { major: v.major, minor: v.minor, patch: v.patch, pre: Seq::empty(), build: Seq::empty() }
    } else {
        bump_spec(v, effective_bump(v, bump, zero))
    }
}

/// A release never goes backwards: a pre-release becomes the normal
/// version it leads up to, and a real bump on a normal version moves it
/// forward, whatever the zero-version behavior.
pub proof fn law_release_moves_forward(v: VersionView, bump: BumpType, zero: ZeroVersionBehavior)
    requires
        bump != BumpType::NoBump || is_prerelease_spec(v),
    ensures
        release_precedes(v, release_version_spec(v, bump, zero)),
{
}

/// The release a bump makes of `version`, as [`release_version_spec`] says.
pub fn release_version(version: &Version, bump: BumpType, zero: ZeroVersionBehavior) -> (r: Version)
    requires
        is_prerelease_spec(version@) || bump_fits(version@, effective_bump(version@, bump, zero)),
    ensures
        r@ == release_version_spec(version@, bump, zero),
{
    if is_prerelease(version) {
        Version { major: version.major, minor: version.minor, patch: version.patch, pre: String::new(), build: String::new() }
    } else {
        let effective = if version.major == 0 && bump == BumpType::Major && zero == ZeroVersionBehavior::EffectiveMinor {
            BumpType::Minor
        } else {
            bump
        };
        bump_version(version, effective)
    }
}

/// Declares `semver::Error` so that the parser's failure can be carried.
#[verifier::external_type_specification]
#[verifier::external_body]
pub struct ExSemverError(semver::Error);

/// What `semver::Version::parse` yields for a text, as its five components
/// (major, minor, patch, pre-release, build); `None` when it rejects the text.
pub uninterp spec fn semver_parse(text: Seq<char>) -> Option<(u64, u64, u64, Seq<char>, Seq<char>)>;

/// Calls `semver::Version::parse` and hands back the components of the
/// version it produces. The contract claims only that the outcome is the
/// named function of the text.
#[verifier::external_body]
fn semver_parse_components(text: &str) -> (r: Result<(u64, u64, u64, String, String), semver::Error>)
    ensures
        match r {
            Ok(c) => semver_parse(text@) == Some((c.0, c.1, c.2, c.3@, c.4@)),
            Err(_) => semver_parse(text@) is None,
        },
{
    match semver::Version::parse(text) {
        Ok(v) => Ok((v.major, v.minor, v.patch, v.pre.as_str().to_string(), v.build.as_str().to_string())),
        Err(e) => Err(e),
    }
}

/// Whether the version `semver::Version::parse` yields for `a` precedes, in
/// semver's order, the one it yields for `b`.
pub uninterp spec fn semver_lt(a: Seq<char>, b: Seq<char>) -> bool;

/// Parses both texts with `semver::Version::parse` and compares the two
/// versions with semver's `<`. The contract claims that a comparison comes
/// back exactly when both texts parse, and that it is the named function of
/// the two texts.
#[verifier::external_body]
fn semver_text_lt(a: &str, b: &str) -> (r: Option<bool>)
    ensures
        r is Some <==> (semver_parse(a@) is Some && semver_parse(b@) is Some),
        r matches Some(x) ==> x == semver_lt(a@, b@),
{
    match semver::Version::parse(a) {
        Ok(x) => match semver::Version::parse(b) {
            Ok(y) => Some(x < y),
            Err(_) => None,
        },
        Err(_) => None,
    }
}

/// `x` is at least `m` in semver's order; false when a version does not
/// read back as a semantic version.
pub open spec fn not_below(x: VersionView, m: VersionView) -> bool {
    semver_parse(version_text(x)) is Some && semver_parse(version_text(m)) is Some && !semver_lt(
        version_text(x),
        version_text(m),
    )
}

/// The greatest of the versions in semver's order, the last of equal ones;
/// `None` for no version.
pub open spec fn max_version_spec(vs: Seq<VersionView>) -> Option<VersionView>
    decreases vs.len(),
{
    if vs.len() == 0 {
        None
    } else {
        match max_version_spec(vs.drop_last()) {
            None => Some(vs.last()),
            Some(m) => if not_below(vs.last(), m) {
                Some(vs.last())
            } else {
                Some(m)
            },
        }
    }
}

/// The greatest version is one of the versions, and there is one exactly
/// when there are versions.
pub proof fn law_max_version_is_one_of(vs: Seq<VersionView>)
    ensures
        max_version_spec(vs) is Some <==> vs.len() > 0,
        max_version_spec(vs) matches Some(v) ==> vs.contains(v),
    decreases vs.len(),
{
    if vs.len() > 0 {
        law_max_version_is_one_of(vs.drop_last());
        if let Some(m) = max_version_spec(vs) {
            if m == vs.last() {
                assert(vs[vs.len() - 1] == m);
            } else {
                let j = choose|j: int| 0 <= j < vs.drop_last().len() && vs.drop_last()[j] == m;
                assert(vs[j] == m);
            }
        }
    }
}

/// Semver's `<`, on texts that parse, is a strict weak order: never both
/// `a < b` and `b < a`, and `a < c` means `a < b` or `b < c`. (It is the
/// derived order of `semver::Version`, a total order.)
pub open spec fn semver_order_holds() -> bool {
    &&& forall|a: Seq<char>, b: Seq<char>|
        #![trigger semver_lt(a, b), semver_lt(b, a)]
        semver_parse(a) is Some && semver_parse(b) is Some && semver_lt(a, b) ==> !semver_lt(b, a)
    &&& forall|a: Seq<char>, b: Seq<char>, c: Seq<char>|
        #![trigger semver_lt(a, c), semver_lt(a, b)]
        #![trigger semver_lt(a, c), semver_lt(b, c)]
        semver_parse(a) is Some && semver_parse(b) is Some && semver_parse(c) is Some && semver_lt(a, c) ==> semver_lt(
            a,
            b,
        ) || semver_lt(b, c)
}

/// The greatest version is below none of the versions, when semver's order
/// is a strict weak order and every version reads back as one.
pub proof fn law_max_version_is_greatest(vs: Seq<VersionView>)
    requires
        semver_order_holds(),
        forall|i: int| 0 <= i < vs.len() ==> semver_parse(version_text(#[trigger] vs[i])) is Some,
    ensures
        max_version_spec(vs) matches Some(m) ==> forall|i: int| 0 <= i < vs.len() ==> not_below(m, #[trigger] vs[i]),
    decreases vs.len(),
{
    if vs.len() > 0 {
        let init = vs.drop_last();
        let last = vs.last();
        let tl = version_text(last);
        assert(semver_parse(tl) is Some) by {
            assert(vs[vs.len() - 1] == last);
        }
        assert forall|i: int| 0 <= i < init.len() implies semver_parse(version_text(#[trigger] init[i])) is Some by {
            assert(init[i] == vs[i]);
        }
        law_max_version_is_greatest(init);
        law_max_version_is_one_of(init);
        assert(!semver_lt(tl, tl));
        match max_version_spec(init) {
            None => {
                assert(init.len() == 0);
                assert forall|i: int| 0 <= i < vs.len() implies not_below(last, #[trigger] vs[i]) by {
                    assert(vs[i] == last);
                }
            },
            Some(p) => {
                let tp = version_text(p);
                let j = choose|j: int| 0 <= j < init.len() && init[j] == p;
                assert(semver_parse(version_text(init[j])) is Some);
                if not_below(last, p) {
                    assert forall|i: int| 0 <= i < vs.len() implies not_below(last, #[trigger] vs[i]) by {
                        if i < vs.len() - 1 {
                            assert(init[i] == vs[i]);
                            let ti = version_text(vs[i]);
                            assert(not_below(p, init[i]));
                            assert(!semver_lt(tl, tp));
                            assert(!semver_lt(tp, ti));
                            if semver_lt(tl, ti) {
                                assert(semver_lt(tl, tp) || semver_lt(tp, ti));
                            }
                        } else {
                            assert(vs[i] == last);
                        }
                    }
                } else {
                    assert(semver_lt(tl, tp));
                    assert(!semver_lt(tp, tl));
                    assert forall|i: int| 0 <= i < vs.len() implies not_below(p, #[trigger] vs[i]) by {
                        if i < vs.len() - 1 {
                            assert(init[i] == vs[i]);
                            assert(not_below(p, init[i]));
                        } else {
                            assert(vs[i] == last);
                        }
                    }
                }
            },
        }
    }
}

/// Whether `x` is at least `m` in semver's order.
pub fn version_not_below(x: &Version, m: &Version) -> (r: bool)
    ensures
        r == not_below(x@, m@),
{
    let xt = x.to_string();
    let mt = m.to_string();
    match semver_text_lt(xt.as_str(), mt.as_str()) {
        Some(lt) => !lt,
        None => false,
    }
}

/// A text that is not a semantic version.
#[derive(Debug)]
pub struct VersionParseError {
    pub input: String,
    pub source: semver::Error,
}

impl Version {
    /// The normal release `major.minor.patch`.
    pub fn new(major: u64, minor: u64, patch: u64) -> (v: Version)
        ensures
            v@ == (VersionView { major: major as nat, minor: minor as nat, patch: patch as nat, pre: Seq::empty(), build: Seq::empty() }),
    {
        Version { major, minor, patch, pre: String::new(), build: String::new() }
    }

    /// Parses a semantic version.
    pub fn parse(text: &str) -> (r: Result<Version, VersionParseError>)
        ensures
            r is Ok <==> semver_parse(text@) is Some,
            r matches Ok(v) ==> semver_parse(text@) == Some((v.major, v.minor, v.patch, v.pre@, v.build@)),
            r matches Err(e) ==> e.input@ == text@,
    {
        match semver_parse_components(text) {
            Ok(c) => Ok(Version { major: c.0, minor: c.1, patch: c.2, pre: c.3, build: c.4 }),
            Err(e) => Err(VersionParseError { input: text.to_owned(), source: e }),
        }
    }

    /// The textual form `major.minor.patch[-pre][+build]`.
    pub fn to_string(&self) -> (r: String)
        ensures
            r@ == version_text(self@),
    {
        let mut s = String::new();
        append_decimal(&mut s, self.major);
        s.append(".");
        append_decimal(&mut s, self.minor);
        s.append(".");
        append_decimal(&mut s, self.patch);
        let ghost core = s@;
        if self.pre.as_str().unicode_len() > 0 {
            s.append("-");
            s.append(self.pre.as_str());
        }
        let ghost with_pre = s@;
        if self.build.as_str().unicode_len() > 0 {
            s.append("+");
            s.append(self.build.as_str());
        }
        proof {
            reveal_strlit(".");
            reveal_strlit("-");
            reveal_strlit("+");
            assert(s@ =~= version_text(self@));
        }
        s
    }
}

} // verus!
