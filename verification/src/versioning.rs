//! The version a package is released at: bumps, `0.x` behavior,
//! pre-release numbering and graduation to `1.0.0`.
use vstd::prelude::*;

use crate::config::ZeroVersionBehavior;
use crate::release_state::{spec_identifier, PrereleaseSpec};
use crate::text::{append_decimal, decimal, digits_value, lemma_digits_value_prefix};
use crate::version::{
    bump_fits, bump_spec, bump_version, effective_bump, is_prerelease, is_prerelease_spec, release_version,
    release_version_spec, BumpType, Version, VersionView,
};

verus! {

/// The largest pre-release number that is recognised, exclusive.
pub open spec fn number_limit() -> nat {
    1_000_000_000_000_000_000
}

/// Whether every character is a decimal digit.
pub open spec fn all_digits(s: Seq<char>) -> bool {
    forall|i: int| 0 <= i < s.len() ==> '0' <= #[trigger] s[i] <= '9'
}

/// The number of a `tag.N` pre-release identifier, or 0 when `pre` is not
/// one for `tag`.
pub open spec fn prerelease_number(pre: Seq<char>, tag: Seq<char>) -> nat {
    let k = tag.len() as int;
    let rest = pre.skip(k + 1);
    if pre.len() > k + 1 && pre.take(k) == tag && pre[k] == '.' && all_digits(rest) && digits_value(rest)
        < number_limit() {
        digits_value(rest)
    } else {
        0
    }
}

/// The identifier `tag.N`.
pub open spec fn prerelease_text(tag: Seq<char>, n: nat) -> Seq<char> {
    tag + seq!['.'] + decimal(n)
}

/// A version's normal part with the given pre-release identifier.
pub open spec fn with_pre(v: VersionView, pre: Seq<char>) -> VersionView {
    VersionView { major: v.major, minor: v.minor, patch: v.patch, pre, build: Seq::empty() }
}

/// The version a package is released at. Graduating gives `1.0.0`, as a
/// first pre-release when a tag is given. Otherwise, without a tag, see
/// [`release_version_spec`]; with one, a pre-release of the same normal
/// version continues (the number goes up by one when the tag is the
/// same, starts at 1 otherwise) and a normal version is bumped and gets
/// the first pre-release.
pub open spec fn next_version_spec(
    v: VersionView,
    bump: BumpType,
    tag: Option<Seq<char>>,
    zero: ZeroVersionBehavior,
    graduate: bool,
) -> VersionView {
    if graduate {
        let base = VersionView { major: 1, minor: 0, patch: 0, pre: Seq::empty(), build: Seq::empty() };
        match tag {
            Some(t) => with_pre(base, prerelease_text(t, 1)),
            None => base,
        }
    } else {
        match tag {
            None => release_version_spec(v, bump, zero),
            Some(t) => if is_prerelease_spec(v) {
                with_pre(v, prerelease_text(t, prerelease_number(v.pre, t) + 1))
            } else {
                with_pre(bump_spec(v, effective_bump(v, bump, zero)), prerelease_text(t, 1))
            },
        }
    }
}

/// Continuing a pre-release with the tag it already has moves its number
/// up by one: a release of `X.Y.Z-tag.n` with pre-release `tag` is
/// `X.Y.Z-tag.(n+1)`, whatever the bump.
pub proof fn law_same_tag_counts_up(
    v: VersionView,
    bump: BumpType,
    zero: ZeroVersionBehavior,
    tag: Seq<char>,
    n: nat,
)
    requires
        v.pre == tag + seq!['.'] + decimal(n),
        n < number_limit(),
    ensures
        next_version_spec(v, bump, Some(tag), zero, false) == (VersionView {
            major: v.major,
            minor: v.minor,
            patch: v.patch,
            pre: tag + seq!['.'] + decimal(n + 1),
            build: Seq::empty(),
        }),
{
    crate::text::lemma_decimal_digits(n);
    let k = tag.len() as int;
    let pre = v.pre;
    assert(pre.take(k) =~= tag);
    assert(pre[k] == '.');
    assert(pre.skip(k + 1) =~= decimal(n));
    assert(all_digits(pre.skip(k + 1)));
    assert(prerelease_number(pre, tag) == n);
}

/// What a version needs for [`next_version`] not to overflow.
pub open spec fn next_version_fits(v: VersionView, bump: BumpType, zero: ZeroVersionBehavior) -> bool {
    is_prerelease_spec(v) || bump_fits(v, effective_bump(v, bump, zero))
}

/// The number after `tag.` in `pre`, as [`prerelease_number`] says.
pub fn parse_prerelease_number(pre: &str, tag: &str) -> (r: u64)
    ensures
        r == prerelease_number(pre@, tag@),
{
    let n = pre.unicode_len();
    let k = tag.unicode_len();
    if n <= k || n - k <= 1 {
        return 0;
    }
    let mut i: usize = 0;
    while i < k
        invariant
            n == pre@.len(),
            k == tag@.len(),
            n > k + 1,
            i <= k,
            forall|j: int| 0 <= j < i ==> pre@[j] == tag@[j],
        decreases k - i,
    {
        if pre.get_char(i) != tag.get_char(i) {
            proof {
                assert(pre@.take(k as int)[i as int] != tag@[i as int]);
            }
            return 0;
        }
        i = i + 1;
    }
    proof {
        assert(pre@.take(k as int) =~= tag@);
    }
    if pre.get_char(k) != '.' {
        return 0;
    }
    let ghost rest = pre@.skip(k + 1);
    let mut value: u64 = 0;
    let mut j: usize = k + 1;
    while j < n
        invariant
            n == pre@.len(),
            k == tag@.len(),
            k + 1 <= j <= n,
            rest == pre@.skip(k + 1),
            all_digits(rest.take(j - k - 1)),
            value == digits_value(rest.take(j - k - 1)),
            value < number_limit(),
        decreases n - j,
    {
        let c = pre.get_char(j);
        proof {
            assert(rest.take(j - k) =~= rest.take(j - k - 1).push(c));
            assert(rest.take(j - k).drop_last() =~= rest.take(j - k - 1));
        }
        if c < '0' || c > '9' {
            proof {
                assert(rest[j - k - 1] == c);
                assert(!all_digits(rest));
            }
            return 0;
        }
        let d = (c as u32 - 48) as u64;
        if value >= 100_000_000_000_000_000 {
            proof {
                assert(digits_value(rest.take(j - k)) >= number_limit());
                if all_digits(rest) {
                    lemma_digits_value_prefix(rest, j - k);
                }
            }
            return 0;
        }
        let next = value * 10 + d;
        if next >= 1_000_000_000_000_000_000 {
            proof {
                assert(digits_value(rest.take(j - k)) >= number_limit());
                if all_digits(rest) {
                    lemma_digits_value_prefix(rest, j - k);
                }
            }
            return 0;
        }
        value = next;
        j = j + 1;
    }
    proof {
        assert(rest.take(n - k - 1) =~= rest);
    }
    value
}

/// The identifier `tag.N`.
fn prerelease_identifier(tag: &str, number: u64) -> (r: String)
    ensures
        r@ == prerelease_text(tag@, number as nat),
{
    let mut s = crate::text::owned(tag);
    s.append(".");
    proof {
        reveal_strlit(".");
    }
    append_decimal(&mut s, number);
    s
}

/// The version a package is released at, as [`next_version_spec`] says.
pub fn next_version(
    version: &Version,
    bump: BumpType,
    prerelease: Option<&PrereleaseSpec>,
    zero: ZeroVersionBehavior,
    graduate: bool,
) -> (r: Version)
    requires
        next_version_fits(version@, bump, zero),
    ensures
        r@ == next_version_spec(
            version@,
            bump,
            match prerelease {
                Some(p) => Some(spec_identifier(*p)),
                None => None,
            },
            zero,
            graduate,
        ),
{
    if graduate {
        let pre = match prerelease {
            Some(p) => prerelease_identifier(p.identifier().as_str(), 1),
            None => String::new(),
        };
        return Version { major: 1, minor: 0, patch: 0, pre, build: String::new() };
    }
    match prerelease {
        None => release_version(version, bump, zero),
        Some(p) => {
            let tag = p.identifier();
            if is_prerelease(version) {
                let number = parse_prerelease_number(version.pre.as_str(), tag.as_str());
                let pre = prerelease_identifier(tag.as_str(), number + 1);
                Version { major: version.major, minor: version.minor, patch: version.patch, pre, build: String::new() }
            } else {
                let effective = if version.major == 0 && bump == BumpType::Major && zero
                    == ZeroVersionBehavior::EffectiveMinor {
                    BumpType::Minor
                } else {
                    bump
                };
                let base = bump_version(version, effective);
                let pre = prerelease_identifier(tag.as_str(), 1);
                Version { major: base.major, minor: base.minor, patch: base.patch, pre, build: String::new() }
            }
        },
    }
}

} // verus!
