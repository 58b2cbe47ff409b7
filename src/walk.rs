use vstd::prelude::*;
use ignore::overrides::{Override, OverrideBuilder};
use ignore::WalkBuilder;
use crate::error::AppError;

verus! {

#[verifier::external_type_specification]
#[verifier::external_body]
pub struct ExOverride(Override);

#[verifier::external_type_specification]
#[verifier::external_body]
pub struct ExOverrideBuilder(OverrideBuilder);

#[verifier::external_type_specification]
#[verifier::external_body]
pub struct ExWalkBuilder(WalkBuilder);

/// The override globs a builder holds, in the order they were added.
pub uninterp spec fn builder_globs(b: OverrideBuilder) -> Seq<Seq<char>>;

/// The override globs a built matcher was made from, in order.
pub uninterp spec fn override_globs(o: Override) -> Seq<Seq<char>>;

/// The paths a walk starts from, in order.
pub uninterp spec fn walk_roots(b: WalkBuilder) -> Seq<Seq<char>>;

/// The override globs a walk applies, in order.
pub uninterp spec fn walk_override_globs(b: WalkBuilder) -> Seq<Seq<char>>;

/// The glob that leaves lock files out of every walk.
pub open spec fn lock_globs() -> Seq<Seq<char>> {
    seq!["!*.lock"@]
}

/// Relies on `ignore::overrides::OverrideBuilder::new`: an empty set of
/// override globs matched relative to `root`.
#[verifier::external_body]
fn override_builder(root: &str) -> (r: OverrideBuilder)
    ensures
        builder_globs(r) == Seq::<Seq<char>>::empty(),
{
    OverrideBuilder::new(root)
}

/// Relies on `ignore::overrides::OverrideBuilder::add`: the glob, read as
/// one line of an ignore file with `!` inverted, joins the set, or is
/// refused with an error and the set is left as it was. `!*.lock` is a
/// plain glob that is always taken.
#[verifier::external_body]
fn add_override(builder: &mut OverrideBuilder, glob: &str) -> (r: Result<(), ignore::Error>)
    ensures
        r is Err ==> builder_globs(*final(builder)) == builder_globs(*old(builder)),
        glob@ == "!*.lock"@ ==> r is Ok && builder_globs(*final(builder)) == builder_globs(
            *old(builder),
        ).push(glob@),
{
    match builder.add(glob) {
        Ok(_) => Ok(()),
        Err(e) => Err(e),
    }
}

/// Relies on `ignore::overrides::OverrideBuilder::build`: the matcher for the
/// globs added so far, or an error; the single glob `!*.lock` always builds.
#[verifier::external_body]
fn build_override(builder: &OverrideBuilder) -> (r: Result<Override, ignore::Error>)
    ensures
        r matches Ok(o) ==> override_globs(o) == builder_globs(*builder),
        builder_globs(*builder) == lock_globs() ==> r is Ok,
{
    builder.build()
}

/// The override rules that a walk from `root` applies: lock files (`*.lock`)
/// are always left out.
pub fn lock_overrides(root: &str) -> (r: Result<Override, AppError>)
    ensures
        r matches Ok(o) && override_globs(o) == lock_globs(),
{
    let mut builder = override_builder(root);
    match add_override(&mut builder, "!*.lock") {
        Ok(()) => {},
        Err(e) => {
            return Err(AppError::GitIgnoreError(e));
        },
    }
    assert(builder_globs(builder) =~= lock_globs());
    match build_override(&builder) {
        Ok(o) => Ok(o),
        Err(e) => Err(AppError::GitIgnoreError(e)),
    }
}

/// Relies on `ignore::WalkBuilder::new`: a recursive walk of `root` alone,
/// with no override globs. Nothing is read until the walk is built.
#[verifier::external_body]
fn walk_builder_new(root: &str) -> (r: WalkBuilder)
    ensures
        walk_roots(r) == seq![root@],
        walk_override_globs(r) == Seq::<Seq<char>>::empty(),
{
    WalkBuilder::new(root)
}

/// Relies on `ignore::WalkBuilder::add`: one more path, walked recursively
/// by the same walk.
#[verifier::external_body]
fn walk_builder_add(builder: &mut WalkBuilder, path: &str)
    ensures
        walk_roots(*final(builder)) == walk_roots(*old(builder)).push(path@),
        walk_override_globs(*final(builder)) == walk_override_globs(*old(builder)),
{
    builder.add(path);
}

/// Relies on `ignore::WalkBuilder::overrides`: the walk applies these
/// override rules in place of any it had.
#[verifier::external_body]
fn walk_builder_overrides(builder: &mut WalkBuilder, overrides: Override)
    ensures
        walk_roots(*final(builder)) == walk_roots(*old(builder)),
        walk_override_globs(*final(builder)) == override_globs(overrides),
{
    builder.overrides(overrides);
}

/// The views of a list of patterns.
pub open spec fn pattern_views(patterns: Seq<String>) -> Seq<Seq<char>> {
    patterns.map_values(|p: String| p@)
}

/// The walk that an Add runs: every pattern is walked, the first one being
/// the root, and lock files are left out throughout.
pub fn walk_builder(patterns: &Vec<String>) -> (r: Result<WalkBuilder, AppError>)
    requires
        patterns@.len() > 0,
    ensures
        r matches Ok(b) && walk_roots(b) == pattern_views(patterns@) && walk_override_globs(b)
            == lock_globs(),
{
    let root = patterns[0].as_str();
    let mut builder = walk_builder_new(root);
    let overrides = match lock_overrides(root) {
        Ok(o) => o,
        Err(e) => {
            return Err(e);
        },
    };
    let mut i: usize = 1;
    assert(walk_roots(builder) =~= pattern_views(patterns@).subrange(0, 1));
    while i < patterns.len()
        invariant
            1 <= i <= patterns@.len(),
            walk_roots(builder) == pattern_views(patterns@).subrange(0, i as int),
            walk_override_globs(builder) == Seq::<Seq<char>>::empty(),
            override_globs(overrides) == lock_globs(),
        decreases patterns@.len() - i,
    {
        walk_builder_add(&mut builder, patterns[i].as_str());
        assert(pattern_views(patterns@).subrange(0, i as int + 1) =~= pattern_views(
            patterns@,
        ).subrange(0, i as int).push(patterns@[i as int]@));
        i = i + 1;
    }
    assert(pattern_views(patterns@).subrange(0, i as int) =~= pattern_views(patterns@));
    walk_builder_overrides(&mut builder, overrides);
    Ok(builder)
}

} // verus!
