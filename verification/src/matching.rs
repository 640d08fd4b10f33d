//! Glob matching over canonical patterns. Pattern compilation and the
//! per-path match test come from the globset crate behind trusted wrappers;
//! the split into positive and negative patterns, the negation semantics and
//! the catalog filtering around them are verified.
use vstd::prelude::*;

use crate::pattern::{core_pattern, is_negated, negatives_of, positives_of};

verus! {

/// Whether the glob engine accepts a pattern string: it parses as glob
/// syntax and compiles to a matcher.
pub uninterp spec fn glob_ok(pattern: Seq<char>) -> bool;

/// Whether a path matches a glob pattern.
pub uninterp spec fn glob_match(pattern: Seq<char>, path: Seq<char>) -> bool;

/// A single compiled glob pattern, held as a one-pattern glob set.
#[verifier::external_body]
pub struct CompiledGlob {
    matcher: globset::GlobSet,
}

/// The pattern a compiled glob was built from.
pub uninterp spec fn compiled_pattern(g: CompiledGlob) -> Seq<char>;

#[verifier::external_type_specification]
#[verifier::external_body]
pub struct ExGlobsetError(globset::Error);

/// Relies on globset::Glob::new (default options) and
/// globset::GlobSetBuilder::build on a one-pattern set: acceptance — parsing
/// and regex compilation — is a deterministic function of the pattern string
/// alone, and the built set stands for exactly the pattern it was given. A
/// pattern the engine cannot compile (say, alternate groups nested past the
/// regex engine's limit) is reported as an error, never a panic. The default
/// options follow the build target (backslash escaping), so what is accepted
/// is fixed within any one build.
#[verifier::external_body]
fn compile_glob(pattern: &str) -> (r: Result<CompiledGlob, globset::Error>)
    ensures
        r is Ok <==> glob_ok(pattern@),
        r matches Ok(g) ==> compiled_pattern(g) == pattern@,
{
    let glob = globset::Glob::new(pattern)?;
    let mut builder = globset::GlobSetBuilder::new();
    builder.add(glob);
    Ok(CompiledGlob { matcher: builder.build()? })
}

/// Relies on globset::GlobSet::is_match on a one-pattern set: whether a path
/// matches is a deterministic function of the compiled pattern and the path
/// alone, fixed within any one build (the pattern was compiled under the
/// build target's default options).
#[verifier::external_body]
fn compiled_glob_is_match(g: &CompiledGlob, path: &str) -> (r: bool)
    ensures
        r == glob_match(compiled_pattern(*g), path@),
{
    g.matcher.is_match(path)
}

/// Relies on the Display impl of globset::Error for a human-readable
/// description of why a pattern was rejected.
#[verifier::external_body]
fn glob_error_message(e: &globset::Error) -> String {
    e.to_string()
}

/// A rejected glob pattern: the offending pattern (its negation marker
/// already stripped) and the matcher's description of the problem.
#[derive(Debug)]
pub struct PatternError {
    pub pattern: String,
    pub message: String,
}

/// Whether some pattern in the list matches the path.
pub open spec fn any_match(patterns: Seq<Seq<char>>, path: Seq<char>) -> bool {
    exists|i: int| 0 <= i < patterns.len() && glob_match(patterns[i], path)
}

/// Whether a path is selected by a canonical glob list: it matches some
/// positive pattern and no negative one, so a file matching any negative
/// pattern is excluded even if it also matches a positive one.
pub open spec fn selected(globs: Seq<Seq<char>>, path: Seq<char>) -> bool {
    any_match(positives_of(globs), path) && !any_match(negatives_of(globs), path)
}

/// Whether the glob engine accepts every pattern in a canonical glob list
/// (negation markers stripped).
pub open spec fn globs_ok(globs: Seq<Seq<char>>) -> bool {
    forall|i: int| 0 <= i < globs.len() ==> glob_ok(core_pattern(#[trigger] globs[i]))
}

/// The first pattern of a canonical glob list (its negation marker stripped)
/// that the glob engine does not accept.
pub open spec fn first_bad(globs: Seq<Seq<char>>) -> Seq<char>
    decreases globs.len(),
{
    if globs.len() == 0 {
        Seq::empty()
    } else if !glob_ok(core_pattern(globs.first())) {
        core_pattern(globs.first())
    } else {
        first_bad(globs.drop_first())
    }
}

/// The compiled positive and negative patterns of one canonical glob list.
pub struct Matchers {
    positive: Vec<CompiledGlob>,
    negative: Vec<CompiledGlob>,
}

/// The patterns a list of compiled globs was built from.
pub open spec fn patterns_of(globs: Seq<CompiledGlob>) -> Seq<Seq<char>> {
    globs.map_values(|g: CompiledGlob| compiled_pattern(g))
}

impl Matchers {
    /// The positive patterns these matchers stand for.
    pub closed spec fn pos_patterns(self) -> Seq<Seq<char>> {
        patterns_of(self.positive@)
    }

    /// The negative patterns these matchers stand for.
    pub closed spec fn neg_patterns(self) -> Seq<Seq<char>> {
        patterns_of(self.negative@)
    }
}

/// Every negated glob's pattern stands in the negative pattern list.
proof fn lemma_negatives_contain(globs: Seq<Seq<char>>, i: int)
    requires
        0 <= i < globs.len(),
        is_negated(globs[i]),
    ensures
        exists|k: int|
            0 <= k < negatives_of(globs).len() && negatives_of(globs)[k] == core_pattern(
                globs[i],
            ),
    decreases globs.len(),
{
    if i == globs.len() - 1 {
        let k = negatives_of(globs).len() - 1;
        assert(negatives_of(globs)[k] == core_pattern(globs[i]));
    } else {
        lemma_negatives_contain(globs.drop_last(), i);
        let k = choose|k: int|
            0 <= k < negatives_of(globs.drop_last()).len() && negatives_of(globs.drop_last())[k]
                == core_pattern(globs.drop_last()[i]);
        assert(negatives_of(globs)[k] == core_pattern(globs[i]));
    }
}

/// A path that matches any negative pattern is excluded, even when it also
/// matches a positive one.
pub proof fn lemma_negative_match_excludes(globs: Seq<Seq<char>>, path: Seq<char>, i: int)
    requires
        0 <= i < globs.len(),
        is_negated(globs[i]),
        glob_match(core_pattern(globs[i]), path),
    ensures
        !selected(globs, path),
{
    lemma_negatives_contain(globs, i);
}

/// When all patterns up to a failing one are accepted, the failing one is
/// the first bad pattern of the whole list.
proof fn lemma_first_bad_at(globs: Seq<Seq<char>>, i: int)
    requires
        0 <= i < globs.len(),
        forall|j: int| 0 <= j < i ==> glob_ok(core_pattern(#[trigger] globs[j])),
        !glob_ok(core_pattern(globs[i])),
    ensures
        first_bad(globs) == core_pattern(globs[i]),
    decreases i,
{
    if i == 0 {
    } else {
        assert(glob_ok(core_pattern(globs[0])));
        lemma_first_bad_at(globs.drop_first(), i - 1);
    }
}

/// Compiles a canonical glob list into its positive and negative matchers,
/// reporting the first pattern the glob engine does not accept.
pub fn build_matchers(globs: &Vec<String>) -> (r: Result<Matchers, PatternError>)
    ensures
        r is Ok <==> globs_ok(globs.deep_view()),
        r matches Ok(m) ==> m.pos_patterns() == positives_of(globs.deep_view())
            && m.neg_patterns() == negatives_of(globs.deep_view()),
        r matches Err(e) ==> e.pattern@ == first_bad(globs.deep_view()),
{
    let ghost all: Seq<Seq<char>> = globs.deep_view();
    let mut positive: Vec<CompiledGlob> = Vec::new();
    let mut negative: Vec<CompiledGlob> = Vec::new();
    let mut i: usize = 0;
    while i < globs.len()
        invariant
            i <= globs@.len(),
            all == globs.deep_view(),
            all.len() == globs@.len(),
            forall|j: int| 0 <= j < i ==> glob_ok(core_pattern(#[trigger] all[j])),
            patterns_of(positive@) == positives_of(all.subrange(0, i as int)),
            patterns_of(negative@) == negatives_of(all.subrange(0, i as int)),
        decreases globs@.len() - i,
    {
        let entry: &String = &globs[i];
        let ghost glob: Seq<char> = entry@;
        proof {
            assert(all[i as int] == glob);
            assert(all.subrange(0, (i + 1) as int).drop_last() =~= all.subrange(0, i as int));
            assert(all.subrange(0, (i + 1) as int).last() == glob);
        }
        let entry_len = entry.as_str().unicode_len();
        let neg = entry_len >= 1 && entry.as_str().get_char(0) == '!';
        let core: &str = if neg {
            entry.as_str().substring_char(1, entry_len)
        } else {
            entry.as_str()
        };
        proof {
            assert(core@ =~= core_pattern(glob));
        }
        match compile_glob(core) {
            Ok(compiled) => {
                if neg {
                    negative.push(compiled);
                } else {
                    positive.push(compiled);
                }
                proof {
                    assert(patterns_of(positive@) =~= positives_of(
                        all.subrange(0, (i + 1) as int),
                    ));
                    assert(patterns_of(negative@) =~= negatives_of(
                        all.subrange(0, (i + 1) as int),
                    ));
                }
            },
            Err(e) => {
                proof {
                    lemma_first_bad_at(all, i as int);
                }
                let message = glob_error_message(&e);
                return Err(PatternError { pattern: core.to_owned(), message });
            },
        }
        i = i + 1;
    }
    proof {
        assert(all.subrange(0, all.len() as int) =~= all);
    }
    Ok(Matchers { positive, negative })
}

/// Whether some compiled glob in the list matches the path.
fn any_compiled_match(globs: &Vec<CompiledGlob>, path: &str) -> (r: bool)
    ensures
        r == any_match(patterns_of(globs@), path@),
{
    let mut i: usize = 0;
    while i < globs.len()
        invariant
            i <= globs@.len(),
            forall|j: int| 0 <= j < i ==> !glob_match(patterns_of(globs@)[j], path@),
        decreases globs@.len() - i,
    {
        if compiled_glob_is_match(&globs[i], path) {
            proof {
                assert(glob_match(patterns_of(globs@)[i as int], path@));
            }
            return true;
        }
        i = i + 1;
    }
    false
}

impl Matchers {
    /// Whether a path is selected: it matches some positive pattern and no
    /// negative one.
    pub fn path_selected(&self, path: &str) -> (r: bool)
        ensures
            r == (any_match(self.pos_patterns(), path@) && !any_match(
                self.neg_patterns(),
                path@,
            )),
    {
        any_compiled_match(&self.positive, path) && !any_compiled_match(&self.negative, path)
    }
}

} // verus!
