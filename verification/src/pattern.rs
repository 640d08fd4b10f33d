//! The pattern normalizer: raw configuration strings become canonical glob
//! patterns; entries that do not carry the root-scope marker are dropped.
use vstd::prelude::*;

verus! {

/// The root-scope marker that every usable raw pattern must carry.
pub open spec fn root_marker() -> Seq<char> {
    "{workspaceRoot}/"@
}

/// Whether a pattern starts with the negation marker.
pub open spec fn is_negated(s: Seq<char>) -> bool {
    s.len() > 0 && s[0] == '!'
}

/// A pattern with its negation marker stripped; unchanged when it has none.
pub open spec fn core_pattern(s: Seq<char>) -> Seq<char> {
    if is_negated(s) {
        s.drop_first()
    } else {
        s
    }
}

/// Whether a raw entry carries the root-scope marker, after the optional
/// negation marker.
pub open spec fn carries_root_marker(raw: Seq<char>) -> bool {
    root_marker().is_prefix_of(core_pattern(raw))
}

/// The canonical glob of one raw entry: the root-scope marker stripped and
/// the negation marker, if there was one, re-applied to the front. `None`
/// when the entry does not carry the marker.
pub open spec fn normalize_one(raw: Seq<char>) -> Option<Seq<char>> {
    if carries_root_marker(raw) {
        let stripped = core_pattern(raw).skip(root_marker().len() as int);
        if is_negated(raw) {
            Some(seq!['!'] + stripped)
        } else {
            Some(stripped)
        }
    } else {
        None
    }
}

/// The canonical globs of a raw pattern list: each usable entry normalized,
/// in input order, duplicates kept; unusable entries are simply omitted.
pub open spec fn canonical_globs(raws: Seq<Seq<char>>) -> Seq<Seq<char>>
    decreases raws.len(),
{
    if raws.len() == 0 {
        Seq::empty()
    } else {
        let rest = canonical_globs(raws.drop_last());
        match normalize_one(raws.last()) {
            Some(g) => rest.push(g),
            None => rest,
        }
    }
}

/// The positive canonical globs, in order.
pub open spec fn positives_of(globs: Seq<Seq<char>>) -> Seq<Seq<char>>
    decreases globs.len(),
{
    if globs.len() == 0 {
        Seq::empty()
    } else {
        let rest = positives_of(globs.drop_last());
        if is_negated(globs.last()) {
            rest
        } else {
            rest.push(globs.last())
        }
    }
}

/// The negative canonical globs with their negation marker stripped, in
/// order.
pub open spec fn negatives_of(globs: Seq<Seq<char>>) -> Seq<Seq<char>>
    decreases globs.len(),
{
    if globs.len() == 0 {
        Seq::empty()
    } else {
        let rest = negatives_of(globs.drop_last());
        if is_negated(globs.last()) {
            rest.push(core_pattern(globs.last()))
        } else {
            rest
        }
    }
}

/// When no raw entry carries the root-scope marker, nothing survives
/// normalization.
pub proof fn lemma_no_marker_no_globs(raws: Seq<Seq<char>>)
    requires
        forall|i: int| 0 <= i < raws.len() ==> !carries_root_marker(#[trigger] raws[i]),
    ensures
        canonical_globs(raws).len() == 0,
    decreases raws.len(),
{
    if raws.len() > 0 {
        lemma_no_marker_no_globs(raws.drop_last());
        assert(!carries_root_marker(raws[raws.len() - 1]));
    }
}

/// Whether `p` is a prefix of `s`.
fn has_prefix(s: &str, p: &str) -> (r: bool)
    ensures
        r == p@.is_prefix_of(s@),
{
    let sl = s.unicode_len();
    let pl = p.unicode_len();
    if pl > sl {
        return false;
    }
    let mut i: usize = 0;
    while i < pl
        invariant
            i <= pl,
            pl <= sl,
            pl == p@.len(),
            sl == s@.len(),
            forall|j: int| 0 <= j < i ==> s@[j] == p@[j],
        decreases pl - i,
    {
        if s.get_char(i) != p.get_char(i) {
            return false;
        }
        i = i + 1;
    }
    proof {
        assert(p@ =~= s@.subrange(0, p@.len() as int));
    }
    true
}

/// Normalizes a raw pattern list into canonical globs, dropping every entry
/// that does not carry the root-scope marker.
pub fn globs_from_workspace_inputs(workspace_file_sets: &[String]) -> (globs: Vec<String>)
    ensures
        globs.deep_view() == canonical_globs(workspace_file_sets.deep_view()),
{
    let ghost raws: Seq<Seq<char>> = workspace_file_sets.deep_view();
    let marker: &str = "{workspaceRoot}/";
    proof {
        reveal_strlit("{workspaceRoot}/");
    }
    let marker_len = marker.unicode_len();
    let mut globs: Vec<String> = Vec::new();
    let mut i: usize = 0;
    while i < workspace_file_sets.len()
        invariant
            i <= workspace_file_sets@.len(),
            raws == workspace_file_sets.deep_view(),
            raws.len() == workspace_file_sets@.len(),
            marker@ == root_marker(),
            marker_len == root_marker().len(),
            globs.deep_view() == canonical_globs(raws.subrange(0, i as int)),
        decreases workspace_file_sets@.len() - i,
    {
        let entry: &String = vstd::slice::slice_index_get(workspace_file_sets, i);
        let ghost raw: Seq<char> = entry@;
        proof {
            assert(raws[i as int] == raw);
            assert(raws.subrange(0, (i + 1) as int).drop_last() =~= raws.subrange(0, i as int));
            assert(raws.subrange(0, (i + 1) as int).last() == raw);
        }
        let entry_len = entry.as_str().unicode_len();
        let neg = entry_len >= 1 && entry.as_str().get_char(0) == '!';
        proof {
            assert(neg == is_negated(raw));
        }
        let rest: &str = if neg {
            entry.as_str().substring_char(1, entry_len)
        } else {
            entry.as_str()
        };
        proof {
            assert(rest@ =~= core_pattern(raw));
        }
        if has_prefix(rest, marker) {
            let stripped: &str = rest.substring_char(marker_len, rest.unicode_len());
            proof {
                assert(stripped@ =~= core_pattern(raw).skip(root_marker().len() as int));
            }
            let glob: String = if neg {
                let mut g = String::from_str("!");
                g.append(stripped);
                proof {
                    reveal_strlit("!");
                    assert(("!"@) =~= seq!['!']);
                    assert(g@ =~= seq!['!'] + core_pattern(raw).skip(root_marker().len() as int));
                }
                g
            } else {
                String::from_str(stripped)
            };
            proof {
                assert(normalize_one(raw) == Some(glob@));
            }
            globs.push(glob);
            proof {
                assert(globs.deep_view() =~= canonical_globs(raws.subrange(0, (i + 1) as int)));
            }
        } else {
            proof {
                assert(normalize_one(raw) is None);
                assert(globs.deep_view() =~= canonical_globs(raws.subrange(0, (i + 1) as int)));
            }
        }
        i = i + 1;
    }
    proof {
        assert(raws.subrange(0, raws.len() as int) =~= raws);
    }
    globs
}

} // verus!
