//! Comma-joining of string sequences: used both for cache keys (the joined
//! canonical glob patterns) and for the concatenation of matched file hashes.
use vstd::prelude::*;

verus! {

/// The comma-join of a sequence of strings: the items in order, with one
/// comma between each pair of neighbours.
pub open spec fn comma_join(items: Seq<Seq<char>>) -> Seq<char>
    decreases items.len(),
{
    if items.len() == 0 {
        Seq::empty()
    } else if items.len() == 1 {
        items[0]
    } else {
        comma_join(items.drop_last()) + seq![','] + items.last()
    }
}

/// Joins the items with a comma between each pair of neighbours.
pub fn join_with_commas(items: &Vec<String>) -> (s: String)
    ensures
        s@ == comma_join(items.deep_view()),
{
    let ghost all: Seq<Seq<char>> = items.deep_view();
    let mut s = String::new();
    let mut i: usize = 0;
    while i < items.len()
        invariant
            i <= items@.len(),
            all == items.deep_view(),
            all.len() == items@.len(),
            s@ == comma_join(all.subrange(0, i as int)),
        decreases items@.len() - i,
    {
        proof {
            assert(all.subrange(0, (i + 1) as int).drop_last() =~= all.subrange(0, i as int));
            assert(all.subrange(0, (i + 1) as int).last() == items@[i as int]@);
            reveal_strlit(",");
        }
        if i > 0 {
            s.append(",");
        }
        s.append(items[i].as_str());
        i = i + 1;
    }
    proof {
        assert(all.subrange(0, items@.len() as int) =~= all);
    }
    s
}

/// Whether a string holds no comma.
pub open spec fn comma_free(s: Seq<char>) -> bool {
    forall|j: int| 0 <= j < s.len() ==> s[j] != ','
}

/// Whether every string in the list is comma-free.
pub open spec fn all_comma_free(items: Seq<Seq<char>>) -> bool {
    forall|i: int| 0 <= i < items.len() ==> comma_free(#[trigger] items[i])
}

/// Distinct cache keys for distinct pattern lists: on nonempty lists of
/// comma-free items the comma-join is injective, so two lists that differ —
/// in particular the same patterns in another order — produce different
/// joined keys.
pub proof fn lemma_comma_join_injective(a: Seq<Seq<char>>, b: Seq<Seq<char>>)
    requires
        a.len() > 0,
        b.len() > 0,
        all_comma_free(a),
        all_comma_free(b),
        comma_join(a) == comma_join(b),
    ensures
        a == b,
    decreases a.len(),
{
    let s = comma_join(a);
    if a.len() == 1 && b.len() == 1 {
        assert(a[0] == b[0]);
        assert(a =~= b);
    } else if a.len() == 1 {
        let jb = comma_join(b.drop_last());
        assert(s == jb + seq![','] + b.last());
        assert(s[jb.len() as int] == ',');
        assert(comma_free(a[0]));
        assert(false);
    } else if b.len() == 1 {
        let ja = comma_join(a.drop_last());
        assert(s == ja + seq![','] + a.last());
        assert(s[ja.len() as int] == ',');
        assert(comma_free(b[0]));
        assert(false);
    } else {
        let ja = comma_join(a.drop_last());
        let jb = comma_join(b.drop_last());
        let la = ja.len() as int;
        let lb = jb.len() as int;
        assert(s == ja + seq![','] + a.last());
        assert(s == jb + seq![','] + b.last());
        assert(comma_free(a.last()));
        assert(comma_free(b.last()));
        if la < lb {
            assert(s[lb] == ',');
            assert(s[lb] == a.last()[lb - la - 1]);
            assert(false);
        }
        if lb < la {
            assert(s[la] == ',');
            assert(s[la] == b.last()[la - lb - 1]);
            assert(false);
        }
        assert(la == lb);
        assert(a.last().len() == b.last().len());
        assert forall|k: int| 0 <= k < a.last().len() implies a.last()[k] == b.last()[k] by {
            assert(a.last()[k] == s[la + 1 + k]);
            assert(b.last()[k] == s[lb + 1 + k]);
        }
        assert(a.last() =~= b.last());
        assert forall|k: int| 0 <= k < la implies ja[k] == jb[k] by {
            assert(ja[k] == s[k]);
            assert(jb[k] == s[k]);
        }
        assert(ja =~= jb);
        assert(all_comma_free(a.drop_last())) by {
            assert(forall|i: int|
                0 <= i < a.drop_last().len() ==> a.drop_last()[i] == #[trigger] a[i]);
        }
        assert(all_comma_free(b.drop_last())) by {
            assert(forall|i: int|
                0 <= i < b.drop_last().len() ==> b.drop_last()[i] == #[trigger] b[i]);
        }
        lemma_comma_join_injective(a.drop_last(), b.drop_last());
        assert(a =~= b) by {
            assert(forall|k: int|
                0 <= k < a.len() - 1 ==> #[trigger] a[k] == a.drop_last()[k] && #[trigger] b[k]
                    == b.drop_last()[k]);
        }
    }
}

} // verus!
