use vstd::prelude::*;
use crate::doc::same_text;
use crate::pattern::{pattern_hits, pattern_in_line};

verus! {

/// The texts of a sequence of strings.
pub open spec fn texts(v: Seq<String>) -> Seq<Seq<char>> {
    v.map_values(|s: String| s@)
}

/// The lines of each source file, as texts.
pub open spec fn file_texts(files: Seq<Vec<String>>) -> Seq<Seq<Seq<char>>> {
    files.map_values(|f: Vec<String>| texts(f@))
}

/// Whether some line of some file holds a match of `pattern`.
pub open spec fn referenced_in(pattern: Seq<char>, files: Seq<Seq<Seq<char>>>) -> bool {
    exists|f: int, l: int|
        0 <= f < files.len() && 0 <= l < files[f].len() && pattern_hits(pattern, files[f][l])
}

/// No pattern is referenced in an empty source tree, nor in one whose files
/// hold no lines.
pub proof fn lemma_empty_tree_references_nothing(pattern: Seq<char>, files: Seq<Seq<Seq<char>>>)
    requires
        forall|f: int| 0 <= f < files.len() ==> #[trigger] files[f].len() == 0,
    ensures
        !referenced_in(pattern, files),
{
}

/// Whether some line of some file holds a match of `pattern`; the search
/// stops at the first match.
pub fn pattern_referenced(pattern: &str, files: &Vec<Vec<String>>) -> (r: bool)
    ensures
        r == referenced_in(pattern@, file_texts(files@)),
{
    let ghost fs = file_texts(files@);
    let mut f: usize = 0;
    while f < files.len()
        invariant
            f <= files@.len(),
            fs == file_texts(files@),
            forall|g: int, l: int|
                0 <= g < f && 0 <= l < fs[g].len() ==> !pattern_hits(pattern@, fs[g][l]),
        decreases files@.len() - f,
    {
        let lines = &files[f];
        let mut l: usize = 0;
        while l < lines.len()
            invariant
                f < files@.len(),
                l <= lines@.len(),
                *lines == files@[f as int],
                fs == file_texts(files@),
                forall|g: int, m: int|
                    0 <= g < f && 0 <= m < fs[g].len() ==> !pattern_hits(pattern@, fs[g][m]),
                forall|m: int| 0 <= m < l ==> !pattern_hits(pattern@, fs[f as int][m]),
            decreases lines@.len() - l,
        {
            if pattern_in_line(pattern, lines[l].as_str()) {
                assert(pattern_hits(pattern@, fs[f as int][l as int]));
                return true;
            }
            l = l + 1;
        }
        f = f + 1;
    }
    false
}

/// Whether `v` holds the text `s`.
pub fn holds_text(v: &Vec<String>, s: &str) -> (r: bool)
    ensures
        r == texts(v@).contains(s@),
{
    let mut i: usize = 0;
    while i < v.len()
        invariant
            i <= v@.len(),
            forall|j: int| 0 <= j < i ==> v@[j]@ != s@,
        decreases v@.len() - i,
    {
        if same_text(v[i].as_str(), s) {
            assert(texts(v@)[i as int] == s@);
            return true;
        }
        i = i + 1;
    }
    false
}

proof fn lemma_push_contains<A>(s: Seq<A>, x: A, q: A)
    ensures
        s.push(x).contains(q) <==> (s.contains(q) || q == x),
{
    if s.push(x).contains(q) {
        let k = choose|k: int| 0 <= k < s.push(x).len() && s.push(x)[k] == q;
        if k < s.len() {
            assert(s[k] == q);
        }
    }
    if s.contains(q) {
        let k = choose|k: int| 0 <= k < s.len() && s[k] == q;
        assert(s.push(x)[k] == q);
    }
    if q == x {
        assert(s.push(x)[s.len() as int] == q);
    }
}

proof fn lemma_push_to_set<A>(s: Seq<A>, x: A)
    ensures
        s.push(x).to_set() == s.to_set().insert(x),
        forall|q: A| #[trigger] s.push(x).contains(q) <==> (s.contains(q) || q == x),
{
    assert forall|q: A| #[trigger] s.push(x).contains(q) <==> (s.contains(q) || q == x) by {
        lemma_push_contains(s, x, q);
    }
    assert(s.push(x).to_set() =~= s.to_set().insert(x));
}

/// Splits the distinct patterns into those that some source line references
/// and those that none does. Each distinct pattern lands in exactly one of
/// the two, once, in the order of its first occurrence.
pub fn classify(patterns: &Vec<String>, files: &Vec<Vec<String>>) -> (r: (Vec<String>, Vec<String>))
    ensures
        texts(r.0@).no_duplicates(),
        texts(r.1@).no_duplicates(),
        forall|p: Seq<char>|
            #![trigger texts(r.0@).contains(p)]
            #![trigger texts(patterns@).contains(p)]
            texts(r.0@).contains(p) <==> texts(patterns@).contains(p) && referenced_in(
                p,
                file_texts(files@),
            ),
        forall|p: Seq<char>|
            #![trigger texts(r.1@).contains(p)]
            #![trigger texts(patterns@).contains(p)]
            texts(r.1@).contains(p) <==> texts(patterns@).contains(p) && !referenced_in(
                p,
                file_texts(files@),
            ),
        forall|p: Seq<char>|
            #![trigger texts(patterns@).contains(p)]
            texts(patterns@).contains(p) ==> texts(r.0@).contains(p) != texts(r.1@).contains(p),
        r.0@.len() + r.1@.len() == texts(patterns@).to_set().len(),
{
    let ghost pv = texts(patterns@);
    let ghost fs = file_texts(files@);
    let mut found: Vec<String> = Vec::new();
    let mut missing: Vec<String> = Vec::new();
    let mut i: usize = 0;
    proof {
        assert(pv.take(0).to_set() =~= Set::<Seq<char>>::empty());
    }
    while i < patterns.len()
        invariant
            i <= patterns@.len(),
            pv == texts(patterns@),
            fs == file_texts(files@),
            texts(found@).no_duplicates(),
            texts(missing@).no_duplicates(),
            forall|p: Seq<char>|
                #![trigger texts(found@).contains(p)]
                #![trigger pv.take(i as int).contains(p)]
                texts(found@).contains(p) <==> pv.take(i as int).contains(p) && referenced_in(
                    p,
                    fs,
                ),
            forall|p: Seq<char>|
                #![trigger texts(missing@).contains(p)]
                #![trigger pv.take(i as int).contains(p)]
                texts(missing@).contains(p) <==> pv.take(i as int).contains(p)
                    && !referenced_in(p, fs),
            pv.take(i as int).to_set().finite(),
            found@.len() + missing@.len() == pv.take(i as int).to_set().len(),
        decreases patterns@.len() - i,
    {
        let p = &patterns[i];
        let ghost pt = p@;
        proof {
            assert(pv.take(i + 1) =~= pv.take(i as int).push(pt));
            lemma_push_to_set(pv.take(i as int), pt);
        }
        let seen = holds_text(&found, p.as_str()) || holds_text(&missing, p.as_str());
        if !seen {
            let ghost old_found = texts(found@);
            let ghost old_missing = texts(missing@);
            proof {
                assert(!pv.take(i as int).contains(pt));
                assert(!pv.take(i as int).to_set().contains(pt));
            }
            if pattern_referenced(p.as_str(), files) {
                found.push(p.clone());
                proof {
                    assert(texts(found@) =~= old_found.push(pt));
                    assert forall|a: int, b: int|
                        0 <= a < b < texts(found@).len() implies texts(found@)[a] != texts(
                            found@,
                        )[b] by {
                        if b == texts(found@).len() - 1 {
                            assert(old_found.contains(texts(found@)[a]));
                        }
                    }
                    assert forall|q: Seq<char>| texts(found@).contains(q) <==> pv.take(i + 1).contains(q) && referenced_in(q, fs) by {
                        lemma_push_contains(old_found, pt, q);
                        lemma_push_contains(pv.take(i as int), pt, q);
                    }
                    assert(texts(found@)[old_found.len() as int] == pt);
                    assert forall|q: Seq<char>| texts(missing@).contains(q) <==> pv.take(i + 1).contains(q) && !referenced_in(q, fs) by {
                        lemma_push_contains(pv.take(i as int), pt, q);
                        assert(texts(missing@).contains(q) <==> pv.take(i as int).contains(q) && !referenced_in(q, fs));
                    }
                }
            } else {
                missing.push(p.clone());
                proof {
                    assert(texts(missing@) =~= old_missing.push(pt));
                    assert forall|a: int, b: int|
                        0 <= a < b < texts(missing@).len() implies texts(missing@)[a] != texts(
                            missing@,
                        )[b] by {
                        if b == texts(missing@).len() - 1 {
                            assert(old_missing.contains(texts(missing@)[a]));
                        }
                    }
                    assert forall|q: Seq<char>| texts(missing@).contains(q) <==> pv.take(i + 1).contains(q) && !referenced_in(q, fs) by {
                        lemma_push_contains(old_missing, pt, q);
                        lemma_push_contains(pv.take(i as int), pt, q);
                    }
                    assert(texts(missing@)[old_missing.len() as int] == pt);
                    assert forall|q: Seq<char>| texts(found@).contains(q) <==> pv.take(i + 1).contains(q) && referenced_in(q, fs) by {
                        lemma_push_contains(pv.take(i as int), pt, q);
                        assert(texts(found@).contains(q) <==> pv.take(i as int).contains(q) && referenced_in(q, fs));
                    }
                }
            }
        } else {
            proof {
                assert(texts(found@).contains(pt) || texts(missing@).contains(pt));
                assert(pv.take(i as int).contains(pt));
                assert(pv.take(i as int).to_set().contains(pt));
                assert(pv.take(i + 1).to_set() =~= pv.take(i as int).to_set());
                assert forall|q: Seq<char>| texts(found@).contains(q) <==> pv.take(i + 1).contains(q) && referenced_in(q, fs) by {
                    lemma_push_contains(pv.take(i as int), pt, q);
                }
                assert forall|q: Seq<char>| texts(missing@).contains(q) <==> pv.take(i + 1).contains(q) && !referenced_in(q, fs) by {
                    lemma_push_contains(pv.take(i as int), pt, q);
                }
            }
        }
        i = i + 1;
    }
    proof {
        assert(pv.take(i as int) =~= pv);
        assert forall|q: Seq<char>| pv.take(i as int).contains(q) == pv.contains(q) by {}
    }
    (found, missing)
}

} // verus!
