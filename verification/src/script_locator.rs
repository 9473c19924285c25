//! Candidate locations of the bundled server script.
//!
//! The launcher looks for `server/index.js` under up to four roots, in a
//! fixed priority order: the packaged-resource directory, two layouts under
//! the running executable's directory, and the current working directory.
//! Roots that are unavailable are skipped, duplicate paths are dropped while
//! keeping the first (highest-priority) occurrence, and the first candidate
//! that exists on disk wins.

use vstd::prelude::*;
use vstd::string::StringExecFns;

verus! {

/// The script's location relative to a candidate root.
pub open spec fn script_suffix() -> Seq<char> {
    "/server/index.js"@
}

/// The script's location relative to the executable directory's
/// bundled-resources layout.
pub open spec fn resources_script_suffix() -> Seq<char> {
    "/resources/server/index.js"@
}

/// Every candidate path in priority order, duplicates still included:
/// resource directory first, then the two executable-directory layouts,
/// then the working directory; unavailable roots contribute nothing.
pub open spec fn raw_candidates(
    resource_dir: Option<Seq<char>>,
    exe_dir: Option<Seq<char>>,
    cwd: Option<Seq<char>>,
) -> Seq<Seq<char>> {
    (match resource_dir {
        Some(d) => seq![d + script_suffix()],
        None => Seq::<Seq<char>>::empty(),
    }) + (match exe_dir {
        Some(d) => seq![d + resources_script_suffix(), d + script_suffix()],
        None => Seq::<Seq<char>>::empty(),
    }) + (match cwd {
        Some(d) => seq![d + script_suffix()],
        None => Seq::<Seq<char>>::empty(),
    })
}

/// `s` with every element that already occurred earlier removed:
/// first occurrences survive, in their original order.
pub open spec fn dedup_first(s: Seq<Seq<char>>) -> Seq<Seq<char>>
    decreases s.len(),
{
    if s.len() == 0 {
        Seq::<Seq<char>>::empty()
    } else {
        let prefix = dedup_first(s.drop_last());
        if s.drop_last().contains(s.last()) {
            prefix
        } else {
            prefix.push(s.last())
        }
    }
}

/// The position of the first occurrence of `x` in `s`
/// (meaningful when `s.contains(x)`).
pub open spec fn first_index(s: Seq<Seq<char>>, x: Seq<char>) -> int
    decreases s.len(),
{
    if s.len() == 0 {
        0
    } else if s[0] == x {
        0
    } else {
        1 + first_index(s.drop_first(), x)
    }
}

/// The de-duplicated candidate list the Script Locator returns.
pub open spec fn script_candidates_spec(
    resource_dir: Option<Seq<char>>,
    exe_dir: Option<Seq<char>>,
    cwd: Option<Seq<char>>,
) -> Seq<Seq<char>> {
    dedup_first(raw_candidates(resource_dir, exe_dir, cwd))
}

proof fn lemma_first_index_existing(s: Seq<Seq<char>>, x: Seq<char>)
    requires
        s.contains(x),
    ensures
        0 <= first_index(s, x) < s.len(),
        s[first_index(s, x)] == x,
    decreases s.len(),
{
    if s[0] == x {
    } else {
        assert(s.drop_first().contains(x)) by {
            let i = choose|i: int| 0 <= i < s.len() && s[i] == x;
            assert(s.drop_first()[i - 1] == x);
        }
        lemma_first_index_existing(s.drop_first(), x);
    }
}

proof fn lemma_first_index_push(t: Seq<Seq<char>>, x: Seq<char>, y: Seq<char>)
    requires
        t.contains(y),
    ensures
        first_index(t.push(x), y) == first_index(t, y),
    decreases t.len(),
{
    if t[0] == y {
        assert(t.push(x)[0] == y);
    } else {
        assert(t.drop_first().contains(y)) by {
            let i = choose|i: int| 0 <= i < t.len() && t[i] == y;
            assert(t.drop_first()[i - 1] == y);
        }
        lemma_first_index_push(t.drop_first(), x, y);
        assert(t.push(x).drop_first() =~= t.drop_first().push(x));
    }
}

proof fn lemma_first_index_push_new(t: Seq<Seq<char>>, x: Seq<char>)
    requires
        !t.contains(x),
    ensures
        first_index(t.push(x), x) == t.len(),
    decreases t.len(),
{
    if t.len() == 0 {
        assert(t.push(x)[0] == x);
    } else {
        assert(t[0] != x);
        assert(!t.drop_first().contains(x)) by {
            if t.drop_first().contains(x) {
                let i = choose|i: int| 0 <= i < t.drop_first().len() && t.drop_first()[i] == x;
                assert(t[i + 1] == x);
            }
        }
        lemma_first_index_push_new(t.drop_first(), x);
        assert(t.push(x).drop_first() =~= t.drop_first().push(x));
        assert(t.push(x)[0] != x);
    }
}

/// First occurrences survive de-duplication, nothing else does, nothing is
/// invented, and the surviving entries keep the order of their first
/// occurrences.
pub proof fn lemma_dedup_first_props(s: Seq<Seq<char>>)
    ensures
        dedup_first(s).no_duplicates(),
        forall|x: Seq<char>| dedup_first(s).contains(x) <==> s.contains(x),
        forall|i: int, j: int|
            0 <= i < j < dedup_first(s).len() ==> first_index(s, dedup_first(s)[i]) < first_index(
                s,
                dedup_first(s)[j],
            ),
    decreases s.len(),
{
    if s.len() == 0 {
    } else {
        let t = s.drop_last();
        let x = s.last();
        let d = dedup_first(s);
        let dt = dedup_first(t);
        lemma_dedup_first_props(t);
        assert(s =~= t.push(x));
        // Membership in s splits into membership in t and equality with x.
        assert(forall|y: Seq<char>| t.contains(y) ==> s.contains(y)) by {
            assert(forall|i: int| 0 <= i < t.len() ==> s[i] == t[i]);
        }
        assert(s.contains(x)) by {
            assert(s[s.len() - 1] == x);
        }
        assert(forall|y: Seq<char>| s.contains(y) && y != x ==> t.contains(y)) by {
            assert forall|y: Seq<char>| s.contains(y) && y != x implies t.contains(y) by {
                let i = choose|i: int| 0 <= i < s.len() && s[i] == y;
                assert(i < t.len());
                assert(t[i] == y);
            }
        }
        // First indices in s agree with first indices in t for old elements.
        assert(forall|y: Seq<char>| t.contains(y) ==> first_index(s, y) == first_index(t, y)) by {
            assert forall|y: Seq<char>| t.contains(y) implies first_index(s, y) == first_index(
                t,
                y,
            ) by {
                lemma_first_index_push(t, x, y);
            }
        }
        if t.contains(x) {
            assert(d =~= dt);
            assert forall|y: Seq<char>| d.contains(y) <==> s.contains(y) by {
                if s.contains(y) {
                    if y == x {
                        assert(dt.contains(x));
                    } else {
                        assert(t.contains(y));
                    }
                }
                if d.contains(y) {
                    assert(t.contains(y));
                }
            }
        } else {
            assert(d =~= dt.push(x));
            assert forall|y: Seq<char>| d.contains(y) <==> s.contains(y) by {
                if s.contains(y) {
                    if y == x {
                        assert(d[d.len() - 1] == x);
                    } else {
                        assert(t.contains(y));
                        assert(dt.contains(y));
                        let i = choose|i: int| 0 <= i < dt.len() && dt[i] == y;
                        assert(d[i] == y);
                    }
                }
                if d.contains(y) {
                    let i = choose|i: int| 0 <= i < d.len() && d[i] == y;
                    if i < dt.len() {
                        assert(dt[i] == y);
                        assert(dt.contains(y));
                        assert(t.contains(y));
                    } else {
                        assert(y == x);
                    }
                }
            }
            lemma_first_index_push_new(t, x);
            assert(forall|y: Seq<char>| dt.contains(y) ==> t.contains(y));
            assert(forall|y: Seq<char>|
                t.contains(y) ==> 0 <= first_index(t, y) < t.len()) by {
                assert forall|y: Seq<char>| t.contains(y) implies 0 <= first_index(t, y)
                    < t.len() by {
                    lemma_first_index_existing(t, y);
                }
            }
            assert(!dt.contains(x));
            assert(d.no_duplicates()) by {
                assert(forall|i: int| 0 <= i < dt.len() ==> d[i] == dt[i]);
            }
            assert(forall|i: int| 0 <= i < dt.len() ==> dt.contains(dt[i]));
        }
    }
}

/// Law: the Script Locator's candidate list holds no path twice, holds
/// exactly the candidates of the available sources, and lists them in the
/// fixed priority order: of any two candidates, the one listed first is the
/// one whose highest-priority occurrence among the raw candidates comes
/// first.
pub proof fn lemma_candidates_unique_and_ordered(
    resource_dir: Option<Seq<char>>,
    exe_dir: Option<Seq<char>>,
    cwd: Option<Seq<char>>,
)
    ensures
        script_candidates_spec(resource_dir, exe_dir, cwd).no_duplicates(),
        forall|x: Seq<char>|
            script_candidates_spec(resource_dir, exe_dir, cwd).contains(x) <==> raw_candidates(
                resource_dir,
                exe_dir,
                cwd,
            ).contains(x),
        forall|i: int, j: int|
            0 <= i < j < script_candidates_spec(resource_dir, exe_dir, cwd).len() ==> first_index(
                raw_candidates(resource_dir, exe_dir, cwd),
                script_candidates_spec(resource_dir, exe_dir, cwd)[i],
            ) < first_index(
                raw_candidates(resource_dir, exe_dir, cwd),
                script_candidates_spec(resource_dir, exe_dir, cwd)[j],
            ),
{
    lemma_dedup_first_props(raw_candidates(resource_dir, exe_dir, cwd));
}

/// `<dir>/server/index.js`.
pub fn script_path_under(dir: &str) -> (r: String)
    ensures
        r@ == dir@ + script_suffix(),
{
    dir.to_owned().concat("/server/index.js")
}

/// `<dir>/resources/server/index.js`.
pub fn resources_script_path_under(dir: &str) -> (r: String)
    ensures
        r@ == dir@ + resources_script_suffix(),
{
    dir.to_owned().concat("/resources/server/index.js")
}

fn contains_string(v: &Vec<String>, x: &String) -> (r: bool)
    ensures
        r == v.deep_view().contains(x@),
{
    let mut k: usize = 0;
    while k < v.len()
        invariant
            k <= v.len(),
            forall|t: int| 0 <= t < k ==> v.deep_view()[t] != x@,
        decreases v.len() - k,
    {
        if v[k] == *x {
            proof {
                assert(v.deep_view()[k as int] == x@);
            }
            return true;
        }
        proof {
            assert(v.deep_view()[k as int] == v@[k as int]@);
        }
        k += 1;
    }
    false
}

fn dedup_first_exec(v: Vec<String>) -> (r: Vec<String>)
    ensures
        r.deep_view() == dedup_first(v.deep_view()),
{
    let mut out: Vec<String> = Vec::new();
    let mut i: usize = 0;
    proof {
        assert(out.deep_view() =~= dedup_first(v.deep_view().take(0)));
    }
    while i < v.len()
        invariant
            i <= v.len(),
            out.deep_view() == dedup_first(v.deep_view().take(i as int)),
        decreases v.len() - i,
    {
        let ghost prefix = v.deep_view().take(i as int);
        let ghost full = v.deep_view().take(i as int + 1);
        let x = v[i].clone();
        proof {
            lemma_dedup_first_props(prefix);
            assert(full.drop_last() =~= prefix);
            assert(full.last() == x@);
        }
        let dup = contains_string(&out, &x);
        if !dup {
            out.push(x);
            proof {
                assert(out.deep_view() =~= dedup_first(prefix).push(full.last()));
            }
        }
        proof {
            assert(out.deep_view() =~= dedup_first(full));
        }
        i += 1;
    }
    proof {
        assert(v.deep_view().take(v@.len() as int) =~= v.deep_view());
    }
    out
}

/// Builds the candidate list from whichever path sources are available:
/// the packaged-resource directory, the executable's directory, and the
/// current working directory.  The result is the raw priority-ordered list
/// with later duplicates removed.
pub fn backend_script_candidates(
    resource_dir: Option<&str>,
    exe_dir: Option<&str>,
    cwd: Option<&str>,
) -> (r: Vec<String>)
    ensures
        r.deep_view() == script_candidates_spec(
            resource_dir.deep_view(),
            exe_dir.deep_view(),
            cwd.deep_view(),
        ),
{
    let mut raw: Vec<String> = Vec::new();
    match resource_dir {
        Some(d) => raw.push(script_path_under(d)),
        None => {},
    }
    match exe_dir {
        Some(d) => {
            raw.push(resources_script_path_under(d));
            raw.push(script_path_under(d));
        },
        None => {},
    }
    match cwd {
        Some(d) => raw.push(script_path_under(d)),
        None => {},
    }
    proof {
        assert(raw.deep_view() =~= raw_candidates(
            resource_dir.deep_view(),
            exe_dir.deep_view(),
            cwd.deep_view(),
        ));
    }
    dedup_first_exec(raw)
}

/// The position of the first `true` in `present`, if any.
pub open spec fn selected_index(present: Seq<bool>) -> Option<int>
    decreases present.len(),
{
    if present.len() == 0 {
        None
    } else if present[0] {
        Some(0int)
    } else {
        match selected_index(present.drop_first()) {
            Some(k) => Some(1 + k),
            None => None,
        }
    }
}

/// What `select_existing` returns: the candidate at the position of the
/// first `true` in `present`, or nothing when no candidate is present.
pub open spec fn select_spec(cands: Seq<Seq<char>>, present: Seq<bool>) -> Option<Seq<char>> {
    match selected_index(present) {
        Some(i) => Some(cands[i]),
        None => None,
    }
}

/// The selected index is the first present candidate:
/// it is present, and everything before it is not.
pub proof fn lemma_selected_index_props(present: Seq<bool>)
    ensures
        match selected_index(present) {
            Some(i) => 0 <= i < present.len() && present[i] && forall|j: int|
                0 <= j < i ==> !present[j],
            None => forall|j: int| 0 <= j < present.len() ==> !present[j],
        },
    decreases present.len(),
{
    if present.len() == 0 {
    } else if present[0] {
    } else {
        lemma_selected_index_props(present.drop_first());
        match selected_index(present.drop_first()) {
            Some(k) => {
                assert(present[1 + k] == present.drop_first()[k]);
                assert(forall|j: int|
                    1 <= j < 1 + k ==> present[j] == present.drop_first()[j - 1]);
            },
            None => {
                assert(forall|j: int|
                    1 <= j < present.len() ==> present[j] == present.drop_first()[j - 1]);
            },
        }
    }
}

/// Law: when exactly one candidate is present, it is selected, whatever its
/// position in the priority order.
pub proof fn lemma_select_sole_present(cands: Seq<Seq<char>>, present: Seq<bool>, k: int)
    requires
        cands.len() == present.len(),
        0 <= k < present.len(),
        present[k],
        forall|j: int| 0 <= j < present.len() && j != k ==> !present[j],
    ensures
        select_spec(cands, present) == Some(cands[k]),
{
    lemma_selected_index_props(present);
    let i = selected_index(present).unwrap();
    assert(i == k);
}

/// Law: when two candidates are present, the higher-priority one (the one
/// earlier in the list) is selected.
pub proof fn lemma_select_prefers_higher_priority(
    cands: Seq<Seq<char>>,
    present: Seq<bool>,
    k1: int,
    k2: int,
)
    requires
        cands.len() == present.len(),
        0 <= k1 < k2 < present.len(),
        present[k1],
        present[k2],
        forall|j: int| 0 <= j < present.len() && j != k1 && j != k2 ==> !present[j],
    ensures
        select_spec(cands, present) == Some(cands[k1]),
{
    lemma_selected_index_props(present);
    let i = selected_index(present).unwrap();
    assert(i == k1);
}

/// Returns the first candidate that is present on disk, where `present[i]`
/// says whether `candidates[i]` exists as a regular file; returns nothing
/// when none is.
pub fn select_existing(candidates: &Vec<String>, present: &Vec<bool>) -> (r: Option<String>)
    requires
        candidates@.len() == present@.len(),
    ensures
        r.deep_view() == select_spec(candidates.deep_view(), present@),
{
    let mut i: usize = 0;
    proof {
        assert(present@.skip(0) =~= present@);
    }
    while i < candidates.len()
        invariant
            candidates@.len() == present@.len(),
            i <= candidates@.len(),
            forall|j: int| 0 <= j < i ==> !present@[j],
            match selected_index(present@.skip(i as int)) {
                Some(k) => selected_index(present@) == Some(k + i as int),
                None => selected_index(present@) is None,
            },
        decreases candidates@.len() - i,
    {
        proof {
            assert(present@.skip(i as int)[0] == present@[i as int]);
        }
        if present[i] {
            let picked = candidates[i].clone();
            proof {
                assert(selected_index(present@.skip(i as int)) == Some(0int));
                assert(candidates.deep_view()[i as int] == candidates@[i as int]@);
            }
            return Some(picked);
        }
        proof {
            assert(present@.skip(i as int).drop_first() =~= present@.skip(i as int + 1));
        }
        i += 1;
    }
    proof {
        assert(present@.skip(present@.len() as int).len() == 0);
    }
    None
}

} // verus!
