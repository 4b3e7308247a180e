//! Path resolver: a program name is looked up in the directories of a
//! search-path value, in their listed order. The caller observes which
//! candidate paths exist on its filesystem and hands those facts in; the
//! choice of the first match is decided — and proved — here.

use vstd::prelude::*;

use crate::text::spec_split;
use crate::text::split_on;
use crate::text::concat3;

verus! {

/// The directories of a colon-separated search-path value, in order.
/// Empty entries are kept, as splitting leaves them.
pub open spec fn spec_search_dirs(path_var: Seq<char>) -> Seq<Seq<char>> {
    spec_split(path_var, ':')
}

/// The candidate path for one directory: `directory/name`.
pub open spec fn spec_candidate(dir: Seq<char>, name: Seq<char>) -> Seq<char> {
    dir + "/"@ + name
}

/// The candidate paths of all directories, in search-path order.
pub open spec fn spec_candidates(dirs: Seq<Seq<char>>, name: Seq<char>) -> Seq<Seq<char>> {
    Seq::new(dirs.len(), |i: int| spec_candidate(dirs[i], name))
}

/// The first candidate marked as existing, in order; nothing when none is.
pub open spec fn spec_first_existing(cands: Seq<Seq<char>>, exists: Seq<bool>) -> Option<
    Seq<char>,
>
    recommends
        cands.len() == exists.len(),
    decreases cands.len(),
{
    if cands.len() == 0 {
        Option::None
    } else if exists[0] {
        Option::Some(cands[0])
    } else {
        spec_first_existing(cands.drop_first(), exists.drop_first())
    }
}

/// Search-path order is the tie-break rule: whatever exists later in the
/// list, the first existing candidate is the one returned.
pub proof fn lemma_first_dir_wins(cands: Seq<Seq<char>>, exists: Seq<bool>, i: int)
    requires
        cands.len() == exists.len(),
        0 <= i < cands.len(),
        exists[i],
        forall|k: int| 0 <= k < i ==> !exists[k],
    ensures
        spec_first_existing(cands, exists) == Option::Some(cands[i]),
    decreases i,
{
    if i > 0 {
        assert(forall|k: int| 0 <= k < i - 1 ==> !#[trigger] exists.drop_first()[k]);
        lemma_first_dir_wins(cands.drop_first(), exists.drop_first(), i - 1);
    }
}

/// When no candidate exists, nothing is returned.
pub proof fn lemma_no_match_no_result(cands: Seq<Seq<char>>, exists: Seq<bool>)
    requires
        cands.len() == exists.len(),
        forall|k: int| 0 <= k < exists.len() ==> !exists[k],
    ensures
        spec_first_existing(cands, exists) is None,
    decreases cands.len(),
{
    if cands.len() > 0 {
        assert(forall|k: int| 0 <= k < exists.len() - 1 ==> !#[trigger] exists.drop_first()[k]);
        lemma_no_match_no_result(cands.drop_first(), exists.drop_first());
    }
}

/// The directories of a colon-separated search-path value, in order.
pub fn search_dirs(path_var: &str) -> (r: Vec<String>)
    ensures
        r.deep_view() == spec_search_dirs(path_var@),
{
    split_on(path_var, ':')
}

/// The candidate path `directory/name` for each directory, in order.
pub fn candidate_paths(dirs: &Vec<String>, name: &str) -> (r: Vec<String>)
    ensures
        r.deep_view() == spec_candidates(dirs.deep_view(), name@),
{
    let ghost dv = dirs.deep_view();
    let mut out: Vec<String> = Vec::new();
    let mut i: usize = 0;
    while i < dirs.len()
        invariant
            0 <= i <= dirs.len(),
            dv == dirs.deep_view(),
            dv.len() == dirs@.len(),
            out.deep_view() =~= spec_candidates(dv, name@).take(i as int),
        decreases dirs.len() - i,
    {
        let ghost prev = out.deep_view();
        out.push(concat3(dirs[i].as_str(), "/", name));
        proof {
            assert(out.deep_view() =~= prev.push(spec_candidate(dv[i as int], name@)));
            assert(prev.push(spec_candidate(dv[i as int], name@)) =~= spec_candidates(
                dv,
                name@,
            ).take(i as int + 1));
        }
        i = i + 1;
    }
    proof {
        assert(spec_candidates(dv, name@).take(dv.len() as int) =~= spec_candidates(dv, name@));
    }
    out
}

/// The first candidate whose existence flag is set, in order. The flags
/// come from the caller's filesystem, one per candidate.
pub fn first_existing(cands: &Vec<String>, exists: &Vec<bool>) -> (r: Option<String>)
    requires
        cands@.len() == exists@.len(),
    ensures
        r.deep_view() == spec_first_existing(cands.deep_view(), exists@),
{
    let ghost cdv = cands.deep_view();
    let mut i: usize = 0;
    proof {
        assert(cdv.skip(0) =~= cdv);
        assert(exists@.skip(0) =~= exists@);
    }
    while i < cands.len()
        invariant
            0 <= i <= cands.len(),
            cdv == cands.deep_view(),
            cdv.len() == cands@.len(),
            cands@.len() == exists@.len(),
            spec_first_existing(cdv, exists@) == spec_first_existing(
                cdv.skip(i as int),
                exists@.skip(i as int),
            ),
            forall|k: int| 0 <= k < i ==> !exists@[k],
        decreases cands.len() - i,
    {
        proof {
            assert(cdv.skip(i as int).drop_first() =~= cdv.skip(i as int + 1));
            assert(exists@.skip(i as int).drop_first() =~= exists@.skip(i as int + 1));
        }
        if exists[i] {
            return Option::Some(cands[i].clone());
        }
        i = i + 1;
    }
    proof {
        assert(cdv.skip(cdv.len() as int) =~= Seq::<Seq<char>>::empty());
        assert(exists@.skip(exists@.len() as int) =~= Seq::<bool>::empty());
    }
    Option::None
}

} // verus!
