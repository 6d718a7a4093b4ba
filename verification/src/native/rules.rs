//! The rule catalog: what may be cleaned, migrated or moved.
use vstd::prelude::*;
use crate::native::paths::{join_path, join_path_str};
use crate::text::owned;

verus! {

/// The directory the rule files live in.
pub const RULES_DIR: &'static str = "rules";

/// A cleanup rule: paths whose contents may be cleaned.
pub struct CleanupRule {
    pub id: String,
    pub name: String,
    pub paths: Vec<String>,
    pub risk: String,
    pub action: String,
    pub exclude: Vec<String>,
}

/// A user folder that may be migrated.
pub struct MigrationRule {
    pub id: String,
    pub name: String,
    pub source: String,
    pub risk: String,
    pub strategy: String,
    pub rollback: bool,
}

/// A developer tool's data directories and how they may be moved.
pub struct DevSpaceRule {
    pub id: String,
    pub name: String,
    pub paths: Vec<String>,
    pub risk: String,
    pub category: String,
    pub preferred_action: String,
    pub preferred_move: String,
    /// The environment variables that relocate the tool's data, with their
    /// suggested values; no name occurs twice.
    pub env: Vec<(String, String)>,
    pub fallback: String,
    pub rollback: bool,
}

/// All rules, and where they were read from.
pub struct RuleCatalog {
    pub rules_dir: String,
    pub cleanup: Vec<CleanupRule>,
    pub migration: Vec<MigrationRule>,
    pub devspace: Vec<DevSpaceRule>,
}

/// Where the rules directory is looked for, in order, from the working
/// directory `cwd`.
pub open spec fn rules_dir_candidates_spec(cwd: Seq<char>) -> Seq<Seq<char>> {
    seq![
        join_path(cwd, "rules"@),
        join_path(join_path(cwd, ".."@), "rules"@),
        join_path(join_path(join_path(cwd, ".."@), ".."@), "rules"@),
    ]
}

/// Where the rules directory is looked for, in order.
pub fn rules_dir_candidates(cwd: &str) -> (res: Vec<String>)
    ensures
        res@.map_values(|s: String| s@) == rules_dir_candidates_spec(cwd@),
{
    let a = join_path_str(cwd, RULES_DIR);
    let up = join_path_str(cwd, "..");
    let b = join_path_str(up.as_str(), RULES_DIR);
    let up2 = join_path_str(up.as_str(), "..");
    let c = join_path_str(up2.as_str(), RULES_DIR);
    let res = vec![a, b, c];
    assert(res@.map_values(|s: String| s@) =~= rules_dir_candidates_spec(cwd@));
    res
}

/// The first candidate that is a directory.
pub open spec fn first_dir(candidates: Seq<Seq<char>>, is_dir: Seq<bool>) -> Option<Seq<char>>
    decreases candidates.len(),
{
    if candidates.len() == 0 || is_dir.len() == 0 {
        None
    } else if is_dir[0] {
        Some(candidates[0])
    } else {
        first_dir(candidates.drop_first(), is_dir.drop_first())
    }
}

/// The rules directory: the first candidate that is a directory
/// (`find_rules_dir`).
pub fn find_rules_dir(candidates: &Vec<String>, is_dir: &Vec<bool>) -> (res: Result<String, String>)
    ensures
        match res {
            Ok(d) => first_dir(candidates@.map_values(|s: String| s@), is_dir@) == Some(d@),
            Err(e) => first_dir(candidates@.map_values(|s: String| s@), is_dir@) is None
                && e@ == "failed to locate rules directory"@,
        },
{
    let ghost cv = candidates@.map_values(|s: String| s@);
    let mut i: usize = 0;
    proof {
        assert(cv.subrange(0, cv.len() as int) =~= cv);
        assert(is_dir@.subrange(0, is_dir@.len() as int) =~= is_dir@);
    }
    while i < candidates.len() && i < is_dir.len()
        invariant
            cv == candidates@.map_values(|s: String| s@),
            i <= candidates.len(),
            i <= is_dir.len(),
            first_dir(cv, is_dir@) == first_dir(
                cv.subrange(i as int, cv.len() as int),
                is_dir@.subrange(i as int, is_dir@.len() as int),
            ),
        decreases candidates.len() - i,
    {
        proof {
            let c = cv.subrange(i as int, cv.len() as int);
            let d = is_dir@.subrange(i as int, is_dir@.len() as int);
            assert(c.drop_first() =~= cv.subrange(i + 1, cv.len() as int));
            assert(d.drop_first() =~= is_dir@.subrange(i + 1, is_dir@.len() as int));
            assert(c[0] == candidates@[i as int]@);
            assert(d[0] == is_dir@[i as int]);
        }
        if is_dir[i] {
            return Ok(owned(candidates[i].as_str()));
        }
        i = i + 1;
    }
    Err(owned("failed to locate rules directory"))
}

/// The catalog read from `rules_dir` (`load_catalog`).
pub fn load_catalog(
    rules_dir: String,
    cleanup: Vec<CleanupRule>,
    migration: Vec<MigrationRule>,
    devspace: Vec<DevSpaceRule>,
) -> (c: RuleCatalog)
    ensures
        c.rules_dir == rules_dir,
        c.cleanup == cleanup,
        c.migration == migration,
        c.devspace == devspace,
{
    RuleCatalog { rules_dir, cleanup, migration, devspace }
}

/// The same strings, copied.
pub fn copy_strings(v: &Vec<String>) -> (res: Vec<String>)
    ensures
        res@.map_values(|s: String| s@) == v@.map_values(|s: String| s@),
{
    let mut res: Vec<String> = Vec::new();
    let mut i: usize = 0;
    while i < v.len()
        invariant
            i <= v.len(),
            res@.map_values(|s: String| s@) == v@.subrange(0, i as int).map_values(|s: String| s@),
        decreases v.len() - i,
    {
        let ghost before = res@;
        res.push(owned(v[i].as_str()));
        proof {
            assert(res@.map_values(|s: String| s@) =~= before.map_values(|s: String| s@).push(v@[i as int]@));
            assert(v@.subrange(0, i + 1).map_values(|s: String| s@) =~= v@.subrange(0, i as int).map_values(
                |s: String| s@,
            ).push(v@[i as int]@));
        }
        i = i + 1;
    }
    assert(v@.subrange(0, v@.len() as int) =~= v@);
    res
}

} // verus!
