//! Rule paths and the Windows path model.
//!
//! Paths are text. Both `\` and `/` separate components, a leading `X:` is a
//! drive prefix, and new components are joined with `\`, as on Windows.
use vstd::prelude::*;
use crate::text::{
    chars_of, contains_seq, lemma_replace_absent, occurs_at, owned, push_char, push_str, replace_all,
    replace_all_str, str_eq,
};

verus! {

/// The views of `(name, value)` pairs of environment variables.
pub open spec fn var_views(vars: Seq<(String, String)>) -> Seq<(Seq<char>, Seq<char>)> {
    vars.map_values(|p: (String, String)| (p.0@, p.1@))
}

/// The placeholder `%NAME%` for an environment variable.
pub open spec fn var_token(name: Seq<char>) -> Seq<char> {
    seq!['%'] + name + seq!['%']
}

/// Every `%NAME%` replaced by its value, one variable after another.
pub open spec fn expand_vars(value: Seq<char>, vars: Seq<(Seq<char>, Seq<char>)>) -> Seq<char>
    decreases vars.len(),
{
    if vars.len() == 0 {
        value
    } else {
        expand_vars(replace_all(value, var_token(vars[0].0), vars[0].1), vars.drop_first())
    }
}

/// The system drive (`%SystemDrive%`, `C:` when unset).
pub open spec fn system_drive_of(var: Option<Seq<char>>) -> Seq<char> {
    match var {
        Some(d) => d,
        None => "C:"@,
    }
}

/// What a rule path denotes once variables are expanded; the recycle bin
/// placeholder denotes the recycle bin of the system drive.
pub open spec fn expanded_path(
    input: Seq<char>,
    vars: Seq<(Seq<char>, Seq<char>)>,
    system_drive: Option<Seq<char>>,
) -> Seq<char> {
    let value = expand_vars(input, vars);
    if value == "$Recycle.Bin"@ {
        system_drive_of(system_drive) + "\\$Recycle.Bin"@
    } else {
        value
    }
}

/// A path separator.
pub open spec fn is_sep(c: char) -> bool {
    c == '\\' || c == '/'
}

/// `s` is a bare drive prefix such as `D:`.
pub open spec fn is_drive_only(s: Seq<char>) -> bool {
    s.len() == 2 && (s[0] as u32) < 128 && s[1] == ':'
}

/// `base` with the relative component `seg` appended (`Path::join`).
pub open spec fn join_path(base: Seq<char>, seg: Seq<char>) -> Seq<char> {
    if base.len() == 0 || is_sep(base.last()) || is_drive_only(base) {
        base + seg
    } else {
        base + seq!['\\'] + seg
    }
}

/// The index of the last separator of `s`, or -1.
pub open spec fn last_sep(s: Seq<char>) -> int
    decreases s.len(),
{
    if s.len() == 0 {
        -1
    } else if is_sep(s.last()) {
        s.len() - 1
    } else {
        last_sep(s.drop_last())
    }
}

/// The last normal component of a path without its drive prefix.
pub open spec fn leaf_of(s: Seq<char>) -> Option<Seq<char>>
    decreases s.len(),
{
    if s.len() == 0 {
        None
    } else if is_sep(s.last()) {
        leaf_of(s.drop_last())
    } else {
        proof {
            lemma_last_sep_bounds(s);
        }
        let k = last_sep(s);
        let seg = s.subrange(k + 1, s.len() as int);
        if seg == "."@ {
            leaf_of(s.subrange(0, k + 1))
        } else if seg == ".."@ {
            None
        } else {
            Some(seg)
        }
    }
}

/// `s` starts with a drive prefix such as `C:`.
pub open spec fn has_drive_prefix(s: Seq<char>) -> bool {
    s.len() >= 2 && (s[0] as u32) < 128 && s[1] == ':'
}

/// The last component of a path (`Path::file_name`).
pub open spec fn file_name_of(path: Seq<char>) -> Option<Seq<char>> {
    if has_drive_prefix(path) {
        leaf_of(path.subrange(2, path.len() as int))
    } else {
        leaf_of(path)
    }
}

/// The root of the drive a path is on, such as `D:\`.
pub open spec fn drive_root_of(path: Seq<char>) -> Option<Seq<char>> {
    if has_drive_prefix(path) {
        Some(path.subrange(0, 2) + seq!['\\'])
    } else {
        None
    }
}

// ---------------------------------------------------------------------

/// Expands the placeholders of a rule path (`expand_path`). The environment
/// is handed over as its `(name, value)` pairs, in the order the process
/// lists them, with the value of `SystemDrive` on its own.
pub fn expand_path(input: &str, vars: &Vec<(String, String)>, system_drive: Option<&str>) -> (res: String)
    ensures
        res@ == expanded_path(
            input@,
            var_views(vars@),
            match system_drive {
                Some(d) => Some(d@),
                None => None,
            },
        ),
{
    let mut value = owned(input);
    let mut i: usize = 0;
    proof {
        assert(var_views(vars@).subrange(0, vars@.len() as int) =~= var_views(vars@));
    }
    while i < vars.len()
        invariant
            i <= vars.len(),
            expand_vars(value@, var_views(vars@).subrange(i as int, vars@.len() as int))
                == expand_vars(input@, var_views(vars@)),
        decreases vars.len() - i,
    {
        let mut token = String::new();
        push_char(&mut token, '%');
        push_str(&mut token, vars[i].0.as_str());
        push_char(&mut token, '%');
        assert(token@ =~= var_token(vars@[i as int].0@));
        let next = replace_all_str(value.as_str(), token.as_str(), vars[i].1.as_str());
        proof {
            let rest = var_views(vars@).subrange(i as int, vars@.len() as int);
            assert(rest.drop_first() =~= var_views(vars@).subrange(i + 1, vars@.len() as int));
            assert(rest[0] == (vars@[i as int].0@, vars@[i as int].1@));
        }
        value = next;
        i = i + 1;
    }
    proof {
        assert(var_views(vars@).subrange(vars@.len() as int, vars@.len() as int) =~= Seq::<(Seq<char>, Seq<char>)>::empty());
    }
    if str_eq(value.as_str(), "$Recycle.Bin") {
        let mut res = match system_drive {
            Some(d) => owned(d),
            None => owned("C:"),
        };
        push_str(&mut res, "\\$Recycle.Bin");
        res
    } else {
        value
    }
}

/// The root of the system drive, such as `C:\` (`system_drive_root`).
pub fn system_drive_root(system_drive: Option<&str>) -> (res: String)
    ensures
        res@ == system_drive_of(
            match system_drive {
                Some(d) => Some(d@),
                None => None,
            },
        ) + seq!['\\'],
{
    let mut res = match system_drive {
        Some(d) => owned(d),
        None => owned("C:"),
    };
    push_char(&mut res, '\\');
    res
}

/// `base` joined with the relative component `seg`.
pub fn join_path_str(base: &str, seg: &str) -> (res: String)
    ensures
        res@ == join_path(base@, seg@),
{
    let vb = chars_of(base);
    let mut res = owned(base);
    let n = vb.len();
    let drive_only = n == 2 && (vb[0] as u32) < 128 && vb[1] == ':';
    if n == 0 || vb[n - 1] == '\\' || vb[n - 1] == '/' || drive_only {
        push_str(&mut res, seg);
    } else {
        push_char(&mut res, '\\');
        push_str(&mut res, seg);
    }
    res
}

/// The last separator in `v[..end]`, or `None`.
fn find_last_sep(v: &Vec<char>, end: usize) -> (r: Option<usize>)
    requires
        end <= v.len(),
    ensures
        match r {
            Some(k) => k < end && last_sep(v@.subrange(0, end as int)) == k,
            None => last_sep(v@.subrange(0, end as int)) == -1,
        },
    decreases end,
{
    if end == 0 {
        return None;
    }
    assert(v@.subrange(0, end as int).drop_last() =~= v@.subrange(0, end - 1));
    if v[end - 1] == '\\' || v[end - 1] == '/' {
        Some(end - 1)
    } else {
        find_last_sep(v, end - 1)
    }
}

/// Where the last separator of a path can be.
pub proof fn lemma_last_sep_bounds(s: Seq<char>)
    ensures
        -1 <= last_sep(s) < s.len(),
        last_sep(s) >= 0 ==> is_sep(s[last_sep(s)]),
        forall|j: int| last_sep(s) < j < s.len() ==> !is_sep(#[trigger] s[j]),
    decreases s.len(),
{
    if s.len() > 0 && !is_sep(s.last()) {
        lemma_last_sep_bounds(s.drop_last());
        assert forall|j: int| last_sep(s) < j < s.len() implies !is_sep(#[trigger] s[j]) by {
            if j < s.len() - 1 {
                assert(s.drop_last()[j] == s[j]);
            }
        }
    }
}

/// The leaf of `v[start..end]` as a sub-range of `v`.
fn leaf_range(v: &Vec<char>, start: usize, end: usize) -> (r: Option<(usize, usize)>)
    requires
        start <= end <= v.len(),
    ensures
        match r {
            Some((a, b)) => start <= a <= b <= end && leaf_of(v@.subrange(start as int, end as int))
                == Some(v@.subrange(a as int, b as int)),
            None => leaf_of(v@.subrange(start as int, end as int)) is None,
        },
    decreases end - start,
{
    let ghost s = v@.subrange(start as int, end as int);
    if end == start {
        return None;
    }
    if v[end - 1] == '\\' || v[end - 1] == '/' {
        assert(s.drop_last() =~= v@.subrange(start as int, end - 1));
        return leaf_range(v, start, end - 1);
    }
    let mut k: usize = end;
    while k > start
        invariant
            start <= k <= end,
            end <= v.len(),
            forall|j: int| k <= j < end ==> !is_sep(#[trigger] v@[j]),
        ensures
            k > start ==> is_sep(v@[k - 1]),
        decreases k - start,
    {
        if v[k - 1] == '\\' || v[k - 1] == '/' {
            break;
        }
        k = k - 1;
    }
    proof {
        lemma_last_sep_bounds(s);
        let ls = last_sep(s);
        if k > start && is_sep(v@[k - 1]) {
            assert(s[k - 1 - start] == v@[k - 1]);
            if ls > k - 1 - start {
                assert(s[ls] == v@[ls + start]);
            }
            if ls < k - 1 - start {
                assert(!is_sep(s[k - 1 - start]));
            }
            assert(ls == k - 1 - start);
        } else {
            assert(k == start);
            if ls >= 0 {
                assert(s[ls] == v@[ls + start]);
            }
            assert(ls == -1);
        }
        assert(s.subrange(ls + 1, s.len() as int) =~= v@.subrange(k as int, end as int));
        assert(s.subrange(0, ls + 1) =~= v@.subrange(start as int, k as int));
    }
    let seg_len = end - k;
    let is_dot = seg_len == 1 && v[k] == '.';
    let is_dotdot = seg_len == 2 && v[k] == '.' && v[k + 1] == '.';
    proof {
        let seg = v@.subrange(k as int, end as int);
        reveal_strlit(".");
        reveal_strlit("..");
        if is_dot {
            assert(seg =~= "."@);
        } else {
            assert(seg != "."@) by {
                if seg.len() == 1 {
                    assert(seg[0] == v@[k as int]);
                }
            }
        }
        if is_dotdot {
            assert(seg =~= ".."@);
        } else {
            assert(seg != ".."@) by {
                if seg.len() == 2 {
                    assert(seg[0] == v@[k as int]);
                    assert(seg[1] == v@[k + 1]);
                }
            }
        }
    }
    if is_dot {
        leaf_range(v, start, k)
    } else if is_dotdot {
        None
    } else {
        Some((k, end))
    }
}

/// The sub-string `v[a..b]`.
pub fn substring(v: &Vec<char>, a: usize, b: usize) -> (res: String)
    requires
        a <= b <= v.len(),
    ensures
        res@ == v@.subrange(a as int, b as int),
{
    let mut res = String::new();
    let mut i = a;
    while i < b
        invariant
            a <= i <= b,
            b <= v.len(),
            res@ == v@.subrange(a as int, i as int),
        decreases b - i,
    {
        push_char(&mut res, v[i]);
        assert(res@ =~= v@.subrange(a as int, i + 1));
        i = i + 1;
    }
    res
}

/// The last component of a path (`Path::file_name`).
pub fn file_name(path: &str) -> (res: Option<String>)
    ensures
        match res {
            Some(n) => file_name_of(path@) == Some(n@),
            None => file_name_of(path@) is None,
        },
{
    let v = chars_of(path);
    let start: usize = if v.len() >= 2 && (v[0] as u32) < 128 && v[1] == ':' {
        2
    } else {
        0
    };
    proof {
        assert(v@.subrange(0, v@.len() as int) =~= v@);
    }
    match leaf_range(&v, start, v.len()) {
        Some((a, b)) => Some(substring(&v, a, b)),
        None => None,
    }
}

/// The root of the drive a path is on (`drive_root_for_path`).
pub fn drive_root_for_path(path: &str) -> (res: Option<String>)
    ensures
        match res {
            Some(r) => drive_root_of(path@) == Some(r@),
            None => drive_root_of(path@) is None,
        },
{
    let v = chars_of(path);
    if v.len() >= 2 && (v[0] as u32) < 128 && v[1] == ':' {
        let mut r = substring(&v, 0, 2);
        push_char(&mut r, '\\');
        Some(r)
    } else {
        None
    }
}

/// A rule path without `%` that is not the recycle-bin placeholder is
/// already expanded: expansion leaves it unchanged.
pub proof fn law_expand_without_placeholders(
    input: Seq<char>,
    vars: Seq<(Seq<char>, Seq<char>)>,
    system_drive: Option<Seq<char>>,
)
    requires
        !input.contains('%'),
        input != "$Recycle.Bin"@,
    ensures
        expanded_path(input, vars, system_drive) == input,
    decreases vars.len(),
{
    lemma_expand_vars_absent(input, vars);
}

proof fn lemma_expand_vars_absent(input: Seq<char>, vars: Seq<(Seq<char>, Seq<char>)>)
    requires
        !input.contains('%'),
    ensures
        expand_vars(input, vars) == input,
    decreases vars.len(),
{
    if vars.len() > 0 {
        let tok = var_token(vars[0].0);
        assert(!contains_seq(input, tok)) by {
            if contains_seq(input, tok) {
                let i = choose|i: int| occurs_at(input, tok, i);
                assert(input.subrange(i, i + tok.len())[0] == tok[0]);
                assert(input[i] == '%');
            }
        }
        lemma_replace_absent(input, tok, vars[0].1);
        lemma_expand_vars_absent(input, vars.drop_first());
    }
}

} // verus!
