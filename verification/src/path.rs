//! The path resolver: picking the one positional path out of the command
//! line, stripping a `file://` scheme, making the path absolute against the
//! host's working directory, and splitting a path into parent and file name.
//! Paths are byte strings with `/` as the separator.

use vstd::prelude::*;

use crate::ascii::is_blank;
use crate::ascii::is_blank_bytes;
use crate::errors::LaunchArgError;

verus! {

/// True when `s` begins with `pre`.
pub open spec fn starts_with(s: Seq<u8>, pre: Seq<u8>) -> bool {
    s.len() >= pre.len() && s.take(pre.len() as int) == pre
}

/// The bytes of the `file://` URI scheme.
pub open spec fn file_uri_scheme() -> Seq<u8> {
    seq![0x66u8, 0x69u8, 0x6cu8, 0x65u8, 0x3au8, 0x2fu8, 0x2fu8]
}

/// The positional tokens of an argument list: before a first `--` token,
/// tokens starting with `-` are skipped as flags; the `--` itself is consumed
/// and every later token is positional.
pub open spec fn positionals(args: Seq<Seq<u8>>, passthrough: bool) -> Seq<Seq<u8>>
    decreases args.len(),
{
    if args.len() == 0 {
        Seq::empty()
    } else {
        let first = args[0];
        let rest = args.drop_first();
        if !passthrough && first == seq![0x2du8, 0x2du8] {
            positionals(rest, true)
        } else if !passthrough && first.len() > 0 && first[0] == 0x2d {
            positionals(rest, passthrough)
        } else {
            seq![first] + positionals(rest, passthrough)
        }
    }
}

/// Picks the single positional path argument out of the argument list (the
/// program name already removed).  No positional token is a valid absence;
/// two or more are a startup error.
pub fn parse_positional_launch_args(args: &Vec<Vec<u8>>) -> (r: Result<
    Option<Vec<u8>>,
    LaunchArgError,
>)
    ensures
        ({
            let pos = positionals(args.deep_view(), false);
            match r {
                Ok(found) => match found {
                    Some(p) => pos.len() == 1 && p@ == pos[0],
                    None => pos.len() == 0,
                },
                Err(e) => e == LaunchArgError::TooManyPaths && pos.len() > 1,
            }
        }),
{
    let ghost dv = args.deep_view();
    let n = args.len();
    proof {
        assert(dv.len() == n);
        assert(dv.skip(0) =~= dv);
    }
    let mut found: Option<Vec<u8>> = None;
    let mut passthrough = false;
    let mut i: usize = 0;
    while i < n
        invariant
            0 <= i <= n,
            n == dv.len(),
            dv == args.deep_view(),
            forall|j: int| 0 <= j < n ==> dv[j] == #[trigger] args@[j]@,
            positionals(dv, false) == (match found {
                Some(p) => seq![p@],
                None => Seq::<Seq<u8>>::empty(),
            }) + positionals(dv.skip(i as int), passthrough),
        decreases n - i,
    {
        let arg = &args[i];
        proof {
            assert(dv.skip(i as int)[0] == dv[i as int]);
            assert(dv.skip(i as int).drop_first() =~= dv.skip(i as int + 1));
        }
        let is_sep = arg.len() == 2 && arg[0] == 0x2d && arg[1] == 0x2d;
        proof {
            if is_sep {
                assert(dv[i as int] =~= seq![0x2du8, 0x2du8]);
            } else {
                assert(dv[i as int] != seq![0x2du8, 0x2du8]);
            }
        }
        if !passthrough && is_sep {
            passthrough = true;
        } else if !passthrough && arg.len() > 0 && arg[0] == 0x2d {
            // a flag-like token, ignored here
        } else {
            match found {
                Some(_) => {
                    proof {
                        assert(positionals(dv, false).len() >= 2);
                    }
                    return Err(LaunchArgError::TooManyPaths);
                },
                None => {
                    found = Some(crate::ascii::copy_range(arg, 0, arg.len()));
                    proof {
                        assert(dv[i as int] =~= found.unwrap()@);
                    }
                },
            }
        }
        i = i + 1;
    }
    proof {
        assert(dv.skip(n as int) =~= Seq::<Seq<u8>>::empty());
    }
    Ok(found)
}

/// Joining a relative path onto a base directory: one separator between them,
/// none doubled.  An empty base leaves the path as it is.
pub open spec fn join_path(base: Seq<u8>, rel: Seq<u8>) -> Seq<u8> {
    if base.len() == 0 {
        rel
    } else if base.last() == 0x2f {
        base + rel
    } else {
        base + seq![0x2fu8] + rel
    }
}

/// Joins `rel` onto `base` as [`join_path`] says.
pub fn join_path_bytes(base: &Vec<u8>, rel: &Vec<u8>) -> (out: Vec<u8>)
    ensures
        out@ == join_path(base@, rel@),
{
    let mut out = crate::ascii::copy_range(base, 0, base.len());
    proof {
        assert(out@ =~= base@);
    }
    if base.len() > 0 && base[base.len() - 1] != 0x2f {
        out.push(0x2f);
        proof {
            assert(out@ =~= base@ + seq![0x2fu8]);
        }
    }
    crate::ascii::append_bytes(&mut out, rel);
    out
}

/// What normalizing a raw command-line path yields: a blank argument and a
/// bare `file://` scheme are errors; a `file://` prefix is stripped; an
/// absolute result is kept, a relative one is joined onto the working
/// directory.
pub open spec fn normalize_outcome(raw: Seq<u8>, cwd: Seq<u8>) -> Result<Seq<u8>, LaunchArgError> {
    if is_blank(raw) {
        Err(LaunchArgError::EmptyPath)
    } else {
        let path = if starts_with(raw, file_uri_scheme()) {
            raw.skip(file_uri_scheme().len() as int)
        } else {
            raw
        };
        if starts_with(raw, file_uri_scheme()) && path.len() == 0 {
            Err(LaunchArgError::EmptyFileUri)
        } else if path.len() > 0 && path[0] == 0x2f {
            Ok(path)
        } else {
            Ok(join_path(cwd, path))
        }
    }
}

/// Normalizes a raw command-line path against the working directory `cwd`,
/// as [`normalize_outcome`] says.
pub fn normalize_cli_path(raw: &Vec<u8>, cwd: &Vec<u8>) -> (r: Result<Vec<u8>, LaunchArgError>)
    ensures
        match r {
            Ok(p) => normalize_outcome(raw@, cwd@) == Ok::<Seq<u8>, LaunchArgError>(p@),
            Err(e) => normalize_outcome(raw@, cwd@) == Err::<Seq<u8>, LaunchArgError>(e),
        },
{
    if is_blank_bytes(raw) {
        return Err(LaunchArgError::EmptyPath);
    }
    let has_scheme = raw.len() >= 7 && raw[0] == 0x66 && raw[1] == 0x69 && raw[2] == 0x6c && raw[3]
        == 0x65 && raw[4] == 0x3a && raw[5] == 0x2f && raw[6] == 0x2f;
    proof {
        if has_scheme {
            assert(raw@.take(7) =~= file_uri_scheme());
        } else {
            assert(raw@.len() >= 7 ==> raw@.take(7) != file_uri_scheme());
        }
    }
    if has_scheme && raw.len() == 7 {
        return Err(LaunchArgError::EmptyFileUri);
    }
    let start: usize = if has_scheme {
        7
    } else {
        0
    };
    let path = crate::ascii::copy_range(raw, start, raw.len());
    proof {
        if !has_scheme {
            assert(path@ =~= raw@);
        }
        // a blank argument was already rejected, so bytes remain after the
        // scheme or there was no scheme and the argument itself is nonempty
        assert(path@.len() > 0);
    }
    if path[0] == 0x2f {
        Ok(path)
    } else {
        Ok(join_path_bytes(cwd, &path))
    }
}

/// The path without its trailing separators.
pub open spec fn strip_trailing_slashes(p: Seq<u8>) -> Seq<u8>
    decreases p.len(),
{
    if p.len() > 0 && p.last() == 0x2f {
        strip_trailing_slashes(p.drop_last())
    } else {
        p
    }
}

/// The position of the last separator, if any.
pub open spec fn rfind_slash(q: Seq<u8>) -> Option<int>
    decreases q.len(),
{
    if q.len() == 0 {
        None
    } else if q.last() == 0x2f {
        Some(q.len() - 1)
    } else {
        rfind_slash(q.drop_last())
    }
}

/// How a path splits into a parent directory and a final file-name
/// component, after ignoring trailing separators.  A path that is empty or
/// all separators has no parent.  A path without a separator is a bare name
/// whose parent is the empty path; otherwise the parent is everything before
/// the last separator (the root when nothing is) and the name everything
/// after it.
pub open spec fn split_spec(p: Seq<u8>) -> Option<(Seq<u8>, Seq<u8>)> {
    let q = strip_trailing_slashes(p);
    if q.len() == 0 {
        None
    } else {
        match rfind_slash(q) {
            None => Some((Seq::empty(), q)),
            Some(k) => Some(
                (
                    if k == 0 {
                        seq![0x2fu8]
                    } else {
                        q.take(k)
                    },
                    q.skip(k + 1),
                ),
            ),
        }
    }
}

/// A final component the library will write next to: nonempty and not one of
/// the relative components `.` and `..`.
pub open spec fn usable_file_name(name: Seq<u8>) -> bool {
    &&& name.len() > 0
    &&& name != seq![0x2eu8]
    &&& name != seq![0x2eu8, 0x2eu8]
}

proof fn lemma_strip_trailing_take(s: Seq<u8>, e: int)
    requires
        0 <= e <= s.len(),
        forall|j: int| e <= j < s.len() ==> s[j] == 0x2f,
        e > 0 ==> s[e - 1] != 0x2f,
    ensures
        strip_trailing_slashes(s) == s.take(e),
    decreases s.len(),
{
    if e < s.len() {
        assert(s.last() == 0x2f);
        assert(s.drop_last() =~= s.take(s.len() - 1));
        lemma_strip_trailing_take(s.take(s.len() - 1), e);
        assert(s.take(s.len() - 1).take(e) =~= s.take(e));
    } else {
        assert(s.take(e) =~= s);
        if s.len() > 0 {
            assert(s.last() != 0x2f);
        }
    }
}

proof fn lemma_rfind_slash_at(q: Seq<u8>, k: int)
    requires
        0 <= k <= q.len(),
        forall|j: int| k <= j < q.len() ==> q[j] != 0x2f,
        k > 0 ==> q[k - 1] == 0x2f,
    ensures
        rfind_slash(q) == if k > 0 {
            Some(k - 1)
        } else {
            None::<int>
        },
    decreases q.len(),
{
    if k < q.len() {
        assert(q.last() != 0x2f);
        assert(q.drop_last() =~= q.take(q.len() - 1));
        lemma_rfind_slash_at(q.take(q.len() - 1), k);
    }
}

/// Splits a path into parent directory and file name, as [`split_spec`]
/// says.
pub fn split_parent_file(path: &Vec<u8>) -> (r: Option<(Vec<u8>, Vec<u8>)>)
    ensures
        match r {
            Some(pair) => split_spec(path@) == Some((pair.0@, pair.1@)),
            None => split_spec(path@) is None,
        },
{
    let n = path.len();
    let mut e: usize = n;
    while e > 0 && path[e - 1] == 0x2f
        invariant
            0 <= e <= n,
            n == path@.len(),
            forall|j: int| e <= j < n ==> path@[j] == 0x2f,
        decreases e,
    {
        e = e - 1;
    }
    proof {
        lemma_strip_trailing_take(path@, e as int);
    }
    if e == 0 {
        return None;
    }
    let ghost q = strip_trailing_slashes(path@);
    proof {
        assert(q =~= path@.take(e as int));
    }
    let mut k: usize = e;
    while k > 0 && path[k - 1] != 0x2f
        invariant
            0 <= k <= e <= n,
            n == path@.len(),
            q == path@.take(e as int),
            forall|j: int| k <= j < e ==> path@[j] != 0x2f,
        decreases k,
    {
        k = k - 1;
    }
    proof {
        assert(forall|j: int| k <= j < e ==> q[j] == path@[j] && q[j] != 0x2f);
        if k > 0 {
            assert(q[k - 1 as int] == path@[k - 1 as int]);
        }
        lemma_rfind_slash_at(q, k as int);
    }
    if k == 0 {
        let name = crate::ascii::copy_range(path, 0, e);
        proof {
            assert(name@ =~= q);
        }
        return Some((Vec::new(), name));
    }
    let name = crate::ascii::copy_range(path, k, e);
    proof {
        assert(name@ =~= q.skip(k as int));
    }
    if k - 1 == 0 {
        let mut parent: Vec<u8> = Vec::new();
        parent.push(0x2f);
        proof {
            assert(parent@ =~= seq![0x2fu8]);
        }
        Some((parent, name))
    } else {
        let parent = crate::ascii::copy_range(path, 0, k - 1);
        proof {
            assert(parent@ =~= q.take(k - 1 as int));
        }
        Some((parent, name))
    }
}

/// Decides [`usable_file_name`].
pub fn is_usable_file_name(name: &Vec<u8>) -> (r: bool)
    ensures
        r == usable_file_name(name@),
{
    if name.len() == 0 {
        return false;
    }
    if name.len() == 1 && name[0] == 0x2e {
        proof {
            assert(name@ =~= seq![0x2eu8]);
        }
        return false;
    }
    if name.len() == 2 && name[0] == 0x2e && name[1] == 0x2e {
        proof {
            assert(name@ =~= seq![0x2eu8, 0x2eu8]);
        }
        return false;
    }
    proof {
        assert(name@ != seq![0x2eu8]);
        assert(name@ != seq![0x2eu8, 0x2eu8]);
    }
    true
}

} // verus!
