use vstd::prelude::*;
use vstd::string::StringExecFns;
use vstd::string::StrSliceExecFns;

verus! {

/// The texts that a vector of strings holds.
pub open spec fn views(v: Seq<String>) -> Seq<Seq<char>> {
    v.map_values(|x: String| x@)
}

/// `s` with every trailing `/` removed.
pub open spec fn trim_trailing_slashes(s: Seq<char>) -> Seq<char>
    decreases s.len(),
{
    if s.len() > 0 && s.last() == '/' {
        trim_trailing_slashes(s.drop_last())
    } else {
        s
    }
}

/// The part of `s` after its last `/` (all of `s` when it has none).
pub open spec fn base_name(s: Seq<char>) -> Seq<char>
    decreases s.len(),
{
    if s.len() == 0 {
        s
    } else if s.last() == '/' {
        Seq::empty()
    } else {
        base_name(s.drop_last()).push(s.last())
    }
}

/// The part of `s` before its last `/` (empty when it has none).
pub open spec fn parent_dir(s: Seq<char>) -> Seq<char>
    decreases s.len(),
{
    if s.len() == 0 {
        s
    } else if s.last() == '/' {
        s.drop_last()
    } else {
        parent_dir(s.drop_last())
    }
}

/// The non-empty pieces of `cur + s` between `/` separators, where `cur` is a
/// piece already begun.
pub open spec fn split_from(s: Seq<char>, cur: Seq<char>) -> Seq<Seq<char>>
    decreases s.len(),
{
    let done = if cur.len() == 0 { Seq::empty() } else { seq![cur] };
    if s.len() == 0 {
        done
    } else if s[0] == '/' {
        done + split_from(s.drop_first(), Seq::empty())
    } else {
        split_from(s.drop_first(), cur.push(s[0]))
    }
}

/// The non-empty components of a `/`-separated path, in order.
pub open spec fn segments(s: Seq<char>) -> Seq<Seq<char>> {
    split_from(s, Seq::empty())
}

/// The number of components of a path.
pub open spec fn depth(s: Seq<char>) -> nat {
    segments(s).len()
}

/// Components joined with single `/` separators.
pub open spec fn joined(segs: Seq<Seq<char>>) -> Seq<char>
    decreases segs.len(),
{
    if segs.len() == 0 {
        Seq::empty()
    } else if segs.len() == 1 {
        segs[0]
    } else {
        joined(segs.drop_last()) + seq!['/'] + segs.last()
    }
}

/// `base` without trailing slashes, a single `/`, then `path`.
pub open spec fn join_url(base: Seq<char>, path: Seq<char>) -> Seq<char> {
    trim_trailing_slashes(base) + seq!['/'] + path
}

/// The remote path of a file: the relative path alone when no target directory
/// is set, else the target directory without trailing slashes, `/`, and the
/// relative path.
pub open spec fn remote_path(target_dir: Seq<char>, relative: Seq<char>) -> Seq<char> {
    if target_dir.len() == 0 {
        relative
    } else {
        trim_trailing_slashes(target_dir) + seq!['/'] + relative
    }
}

/// Putting a directory and a `/` in front of a path keeps its base name.
pub proof fn lemma_base_name_under_dir(dir: Seq<char>, r: Seq<char>)
    ensures
        base_name(dir + seq!['/'] + r) == base_name(r),
    decreases r.len(),
{
    let s = dir + seq!['/'] + r;
    if r.len() == 0 {
        assert(s.last() == '/');
    } else {
        assert(s.last() == r.last());
        assert(s.drop_last() =~= dir + seq!['/'] + r.drop_last());
        lemma_base_name_under_dir(dir, r.drop_last());
    }
}

/// A remote path has the base name of the relative path it comes from.
pub proof fn lemma_remote_path_base_name(target_dir: Seq<char>, relative: Seq<char>)
    ensures
        base_name(remote_path(target_dir, relative)) == base_name(relative),
{
    if target_dir.len() > 0 {
        lemma_base_name_under_dir(trim_trailing_slashes(target_dir), relative);
    }
}

/// Copies a string slice into a new `String`.
fn owned(s: &str) -> (r: String)
    ensures
        r@ == s@,
{
    String::from_str(s)
}

/// `s` with every trailing `/` removed.
pub fn trim_slashes_end(s: &str) -> (r: String)
    ensures
        r@ == trim_trailing_slashes(s@),
{
    let mut k = s.unicode_len();
    proof {
        assert(s@.subrange(0, k as int) =~= s@);
    }
    while k > 0 && s.get_char(k - 1) == '/'
        invariant
            k <= s@.len(),
            trim_trailing_slashes(s@.subrange(0, k as int)) == trim_trailing_slashes(s@),
        decreases k,
    {
        proof {
            assert(s@.subrange(0, k as int).drop_last() =~= s@.subrange(0, k - 1));
        }
        k = k - 1;
    }
    owned(s.substring_char(0, k))
}

/// Splits a path at its last `/` into the part before it and the part after it.
pub fn split_last_slash(s: &str) -> (r: (String, String))
    ensures
        r.0@ == parent_dir(s@),
        r.1@ == base_name(s@),
{
    let n = s.unicode_len();
    let mut j = n;
    proof {
        assert(s@.subrange(0, j as int) =~= s@);
        assert(s@.subrange(j as int, n as int) =~= Seq::<char>::empty());
    }
    while j > 0 && s.get_char(j - 1) != '/'
        invariant
            j <= n,
            n == s@.len(),
            parent_dir(s@) == parent_dir(s@.subrange(0, j as int)),
            base_name(s@) == base_name(s@.subrange(0, j as int)) + s@.subrange(j as int, n as int),
        decreases j,
    {
        proof {
            let p = s@.subrange(0, j as int);
            assert(p.drop_last() =~= s@.subrange(0, j - 1));
            assert(base_name(p) == base_name(p.drop_last()).push(p.last()));
            assert(base_name(p.drop_last()).push(p.last()) + s@.subrange(j as int, n as int)
                =~= base_name(s@.subrange(0, j - 1)) + s@.subrange(j - 1, n as int));
        }
        j = j - 1;
    }
    proof {
        let p = s@.subrange(0, j as int);
        if j > 0 {
            assert(p.drop_last() =~= s@.subrange(0, j - 1));
            assert(base_name(p) =~= Seq::<char>::empty());
        } else {
            assert(base_name(p) =~= Seq::<char>::empty());
            assert(parent_dir(p) =~= Seq::<char>::empty());
        }
        assert(base_name(s@) =~= s@.subrange(j as int, n as int));
    }
    if j == 0 {
        (String::new(), owned(s.substring_char(j, n)))
    } else {
        (owned(s.substring_char(0, j - 1)), owned(s.substring_char(j, n)))
    }
}

/// The last component of a path: what follows its last `/`.
pub fn file_name_of(s: &str) -> (r: String)
    ensures
        r@ == base_name(s@),
{
    split_last_slash(s).1
}

/// The non-empty `/`-separated components of a path, in order.
pub fn split_segments(s: &str) -> (r: Vec<String>)
    ensures
        views(r@) == segments(s@),
{
    let n = s.unicode_len();
    let mut out: Vec<String> = Vec::new();
    let mut start: usize = 0;
    let mut i: usize = 0;
    proof {
        assert(s@.subrange(0, n as int) =~= s@);
        assert(s@.subrange(0, 0) =~= Seq::<char>::empty());
        assert(views(out@) =~= Seq::<Seq<char>>::empty());
    }
    while i < n
        invariant
            n == s@.len(),
            start <= i <= n,
            views(out@) + split_from(s@.subrange(i as int, n as int), s@.subrange(start as int, i as int))
                == segments(s@),
        decreases n - i,
    {
        let rest = Ghost(s@.subrange(i as int, n as int));
        let cur = Ghost(s@.subrange(start as int, i as int));
        proof {
            assert(rest@.drop_first() =~= s@.subrange(i + 1, n as int));
            assert(rest@[0] == s@[i as int]);
        }
        if s.get_char(i) == '/' {
            if start < i {
                let piece = owned(s.substring_char(start, i));
                proof {
                    assert(views(out@.push(piece)) =~= views(out@).push(piece@));
                }
                out.push(piece);
            }
            proof {
                let done = if cur@.len() == 0 { Seq::empty() } else { seq![cur@] };
                assert(split_from(rest@, cur@) == done + split_from(rest@.drop_first(), Seq::empty()));
                assert(s@.subrange(i + 1, i + 1) =~= Seq::<char>::empty());
            }
            i = i + 1;
            start = i;
        } else {
            proof {
                assert(cur@.push(s@[i as int]) =~= s@.subrange(start as int, i + 1));
            }
            i = i + 1;
        }
    }
    if start < i {
        let piece = owned(s.substring_char(start, i));
        proof {
            assert(views(out@.push(piece)) =~= views(out@).push(piece@));
        }
        out.push(piece);
    }
    proof {
        assert(s@.subrange(n as int, n as int) =~= Seq::<char>::empty());
        assert(views(out@) =~= segments(s@));
    }
    out
}

/// The remote path of a file, as `remote_path` describes it.
pub fn remote_path_for(target_dir: &str, relative: &str) -> (r: String)
    ensures
        r@ == remote_path(target_dir@, relative@),
{
    if target_dir.unicode_len() == 0 {
        owned(relative)
    } else {
        let mut r = trim_slashes_end(target_dir);
        proof {
            reveal_strlit("/");
        }
        r.append("/");
        r.append(relative);
        r
    }
}

/// The URL of `path` under the endpoint `base`, as `join_url` describes it.
pub fn url_for(base: &str, path: &str) -> (r: String)
    ensures
        r@ == join_url(base@, path@),
{
    let mut r = trim_slashes_end(base);
    proof {
        reveal_strlit("/");
    }
    r.append("/");
    r.append(path);
    r
}

/// The collections that must exist before `remote` can be stored under `base`:
/// for each leading run of the components of its parent directory, shallowest
/// first, the URL of that directory with a trailing `/`.
pub open spec fn collection_urls(base: Seq<char>, remote: Seq<char>) -> Seq<Seq<char>> {
    let segs = segments(parent_dir(remote));
    Seq::new(segs.len(), |k: int| join_url(base, joined(segs.take(k + 1))) + seq!['/'])
}

/// The collection URLs to create, in order, before storing `remote`.
pub fn collection_urls_for(base: &str, remote: &str) -> (r: Vec<String>)
    ensures
        views(r@) == collection_urls(base@, remote@),
{
    let (parent, _name) = split_last_slash(remote);
    let segs = split_segments(parent.as_str());
    let ghost spec_segs = segments(parent_dir(remote@));
    let mut acc = String::new();
    let mut out: Vec<String> = Vec::new();
    let mut k: usize = 0;
    proof {
        reveal_strlit("/");
        assert(spec_segs.take(0) =~= Seq::<Seq<char>>::empty());
        assert(views(out@) =~= Seq::<Seq<char>>::empty());
    }
    while k < segs.len()
        invariant
            views(segs@) == spec_segs,
            spec_segs == segments(parent_dir(remote@)),
            k <= segs@.len(),
            acc@ == joined(spec_segs.take(k as int)),
            views(out@) =~= Seq::new(
                k as nat,
                |j: int| join_url(base@, joined(spec_segs.take(j + 1))) + seq!['/'],
            ),
        decreases segs@.len() - k,
    {
        proof {
            reveal_strlit("/");
            assert(views(segs@)[k as int] == segs@[k as int]@);
            let t = spec_segs.take(k + 1);
            if k == 0 {
                assert(joined(t) == t[0]);
            } else {
                assert(t.drop_last() =~= spec_segs.take(k as int));
                assert(joined(t) == joined(t.drop_last()) + seq!['/'] + t.last());
            }
        }
        if k > 0 {
            acc.append("/");
        }
        acc.append(segs[k].as_str());
        proof {
            assert(acc@ =~= joined(spec_segs.take(k + 1)));
        }
        let mut url = url_for(base, acc.as_str());
        url.append("/");
        proof {
            reveal_strlit("/");
            assert(url@ == join_url(base@, joined(spec_segs.take(k + 1))) + seq!['/']);
        }
        proof {
            assert(views(out@.push(url)) =~= views(out@).push(url@));
        }
        out.push(url);
        k = k + 1;
    }
    out
}

/// The number of components of a path, as `depth` counts them.
pub fn path_depth(s: &str) -> (r: usize)
    ensures
        r == depth(s@),
{
    split_segments(s).len()
}

/// Whether a sequence of paths runs from deeper to shallower.
pub open spec fn deepest_first(s: Seq<String>) -> bool {
    forall|a: int, b: int| 0 <= a < b < s.len() ==> depth(#[trigger] s[a]@) >= depth(
        #[trigger] s[b]@,
    )
}

/// The same paths reordered so that deeper ones come first.
pub fn order_deepest_first(paths: &Vec<String>) -> (r: Vec<String>)
    ensures
        r@.to_multiset() == paths@.to_multiset(),
        deepest_first(r@),
{
    let mut out: Vec<String> = Vec::new();
    let mut ds: Vec<usize> = Vec::new();
    let mut i: usize = 0;
    proof {
        assert(paths@.take(0) =~= Seq::<String>::empty());
    }
    while i < paths.len()
        invariant
            i <= paths@.len(),
            out@.len() == ds@.len(),
            forall|k: int| 0 <= k < ds@.len() ==> ds@[k] == depth(#[trigger] out@[k]@),
            forall|a: int, b: int| 0 <= a < b < ds@.len() ==> #[trigger] ds@[a] >= #[trigger] ds@[b],
            out@.to_multiset() == paths@.take(i as int).to_multiset(),
        decreases paths@.len() - i,
    {
        let x = paths[i].clone();
        let d = path_depth(x.as_str());
        let mut j: usize = 0;
        while j < ds.len() && ds[j] > d
            invariant
                j <= ds@.len(),
                forall|k: int| 0 <= k < j ==> #[trigger] ds@[k] > d,
            decreases ds@.len() - j,
        {
            j = j + 1;
        }
        proof {
            assert(paths@.take(i + 1) =~= paths@.take(i as int).push(x));
        }
        let ghost before = out@;
        out.insert(j, x);
        ds.insert(j, d);
        proof {
            assert(out@ == before.insert(j as int, x));
            vstd::seq_lib::to_multiset_insert(before, j as int, x);
            vstd::seq_lib::to_multiset_build(paths@.take(i as int), x);
            assert(before.insert(j as int, x).to_multiset() == before.to_multiset().insert(x));
            assert(paths@.take(i as int).push(x).to_multiset() == paths@.take(
                i as int,
            ).to_multiset().insert(x));
        }
        i = i + 1;
    }
    proof {
        assert(paths@.take(paths@.len() as int) =~= paths@);
        assert forall|a: int, b: int| 0 <= a < b < out@.len() implies depth(#[trigger] out@[a]@) >= depth(
            #[trigger] out@[b]@,
        ) by {
            assert(ds@[a] == depth(out@[a]@));
            assert(ds@[b] == depth(out@[b]@));
        }
    }
    out
}

} // verus!
