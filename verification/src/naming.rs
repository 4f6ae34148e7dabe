//! The naming scheme for output files: each package of the final graph gets
//! a minimally qualified stem, qualified further only as far as other
//! packages collide with it on name, or on name and namespace; the main
//! package's file sits in the base directory and every other package's file
//! under its `deps` subdirectory.

use vstd::prelude::*;
use vstd::string::StringExecFns;
use crate::keys::{KeyView, PackageKey, keys_view, keys_wf, no_char, version_view};
use crate::strs::{
    lemma_no_char_concat, lemma_char_free_differs, lemma_split_at_char, lemma_cancel_prefix,
    lemma_cancel_suffix,
};

verus! {

/// How many keys of `ks` satisfy `p`.
pub open spec fn count_matching(ks: Seq<KeyView>, p: spec_fn(KeyView) -> bool) -> int
    decreases ks.len(),
{
    if ks.len() == 0 {
        0
    } else {
        count_matching(ks.drop_last(), p) + if p(ks.last()) {
            1int
        } else {
            0int
        }
    }
}

/// The keys that share a given package name.
pub open spec fn name_pred(n: Seq<char>) -> spec_fn(KeyView) -> bool {
    |k: KeyView| k.name == n
}

/// The keys that share a given package name and namespace.
pub open spec fn full_pred(ns: Seq<char>, n: Seq<char>) -> spec_fn(KeyView) -> bool {
    |k: KeyView| k.name == n && k.namespace == ns
}

/// How many packages of the graph share the name of the package at `i`.
pub open spec fn same_name_count(ks: Seq<KeyView>, i: int) -> int {
    count_matching(ks, name_pred(ks[i].name))
}

/// How many packages of the graph share the name and namespace of the
/// package at `i`.
pub open spec fn same_full_count(ks: Seq<KeyView>, i: int) -> int {
    count_matching(ks, full_pred(ks[i].namespace, ks[i].name))
}

/// A name, followed by `@version` when a version is present.
pub open spec fn versioned_view(n: Seq<char>, v: Option<Seq<char>>) -> Seq<char> {
    match v {
        Some(v) => n + seq!['@'] + v,
        None => n,
    }
}

/// The stem assigned to the package at `i`: the bare name where the name is
/// globally unique; name plus version where only the namespace repeats;
/// namespace-qualified name where the namespace disambiguates; the fully
/// qualified form otherwise.
pub open spec fn stem_view(ks: Seq<KeyView>, i: int) -> Seq<char> {
    let k = ks[i];
    if same_name_count(ks, i) == 1 {
        if same_full_count(ks, i) == 1 {
            k.name
        } else {
            versioned_view(k.name, k.version)
        }
    } else {
        if same_full_count(ks, i) == 1 {
            k.namespace + seq![':'] + k.name
        } else {
            k.namespace + seq![':'] + versioned_view(k.name, k.version)
        }
    }
}

/// The output path of the package at `i`: `base/<stem>.wit` for the main
/// package, `base/deps/<stem>.wit` for every other one.
pub open spec fn path_view(base: Seq<char>, ks: Seq<KeyView>, main: int, i: int) -> Seq<char> {
    if i == main {
        base + seq!['/'] + stem_view(ks, i) + ".wit"@
    } else {
        base + seq!['/'] + "deps/"@ + stem_view(ks, i) + ".wit"@
    }
}

/// Counting never returns a negative number.
pub proof fn lemma_count_nonneg(ks: Seq<KeyView>, p: spec_fn(KeyView) -> bool)
    ensures
        count_matching(ks, p) >= 0,
    decreases ks.len(),
{
    if ks.len() > 0 {
        lemma_count_nonneg(ks.drop_last(), p);
    }
}

/// A key that satisfies the predicate makes the count at least one.
pub proof fn lemma_count_witness(ks: Seq<KeyView>, p: spec_fn(KeyView) -> bool, i: int)
    requires
        0 <= i < ks.len(),
        p(ks[i]),
    ensures
        count_matching(ks, p) >= 1,
    decreases ks.len(),
{
    lemma_count_nonneg(ks.drop_last(), p);
    if i < ks.len() - 1 {
        assert(ks.drop_last()[i] == ks[i]);
        lemma_count_witness(ks.drop_last(), p, i);
    } else {
        assert(ks.last() == ks[i]);
    }
}

/// Two distinct keys that both satisfy the predicate make the count at
/// least two.
pub proof fn lemma_count_two(ks: Seq<KeyView>, p: spec_fn(KeyView) -> bool, i: int, j: int)
    requires
        0 <= i < ks.len(),
        0 <= j < ks.len(),
        i != j,
        p(ks[i]),
        p(ks[j]),
    ensures
        count_matching(ks, p) >= 2,
    decreases ks.len(),
{
    let lo = if i < j { i } else { j };
    let hi = if i < j { j } else { i };
    if hi == ks.len() - 1 {
        assert(ks.drop_last()[lo] == ks[lo]);
        lemma_count_witness(ks.drop_last(), p, lo);
        assert(ks.last() == ks[hi]);
    } else {
        assert(ks.drop_last()[lo] == ks[lo]);
        assert(ks.drop_last()[hi] == ks[hi]);
        lemma_count_two(ks.drop_last(), p, lo, hi);
        if p(ks.last()) {
        } else {
        }
    }
}

/// A pointwise weaker predicate never counts more keys.
pub proof fn lemma_count_mono(ks: Seq<KeyView>, p: spec_fn(KeyView) -> bool, q: spec_fn(KeyView) -> bool)
    requires
        forall|k: KeyView| #[trigger] p(k) ==> q(k),
    ensures
        count_matching(ks, p) <= count_matching(ks, q),
    decreases ks.len(),
{
    if ks.len() > 0 {
        lemma_count_mono(ks.drop_last(), p, q);
    }
}

/// A globally unique name is also unique within its namespace.
pub proof fn lemma_name_unique_implies_full_unique(ks: Seq<KeyView>, i: int)
    requires
        0 <= i < ks.len(),
        same_name_count(ks, i) == 1,
    ensures
        same_full_count(ks, i) == 1,
{
    lemma_count_mono(ks, full_pred(ks[i].namespace, ks[i].name), name_pred(ks[i].name));
    lemma_count_witness(ks, full_pred(ks[i].namespace, ks[i].name), i);
}

/// A versioned name stays free of any character that is neither in the name
/// nor in the version and is not the `@` separator.
pub proof fn lemma_versioned_no_char(n: Seq<char>, v: Option<Seq<char>>, c: char)
    requires
        no_char(n, c),
        match v {
            Some(v) => no_char(v, c),
            None => true,
        },
        c != '@',
    ensures
        no_char(versioned_view(n, v), c),
{
    match v {
        Some(v) => {
            assert(no_char(seq!['@'], c));
            lemma_no_char_concat(n, seq!['@'], c);
            lemma_no_char_concat(n + seq!['@'], v, c);
        },
        None => {},
    }
}

/// No stem of a well-formed key list holds a path separator.
pub proof fn lemma_stem_no_slash(ks: Seq<KeyView>, i: int)
    requires
        keys_wf(ks),
        0 <= i < ks.len(),
    ensures
        no_char(stem_view(ks, i), '/'),
{
    let k = ks[i];
    lemma_versioned_no_char(k.name, k.version, '/');
    assert(no_char(seq![':'], '/'));
    lemma_no_char_concat(k.namespace, seq![':'], '/');
    lemma_no_char_concat(k.namespace + seq![':'], k.name, '/');
    lemma_no_char_concat(k.namespace + seq![':'], versioned_view(k.name, k.version), '/');
}

/// Distinct packages of one well-formed key list never share a stem.
pub proof fn lemma_stems_unique(ks: Seq<KeyView>, i: int, j: int)
    requires
        keys_wf(ks),
        0 <= i < ks.len(),
        0 <= j < ks.len(),
        i != j,
        ks[i] != ks[j],
    ensures
        stem_view(ks, i) != stem_view(ks, j),
{
    let ki = ks[i];
    let kj = ks[j];
    if same_name_count(ks, i) == 1 {
        lemma_name_unique_implies_full_unique(ks, i);
    }
    if same_name_count(ks, j) == 1 {
        lemma_name_unique_implies_full_unique(ks, j);
    }
    if stem_view(ks, i) == stem_view(ks, j) {
        if same_name_count(ks, i) == 1 && same_name_count(ks, j) == 1 {
            // both stems are bare names, so the names agree and the name
            // counts cannot both be one
            lemma_count_two(ks, name_pred(ki.name), i, j);
        } else if same_name_count(ks, i) == 1 {
            // a bare, colon-free name cannot equal a namespace-qualified stem
            let rest = if same_full_count(ks, j) == 1 {
                kj.name
            } else {
                versioned_view(kj.name, kj.version)
            };
            lemma_char_free_differs(ki.name, kj.namespace, rest, ':');
        } else if same_name_count(ks, j) == 1 {
            let rest = if same_full_count(ks, i) == 1 {
                ki.name
            } else {
                versioned_view(ki.name, ki.version)
            };
            lemma_char_free_differs(kj.name, ki.namespace, rest, ':');
        } else {
            // both stems are namespace-qualified: split them at the colon
            let rest_i = if same_full_count(ks, i) == 1 {
                ki.name
            } else {
                versioned_view(ki.name, ki.version)
            };
            let rest_j = if same_full_count(ks, j) == 1 {
                kj.name
            } else {
                versioned_view(kj.name, kj.version)
            };
            lemma_split_at_char(ki.namespace, rest_i, kj.namespace, rest_j, ':');
            assert(ki.namespace == kj.namespace);
            assert(rest_i == rest_j);
            if same_full_count(ks, i) == 1 && same_full_count(ks, j) == 1 {
                lemma_count_two(ks, full_pred(ki.namespace, ki.name), i, j);
            } else if same_full_count(ks, i) == 1 {
                match kj.version {
                    None => {
                        lemma_count_two(ks, full_pred(ki.namespace, ki.name), i, j);
                    },
                    Some(v) => {
                        lemma_char_free_differs(ki.name, kj.name, v, '@');
                    },
                }
            } else if same_full_count(ks, j) == 1 {
                match ki.version {
                    None => {
                        lemma_count_two(ks, full_pred(kj.namespace, kj.name), i, j);
                    },
                    Some(v) => {
                        lemma_char_free_differs(kj.name, ki.name, v, '@');
                    },
                }
            } else {
                match (ki.version, kj.version) {
                    (None, None) => {
                        assert(ki =~= kj);
                    },
                    (Some(vi), Some(vj)) => {
                        lemma_split_at_char(ki.name, vi, kj.name, vj, '@');
                        assert(ki =~= kj);
                    },
                    (None, Some(vj)) => {
                        lemma_char_free_differs(ki.name, kj.name, vj, '@');
                    },
                    (Some(vi), None) => {
                        lemma_char_free_differs(kj.name, ki.name, vi, '@');
                    },
                }
            }
        }
    }
}

/// Distinct packages of one well-formed key list never share an output
/// path, whichever of them is the main package.
pub proof fn lemma_paths_unique(base: Seq<char>, ks: Seq<KeyView>, main: int, i: int, j: int)
    requires
        keys_wf(ks),
        0 <= i < ks.len(),
        0 <= j < ks.len(),
        i != j,
        ks[i] != ks[j],
    ensures
        path_view(base, ks, main, i) != path_view(base, ks, main, j),
{
    reveal_strlit(".wit");
    reveal_strlit("deps/");
    let si = stem_view(ks, i);
    let sj = stem_view(ks, j);
    lemma_stem_no_slash(ks, i);
    lemma_stem_no_slash(ks, j);
    assert(no_char(".wit"@, '/'));
    if path_view(base, ks, main, i) == path_view(base, ks, main, j) {
        if i == main {
            // a path directly under the base directory cannot equal one
            // under `deps`: only the latter holds a slash past the base
            assert(path_view(base, ks, main, i) =~= (base + seq!['/']) + (si + ".wit"@));
            assert(path_view(base, ks, main, j) =~= (base + seq!['/']) + ("deps/"@ + sj + ".wit"@));
            lemma_cancel_prefix(base + seq!['/'], si + ".wit"@, "deps/"@ + sj + ".wit"@);
            lemma_no_char_concat(si, ".wit"@, '/');
            let right = "deps/"@ + sj + ".wit"@;
            assert(right[4] == '/');
            assert((si + ".wit"@)[4] != '/');
        } else if j == main {
            assert(path_view(base, ks, main, j) =~= (base + seq!['/']) + (sj + ".wit"@));
            assert(path_view(base, ks, main, i) =~= (base + seq!['/']) + ("deps/"@ + si + ".wit"@));
            lemma_cancel_prefix(base + seq!['/'], sj + ".wit"@, "deps/"@ + si + ".wit"@);
            lemma_no_char_concat(sj, ".wit"@, '/');
            let right = "deps/"@ + si + ".wit"@;
            assert(right[4] == '/');
            assert((sj + ".wit"@)[4] != '/');
        } else {
            // both sit under `deps`: peel the shared prefix and suffix and
            // the stems would have to collide
            assert(path_view(base, ks, main, i) =~= (base + seq!['/'] + "deps/"@) + (si + ".wit"@));
            assert(path_view(base, ks, main, j) =~= (base + seq!['/'] + "deps/"@) + (sj + ".wit"@));
            lemma_cancel_prefix(base + seq!['/'] + "deps/"@, si + ".wit"@, sj + ".wit"@);
            lemma_cancel_suffix(si, sj, ".wit"@);
            lemma_stems_unique(ks, i, j);
        }
    }
}

/// The main package's file sits directly in the base directory, with no
/// further separator past the base; every other package's file sits under
/// the `deps` subdirectory.
pub proof fn lemma_main_dep_split(base: Seq<char>, ks: Seq<KeyView>, main: int, i: int)
    requires
        keys_wf(ks),
        0 <= i < ks.len(),
    ensures
        i == main ==> path_view(base, ks, main, i) == base + seq!['/'] + stem_view(ks, i)
            + ".wit"@ && no_char(path_view(base, ks, main, i).skip(base.len() as int + 1), '/'),
        i != main ==> path_view(base, ks, main, i) == base + seq!['/'] + "deps/"@ + stem_view(
            ks,
            i,
        ) + ".wit"@,
{
    reveal_strlit(".wit");
    lemma_stem_no_slash(ks, i);
    if i == main {
        let tail = stem_view(ks, i) + ".wit"@;
        assert(no_char(".wit"@, '/'));
        lemma_no_char_concat(stem_view(ks, i), ".wit"@, '/');
        assert(path_view(base, ks, main, i).skip(base.len() as int + 1) =~= tail);
    }
}

/// Naming is a pure function of the final graph: any two path assignments
/// that both follow the scheme for the same key list, base directory and
/// main package are identical.
pub proof fn lemma_naming_idempotent(
    base: Seq<char>,
    ks: Seq<KeyView>,
    main: int,
    p1: Seq<Seq<char>>,
    p2: Seq<Seq<char>>,
)
    requires
        p1.len() == ks.len(),
        p2.len() == ks.len(),
        forall|i: int| 0 <= i < ks.len() ==> p1[i] == path_view(base, ks, main, i),
        forall|i: int| 0 <= i < ks.len() ==> p2[i] == path_view(base, ks, main, i),
    ensures
        p1 == p2,
{
    assert(p1 =~= p2);
}

/// Counting over one more key adds one exactly when that key matches.
proof fn lemma_count_take_step(s: Seq<KeyView>, p: spec_fn(KeyView) -> bool, i: int)
    requires
        0 <= i < s.len(),
    ensures
        count_matching(s.take(i + 1), p) == count_matching(s.take(i), p) + if p(s[i]) {
            1int
        } else {
            0int
        },
{
    assert(s.take(i + 1).drop_last() =~= s.take(i));
    assert(s.take(i + 1).last() == s[i]);
}

/// How many packages share the given name, counted over the whole list.
fn count_name_matches(keys: &Vec<PackageKey>, name: &String) -> (r: usize)
    ensures
        r as int == count_matching(keys_view(keys@), name_pred(name@)),
{
    let kv = Ghost(keys_view(keys@));
    let mut c: usize = 0;
    let mut idx: usize = 0;
    while idx < keys.len()
        invariant
            idx <= keys@.len(),
            c <= idx,
            kv@ == keys_view(keys@),
            c as int == count_matching(kv@.take(idx as int), name_pred(name@)),
        decreases keys@.len() - idx,
    {
        proof {
            lemma_count_take_step(kv@, name_pred(name@), idx as int);
        }
        if keys[idx].name == *name {
            c = c + 1;
        }
        idx = idx + 1;
    }
    proof {
        assert(kv@.take(keys@.len() as int) =~= kv@);
    }
    c
}

/// How many packages share the given namespace and name.
fn count_full_matches(keys: &Vec<PackageKey>, namespace: &String, name: &String) -> (r: usize)
    ensures
        r as int == count_matching(keys_view(keys@), full_pred(namespace@, name@)),
{
    let kv = Ghost(keys_view(keys@));
    let mut c: usize = 0;
    let mut idx: usize = 0;
    while idx < keys.len()
        invariant
            idx <= keys@.len(),
            c <= idx,
            kv@ == keys_view(keys@),
            c as int == count_matching(kv@.take(idx as int), full_pred(namespace@, name@)),
        decreases keys@.len() - idx,
    {
        proof {
            lemma_count_take_step(kv@, full_pred(namespace@, name@), idx as int);
        }
        if keys[idx].name == *name && keys[idx].namespace == *namespace {
            c = c + 1;
        }
        idx = idx + 1;
    }
    proof {
        assert(kv@.take(keys@.len() as int) =~= kv@);
    }
    c
}

/// The name, with `@version` appended when a version is present.
pub fn versioned_of(name: &String, version: &Option<String>) -> (r: String)
    ensures
        r@ == versioned_view(name@, version_view(*version)),
{
    match version {
        None => name.clone(),
        Some(v) => {
            proof {
                reveal_strlit("@");
                assert("@"@ =~= seq!['@']);
            }
            let mut s = name.clone();
            s.append("@");
            s.append(v.as_str());
            s
        },
    }
}

/// The stem the naming scheme assigns to the package at `i`.
pub fn stem_of(keys: &Vec<PackageKey>, i: usize) -> (r: String)
    requires
        i < keys@.len(),
    ensures
        r@ == stem_view(keys_view(keys@), i as int),
{
    let sn = count_name_matches(keys, &keys[i].name);
    let sf = count_full_matches(keys, &keys[i].namespace, &keys[i].name);
    proof {
        assert(keys_view(keys@)[i as int] == keys@[i as int]@);
    }
    if sn == 1 {
        if sf == 1 {
            keys[i].name.clone()
        } else {
            versioned_of(&keys[i].name, &keys[i].version)
        }
    } else {
        proof {
            reveal_strlit(":");
            assert(":"@ =~= seq![':']);
        }
        let mut s = keys[i].namespace.clone();
        s.append(":");
        if sf == 1 {
            s.append(keys[i].name.as_str());
        } else {
            let rest = versioned_of(&keys[i].name, &keys[i].version);
            s.append(rest.as_str());
        }
        s
    }
}

/// The output path the naming scheme assigns to the package at `i`.
pub fn path_of(keys: &Vec<PackageKey>, base_dir: &str, main: usize, i: usize) -> (r: String)
    requires
        i < keys@.len(),
    ensures
        r@ == path_view(base_dir@, keys_view(keys@), main as int, i as int),
{
    proof {
        reveal_strlit("/");
        assert("/"@ =~= seq!['/']);
    }
    let mut s = base_dir.to_owned();
    s.append("/");
    if i != main {
        s.append("deps/");
    }
    let stem = stem_of(keys, i);
    s.append(stem.as_str());
    s.append(".wit");
    s
}

/// One output path per package of the final graph, in graph order.
pub fn output_paths(keys: &Vec<PackageKey>, base_dir: &str, main: usize) -> (r: Vec<String>)
    ensures
        r@.len() == keys@.len(),
        forall|i: int|
            0 <= i < keys@.len() ==> r@[i]@ == path_view(
                base_dir@,
                keys_view(keys@),
                main as int,
                i,
            ),
{
    let mut out: Vec<String> = Vec::new();
    let mut idx: usize = 0;
    while idx < keys.len()
        invariant
            idx <= keys@.len(),
            out@.len() == idx,
            forall|i: int|
                0 <= i < idx ==> out@[i]@ == path_view(
                    base_dir@,
                    keys_view(keys@),
                    main as int,
                    i,
                ),
        decreases keys@.len() - idx,
    {
        let p = path_of(keys, base_dir, main, idx);
        out.push(p);
        idx = idx + 1;
    }
    out
}

} // verus!
