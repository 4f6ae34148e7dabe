//! The identity of a package: namespace, name, and an optional version,
//! each held as a plain string, together with the well-formedness facts the
//! naming scheme relies on.

use vstd::prelude::*;

verus! {

/// A package identity as plain strings: the `a` and `foo` of `a:foo@1.0.0`,
/// plus the rendered version when one is present.
#[derive(Debug)]
pub struct PackageKey {
    pub namespace: String,
    pub name: String,
    pub version: Option<String>,
}

/// Mathematical view of a package identity.
#[verifier::ext_equal]
pub struct KeyView {
    pub namespace: Seq<char>,
    pub name: Seq<char>,
    pub version: Option<Seq<char>>,
}

/// The view of an optional version string.
pub open spec fn version_view(v: Option<String>) -> Option<Seq<char>> {
    match v {
        Some(v) => Some(v@),
        None => None,
    }
}

impl View for PackageKey {
    type V = KeyView;

    open spec fn view(&self) -> KeyView {
        KeyView {
            namespace: self.namespace@,
            name: self.name@,
            version: version_view(self.version),
        }
    }
}

/// `c` occurs nowhere in `s`.
pub open spec fn no_char(s: Seq<char>, c: char) -> bool {
    forall|i: int| 0 <= i < s.len() ==> s[i] != c
}

/// The separators of qualified stems and of output paths occur in none of
/// the identity's parts. WIT namespaces and names are kebab-case identifiers
/// and versions follow semver, so none of them can hold `:`, `@` or `/`.
pub open spec fn key_wf(k: KeyView) -> bool {
    &&& no_char(k.namespace, ':') && no_char(k.namespace, '@') && no_char(k.namespace, '/')
    &&& no_char(k.name, ':') && no_char(k.name, '@') && no_char(k.name, '/')
    &&& match k.version {
        Some(v) => no_char(v, ':') && no_char(v, '@') && no_char(v, '/'),
        None => true,
    }
}

/// The views of a sequence of keys.
pub open spec fn keys_view(ks: Seq<PackageKey>) -> Seq<KeyView> {
    Seq::new(ks.len(), |i: int| ks[i]@)
}

/// No two keys of the sequence share namespace, name and version.
pub open spec fn keys_distinct(ks: Seq<KeyView>) -> bool {
    forall|i: int, j: int| 0 <= i < ks.len() && 0 <= j < ks.len() && i != j ==> ks[i] != ks[j]
}

/// Every key of the sequence is well formed.
pub open spec fn keys_wf(ks: Seq<KeyView>) -> bool {
    forall|i: int| 0 <= i < ks.len() ==> key_wf(#[trigger] ks[i])
}

/// No key occurs in both sequences.
pub open spec fn keys_disjoint(a: Seq<KeyView>, b: Seq<KeyView>) -> bool {
    forall|i: int, j: int| 0 <= i < a.len() && 0 <= j < b.len() ==> a[i] != b[j]
}

/// Taking views commutes with concatenation.
pub proof fn lemma_keys_view_concat(a: Seq<PackageKey>, b: Seq<PackageKey>)
    ensures
        keys_view(a + b) == keys_view(a) + keys_view(b),
{
    assert(keys_view(a + b) =~= keys_view(a) + keys_view(b));
}

/// Concatenating two distinct, disjoint key lists keeps every key distinct.
pub proof fn lemma_keys_concat_distinct(a: Seq<KeyView>, b: Seq<KeyView>)
    requires
        keys_distinct(a),
        keys_distinct(b),
        keys_disjoint(a, b),
    ensures
        keys_distinct(a + b),
{
    assert forall|i: int, j: int|
        0 <= i < (a + b).len() && 0 <= j < (a + b).len() && i != j implies (a + b)[i] != (a
        + b)[j] by {
        if i < a.len() && j < a.len() {
            assert((a + b)[i] == a[i] && (a + b)[j] == a[j]);
        } else if i < a.len() {
            assert((a + b)[i] == a[i] && (a + b)[j] == b[j - a.len()]);
        } else if j < a.len() {
            assert((a + b)[i] == b[i - a.len()] && (a + b)[j] == a[j]);
        } else {
            assert((a + b)[i] == b[i - a.len()] && (a + b)[j] == b[j - a.len()]);
        }
    }
}

/// Concatenating two well-formed key lists keeps every key well formed.
pub proof fn lemma_keys_concat_wf(a: Seq<KeyView>, b: Seq<KeyView>)
    requires
        keys_wf(a),
        keys_wf(b),
    ensures
        keys_wf(a + b),
{
    assert forall|i: int| 0 <= i < (a + b).len() implies key_wf(#[trigger] (a + b)[i]) by {
        if i < a.len() {
            assert((a + b)[i] == a[i]);
        } else {
            assert((a + b)[i] == b[i - a.len()]);
        }
    }
}

/// Whether two package identities are the same, decided field by field.
pub fn key_eq(a: &PackageKey, b: &PackageKey) -> (r: bool)
    ensures
        r == (a@ == b@),
{
    let ns_eq = a.namespace == b.namespace;
    let name_eq = a.name == b.name;
    let ver_eq = match (&a.version, &b.version) {
        (None, None) => true,
        (Some(x), Some(y)) => *x == *y,
        _ => false,
    };
    ns_eq && name_eq && ver_eq
}

} // verus!
