//! The boundary to the external document resolver and printer. The graph
//! itself is an opaque value of the resolver's type; what the verified
//! logic needs of it — the package identities it holds, the names of its
//! worlds, what a parse, a merge, a union or a rendering does — is named
//! here, and each call into the resolver or printer states over those
//! names what its source shows.

use vstd::prelude::*;
use crate::keys::{KeyView, PackageKey, keys_view, keys_distinct, keys_wf, keys_disjoint};

verus! {

#[verifier::external_type_specification]
#[verifier::external_body]
pub struct ExResolve(wit_parser::Resolve);

#[verifier::external_type_specification]
#[verifier::external_body]
pub struct ExWorld(wit_parser::World);

#[verifier::external_type_specification]
#[verifier::external_body]
#[verifier::reject_recursive_types(T)]
pub struct ExId<T>(id_arena::Id<T>);

/// The package identities a graph holds, in the order its name index
/// iterates them.
pub uninterp spec fn pkg_keys(r: wit_parser::Resolve) -> Seq<KeyView>;

/// The world names a graph holds, in arena iteration order.
pub uninterp spec fn graph_world_names(r: wit_parser::Resolve) -> Seq<Seq<char>>;

/// What parsing one in-memory WIT document into an empty graph yields:
/// the package identities and the world names it declares, or None when
/// the external resolver rejects it. The resolver reads the display path
/// only for error messages, so this is a function of the contents alone.
pub uninterp spec fn parsed_doc(contents: Seq<char>) -> Option<(Seq<KeyView>, Seq<Seq<char>>)>;

/// Whether the external resolver's structural union of `from` into
/// `into` succeeds; parsing and resolution are pure computation, so this
/// is a function of the two graph values alone.
pub uninterp spec fn merge_ok(into: wit_parser::Resolve, from: wit_parser::Resolve) -> bool;

/// Whether both ids name worlds of the graph and the external resolver
/// can union the first world's bindings into the second without an
/// incompatible binding; a function of the graph and the two ids alone.
pub uninterp spec fn union_ok(
    r: wit_parser::Resolve,
    from: wit_parser::WorldId,
    into: wit_parser::WorldId,
) -> bool;

/// What the external printer does with one package of a graph: the
/// rendered text, documentation comments suppressed, or None when the
/// printer fails on that package. The printer walks the graph
/// deterministically, so this is a function of the graph, the package
/// identity and the main flag alone.
pub uninterp spec fn rendered_wit(r: wit_parser::Resolve, key: KeyView, is_main: bool) -> Option<
    Seq<char>,
>;

/// Relies on wit_parser::Resolve::default: a fresh graph holds no package
/// and no world.
#[verifier::external_body]
pub(crate) fn new_resolve() -> (r: wit_parser::Resolve)
    ensures
        pkg_keys(r) == Seq::<KeyView>::empty(),
        graph_world_names(r) == Seq::<Seq<char>>::empty(),
{
    wit_parser::Resolve::default()
}

/// Relies on std::path::Path::is_dir to tell a directory input from a
/// file input; the answer depends on the filesystem, so nothing is stated
/// of it.
#[verifier::external_body]
pub(crate) fn path_is_dir(path: &str) -> bool {
    std::path::Path::new(path).is_dir()
}

/// Relies on wit_parser::Resolve::push_file: reads and validates the WIT
/// document at `path` into the graph; a successful push returns the id of
/// a package now in the graph, so the graph then holds at least one. The
/// receiving graph must be empty: the resolver asserts, rather than
/// reports, a redeclaration of a package it already holds.
#[verifier::external_body]
pub(crate) fn push_file(resolve: &mut wit_parser::Resolve, path: &str) -> (r: Result<(), String>)
    requires
        pkg_keys(*old(resolve)) == Seq::<KeyView>::empty(),
        graph_world_names(*old(resolve)) == Seq::<Seq<char>>::empty(),
    ensures
        r is Ok ==> pkg_keys(*final(resolve)).len() >= 1,
{
    match resolve.push_file(std::path::Path::new(path)) {
        Ok(_) => Ok(()),
        Err(e) => Err(e.to_string()),
    }
}

/// Relies on wit_parser::Resolve::push_dir: reads a directory of WIT
/// documents (with its `deps` subdirectory) into the graph; a successful
/// push returns the id of the directory's main package, so the graph then
/// holds at least one. The receiving graph must be empty: the resolver
/// asserts, rather than reports, a redeclaration of a package it already
/// holds.
#[verifier::external_body]
pub(crate) fn push_dir(resolve: &mut wit_parser::Resolve, path: &str) -> (r: Result<(), String>)
    requires
        pkg_keys(*old(resolve)) == Seq::<KeyView>::empty(),
        graph_world_names(*old(resolve)) == Seq::<Seq<char>>::empty(),
    ensures
        r is Ok ==> pkg_keys(*final(resolve)).len() >= 1,
{
    match resolve.push_dir(std::path::Path::new(path)) {
        Ok(_) => Ok(()),
        Err(e) => Err(e.to_string()),
    }
}

/// Relies on wit_parser::Resolve::push_str: parses an in-memory WIT
/// document into the graph without touching the filesystem; it succeeds
/// exactly when the document parses, and then the graph holds exactly the
/// document's packages and worlds. The receiving graph must be empty: the
/// resolver asserts, rather than reports, a redeclaration of a package it
/// already holds.
#[verifier::external_body]
pub(crate) fn push_text(resolve: &mut wit_parser::Resolve, path: &str, contents: &str) -> (r:
    Result<(), String>)
    requires
        pkg_keys(*old(resolve)) == Seq::<KeyView>::empty(),
        graph_world_names(*old(resolve)) == Seq::<Seq<char>>::empty(),
    ensures
        r is Ok <==> parsed_doc(contents@) is Some,
        r is Ok ==> (parsed_doc(contents@) matches Some(d) && pkg_keys(*final(resolve)) == d.0
            && graph_world_names(*final(resolve)) == d.1),
{
    match resolve.push_str(path, contents) {
        Ok(_) => Ok(()),
        Err(e) => Err(e.to_string()),
    }
}

/// Relies on wit_parser::Resolve::package_names: an IndexMap keyed by
/// package identity, so the identities it lists are pairwise distinct —
/// distinct semver versions render to distinct strings — and WIT
/// namespaces and names are kebab-case identifiers while versions follow
/// semver, so no part of an identity holds `:`, `@` or `/`.
#[verifier::external_body]
pub(crate) fn package_keys(resolve: &wit_parser::Resolve) -> (r: Vec<PackageKey>)
    ensures
        keys_view(r@) == pkg_keys(*resolve),
        keys_distinct(keys_view(r@)),
        keys_wf(keys_view(r@)),
{
    resolve
        .package_names
        .keys()
        .map(
            |n| PackageKey {
                namespace: n.namespace.clone(),
                name: n.name.clone(),
                version: n.version.as_ref().map(|v| v.to_string()),
            },
        )
        .collect()
}

/// Relies on wit_parser::Resolve::worlds: hands out every world's id and
/// name, in arena iteration order.
#[verifier::external_body]
pub(crate) fn worlds_list(resolve: &wit_parser::Resolve) -> (r: Vec<(wit_parser::WorldId, String)>)
    ensures
        Seq::new(r@.len(), |i: int| r@[i].1@) == graph_world_names(*resolve),
{
    resolve.worlds.iter().map(|(id, w)| (id, w.name.clone())).collect()
}

/// Relies on wit_parser::Resolve::merge: moves every package of `from`
/// into `into`. With no package identity shared — which the caller must
/// ensure — nothing already present is touched; on success the incoming
/// packages and worlds are appended in `from`'s own order. On error the
/// name index is untouched (it is updated only after all moves), and
/// worlds are only ever appended.
#[verifier::external_body]
pub(crate) fn merge_resolve(into: &mut wit_parser::Resolve, from: wit_parser::Resolve) -> (r:
    Result<(), String>)
    requires
        keys_disjoint(pkg_keys(*old(into)), pkg_keys(from)),
    ensures
        r is Ok <==> merge_ok(*old(into), from),
        r is Ok ==> pkg_keys(*final(into)) == pkg_keys(*old(into)) + pkg_keys(from),
        r is Ok ==> graph_world_names(*final(into)) == graph_world_names(*old(into))
            + graph_world_names(from),
        r is Err ==> pkg_keys(*final(into)) == pkg_keys(*old(into)),
        r is Err ==> graph_world_names(*old(into)).is_prefix_of(
            graph_world_names(*final(into)),
        ),
{
    match into.merge(from) {
        Ok(_) => Ok(()),
        Err(e) => Err(e.to_string()),
    }
}

/// Relies on wit_parser::Resolve::merge_worlds: unions the imports and
/// exports of the world `from` into the world `into`, succeeding exactly
/// when both ids name worlds of this graph and no name is bound
/// incompatibly. It clones at most types and interfaces and allocates no
/// package and no world, so the graph keeps its package identities and
/// its world names whether it succeeds or fails; a stale id is an error
/// here, not an arena panic.
#[verifier::external_body]
pub(crate) fn union_worlds(
    resolve: &mut wit_parser::Resolve,
    from: wit_parser::WorldId,
    into: wit_parser::WorldId,
) -> (r: Result<(), String>)
    ensures
        pkg_keys(*final(resolve)) == pkg_keys(*old(resolve)),
        graph_world_names(*final(resolve)) == graph_world_names(*old(resolve)),
        r is Ok <==> union_ok(*old(resolve), from, into),
{
    if resolve.worlds.get(from).is_none() || resolve.worlds.get(into).is_none() {
        return Err("unknown world".to_string());
    }
    let mut maps = wit_parser::CloneMaps::default();
    resolve.merge_worlds(from, into, &mut maps).map_err(|e| e.to_string())
}

/// Relies on wit_component::WitPrinter::print_package: renders exactly the
/// package with the given identity, documentation comments suppressed, in
/// main or nested notation as `is_main` says; it succeeds exactly when the
/// identity names a package of the graph and the printer accepts it, and
/// the printer walks the graph deterministically, so the outcome depends
/// on nothing else.
#[verifier::external_body]
pub(crate) fn render_package(resolve: &wit_parser::Resolve, key: &PackageKey, is_main: bool) -> (r:
    Result<String, String>)
    ensures
        r is Ok <==> rendered_wit(*resolve, key@, is_main) is Some,
        r matches Ok(t) ==> rendered_wit(*resolve, key@, is_main) == Some(t@),
{
    let version = match &key.version {
        Some(v) => Some(semver::Version::parse(v).map_err(|e| e.to_string())?),
        None => None,
    };
    let name = wit_parser::PackageName {
        namespace: key.namespace.clone(),
        name: key.name.clone(),
        version,
    };
    let id = *resolve.package_names.get(&name).ok_or_else(|| "package not found".to_string())?;
    let mut printer = wit_component::WitPrinter::default();
    printer.emit_docs(false);
    printer.print_package(resolve, id, is_main).map_err(|e| e.to_string())?;
    Ok(String::from(printer.output))
}

} // verus!
