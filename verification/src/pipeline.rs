//! The merge pipeline: seed the graph with the synthetic target document,
//! fold every input into it, union the requested worlds into the target
//! world, then project every package of the final graph to an output unit.
//! Data flows forward only; the first failure anywhere aborts the run.

use vstd::prelude::*;
use vstd::string::StringExecFns;
use crate::errors::KnitError;
use crate::graph::{
    pkg_keys, graph_world_names, rendered_wit, parsed_doc, merge_ok, new_resolve, path_is_dir,
    push_file, push_dir, push_text, package_keys, worlds_list, merge_resolve, union_worlds,
    render_package,
};
use crate::keys::{
    KeyView, PackageKey, keys_view, keys_distinct, keys_wf, keys_disjoint, key_eq,
    lemma_keys_view_concat, lemma_keys_concat_distinct, lemma_keys_concat_wf,
};
use crate::naming::{path_view, output_paths, versioned_view, versioned_of, lemma_paths_unique};

verus! {

/// An input document held in memory: a display path and the WIT text.
#[derive(Debug)]
pub struct WitDocument {
    pub path: String,
    pub text: String,
}

/// One output unit: a relative output path and the rendered text.
#[derive(Debug)]
pub struct OutputUnit {
    pub path: String,
    pub text: String,
}

/// The accumulating merged graph, paired with the plain list of the
/// package identities it holds.
pub struct MergedGraph {
    pub resolve: wit_parser::Resolve,
    pub keys: Vec<PackageKey>,
}

impl MergedGraph {
    /// The key list mirrors the graph: the same identities in the same
    /// order, pairwise distinct and well formed.
    pub open spec fn wf(&self) -> bool {
        &&& keys_view(self.keys@) == pkg_keys(self.resolve)
        &&& keys_distinct(keys_view(self.keys@))
        &&& keys_wf(keys_view(self.keys@))
    }
}

/// The text of the synthetic target document.
pub open spec fn target_source_view(p: Seq<char>, w: Seq<char>) -> Seq<char> {
    "package "@ + p + ";\n\n        world "@ + w + " {\n        }"@
}

/// The synthetic target document for the given package and world names
/// parses and declares exactly one package.
pub open spec fn target_parses(p: Seq<char>, w: Seq<char>) -> bool {
    match parsed_doc(target_source_view(p, w)) {
        Some(d) => d.0.len() == 1,
        None => false,
    }
}

/// The synthetic target document parses and declares a world named `w`.
pub open spec fn target_declares_world(p: Seq<char>, w: Seq<char>) -> bool {
    match parsed_doc(target_source_view(p, w)) {
        Some(d) => name_present(d.1, w),
        None => false,
    }
}

/// A name occurs among the world names of a graph.
pub open spec fn name_present(names: Seq<Seq<char>>, w: Seq<char>) -> bool {
    exists|j: int| 0 <= j < names.len() && names[j] == w
}

/// The chosen string of an optional setting, or its default.
pub open spec fn opt_str_or(v: Option<String>, d: Seq<char>) -> Seq<char> {
    match v {
        Some(s) => s@,
        None => d,
    }
}

/// The outputs follow the naming scheme for some well-formed, pairwise
/// distinct key list whose first entry is the main package.
pub open spec fn follows_naming(units: Seq<OutputUnit>, ks: Seq<KeyView>, base: Seq<char>) -> bool {
    &&& ks.len() == units.len()
    &&& ks.len() >= 1
    &&& keys_wf(ks)
    &&& keys_distinct(ks)
    &&& forall|i: int| 0 <= i < units.len() ==> (#[trigger] units[i].path)@ == path_view(
        base,
        ks,
        0,
        i,
    )
}

/// A prefix of a prefix is a prefix.
proof fn lemma_prefix_trans<A>(a: Seq<A>, b: Seq<A>, c: Seq<A>)
    requires
        a.is_prefix_of(b),
        b.is_prefix_of(c),
    ensures
        a.is_prefix_of(c),
{
    assert forall|i: int| 0 <= i < a.len() implies a[i] == c[i] by {
        assert(a[i] == b[i]);
    }
    assert(a =~= c.take(a.len() as int));
}

/// A name present in a prefix is present in the whole.
proof fn lemma_present_in_prefix(a: Seq<Seq<char>>, b: Seq<Seq<char>>, w: Seq<char>)
    requires
        a.is_prefix_of(b),
        name_present(a, w),
    ensures
        name_present(b, w),
{
    let j = choose|j: int| 0 <= j < a.len() && a[j] == w;
    assert(b[j] == a[j]);
}

/// The synthetic target document: exactly one package holding exactly one
/// empty world.
pub fn target_wit_source(package_name: &str, world_name: &str) -> (r: String)
    ensures
        r@ == target_source_view(package_name@, world_name@),
{
    let mut s = "package ".to_owned();
    s.append(package_name);
    s.append(";\n\n        world ");
    s.append(world_name);
    s.append(" {\n        }");
    s
}

/// Loads one input path — a file or a directory — into an isolated graph.
/// Every failure carries the offending path.
pub fn parse_wit(path: &str) -> (r: Result<wit_parser::Resolve, KnitError>)
    ensures
        r matches Ok(g) ==> pkg_keys(g).len() >= 1,
        r matches Err(e) ==> e matches KnitError::LoadError { path: p, message: _ } && p@
            == path@,
{
    let mut resolve = new_resolve();
    let pushed = if path_is_dir(path) {
        push_dir(&mut resolve, path)
    } else {
        push_file(&mut resolve, path)
    };
    match pushed {
        Ok(()) => Ok(resolve),
        Err(m) => Err(KnitError::LoadError { path: path.to_owned(), message: m }),
    }
}

/// The fully qualified display of a package identity.
pub fn qualified_name(k: &PackageKey) -> (r: String)
    ensures
        r@ == k@.namespace + seq![':'] + versioned_view(k@.name, k@.version),
{
    proof {
        reveal_strlit(":");
        assert(":"@ =~= seq![':']);
    }
    let mut s = k.namespace.clone();
    s.append(":");
    let rest = versioned_of(&k.name, &k.version);
    s.append(rest.as_str());
    s
}

/// The index of the first identity in `add` that `acc` already holds.
pub fn find_conflict(acc: &Vec<PackageKey>, add: &Vec<PackageKey>) -> (r: Option<usize>)
    ensures
        match r {
            Some(i) => i < add@.len() && exists|j: int|
                0 <= j < acc@.len() && keys_view(acc@)[j] == keys_view(add@)[i as int],
            None => keys_disjoint(keys_view(acc@), keys_view(add@)),
        },
{
    let mut i: usize = 0;
    while i < add.len()
        invariant
            i <= add@.len(),
            forall|x: int, y: int|
                0 <= x < acc@.len() && 0 <= y < i ==> keys_view(acc@)[x] != keys_view(add@)[y],
        decreases add@.len() - i,
    {
        let mut j: usize = 0;
        while j < acc.len()
            invariant
                i < add@.len(),
                j <= acc@.len(),
                forall|x: int| 0 <= x < j ==> keys_view(acc@)[x] != keys_view(add@)[i as int],
            decreases acc@.len() - j,
        {
            if key_eq(&acc[j], &add[i]) {
                proof {
                    assert(keys_view(acc@)[j as int] == keys_view(add@)[i as int]);
                }
                return Some(i);
            }
            j = j + 1;
        }
        i = i + 1;
    }
    None
}

/// Folds one isolated, already-loaded graph into the accumulator. A
/// package identity the accumulator already holds is a fatal conflict,
/// never silently resolved.
pub fn merge_document(graph: &mut MergedGraph, doc: wit_parser::Resolve) -> (r: Result<
    (),
    KnitError,
>)
    requires
        old(graph).wf(),
    ensures
        final(graph).wf(),
        old(graph).keys@.is_prefix_of(final(graph).keys@),
        graph_world_names(old(graph).resolve).is_prefix_of(
            graph_world_names(final(graph).resolve),
        ),
        r is Ok <==> keys_disjoint(keys_view(old(graph).keys@), pkg_keys(doc)) && merge_ok(
            old(graph).resolve,
            doc,
        ),
        r is Ok ==> keys_view(final(graph).keys@) == keys_view(old(graph).keys@) + pkg_keys(doc),
        r matches Err(e) ==> e is MergeConflict,
{
    let new_keys = package_keys(&doc);
    match find_conflict(&graph.keys, &new_keys) {
        Some(i) => {
            proof {
                assert(graph.keys@.is_prefix_of(graph.keys@)) by {
                    assert(graph.keys@.take(graph.keys@.len() as int) =~= graph.keys@);
                }
                let names = graph_world_names(graph.resolve);
                assert(names.is_prefix_of(names)) by {
                    assert(names.take(names.len() as int) =~= names);
                }
            }
            let q = qualified_name(&new_keys[i]);
            let mut m = "duplicate package ".to_owned();
            m.append(q.as_str());
            Err(KnitError::MergeConflict(m))
        },
        None => {
            match merge_resolve(&mut graph.resolve, doc) {
                Err(m) => {
                    proof {
                        assert(graph.keys@.is_prefix_of(graph.keys@)) by {
                            assert(graph.keys@.take(graph.keys@.len() as int) =~= graph.keys@);
                        }
                    }
                    Err(KnitError::MergeConflict(m))
                },
                Ok(()) => {
                    let ghost old_keys = graph.keys@;
                    let ghost added = new_keys@;
                    let mut nk = new_keys;
                    graph.keys.append(&mut nk);
                    proof {
                        lemma_keys_view_concat(old_keys, added);
                        lemma_keys_concat_distinct(keys_view(old_keys), keys_view(added));
                        lemma_keys_concat_wf(keys_view(old_keys), keys_view(added));
                        assert(old_keys.is_prefix_of(graph.keys@)) by {
                            assert((old_keys + added).take(old_keys.len() as int) =~= old_keys);
                        }
                        let wn_old = graph_world_names(old(graph).resolve);
                        let wn_new = graph_world_names(graph.resolve);
                        assert(wn_old.is_prefix_of(wn_new)) by {
                            assert(wn_new.take(wn_old.len() as int) =~= wn_old);
                        }
                    }
                    Ok(())
                },
            }
        },
    }
}

/// Folds every input path into the accumulator, in the order supplied.
pub fn merge_wits(graph: &mut MergedGraph, wit_paths: &Vec<String>) -> (r: Result<(), KnitError>)
    requires
        old(graph).wf(),
    ensures
        final(graph).wf(),
        old(graph).keys@.is_prefix_of(final(graph).keys@),
        graph_world_names(old(graph).resolve).is_prefix_of(
            graph_world_names(final(graph).resolve),
        ),
        r matches Err(e) ==> e is LoadError || e is MergeConflict,
{
    proof {
        let wn = graph_world_names(graph.resolve);
        assert(wn.is_prefix_of(wn)) by {
            assert(wn.take(wn.len() as int) =~= wn);
        }
        assert(graph.keys@.is_prefix_of(graph.keys@)) by {
            assert(graph.keys@.take(graph.keys@.len() as int) =~= graph.keys@);
        }
    }
    let mut idx: usize = 0;
    while idx < wit_paths.len()
        invariant
            idx <= wit_paths@.len(),
            graph.wf(),
            old(graph).keys@.is_prefix_of(graph.keys@),
            graph_world_names(old(graph).resolve).is_prefix_of(graph_world_names(graph.resolve)),
        decreases wit_paths@.len() - idx,
    {
        let doc = match parse_wit(wit_paths[idx].as_str()) {
            Ok(d) => d,
            Err(e) => {
                return Err(e);
            },
        };
        let ghost mid_keys = graph.keys@;
        let ghost mid_worlds = graph_world_names(graph.resolve);
        let res = merge_document(graph, doc);
        proof {
            lemma_prefix_trans(old(graph).keys@, mid_keys, graph.keys@);
            lemma_prefix_trans(
                graph_world_names(old(graph).resolve),
                mid_worlds,
                graph_world_names(graph.resolve),
            );
        }
        match res {
            Err(e) => {
                return Err(e);
            },
            Ok(()) => {},
        }
        idx = idx + 1;
    }
    Ok(())
}

/// The index of the first world with the given name, in graph iteration
/// order; when several worlds share the name, the first match is accepted.
pub fn find_world(avail: &Vec<(wit_parser::WorldId, String)>, name: &String) -> (r: Option<usize>)
    ensures
        match r {
            Some(i) => i < avail@.len() && avail@[i as int].1@ == name@ && forall|j: int|
                0 <= j < i ==> avail@[j].1@ != name@,
            None => forall|j: int| 0 <= j < avail@.len() ==> avail@[j].1@ != name@,
        },
{
    let mut i: usize = 0;
    while i < avail.len()
        invariant
            i <= avail@.len(),
            forall|j: int| 0 <= j < i ==> avail@[j].1@ != name@,
        decreases avail@.len() - i,
    {
        if avail[i].1 == *name {
            return Some(i);
        }
        i = i + 1;
    }
    None
}

/// Unions each requested world, in order, into the destination world. A
/// requested name absent from the whole graph is fatal; so is one
/// incompatible binding. The graph keeps its packages and world names.
pub fn merge_worlds(
    graph: &mut MergedGraph,
    base: wit_parser::WorldId,
    requested: &Vec<String>,
) -> (r: Result<(), KnitError>)
    requires
        old(graph).wf(),
    ensures
        final(graph).wf(),
        final(graph).keys@ == old(graph).keys@,
        graph_world_names(final(graph).resolve) == graph_world_names(old(graph).resolve),
        r matches Err(e) ==> e is WorldNotFound || e is WorldMergeConflict,
        r matches Err(e) ==> (e matches KnitError::WorldNotFound(w) ==> !name_present(
            graph_world_names(old(graph).resolve),
            w@,
        ) && exists|k: int|
            0 <= k < requested@.len() && (#[trigger] requested@[k])@ == w@ && forall|i: int|
                0 <= i < k ==> name_present(
                    graph_world_names(old(graph).resolve),
                    requested@[i]@,
                )),
        (exists|i: int|
            0 <= i < requested@.len() && !name_present(
                graph_world_names(old(graph).resolve),
                (#[trigger] requested@[i])@,
            )) ==> r is Err,
        (forall|i: int|
            0 <= i < requested@.len() ==> name_present(
                graph_world_names(old(graph).resolve),
                (#[trigger] requested@[i])@,
            )) ==> !(r matches Err(KnitError::WorldNotFound(_))),
{
    let avail = worlds_list(&graph.resolve);
    let ghost names = graph_world_names(graph.resolve);
    let mut idx: usize = 0;
    while idx < requested.len()
        invariant
            idx <= requested@.len(),
            graph.wf(),
            graph.keys@ == old(graph).keys@,
            graph_world_names(graph.resolve) == names,
            names == graph_world_names(old(graph).resolve),
            Seq::new(avail@.len(), |i: int| avail@[i].1@) == names,
            forall|i: int| 0 <= i < idx ==> name_present(names, (#[trigger] requested@[i])@),
        decreases requested@.len() - idx,
    {
        match find_world(&avail, &requested[idx]) {
            None => {
                proof {
                    assert forall|j: int| 0 <= j < names.len() implies names[j]
                        != requested@[idx as int]@ by {
                        assert(names[j] == avail@[j].1@);
                    }
                    let target = requested@[idx as int]@;
                    assert(exists|k: int|
                        0 <= k < requested@.len() && (#[trigger] requested@[k])@ == target
                            && forall|i: int|
                            0 <= i < k ==> name_present(names, requested@[i]@)) by {
                        assert((requested@[idx as int])@ == target && forall|i: int|
                            0 <= i < idx as int ==> name_present(names, requested@[i]@));
                    }
                }
                return Err(KnitError::WorldNotFound(requested[idx].clone()));
            },
            Some(w) => {
                match union_worlds(&mut graph.resolve, avail[w].0, base) {
                    Err(m) => {
                        let mut msg = "unable to merge with world '".to_owned();
                        msg.append(requested[idx].as_str());
                        msg.append("': ");
                        msg.append(m.as_str());
                        return Err(KnitError::WorldMergeConflict(msg));
                    },
                    Ok(()) => {},
                }
                proof {
                    assert(name_present(names, requested@[idx as int]@)) by {
                        assert(names[w as int] == avail@[w as int].1@);
                    }
                }
            },
        }
        idx = idx + 1;
    }
    Ok(())
}

/// Seeds a fresh run with the synthetic target document. It succeeds
/// exactly when that document parses and defines exactly one package,
/// and the fresh graph then holds exactly the document's package and
/// worlds.
pub fn init_target(source: &str) -> (r: Result<MergedGraph, KnitError>)
    ensures
        r is Ok <==> (parsed_doc(source@) matches Some(d) && d.0.len() == 1),
        r matches Ok(g) ==> g.wf() && g.keys@.len() == 1 && (parsed_doc(source@) matches Some(d)
            && keys_view(g.keys@) == d.0 && graph_world_names(g.resolve) == d.1),
        r matches Err(e) ==> e is LoadError,
{
    let mut resolve = new_resolve();
    match push_text(&mut resolve, "component.wit", source) {
        Err(m) => {
            return Err(KnitError::LoadError { path: "component.wit".to_owned(), message: m });
        },
        Ok(()) => {},
    }
    let keys = package_keys(&resolve);
    if keys.len() != 1 {
        return Err(
            KnitError::LoadError {
                path: "component.wit".to_owned(),
                message: "the target document must define exactly one package".to_owned(),
            },
        );
    }
    Ok(MergedGraph { resolve, keys })
}

/// Projects every package of the final graph to an output unit: the path
/// the naming scheme assigns, and the text the external printer renders.
/// The paths are pairwise distinct; a printer failure on any package fails
/// the whole call.
pub fn render_outputs(graph: &MergedGraph, base_dir: &str) -> (r: Result<Vec<OutputUnit>, KnitError>)
    requires
        graph.wf(),
    ensures
        r matches Ok(units) ==> ({
            &&& units@.len() == graph.keys@.len()
            &&& forall|i: int|
                0 <= i < units@.len() ==> (#[trigger] units@[i].path)@ == path_view(
                    base_dir@,
                    keys_view(graph.keys@),
                    0,
                    i,
                )
            &&& forall|i: int|
                0 <= i < units@.len() ==> rendered_wit(
                    graph.resolve,
                    keys_view(graph.keys@)[i],
                    i == 0,
                ) == Some((#[trigger] units@[i].text)@)
            &&& forall|i: int, j: int|
                0 <= i < units@.len() && 0 <= j < units@.len() && i != j ==> units@[i].path@
                    != units@[j].path@
        }),
        r is Ok <==> (forall|i: int|
            0 <= i < graph.keys@.len() ==> rendered_wit(
                graph.resolve,
                #[trigger] keys_view(graph.keys@)[i],
                i == 0,
            ) is Some),
        r matches Err(e) ==> e is RenderError,
{
    let paths = output_paths(&graph.keys, base_dir, 0);
    let mut units: Vec<OutputUnit> = Vec::new();
    let mut idx: usize = 0;
    while idx < graph.keys.len()
        invariant
            graph.wf(),
            idx <= graph.keys@.len(),
            paths@.len() == graph.keys@.len(),
            forall|i: int|
                0 <= i < graph.keys@.len() ==> (#[trigger] paths@[i])@ == path_view(
                    base_dir@,
                    keys_view(graph.keys@),
                    0,
                    i,
                ),
            units@.len() == idx,
            forall|i: int|
                0 <= i < idx ==> (#[trigger] units@[i].path)@ == path_view(
                    base_dir@,
                    keys_view(graph.keys@),
                    0,
                    i,
                ),
            forall|i: int|
                0 <= i < idx ==> rendered_wit(
                    graph.resolve,
                    keys_view(graph.keys@)[i],
                    i == 0,
                ) == Some((#[trigger] units@[i].text)@),
        decreases graph.keys@.len() - idx,
    {
        let is_main = idx == 0;
        let text = match render_package(&graph.resolve, &graph.keys[idx], is_main) {
            Ok(t) => t,
            Err(m) => {
                proof {
                    assert(!(rendered_wit(
                        graph.resolve,
                        keys_view(graph.keys@)[idx as int],
                        idx as int == 0,
                    ) is Some));
                }
                return Err(KnitError::RenderError(m));
            },
        };
        let path = paths[idx].clone();
        units.push(OutputUnit { path, text });
        idx = idx + 1;
    }
    proof {
        let ks = keys_view(graph.keys@);
        assert forall|i: int, j: int|
            0 <= i < units@.len() && 0 <= j < units@.len() && i != j implies units@[i].path@
            != units@[j].path@ by {
            assert(ks[i] != ks[j]);
            lemma_paths_unique(base_dir@, ks, 0, i, j);
        }
        assert forall|i: int| 0 <= i < graph.keys@.len() implies rendered_wit(
            graph.resolve,
            #[trigger] keys_view(graph.keys@)[i],
            i == 0,
        ) is Some by {
            assert(rendered_wit(graph.resolve, keys_view(graph.keys@)[i], i == 0) == Some(
                units@[i].text@,
            ));
        }
    }
    Ok(units)
}

/// Finds the destination world by name, unions every requested world into
/// it, then renders the final graph. The output paths follow the naming
/// scheme over the graph's own key list and are pairwise distinct.
pub fn union_and_render(
    graph: MergedGraph,
    worlds: &Vec<String>,
    output_world: &String,
    base_dir: &str,
) -> (r: Result<Vec<OutputUnit>, KnitError>)
    requires
        graph.wf(),
    ensures
        r matches Ok(units) ==> ({
            &&& units@.len() == graph.keys@.len()
            &&& forall|i: int|
                0 <= i < units@.len() ==> (#[trigger] units@[i].path)@ == path_view(
                    base_dir@,
                    keys_view(graph.keys@),
                    0,
                    i,
                )
            &&& forall|i: int, j: int|
                0 <= i < units@.len() && 0 <= j < units@.len() && i != j ==> units@[i].path@
                    != units@[j].path@
        }),
        r matches Err(e) ==> e is WorldNotFound || e is WorldMergeConflict || e is RenderError,
        r matches Err(e) ==> (e matches KnitError::WorldNotFound(w) ==> !name_present(
            graph_world_names(graph.resolve),
            w@,
        ) && (w@ == output_world@ || exists|i: int|
            0 <= i < worlds@.len() && (#[trigger] worlds@[i])@ == w@)),
{
    let mut graph = graph;
    let ghost names = graph_world_names(graph.resolve);
    let avail = worlds_list(&graph.resolve);
    let base = match find_world(&avail, output_world) {
        None => {
            proof {
                assert forall|j: int| 0 <= j < names.len() implies names[j]
                    != output_world@ by {
                    assert(names[j] == avail@[j].1@);
                }
            }
            return Err(KnitError::WorldNotFound(output_world.clone()));
        },
        Some(i) => avail[i].0,
    };
    match merge_worlds(&mut graph, base, worlds) {
        Err(e) => {
            return Err(e);
        },
        Ok(()) => {},
    }
    render_outputs(&graph, base_dir)
}

/// Merges the WIT documents at the given filesystem paths, unions the
/// named worlds into a synthetic target world, and returns one rendered
/// output unit per package of the final graph — the synthetic target
/// first, every dependency under `deps`, no two under the same path. An
/// empty path list or an empty world list is rejected before anything is
/// loaded.
pub fn knitwit(
    wit_paths: Vec<String>,
    worlds: Vec<String>,
    output_world: Option<String>,
    output_package: Option<String>,
    output_dir: Option<String>,
) -> (r: Result<Vec<OutputUnit>, KnitError>)
    ensures
        ((wit_paths@.len() == 0 || worlds@.len() == 0) <==> r matches Err(
            KnitError::InvalidRequest(_),
        )),
        r matches Ok(units) ==> exists|ks: Seq<KeyView>|
            follows_naming(units@, ks, opt_str_or(output_dir, "combined-wit"@)),
        r matches Ok(units) ==> forall|i: int, j: int|
            0 <= i < units@.len() && 0 <= j < units@.len() && i != j ==> units@[i].path@
                != units@[j].path@,
        (wit_paths@.len() >= 1 && worlds@.len() >= 1 && !target_parses(
            opt_str_or(output_package, "local:combined-wit"@),
            opt_str_or(output_world, "combined"@),
        )) ==> r matches Err(KnitError::LoadError { path: _, message: _ }),
        r matches Err(e) ==> (target_declares_world(
            opt_str_or(output_package, "local:combined-wit"@),
            opt_str_or(output_world, "combined"@),
        ) ==> (e matches KnitError::WorldNotFound(w) ==> exists|i: int|
            0 <= i < worlds@.len() && (#[trigger] worlds@[i])@ == w@)),
{
    if wit_paths.len() == 0 {
        return Err(KnitError::InvalidRequest("no input paths were given".to_owned()));
    }
    if worlds.len() == 0 {
        return Err(KnitError::InvalidRequest("no worlds were given".to_owned()));
    }
    let ghost base_view = opt_str_or(output_dir, "combined-wit"@);
    let ghost pv = opt_str_or(output_package, "local:combined-wit"@);
    let ghost wv = opt_str_or(output_world, "combined"@);
    let output_package = match output_package {
        Some(p) => p,
        None => "local:combined-wit".to_owned(),
    };
    let output_world = match output_world {
        Some(w) => w,
        None => "combined".to_owned(),
    };
    let base_dir = match output_dir {
        Some(d) => d,
        None => "combined-wit".to_owned(),
    };
    let source = target_wit_source(output_package.as_str(), output_world.as_str());
    let mut graph = match init_target(source.as_str()) {
        Ok(g) => g,
        Err(e) => {
            return Err(e);
        },
    };
    let ghost init_worlds = graph_world_names(graph.resolve);
    match merge_wits(&mut graph, &wit_paths) {
        Err(e) => {
            return Err(e);
        },
        Ok(()) => {},
    }
    let ghost ks = keys_view(graph.keys@);
    let ghost wnames = graph_world_names(graph.resolve);
    let units = match union_and_render(graph, &worlds, &output_world, base_dir.as_str()) {
        Ok(u) => u,
        Err(e) => {
            proof {
                if target_declares_world(pv, wv) {
                    lemma_present_in_prefix(init_worlds, wnames, wv);
                }
            }
            return Err(e);
        },
    };
    proof {
        assert(follows_naming(units@, ks, base_view));
    }
    Ok(units)
}

/// The in-memory entry: the same pipeline as `knitwit`, with each input
/// document supplied as text instead of read from a path.
pub fn knit_documents(
    docs: Vec<WitDocument>,
    worlds: Vec<String>,
    output_world: Option<String>,
    output_package: Option<String>,
    output_dir: Option<String>,
) -> (r: Result<Vec<OutputUnit>, KnitError>)
    ensures
        ((docs@.len() == 0 || worlds@.len() == 0) <==> r matches Err(
            KnitError::InvalidRequest(_),
        )),
        r matches Ok(units) ==> exists|ks: Seq<KeyView>|
            follows_naming(units@, ks, opt_str_or(output_dir, "combined-wit"@)),
        r matches Ok(units) ==> forall|i: int, j: int|
            0 <= i < units@.len() && 0 <= j < units@.len() && i != j ==> units@[i].path@
                != units@[j].path@,
        (docs@.len() >= 1 && worlds@.len() >= 1 && !target_parses(
            opt_str_or(output_package, "local:combined-wit"@),
            opt_str_or(output_world, "combined"@),
        )) ==> r matches Err(KnitError::LoadError { path: _, message: _ }),
        r matches Err(e) ==> (target_declares_world(
            opt_str_or(output_package, "local:combined-wit"@),
            opt_str_or(output_world, "combined"@),
        ) ==> (e matches KnitError::WorldNotFound(w) ==> exists|i: int|
            0 <= i < worlds@.len() && (#[trigger] worlds@[i])@ == w@)),
{
    if docs.len() == 0 {
        return Err(KnitError::InvalidRequest("no input documents were given".to_owned()));
    }
    if worlds.len() == 0 {
        return Err(KnitError::InvalidRequest("no worlds were given".to_owned()));
    }
    let ghost base_view = opt_str_or(output_dir, "combined-wit"@);
    let ghost pv = opt_str_or(output_package, "local:combined-wit"@);
    let ghost wv = opt_str_or(output_world, "combined"@);
    let pkg_name = match &output_package {
        Some(p) => p.clone(),
        None => "local:combined-wit".to_owned(),
    };
    let world_name = match &output_world {
        Some(w) => w.clone(),
        None => "combined".to_owned(),
    };
    let base_dir = match &output_dir {
        Some(d) => d.clone(),
        None => "combined-wit".to_owned(),
    };
    let source = target_wit_source(pkg_name.as_str(), world_name.as_str());
    let mut graph = match init_target(source.as_str()) {
        Ok(g) => g,
        Err(e) => {
            return Err(e);
        },
    };
    let ghost init_worlds = graph_world_names(graph.resolve);
    proof {
        assert(init_worlds.is_prefix_of(init_worlds)) by {
            assert(init_worlds.take(init_worlds.len() as int) =~= init_worlds);
        }
    }
    let mut idx: usize = 0;
    while idx < docs.len()
        invariant
            idx <= docs@.len(),
            docs@.len() >= 1,
            worlds@.len() >= 1,
            graph.wf(),
            graph.keys@.len() >= 1,
            pv == opt_str_or(output_package, "local:combined-wit"@),
            wv == opt_str_or(output_world, "combined"@),
            target_parses(pv, wv),
            init_worlds.is_prefix_of(graph_world_names(graph.resolve)),
        decreases docs@.len() - idx,
    {
        let mut resolve = new_resolve();
        match push_text(&mut resolve, docs[idx].path.as_str(), docs[idx].text.as_str()) {
            Err(m) => {
                return Err(KnitError::LoadError { path: docs[idx].path.clone(), message: m });
            },
            Ok(()) => {},
        }
        let ghost mid_worlds = graph_world_names(graph.resolve);
        let res = merge_document(&mut graph, resolve);
        proof {
            lemma_prefix_trans(init_worlds, mid_worlds, graph_world_names(graph.resolve));
        }
        match res {
            Err(e) => {
                return Err(e);
            },
            Ok(()) => {},
        }
        idx = idx + 1;
    }
    let ghost ks = keys_view(graph.keys@);
    let ghost wnames = graph_world_names(graph.resolve);
    let units = match union_and_render(graph, &worlds, &world_name, base_dir.as_str()) {
        Ok(u) => u,
        Err(e) => {
            proof {
                if target_declares_world(pv, wv) {
                    lemma_present_in_prefix(init_worlds, wnames, wv);
                }
            }
            return Err(e);
        },
    };
    proof {
        assert(follows_naming(units@, ks, base_view));
    }
    Ok(units)
}

} // verus!
