//! A directory tree as the sequence of its regular files, (path, content) in
//! walk order, and what its manifest says of it.

use vstd::prelude::*;

use crate::hashing::strong_digest_of;
use crate::hex::{is_hex_char, lemma_hex_of_chars};
use crate::manifest::{
    entry_well_formed, kept, lemma_parse_render, manifest_text, manifests_match, is_ascii_space, NEWLINE,
};

verus! {

broadcast use vstd::seq_lib::group_to_multiset_ensures;

/// The manifest entries of a tree whose files were all read: (strong digest, path).
pub open spec fn tree_entries(tree: Seq<(Seq<u8>, Seq<u8>)>) -> Seq<(Seq<u8>, Seq<u8>)> {
    tree.map_values(|f: (Seq<u8>, Seq<u8>)| (strong_digest_of(f.1), f.0))
}

/// The manifest text of a tree whose files were all read.
pub open spec fn tree_manifest(tree: Seq<(Seq<u8>, Seq<u8>)>) -> Seq<u8> {
    manifest_text(tree_entries(tree))
}

/// The contents of a tree's files, in walk order.
pub open spec fn tree_contents(tree: Seq<(Seq<u8>, Seq<u8>)>) -> Seq<Seq<u8>> {
    tree.map_values(|f: (Seq<u8>, Seq<u8>)| f.1)
}

/// The strong digests of a tree's files, in walk order.
pub open spec fn content_digests(tree: Seq<(Seq<u8>, Seq<u8>)>) -> Seq<Seq<u8>> {
    tree.map_values(|f: (Seq<u8>, Seq<u8>)| strong_digest_of(f.1))
}

/// No path of the tree holds a newline, which would split its manifest line.
pub open spec fn paths_well_formed(tree: Seq<(Seq<u8>, Seq<u8>)>) -> bool {
    forall|i: int, k: int|
        0 <= i < tree.len() && 0 <= k < tree[i].0.len() ==> #[trigger] tree[i].0[k] != NEWLINE
}

proof fn lemma_tree_listed(tree: Seq<(Seq<u8>, Seq<u8>)>)
    requires
        paths_well_formed(tree),
    ensures
        crate::manifest::listed_digests(tree_manifest(tree)) == content_digests(tree),
{
    let es = tree_entries(tree);
    assert forall|i: int| 0 <= i < es.len() implies entry_well_formed(#[trigger] es[i]) by {
        let d = strong_digest_of(tree[i].1);
        crate::hex::lemma_hex_of_chars(crate::hashing::sha256_of(tree[i].1));
        assert forall|k: int| 0 <= k < d.len() implies !is_ascii_space(#[trigger] d[k]) by {
            assert(is_hex_char(d[k]));
        }
        assert forall|k: int| 0 <= k < es[i].1.len() implies #[trigger] es[i].1[k] != NEWLINE by {
            assert(tree[i].0[k] != NEWLINE);
        }
    }
    lemma_parse_render(es);
    assert(es.map_values(|e: (Seq<u8>, Seq<u8>)| e.0) =~= content_digests(tree));
}

/// Tamper detection: the manifests of two trees match exactly when the strong
/// digests of their files agree as multisets. A changed file whose digest
/// changes the multiset is reported; a swap of contents between two paths is not.
pub proof fn lemma_tree_manifests_match(a: Seq<(Seq<u8>, Seq<u8>)>, b: Seq<(Seq<u8>, Seq<u8>)>)
    requires
        paths_well_formed(a),
        paths_well_formed(b),
    ensures
        manifests_match(tree_manifest(a), tree_manifest(b)) <==> content_digests(a).to_multiset()
            == content_digests(b).to_multiset(),
{
    lemma_tree_listed(a);
    lemma_tree_listed(b);
}

proof fn lemma_digests_keep_multiset(a: Seq<Seq<u8>>, b: Seq<Seq<u8>>)
    requires
        a.to_multiset() == b.to_multiset(),
    ensures
        a.map_values(|c: Seq<u8>| strong_digest_of(c)).to_multiset() == b.map_values(
            |c: Seq<u8>| strong_digest_of(c),
        ).to_multiset(),
    decreases a.len(),
{
    let fa = a.map_values(|c: Seq<u8>| strong_digest_of(c));
    let fb = b.map_values(|c: Seq<u8>| strong_digest_of(c));
    if a.len() == 0 {
        assert(a.to_multiset().len() == a.len());
        assert(b.to_multiset().len() == b.len());
        assert(b.len() == 0);
        assert(fa =~= Seq::<Seq<u8>>::empty());
        assert(fb =~= Seq::<Seq<u8>>::empty());
    } else {
        let x = a.last();
        let a1 = a.drop_last();
        assert(a =~= a1.push(x));
        assert(a.contains(x));
        assert(b.to_multiset().count(x) > 0);
        assert(b.contains(x));
        let i = choose|i: int| 0 <= i < b.len() && b[i] == x;
        let b1 = b.remove(i);
        assert(b1.to_multiset() =~= b.to_multiset().remove(x));
        assert(a1.to_multiset() =~= a.to_multiset().remove(x));
        lemma_digests_keep_multiset(a1, b1);
        let fx = strong_digest_of(x);
        let fa1 = a1.map_values(|c: Seq<u8>| strong_digest_of(c));
        let fb1 = b1.map_values(|c: Seq<u8>| strong_digest_of(c));
        assert(fa =~= fa1.push(fx));
        assert(fb.remove(i) =~= fb1);
        assert(fb[i] == fx);
        assert(fb.to_multiset().count(fx) > 0);
        assert(fb1.to_multiset() =~= fb.to_multiset().remove(fx));
        assert(fb.to_multiset() =~= fb1.to_multiset().insert(fx));
    }
}

/// Round-trip integrity: when the unpacked tree holds the same file contents
/// as the source tree (paths and walk order may differ), their manifests match.
pub proof fn lemma_round_trip(source: Seq<(Seq<u8>, Seq<u8>)>, unpacked: Seq<(Seq<u8>, Seq<u8>)>)
    requires
        paths_well_formed(source),
        paths_well_formed(unpacked),
        tree_contents(source).to_multiset() == tree_contents(unpacked).to_multiset(),
    ensures
        manifests_match(tree_manifest(source), tree_manifest(unpacked)),
{
    lemma_digests_keep_multiset(tree_contents(source), tree_contents(unpacked));
    assert(tree_contents(source).map_values(|c: Seq<u8>| strong_digest_of(c)) =~= content_digests(
        source,
    ));
    assert(tree_contents(unpacked).map_values(|c: Seq<u8>| strong_digest_of(c))
        =~= content_digests(unpacked));
    lemma_tree_manifests_match(source, unpacked);
}

/// The hash outcomes of a tree whose files were all read: each file's strong
/// digest and its path, in walk order.
pub open spec fn tree_outcomes(tree: Seq<(Seq<u8>, Seq<u8>)>) -> Seq<(Option<Seq<u8>>, Seq<u8>)> {
    tree.map_values(|f: (Seq<u8>, Seq<u8>)| (Some(strong_digest_of(f.1)), f.0))
}

/// When every file was read, the manifest rendered from the hash outcomes is
/// the tree's manifest.
pub proof fn lemma_rendered_is_tree_manifest(tree: Seq<(Seq<u8>, Seq<u8>)>)
    ensures
        manifest_text(kept(tree_outcomes(tree))) == tree_manifest(tree),
{
    lemma_kept_all_read(tree);
}

proof fn lemma_kept_all_read(tree: Seq<(Seq<u8>, Seq<u8>)>)
    ensures
        kept(tree_outcomes(tree)) == tree_entries(tree),
    decreases tree.len(),
{
    if tree.len() > 0 {
        let t1 = tree.drop_last();
        lemma_kept_all_read(t1);
        assert(tree_outcomes(tree).drop_last() =~= tree_outcomes(t1));
        assert(kept(tree_outcomes(tree)) =~= tree_entries(tree));
    } else {
        assert(kept(tree_outcomes(tree)) =~= tree_entries(tree));
    }
}

} // verus!
