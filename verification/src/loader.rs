//! Which files of a campaign hold its scenes, and in what order they load.
use vstd::prelude::*;

use crate::permutation::{insertion_sort, lemma_sorted_unique, views_of};
use crate::text::{chars_of, compare_path_text, lemma_text_order_antisymmetric, lemma_text_order_transitive, path_text_compare, TextOrder};

verus! {

/// The file name of a path on a platform whose main separator is
/// `separator`: the text after its last `/` or `separator`.
pub open spec fn file_name(path: Seq<char>, separator: char) -> Seq<char>
    decreases path.len(),
{
    if path.len() == 0 {
        path
    } else if path.last() == '/' || path.last() == separator {
        seq![]
    } else {
        file_name(path.drop_last(), separator).push(path.last())
    }
}

/// A scene file's name has the extension `ron`: it ends with `.ron` after
/// a non-empty stem.
pub open spec fn is_scene_file(path: Seq<char>, separator: char) -> bool {
    let name = file_name(path, separator);
    &&& name.len() > 4
    &&& name[name.len() - 4] == '.'
    &&& name[name.len() - 3] == 'r'
    &&& name[name.len() - 2] == 'o'
    &&& name[name.len() - 1] == 'n'
}

/// The views of a sequence of strings.
pub open spec fn texts_view(s: Seq<String>) -> Seq<Seq<char>> {
    s.map_values(|t: String| t@)
}

/// The scene files among the first `k` paths, in their order.
pub open spec fn scene_files(paths: Seq<Seq<char>>, k: int, separator: char) -> Seq<Seq<char>>
    decreases k,
{
    if k <= 0 {
        seq![]
    } else {
        scene_files(paths, k - 1, separator) + if is_scene_file(paths[k - 1], separator) {
            seq![paths[k - 1]]
        } else {
            seq![]
        }
    }
}

/// Each path comes no later than the next ones in path order.
pub open spec fn paths_sorted(s: Seq<Seq<char>>, separator: char) -> bool {
    forall|i: int, j: int|
        0 <= i < j < s.len() ==> path_text_compare(#[trigger] s[i], #[trigger] s[j], separator) <= 0
}

/// The length of the file name of `chars`, found by walking back from the
/// end to the last `/`.
fn file_name_len(chars: &Vec<char>, separator: char) -> (len: usize)
    ensures
        len <= chars@.len(),
        file_name(chars@, separator) == chars@.subrange(chars@.len() - len, chars@.len() as int),
{
    let n = chars.len();
    let mut len: usize = 0;
    proof {
        assert(chars@.subrange(n as int, n as int) =~= Seq::<char>::empty());
        assert(chars@.subrange(0, n as int) =~= chars@);
        assert(file_name(chars@, separator) + Seq::<char>::empty() =~= file_name(chars@, separator));
    }
    while len < n && chars[n - 1 - len] != '/' && chars[n - 1 - len] != separator
        invariant
            n == chars@.len(),
            len <= n,
            file_name(chars@, separator) == file_name(chars@.subrange(0, n - len), separator) + chars@.subrange(
                n - len,
                n as int,
            ),
        decreases n - len,
    {
        proof {
            let prefix = chars@.subrange(0, n - len);
            assert(prefix.drop_last() =~= chars@.subrange(0, n - len - 1));
            assert(prefix.last() == chars@[n - 1 - len]);
            assert(chars@.subrange(n - len - 1, n as int) =~= seq![prefix.last()] + chars@.subrange(n - len, n as int));
        }
        len = len + 1;
    }
    proof {
        let prefix = chars@.subrange(0, n - len);
        if len == n {
            assert(prefix.len() == 0);
        } else {
            assert(prefix.last() == '/' || prefix.last() == separator);
        }
        assert(file_name(prefix, separator) =~= Seq::<char>::empty());
        assert(file_name(chars@, separator) =~= chars@.subrange(n - len, n as int));
    }
    len
}

/// Whether `path` names a scene file.
pub fn scene_file(path: &str, separator: char) -> (is_scene: bool)
    ensures
        is_scene == is_scene_file(path@, separator),
{
    let chars = chars_of(path);
    let n = chars.len();
    let len = file_name_len(&chars, separator);
    len > 4 && chars[n - 4] == '.' && chars[n - 3] == 'r' && chars[n - 2] == 'o' && chars[n - 1] == 'n'
}

/// Puts paths in path order, keeping the order in which they were found
/// among paths that tie. The result holds the same paths as `input`, each
/// as often.
pub fn sort_paths(input: Vec<String>, separator: char) -> (out: Vec<String>)
    ensures
        paths_sorted(texts_view(out@), separator),
        texts_view(out@).to_multiset() == texts_view(input@).to_multiset(),
{
    let ghost order = |x: Seq<char>, y: Seq<char>| path_text_compare(x, y, separator);
    proof {
        assert forall|x: Seq<char>, y: Seq<char>| #[trigger] order(x, y) == -order(y, x) by {
            lemma_text_order_antisymmetric(x, y, Some(separator));
        }
        assert forall|x: Seq<char>, y: Seq<char>, z: Seq<char>|
            #![trigger order(x, y), order(y, z)]
            order(x, y) <= 0 && order(y, z) <= 0 implies order(x, z) <= 0 by {
            lemma_text_order_transitive(x, y, z, Some(separator));
        }
    }
    let out = insertion_sort(
        input,
        (|a: &String, b: &String| -> (r: TextOrder)
            ensures
                r == TextOrder::Less <==> path_text_compare(a@, b@, separator) < 0,
            { compare_path_text(a.as_str(), b.as_str(), separator) }),
        Ghost(order),
    );
    assert(views_of(out@) =~= texts_view(out@));
    assert(views_of(input@) =~= texts_view(input@));
    out
}

/// The scene files among the paths found under a campaign's scene
/// directory, sorted so that loading is deterministic whatever order the
/// file system lists them in: the result holds each path whose file name
/// has the extension `ron`, as often as it was found, in path order, on a
/// platform whose main path separator is `separator`.
pub fn select_scene_files(found: Vec<String>, separator: char) -> (paths: Vec<String>)
    ensures
        paths_sorted(texts_view(paths@), separator),
        texts_view(paths@).to_multiset() == scene_files(
            texts_view(found@),
            found@.len() as int,
            separator,
        ).to_multiset(),
{
    let mut kept: Vec<String> = Vec::new();
    let ghost all = texts_view(found@);
    let mut i: usize = 0;
    proof {
        assert(texts_view(kept@) =~= scene_files(all, 0, separator));
    }
    while i < found.len()
        invariant
            i <= found@.len(),
            all == texts_view(found@),
            texts_view(kept@) == scene_files(all, i as int, separator),
        decreases found@.len() - i,
    {
        if scene_file(found[i].as_str(), separator) {
            kept.push(found[i].clone());
        }
        assert(texts_view(kept@) =~= scene_files(all, i + 1, separator));
        i = i + 1;
    }
    sort_paths(kept, separator)
}


/// Two path lists in path order that hold the same paths, each as often,
/// are the same list when no two different paths among them tie: the order
/// leaves no choice.
pub proof fn lemma_sorted_paths_unique(a: Seq<Seq<char>>, b: Seq<Seq<char>>, separator: char)
    requires
        paths_sorted(a, separator),
        paths_sorted(b, separator),
        a.to_multiset() == b.to_multiset(),
        forall|x: Seq<char>, y: Seq<char>|
            a.contains(x) && a.contains(y) && #[trigger] path_text_compare(x, y, separator) == 0 ==> x == y,
    ensures
        a == b,
{
    broadcast use vstd::seq_lib::group_to_multiset_ensures;
    let order = |x: Seq<char>, y: Seq<char>| path_text_compare(x, y, separator);
    let kind = |x: Seq<char>| a.contains(x);
    assert forall|x: Seq<char>, y: Seq<char>|
        kind(x) && kind(y) && #[trigger] order(x, y) <= 0 && #[trigger] order(y, x) <= 0 implies x == y by {
        lemma_text_order_antisymmetric(x, y, Some(separator));
    }
    assert forall|i: int| 0 <= i < b.len() implies kind(#[trigger] b[i]) by {
        vstd::seq_lib::to_multiset_contains(b, b[i]);
        vstd::seq_lib::to_multiset_contains(a, b[i]);
        assert(b.contains(b[i]));
    }
    lemma_sorted_unique(a, b, order, kind);
}

/// The scene files among the first `k` paths are, as a multiset, those
/// paths kept by the scene-file test.
pub proof fn lemma_scene_files_multiset(paths: Seq<Seq<char>>, k: int, separator: char)
    requires
        0 <= k <= paths.len(),
    ensures
        scene_files(paths, k, separator).to_multiset() == paths.take(k).to_multiset().filter(
            |p: Seq<char>| is_scene_file(p, separator),
        ),
        forall|p: Seq<char>| scene_files(paths, k, separator).contains(p) ==> paths.take(k).contains(p),
    decreases k,
{
    broadcast use vstd::seq_lib::group_to_multiset_ensures;
    broadcast use vstd::multiset::group_multiset_axioms;
    let keep = |p: Seq<char>| is_scene_file(p, separator);
    if k == 0 {
        assert(paths.take(0) =~= Seq::<Seq<char>>::empty());
        assert(scene_files(paths, 0, separator).to_multiset() =~= paths.take(0).to_multiset().filter(keep));
    } else {
        lemma_scene_files_multiset(paths, k - 1, separator);
        let x = paths[k - 1];
        assert(paths.take(k) =~= paths.take(k - 1).push(x));
        vstd::seq_lib::to_multiset_build(paths.take(k - 1), x);
        let before = scene_files(paths, k - 1, separator);
        if is_scene_file(x, separator) {
            assert(scene_files(paths, k, separator) =~= before.push(x));
            vstd::seq_lib::to_multiset_build(before, x);
        } else {
            assert(scene_files(paths, k, separator) =~= before);
        }
        assert(scene_files(paths, k, separator).to_multiset() =~= paths.take(k).to_multiset().filter(keep));
        assert forall|p: Seq<char>| scene_files(paths, k, separator).contains(p) implies paths.take(k).contains(p) by {
            let files = scene_files(paths, k, separator);
            let i = choose|i: int| 0 <= i < files.len() && #[trigger] files[i] == p;
            if i < before.len() {
                assert(before[i] == p);
                assert(before.contains(p));
                let prefix = paths.take(k - 1);
                let j = choose|j: int| 0 <= j < prefix.len() && #[trigger] prefix[j] == p;
                assert(paths.take(k)[j] == p);
            } else {
                assert(paths.take(k)[k - 1] == p);
            }
        }
    }
}

/// Loading is deterministic whatever order the file system lists files in:
/// for two listings that hold the same paths, each as often, and in which
/// no two different paths tie in path order, the scene files that
/// `select_scene_files` promises are the same list.
pub proof fn lemma_scene_order_independent(
    found_a: Seq<Seq<char>>,
    found_b: Seq<Seq<char>>,
    paths_a: Seq<Seq<char>>,
    paths_b: Seq<Seq<char>>,
    separator: char,
)
    requires
        found_a.to_multiset() == found_b.to_multiset(),
        forall|x: Seq<char>, y: Seq<char>|
            found_a.contains(x) && found_a.contains(y) && #[trigger] path_text_compare(x, y, separator) == 0
                ==> x == y,
        paths_sorted(paths_a, separator),
        paths_sorted(paths_b, separator),
        paths_a.to_multiset() == scene_files(found_a, found_a.len() as int, separator).to_multiset(),
        paths_b.to_multiset() == scene_files(found_b, found_b.len() as int, separator).to_multiset(),
    ensures
        paths_a == paths_b,
{
    broadcast use vstd::seq_lib::group_to_multiset_ensures;
    lemma_scene_files_multiset(found_a, found_a.len() as int, separator);
    lemma_scene_files_multiset(found_b, found_b.len() as int, separator);
    assert(found_a.take(found_a.len() as int) =~= found_a);
    assert(found_b.take(found_b.len() as int) =~= found_b);
    let files_a = scene_files(found_a, found_a.len() as int, separator);
    assert forall|x: Seq<char>| paths_a.contains(x) implies found_a.contains(x) by {
        vstd::seq_lib::to_multiset_contains(paths_a, x);
        vstd::seq_lib::to_multiset_contains(files_a, x);
    }
    lemma_sorted_paths_unique(paths_a, paths_b, separator);
}

} // verus!
