//! Files a person asked to be played, or folders of them.
use vstd::prelude::*;

use crate::order;
use crate::steps::{
    self, path_order_carries_over, path_order_turns_round, path_rank, rank_paths, same_path, steps,
};
use crate::text::{self, Rank};

verus! {

/// How many files are taken at once.
pub const MAX_FILES: usize = 2_000;

/// The extensions of sound files, in small letters.
pub open spec fn audio_extensions() -> Seq<Seq<char>> {
    seq![
        "mp3"@,
        "flac"@,
        "ogg"@,
        "oga"@,
        "opus"@,
        "m4a"@,
        "aac"@,
        "wav"@,
        "wave"@,
        "aiff"@,
        "aif"@,
        "ape"@,
        "mpc"@,
        "mp2"@,
        "wma"@,
        "wv"@,
    ]
}

/// What follows the last dot of a name. A name that only begins with its last
/// dot has no extension, nor has one without a dot.
pub open spec fn extension_of(name: Seq<char>) -> Option<Seq<char>>
    decreases name.len(),
{
    if name.len() <= 1 {
        None
    } else if name.last() == '.' {
        Some(Seq::empty())
    } else {
        match extension_of(name.drop_last()) {
            Some(e) => Some(e.push(name.last())),
            None => None,
        }
    }
}

/// Whether a path ends in the name of a sound file.
pub open spec fn looks_like_audio(path: Seq<char>) -> bool {
    match steps::file_name(path) {
        Some(name) => match extension_of(name) {
            Some(e) => audio_extensions().contains(text::ascii_lower(e)),
            None => false,
        },
        None => false,
    }
}

proof fn extension_from(name: Seq<char>, dot: int)
    requires
        0 < dot < name.len(),
        name[dot] == '.',
        forall|i: int| dot < i < name.len() ==> name[i] != '.',
    ensures
        extension_of(name) == Some(name.skip(dot + 1)),
    decreases name.len(),
{
    if dot == name.len() - 1 {
        assert(name.skip(dot + 1) =~= Seq::<char>::empty());
    } else {
        extension_from(name.drop_last(), dot);
        assert(name.drop_last().skip(dot + 1).push(name.last()) =~= name.skip(dot + 1));
    }
}

proof fn no_extension(name: Seq<char>)
    requires
        forall|i: int| 0 < i < name.len() ==> name[i] != '.',
    ensures
        extension_of(name) is None,
    decreases name.len(),
{
    if name.len() > 1 {
        no_extension(name.drop_last());
    }
}

/// What follows the last dot of a name.
fn extension(name: &str) -> (r: Option<String>)
    ensures
        text::opt_view(r) == extension_of(name@),
{
    let v = text::chars(name);
    let mut dot: usize = v.len();
    while dot > 1
        invariant
            dot <= v@.len(),
            v@ == name@,
            forall|i: int| dot <= i < v@.len() && 0 < i ==> v@[i] != '.',
        decreases dot,
    {
        dot -= 1;
        if v[dot] == '.' {
            proof {
                extension_from(v@, dot as int);
                assert(v@.subrange(dot + 1, v@.len() as int) =~= v@.skip(dot + 1));
            }
            return Some(text::slice(&v, dot + 1, v.len()));
        }
    }
    proof {
        no_extension(v@);
    }
    None
}

/// Whether a path is a sound file, given whether it is a file at all.
#[verifier::loop_isolation(false)]
pub fn is_audio_file(path: &str, is_file: bool) -> (r: bool)
    ensures
        r == (is_file && looks_like_audio(path@)),
{
    if !is_file {
        return false;
    }
    let name = match steps::name_of(path) {
        Some(name) => name,
        None => return false,
    };
    let ext = match extension(name.as_str()) {
        Some(e) => text::to_ascii_lower(e.as_str()),
        None => return false,
    };
    let known: Vec<&str> = vec![
        "mp3", "flac", "ogg", "oga", "opus", "m4a", "aac", "wav", "wave", "aiff", "aif", "ape",
        "mpc", "mp2", "wma", "wv",
    ];
    let mut i: usize = 0;
    while i < known.len()
        invariant
            i <= known@.len(),
            known@.len() == 16,
            audio_extensions() =~= known@.map_values(|s: &str| s@),
            forall|j: int| 0 <= j < i ==> (#[trigger] known@[j])@ != ext@,
        decreases known@.len() - i,
    {
        if text::same(ext.as_str(), known[i]) {
            proof {
                assert(audio_extensions()[i as int] == ext@);
            }
            return true;
        }
        i += 1;
    }
    proof {
        if audio_extensions().contains(ext@) {
            let k = choose|k: int|
                0 <= k < audio_extensions().len() && audio_extensions()[k] == ext@;
            assert(known@[k]@ == ext@);
        }
    }
    false
}

/// A thing in the file system, as far as it was read.
#[derive(Debug)]
pub enum Node {
    /// A file, or anything else that is no directory.
    Other { path: String, is_file: bool },
    /// A directory with what is in it, in whatever order it was read. One that
    /// could not be read holds nothing.
    Dir { path: String, children: Vec<Child> },
}

/// A thing in a directory, under its name there.
#[derive(Debug)]
pub struct Child {
    pub name: String,
    pub node: Node,
}

/// Children in order of name with one more put in: behind every one whose name
/// is not greater. They are given by their positions.
pub open spec fn put_child(children: Seq<Child>, sorted: Seq<int>, i: int) -> Seq<int>
    decreases sorted.len(),
{
    if sorted.len() > 0 && text::rank_of(
        children[sorted.last()].name@,
        children[i].name@,
    ) is After {
        put_child(children, sorted.drop_last(), i).push(sorted.last())
    } else {
        sorted.push(i)
    }
}

/// The positions of the first `n` children, in order of name.
pub open spec fn name_order(children: Seq<Child>, n: nat) -> Seq<int>
    decreases n,
{
    if n == 0 {
        Seq::empty()
    } else {
        put_child(children, name_order(children, (n - 1) as nat), n - 1)
    }
}

/// The sound files under a node, depth first and in order of name, hidden ones
/// left out, added to `found` until there are [`MAX_FILES`].
pub open spec fn walked(node: Node, found: Seq<Seq<char>>) -> Seq<Seq<char>>
    decreases node, 2nat, 0nat,
{
    match node {
        Node::Other { path, is_file } => if found.len() < MAX_FILES && is_file && looks_like_audio(
            path@,
        ) {
            found.push(path@)
        } else {
            found
        },
        Node::Dir { path, children } => walked_children(
            node,
            name_order(children@, children@.len()),
            found,
        ),
    }
}

/// [`walked`] over the children of a directory at the positions `order`.
pub open spec fn walked_children(
    node: Node,
    order: Seq<int>,
    found: Seq<Seq<char>>,
) -> Seq<Seq<char>>
    decreases node, 1nat, order.len(),
    when node is Dir
{
    if order.len() == 0 {
        found
    } else {
        let before = walked_children(node, order.drop_last(), found);
        let i = order.last();
        if 0 <= i < node->children@.len() && !("."@.is_prefix_of(node->children@[i].name@)) {
            walked(node->children@[i].node, before)
        } else {
            before
        }
    }
}

proof fn put_child_is_insert(children: Seq<Child>, sorted: Seq<int>, i: int, k: int)
    requires
        0 <= k <= sorted.len(),
        forall|j: int|
            k <= j < sorted.len() ==> text::rank_of(
                children[#[trigger] sorted[j]].name@,
                children[i].name@,
            ) is After,
        k > 0 ==> !(text::rank_of(children[sorted[k - 1]].name@, children[i].name@) is After),
    ensures
        put_child(children, sorted, i) == sorted.insert(k, i),
    decreases sorted.len(),
{
    if k < sorted.len() {
        put_child_is_insert(children, sorted.drop_last(), i, k);
        assert(sorted.drop_last().insert(k, i).push(sorted.last()) =~= sorted.insert(k, i));
    } else {
        assert(sorted.push(i) =~= sorted.insert(k, i));
    }
}

/// Positions as mathematical integers.
pub open spec fn ints(v: Seq<usize>) -> Seq<int> {
    v.map_values(|i: usize| i as int)
}

/// The positions of the children of a directory, in order of name.
fn sort_names(children: &Vec<Child>) -> (r: Vec<usize>)
    ensures
        ints(r@) == name_order(children@, children@.len()),
        forall|j: int| 0 <= j < r@.len() ==> (#[trigger] r@[j]) < children@.len(),
{
    let mut out: Vec<usize> = Vec::new();
    let mut i: usize = 0;
    assert(ints(out@) =~= name_order(children@, 0));
    while i < children.len()
        invariant
            i <= children@.len(),
            out@.len() == i,
            forall|j: int| 0 <= j < out@.len() ==> (#[trigger] out@[j]) < i,
            ints(out@) == name_order(children@, i as nat),
        decreases children@.len() - i,
    {
        let mut k: usize = out.len();
        while k > 0 && matches!(
            text::rank(children[out[k - 1]].name.as_str(), children[i].name.as_str()),
            Rank::After
        )
            invariant
                i < children@.len(),
                k <= out@.len() == i,
                forall|j: int| 0 <= j < out@.len() ==> (#[trigger] out@[j]) < i,
                forall|j: int|
                    k <= j < out@.len() ==> text::rank_of(
                        children@[(#[trigger] out@[j]) as int].name@,
                        children@[i as int].name@,
                    ) is After,
            decreases k,
        {
            k -= 1;
        }
        proof {
            assert forall|j: int| k <= j < ints(out@).len() implies text::rank_of(
                children@[#[trigger] ints(out@)[j]].name@,
                children@[i as int].name@,
            ) is After by {
                assert(ints(out@)[j] == out@[j]);
            }
            put_child_is_insert(children@, ints(out@), i as int, k as int);
        }
        let ghost out0 = out@;
        out.insert(k, i);
        proof {
            assert(ints(out@) =~= ints(out0).insert(k as int, i as int));
            assert forall|j: int| 0 <= j < out@.len() implies (#[trigger] out@[j]) < i + 1 by {
                if j < k {
                    assert(out@[j] == out0[j]);
                } else if j > k {
                    assert(out@[j] == out0[j - 1]);
                }
            }
        }
        i += 1;
    }
    out
}

/// Add the sound files under a node to `into`.
pub fn walk(node: &Node, into: &mut Vec<String>)
    ensures
        text::views(final(into)@) == walked(*node, text::views(old(into)@)),
    decreases *node,
{
    match node {
        Node::Other { path, is_file } => {
            if into.len() < MAX_FILES && is_audio_file(path.as_str(), *is_file) {
                let ghost into0 = into@;
                into.push(path.clone());
                proof {
                    assert(text::views(into@) =~= text::views(into0).push(path@));
                }
            }
        },
        Node::Dir { path, children } => {
            let order = sort_names(children);
            let ghost start = text::views(into@);
            let mut k: usize = 0;
            assert(ints(order@).take(0) =~= Seq::<int>::empty());
            while k < order.len()
                invariant
                    k <= order@.len(),
                    *node == (Node::Dir { path: *path, children: *children }),
                    forall|j: int| 0 <= j < order@.len() ==> (#[trigger] order@[j])
                        < children@.len(),
                    text::views(into@) == walked_children(
                        *node,
                        ints(order@).take(k as int),
                        start,
                    ),
                decreases order@.len() - k,
            {
                proof {
                    text::take_step(ints(order@), k as int);
                    assert(ints(order@).take(k + 1).drop_last() =~= ints(order@).take(k as int));
                }
                let child = &children[order[k]];
                if !text::starts_with(child.name.as_str(), ".") {
                    walk(&child.node, into);
                }
                k += 1;
            }
            assert(ints(order@).take(k as int) =~= ints(order@));
        },
    }
}

/// Paths in order with one more put in.
pub open spec fn put_path(sorted: Seq<Seq<char>>, path: Seq<char>) -> Seq<Seq<char>>
    decreases sorted.len(),
{
    if sorted.len() > 0 && rank_paths(sorted.last(), path) is After {
        put_path(sorted.drop_last(), path).push(sorted.last())
    } else {
        sorted.push(path)
    }
}

/// The paths in order.
pub open spec fn in_order(paths: Seq<Seq<char>>) -> Seq<Seq<char>>
    decreases paths.len(),
{
    if paths.len() == 0 {
        paths
    } else {
        put_path(in_order(paths.drop_last()), paths.last())
    }
}

proof fn put_path_is_insert(sorted: Seq<Seq<char>>, path: Seq<char>, k: int)
    requires
        0 <= k <= sorted.len(),
        forall|j: int|
            k <= j < sorted.len() ==> rank_paths(#[trigger] sorted[j], path) is After,
        k > 0 ==> !(rank_paths(sorted[k - 1], path) is After),
    ensures
        put_path(sorted, path) == sorted.insert(k, path),
    decreases sorted.len(),
{
    if k < sorted.len() {
        put_path_is_insert(sorted.drop_last(), path, k);
        assert(sorted.drop_last().insert(k, path).push(sorted.last()) =~= sorted.insert(k, path));
    } else {
        assert(sorted.push(path) =~= sorted.insert(k, path));
    }
}

/// Whether one path comes before another.
pub open spec fn path_before(a: Seq<char>, b: Seq<char>) -> bool {
    rank_paths(a, b) is Before
}

proof fn paths_are_ordered()
    ensures
        order::is_order(|a: Seq<char>, b: Seq<char>| path_before(a, b)),
{
    let before = |a: Seq<char>, b: Seq<char>| path_before(a, b);
    assert forall|x: Seq<char>, y: Seq<char>| #[trigger] before(x, y) implies !before(y, x) by {
        path_order_turns_round(steps(x), steps(y));
    }
    assert forall|x: Seq<char>, y: Seq<char>, z: Seq<char>|
        #![trigger before(x, z), before(x, y)]
        before(x, z) implies before(x, y) || before(y, z) by {
        let (p, q, r) = (steps(x), steps(y), steps(z));
        path_order_turns_round(p, q);
        path_order_turns_round(q, r);
        path_order_turns_round(p, r);
        if !before(x, y) && !before(y, z) {
            path_order_carries_over(r, q, p);
        }
    }
}

proof fn put_path_puts_in(sorted: Seq<Seq<char>>, path: Seq<char>)
    ensures
        put_path(sorted, path) == order::put_in(
            sorted,
            path,
            |a: Seq<char>, b: Seq<char>| path_before(a, b),
        ),
    decreases sorted.len(),
{
    if sorted.len() > 0 {
        path_order_turns_round(steps(sorted.last()), steps(path));
        put_path_puts_in(sorted.drop_last(), path);
    }
}

proof fn in_order_is_sorted(paths: Seq<Seq<char>>)
    ensures
        in_order(paths) == order::sorted(paths, |a: Seq<char>, b: Seq<char>| path_before(a, b)),
    decreases paths.len(),
{
    if paths.len() > 0 {
        in_order_is_sorted(paths.drop_last());
        put_path_puts_in(in_order(paths.drop_last()), paths.last());
    }
}

/// Putting a directory's files in order loses and invents none, and no file
/// stands before one that precedes it.
pub proof fn a_directory_is_taken_in_order(paths: Seq<Seq<char>>)
    ensures
        in_order(paths).to_multiset() == paths.to_multiset(),
        forall|i: int, j: int|
            0 <= i < j < in_order(paths).len() ==> !path_before(
                #[trigger] in_order(paths)[j],
                #[trigger] in_order(paths)[i],
            ),
{
    let before = |a: Seq<char>, b: Seq<char>| path_before(a, b);
    paths_are_ordered();
    in_order_is_sorted(paths);
    order::sorting_is_stable(paths, before);
    assert forall|i: int, j: int| 0 <= i < j < in_order(paths).len() implies !path_before(
        #[trigger] in_order(paths)[j],
        #[trigger] in_order(paths)[i],
    ) by {
        assert(!before(in_order(paths)[j], in_order(paths)[i]));
    }
}

fn sort_paths(paths: &Vec<String>) -> (r: Vec<String>)
    ensures
        text::views(r@) == in_order(text::views(paths@)),
{
    let ghost all = text::views(paths@);
    let mut out: Vec<String> = Vec::new();
    let mut i: usize = 0;
    proof {
        assert(all.take(0) =~= Seq::<Seq<char>>::empty());
        assert(text::views(out@) =~= in_order(all.take(0)));
    }
    while i < paths.len()
        invariant
            i <= paths@.len(),
            all == text::views(paths@),
            out@.len() == i,
            text::views(out@) == in_order(all.take(i as int)),
        decreases paths@.len() - i,
    {
        proof {
            text::take_step(all, i as int);
            assert(all.take(i + 1).drop_last() =~= all.take(i as int));
        }
        let mut k: usize = out.len();
        while k > 0 && matches!(path_rank(out[k - 1].as_str(), paths[i].as_str()), Rank::After)
            invariant
                i < paths@.len(),
                k <= out@.len() == i,
                forall|j: int|
                    k <= j < out@.len() ==> rank_paths(
                        (#[trigger] out@[j])@,
                        paths@[i as int]@,
                    ) is After,
            decreases k,
        {
            k -= 1;
        }
        proof {
            assert forall|j: int| k <= j < text::views(out@).len() implies rank_paths(
                #[trigger] text::views(out@)[j],
                paths@[i as int]@,
            ) is After by {
                assert(text::views(out@)[j] == out@[j]@);
            }
            put_path_is_insert(text::views(out@), paths@[i as int]@, k as int);
        }
        let ghost out0 = out@;
        out.insert(k, paths[i].clone());
        proof {
            assert(text::views(out@) =~= text::views(out0).insert(k as int, paths@[i as int]@));
        }
        i += 1;
    }
    assert(all.take(i as int) =~= all);
    out
}

/// Whether a path is among others, however they are written.
pub open spec fn is_among(paths: Seq<Seq<char>>, path: Seq<char>) -> bool {
    exists|i: int| 0 <= i < paths.len() && same_path(#[trigger] paths[i], path)
}

/// `found` with the new ones of `files` behind it, up to [`MAX_FILES`] in all.
pub open spec fn with_new(found: Seq<Seq<char>>, files: Seq<Seq<char>>) -> Seq<Seq<char>>
    decreases files.len(),
{
    if files.len() == 0 {
        found
    } else {
        let before = with_new(found, files.drop_last());
        if before.len() < MAX_FILES && !is_among(before, files.last()) {
            before.push(files.last())
        } else {
            before
        }
    }
}

/// The sound files that some files and directories stand for: each directory's
/// in order of name, the arguments in the order they were given, none twice.
pub open spec fn expanded(nodes: Seq<Node>) -> Seq<Seq<char>>
    decreases nodes.len(),
{
    if nodes.len() == 0 {
        Seq::empty()
    } else {
        let before = expanded(nodes.drop_last());
        let files = walked(nodes.last(), Seq::empty());
        with_new(
            before,
            if nodes.last() is Dir {
                in_order(files)
            } else {
                files
            },
        )
    }
}

fn among(paths: &Vec<String>, path: &str) -> (r: bool)
    ensures
        r == is_among(text::views(paths@), path@),
{
    let mut i: usize = 0;
    while i < paths.len()
        invariant
            i <= paths@.len(),
            forall|j: int| 0 <= j < i ==> !same_path((#[trigger] paths@[j])@, path@),
        decreases paths@.len() - i,
    {
        if steps::same(paths[i].as_str(), path) {
            assert(same_path(text::views(paths@)[i as int], path@));
            return true;
        }
        i += 1;
    }
    proof {
        assert forall|j: int| 0 <= j < text::views(paths@).len() implies !same_path(
            #[trigger] text::views(paths@)[j],
            path@,
        ) by {
            assert(text::views(paths@)[j] == paths@[j]@);
        }
    }
    false
}

fn add_new(found: &mut Vec<String>, files: &Vec<String>)
    ensures
        text::views(final(found)@) == with_new(text::views(old(found)@), text::views(files@)),
{
    let ghost start = text::views(found@);
    let ghost all = text::views(files@);
    let mut i: usize = 0;
    assert(all.take(0) =~= Seq::<Seq<char>>::empty());
    while i < files.len()
        invariant
            i <= files@.len(),
            all == text::views(files@),
            text::views(found@) == with_new(start, all.take(i as int)),
        decreases files@.len() - i,
    {
        proof {
            text::take_step(all, i as int);
            assert(all.take(i + 1).drop_last() =~= all.take(i as int));
        }
        let here = among(found, files[i].as_str());
        if found.len() < MAX_FILES && !here {
            let ghost found0 = found@;
            found.push(files[i].clone());
            proof {
                assert(text::views(found@) =~= text::views(found0).push(files@[i as int]@));
            }
        }
        i += 1;
    }
    assert(all.take(i as int) =~= all);
}

/// The sound files that some files and directories stand for.
pub fn expand_audio_paths(nodes: &Vec<Node>) -> (r: Vec<String>)
    ensures
        text::views(r@) == expanded(nodes@),
{
    let mut out: Vec<String> = Vec::new();
    let mut i: usize = 0;
    proof {
        assert(nodes@.take(0) =~= Seq::<Node>::empty());
        assert(text::views(out@) =~= Seq::<Seq<char>>::empty());
    }
    while i < nodes.len()
        invariant
            i <= nodes@.len(),
            text::views(out@) == expanded(nodes@.take(i as int)),
        decreases nodes@.len() - i,
    {
        proof {
            text::take_step(nodes@, i as int);
            assert(nodes@.take(i + 1).drop_last() =~= nodes@.take(i as int));
        }
        let mut files: Vec<String> = Vec::new();
        assert(text::views(files@) =~= Seq::<Seq<char>>::empty());
        walk(&nodes[i], &mut files);
        let is_dir = matches!(&nodes[i], Node::Dir { .. });
        if is_dir {
            files = sort_paths(&files);
        }
        add_new(&mut out, &files);
        i += 1;
    }
    assert(nodes@.take(i as int) =~= nodes@);
    out
}

/// Whether no two of some paths are one.
pub open spec fn all_differ(paths: Seq<Seq<char>>) -> bool {
    forall|i: int, j: int|
        0 <= i < j < paths.len() ==> !same_path(#[trigger] paths[i], #[trigger] paths[j])
}

/// No file is taken twice, however its path is written, and no more than
/// [`MAX_FILES`] are taken.
pub proof fn no_file_is_taken_twice(nodes: Seq<Node>)
    ensures
        all_differ(expanded(nodes)),
        expanded(nodes).len() <= MAX_FILES,
    decreases nodes.len(),
{
    if nodes.len() > 0 {
        no_file_is_taken_twice(nodes.drop_last());
        let files = walked(nodes.last(), Seq::empty());
        with_new_has_no_copies(
            expanded(nodes.drop_last()),
            if nodes.last() is Dir {
                in_order(files)
            } else {
                files
            },
        );
    }
}

proof fn with_new_has_no_copies(found: Seq<Seq<char>>, files: Seq<Seq<char>>)
    requires
        all_differ(found),
        found.len() <= MAX_FILES,
    ensures
        all_differ(with_new(found, files)),
        with_new(found, files).len() <= MAX_FILES,
    decreases files.len(),
{
    if files.len() > 0 {
        with_new_has_no_copies(found, files.drop_last());
    }
}

/// Whether `path` is a sound file under a node that no hidden name leads to.
pub open spec fn leads_to(node: Node, path: Seq<char>) -> bool
    decreases node,
{
    match node {
        Node::Other { path: own, is_file } => is_file && own@ == path && looks_like_audio(path),
        Node::Dir { path: _, children } => exists|i: int|
            0 <= i < children@.len() && !("."@.is_prefix_of(children@[i].name@)) && leads_to(
                (#[trigger] children@[i]).node,
                path,
            ),
    }
}

/// Every sound file under a node is found, unless it is hidden or there are too
/// many; nothing else is, and what was found before stays in front.
pub proof fn every_sound_file_is_found(node: Node, found: Seq<Seq<char>>, path: Seq<char>)
    ensures
        found.is_prefix_of(walked(node, found)),
        leads_to(node, path) && walked(node, found).len() < 2_000 ==> walked(node, found).contains(
            path,
        ),
        walked(node, found).contains(path) ==> found.contains(path) || leads_to(node, path),
    decreases node, 2nat, 0nat,
{
    match node {
        Node::Other { path: own, is_file } => {
            let r = walked(node, found);
            assert(found.is_prefix_of(r)) by {
                assert(r.take(found.len() as int) =~= found);
            }
            if leads_to(node, path) && r.len() < 2_000 {
                assert(r == found.push(own@));
                assert(r[found.len() as int] == path);
            }
            if r.contains(path) {
                let k = choose|k: int| 0 <= k < r.len() && r[k] == path;
                if k < found.len() {
                    assert(found[k] == path);
                }
            }
        },
        Node::Dir { path: own, children } => {
            let order = name_order(children@, children@.len());
            order_is_whole(children@, children@.len());
            every_child_is_walked(node, order, found, path);
            if leads_to(node, path) {
                let i = choose|i: int|
                    0 <= i < children@.len() && !("."@.is_prefix_of(children@[i].name@))
                        && leads_to((#[trigger] children@[i]).node, path);
                assert(order.contains(i));
                let k = choose|k: int| 0 <= k < order.len() && order[k] == i;
                assert(0 <= order[k] < children@.len());
            }
        },
    }
}

proof fn every_child_is_walked(
    node: Node,
    order: Seq<int>,
    found: Seq<Seq<char>>,
    path: Seq<char>,
)
    requires
        node is Dir,
    ensures
        found.is_prefix_of(walked_children(node, order, found)),
        walked_children(node, order, found).len() < 2_000 ==> forall|k: int|
            0 <= k < order.len() && 0 <= #[trigger] order[k] < node->children@.len()
                && !("."@.is_prefix_of(node->children@[order[k]].name@)) && leads_to(
                node->children@[order[k]].node,
                path,
            ) ==> walked_children(node, order, found).contains(path),
        walked_children(node, order, found).contains(path) ==> found.contains(path) || leads_to(
            node,
            path,
        ),
    decreases node, 1nat, order.len(),
{
    let r = walked_children(node, order, found);
    if order.len() == 0 {
        assert(r.take(found.len() as int) =~= found);
    } else {
        let rest = order.drop_last();
        let before = walked_children(node, rest, found);
        every_child_is_walked(node, rest, found, path);
        let i = order.last();
        if 0 <= i < node->children@.len() && !("."@.is_prefix_of(node->children@[i].name@)) {
            let child = node->children@[i].node;
            every_sound_file_is_found(child, before, path);
            assert(r == walked(child, before));
            assert(found.is_prefix_of(r)) by {
                assert(r.take(found.len() as int) =~= found) by {
                    assert(before.take(found.len() as int) =~= found);
                    assert forall|k: int| 0 <= k < found.len() implies r[k] == found[k] by {
                        assert(r.take(before.len() as int)[k] == before[k]);
                        assert(before.take(found.len() as int)[k] == found[k]);
                    }
                }
            }
            if leads_to(child, path) {
                assert(leads_to(node, path)) by {
                    assert(leads_to(node->children@[i].node, path));
                }
            }
        } else {
            assert(r == before);
        }
        assert(before.is_prefix_of(r)) by {
            assert(before.take(before.len() as int) =~= before);
        }
        if r.len() < 2_000 {
            assert forall|k: int|
                0 <= k < order.len() && 0 <= #[trigger] order[k] < node->children@.len()
                    && !("."@.is_prefix_of(node->children@[order[k]].name@)) && leads_to(
                    node->children@[order[k]].node,
                    path,
                ) implies r.contains(path) by {
                if k < rest.len() {
                    assert(rest[k] == order[k]);
                    assert(before.contains(path));
                    let at = choose|at: int| 0 <= at < before.len() && before[at] == path;
                    assert(r.take(before.len() as int)[at] == before[at]);
                    assert(r[at] == path);
                } else {
                    assert(order[k] == i);
                }
            }
        }
    }
}

proof fn order_is_whole(children: Seq<Child>, n: nat)
    ensures
        forall|i: int| 0 <= i < n ==> #[trigger] name_order(children, n).contains(i),
    decreases n,
{
    if n > 0 {
        let before = name_order(children, (n - 1) as nat);
        order_is_whole(children, (n - 1) as nat);
        assert forall|i: int| 0 <= i < n implies #[trigger] name_order(children, n).contains(i) by {
            if i < n - 1 {
                assert(before.contains(i));
            }
            put_keeps(children, before, n - 1, i);
        }
    }
}

proof fn put_keeps(children: Seq<Child>, sorted: Seq<int>, i: int, j: int)
    requires
        j == i || sorted.contains(j),
    ensures
        put_child(children, sorted, i).contains(j),
    decreases sorted.len(),
{
    let r = put_child(children, sorted, i);
    if sorted.len() > 0 && text::rank_of(
        children[sorted.last()].name@,
        children[i].name@,
    ) is After {
        let rest = sorted.drop_last();
        let inner = put_child(children, rest, i);
        if j == sorted.last() {
            assert(r[inner.len() as int] == j);
        } else {
            if j != i {
                let k = choose|k: int| 0 <= k < sorted.len() && sorted[k] == j;
                assert(rest[k] == j);
            }
            put_keeps(children, rest, i, j);
            let k = choose|k: int| 0 <= k < inner.len() && inner[k] == j;
            assert(r[k] == j);
        }
    } else {
        if j == i {
            assert(r[sorted.len() as int] == j);
        } else {
            let k = choose|k: int| 0 <= k < sorted.len() && sorted[k] == j;
            assert(r[k] == j);
        }
    }
}

/// The extension of a name is what stands behind its last dot; a name that only
/// begins with a dot has none.
pub proof fn an_extension_stands_behind_the_last_dot(stem: Seq<char>, e: Seq<char>)
    requires
        forall|i: int| 0 <= i < e.len() ==> #[trigger] e[i] != '.',
    ensures
        stem.len() > 0 ==> extension_of(stem.push('.') + e) == Some(e),
        extension_of(seq!['.'] + e) is None,
        extension_of(e) is None,
    decreases e.len(),
{
    let s = stem.push('.') + e;
    let hidden = seq!['.'] + e;
    if e.len() == 0 {
        assert(s =~= stem.push('.'));
        assert(e =~= Seq::<char>::empty());
        assert(hidden =~= seq!['.']);
    } else {
        let rest = e.drop_last();
        assert forall|i: int| 0 <= i < rest.len() implies #[trigger] rest[i] != '.' by {
            assert(rest[i] == e[i]);
        }
        an_extension_stands_behind_the_last_dot(stem, rest);
        assert(s.drop_last() =~= stem.push('.') + rest);
        assert(hidden.drop_last() =~= seq!['.'] + rest);
        assert(e.last() == e[e.len() - 1]);
        assert(rest.push(e.last()) =~= e);
    }
}

/// Files are taken in the order that they are given, and a file that was taken
/// already is not taken again.
pub proof fn what_is_new_is_taken(found: Seq<Seq<char>>, files: Seq<Seq<char>>, f: Seq<char>)
    ensures
        found.is_prefix_of(with_new(found, files)),
        with_new(found, files).len() < 2_000 && !is_among(with_new(found, files), f) ==> with_new(
            found,
            files.push(f),
        ) == with_new(found, files).push(f),
        is_among(with_new(found, files), f) ==> with_new(found, files.push(f)) == with_new(
            found,
            files,
        ),
    decreases files.len(),
{
    assert(files.push(f).drop_last() =~= files);
    if files.len() == 0 {
        assert(found.take(found.len() as int) =~= found);
    } else {
        let rest = files.drop_last();
        what_is_new_is_taken(found, rest, f);
        let before = with_new(found, rest);
        let r = with_new(found, files);
        assert(before.take(found.len() as int) =~= found);
        assert(r.take(found.len() as int) =~= found) by {
            assert forall|k: int| 0 <= k < found.len() implies r[k] == found[k] by {
                assert(before.take(found.len() as int)[k] == before[k]);
            }
        }
    }
}

} // verus!
