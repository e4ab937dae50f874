//! Rebuilding a directory tree from a flat list of entries.
//!
//! Every entry carries a path relative to the root of the listing. The
//! entries are taken one by one; each path is walked component by component
//! from the root, and at every level the child of that name is found or
//! made. Two entries that share a leading part of their paths therefore
//! share the nodes of that part.

use vstd::prelude::*;
use vstd::string::*;
use crate::config::{
    lemma_files_view, props_views, texts, FileProps, FilePropsView, HttpResponse,
    HttpResponseView,
};
use crate::outside::{to_uppercase, uppercase_of};
use crate::process::{finished, Process, KIND_DIRECTORY, TYPE_DIRECTORY};
use crate::text::{chars_of, join_text, matches_at, same_text, slice_text};
use crate::utils::file::{file_suffix, size_text, FileUtils};

verus! {

/// The separator between the components of a path.
pub const SEPARATOR: char = '/';

/// The components of `path`: the runs of characters between separators,
/// in order. Empty runs are left out, so leading, trailing and repeated
/// separators do not count.
pub open spec fn components(path: Seq<char>) -> Seq<Seq<char>>
    decreases path.len(),
{
    if path.len() == 0 {
        seq![]
    } else {
        let before = components(path.drop_last());
        if path.last() == SEPARATOR {
            before
        } else if path.len() >= 2 && path[path.len() - 2] != SEPARATOR {
            before.drop_last().push(before.last().push(path.last()))
        } else {
            before.push(seq![path.last()])
        }
    }
}

/// `parts` joined by separators.
pub open spec fn joined(parts: Seq<Seq<char>>) -> Seq<char>
    decreases parts.len(),
{
    if parts.len() == 0 {
        seq![]
    } else if parts.len() == 1 {
        parts[0]
    } else {
        joined(parts.drop_last()) + seq![SEPARATOR] + parts.last()
    }
}

/// `i` is where the first child called `name` stands among `kids`, or the
/// number of `kids` when none is called so.
pub open spec fn is_child_index(kids: Seq<FilePropsView>, name: Seq<char>, i: int) -> bool {
    &&& 0 <= i <= kids.len()
    &&& i < kids.len() ==> kids[i].name == name
    &&& forall|j: int| 0 <= j < i ==> (#[trigger] kids[j]).name != name
}

/// Where the first child called `name` stands among `kids`, or the number
/// of `kids` when none is called so.
pub open spec fn child_index(kids: Seq<FilePropsView>, name: Seq<char>) -> int {
    choose|i: int| is_child_index(kids, name, i)
}

/// The node made for component `depth` of the path `parts` of `leaf`: a
/// copy of the leaf's metadata under the component's name, with the path
/// walked so far and no children. The last component of a file's path
/// stands for the file itself and takes suffix and kind from its name;
/// every other node is a directory, with both left blank.
pub open spec fn node_for(leaf: FilePropsView, parts: Seq<Seq<char>>, depth: int) -> FilePropsView {
    let name = parts[depth];
    let is_file = depth == parts.len() - 1 && !leaf.is_directory;
    FilePropsView {
        name,
        path: joined(parts.take(depth + 1)),
        suffix: if is_file {
            file_suffix(name)
        } else {
            seq![]
        },
        kind: if is_file {
            file_suffix(name)
        } else {
            seq![]
        },
        is_directory: !is_file,
        files: seq![],
        ..leaf
    }
}

/// `node` marked as a directory.
pub open spec fn as_directory(node: FilePropsView) -> FilePropsView {
    FilePropsView { is_directory: true, ..node }
}

/// `node` after the path `parts` of `leaf` has been walked below it from
/// component `depth` on: at each level the child of that name is reused,
/// or made at the end of the children. A node that is walked through is a
/// directory.
pub open spec fn insert_at(
    node: FilePropsView,
    leaf: FilePropsView,
    parts: Seq<Seq<char>>,
    depth: int,
) -> FilePropsView
    decreases parts.len() - depth,
{
    if depth < 0 || depth >= parts.len() {
        node
    } else {
        let i = child_index(node.files, parts[depth]);
        let found = if i < node.files.len() {
            node.files[i]
        } else {
            node_for(leaf, parts, depth)
        };
        let child = if depth + 1 < parts.len() {
            as_directory(found)
        } else {
            found
        };
        let grown = insert_at(child, leaf, parts, depth + 1);
        if i < node.files.len() {
            node.with_files(node.files.update(i, grown))
        } else {
            node.with_files(node.files.push(grown))
        }
    }
}

/// The tree of `leaves`: the empty root, with every leaf inserted in turn
/// along the components of its path.
pub open spec fn organized(leaves: Seq<FilePropsView>) -> FilePropsView
    decreases leaves.len(),
{
    if leaves.len() == 0 {
        FilePropsView::empty()
    } else {
        insert_at(
            organized(leaves.drop_last()),
            leaves.last(),
            components(leaves.last().path),
            0,
        )
    }
}

/// Whether the path `parts`, from component `depth` on, leads from `node`
/// down to a node: each component names a child of the node reached so
/// far.
pub open spec fn has_path(node: FilePropsView, parts: Seq<Seq<char>>, depth: int) -> bool
    decreases parts.len() - depth,
{
    if depth < 0 || depth >= parts.len() {
        true
    } else {
        exists|i: int|
            0 <= i < node.files.len() && (#[trigger] node.files[i]).name == parts[depth]
                && has_path(node.files[i], parts, depth + 1)
    }
}

/// No two of `kids` have the same name.
pub open spec fn distinct_names(kids: Seq<FilePropsView>) -> bool {
    forall|i: int, j: int|
        0 <= i < j < kids.len() ==> (#[trigger] kids[i]).name != (#[trigger] kids[j]).name
}

/// Below `node`, no two siblings have the same name and only directories
/// hold children.
pub open spec fn tidy(node: FilePropsView) -> bool
    decreases node,
{
    &&& distinct_names(node.files)
    &&& forall|i: int|
        0 <= i < node.files.len() ==> {
            &&& (#[trigger] node.files[i]).files.len() > 0 ==> node.files[i].is_directory
            &&& tidy(node.files[i])
        }
}

/// One entry met while a directory is walked, as plain values.
#[derive(Debug, PartialEq, Eq)]
pub struct DirEntry {
    /// The full path of the entry.
    pub path: String,
    /// The last component of that path.
    pub file_name: String,
    /// Whether the entry is a directory.
    pub is_directory: bool,
    /// The metadata read for the entry.
    pub props: FileProps,
}

pub struct DirEntryView {
    pub path: Seq<char>,
    pub file_name: Seq<char>,
    pub is_directory: bool,
    pub props: FilePropsView,
}

impl View for DirEntry {
    type V = DirEntryView;

    open spec fn view(&self) -> DirEntryView {
        DirEntryView {
            path: self.path@,
            file_name: self.file_name@,
            is_directory: self.is_directory,
            props: self.props@,
        }
    }
}

/// The views of the entries of `v`.
pub open spec fn entry_views(v: Seq<DirEntry>) -> Seq<DirEntryView> {
    v.map_values(|e: DirEntry| e@)
}

/// `path` as seen from `root`: without `root` in front when it begins
/// with it, and unchanged when it does not.
pub open spec fn relative_to(path: Seq<char>, root: Seq<char>) -> Seq<char> {
    if root.is_prefix_of(path) {
        path.skip(root.len() as int)
    } else {
        path
    }
}

/// The flat descriptor of an entry met under `root`. A directory has no
/// suffix and counts no bytes; a file shows its suffix in upper case.
pub open spec fn leaf_of(entry: DirEntryView, root: Seq<char>) -> FilePropsView {
    let suffix = if entry.is_directory {
        seq![]
    } else {
        uppercase_of(file_suffix(entry.file_name))
    };
    FilePropsView {
        key: entry.path,
        name: suffix,
        suffix,
        prefix: seq![],
        path: relative_to(entry.path, root),
        full_path: entry.path,
        kind: suffix,
        size: if entry.is_directory {
            seq![]
        } else {
            entry.props.size
        },
        old_size: if entry.is_directory {
            0
        } else {
            entry.props.old_size
        },
        packed: seq![],
        modified: entry.props.modified,
        permissions: seq![],
        executable: entry.props.executable,
        is_directory: entry.is_directory,
        files: seq![],
    }
}

/// The flat descriptors of `entries`, in order.
pub open spec fn leaves_of(entries: Seq<DirEntryView>, root: Seq<char>) -> Seq<FilePropsView> {
    entries.map_values(|e: DirEntryView| leaf_of(e, root))
}

/// The bytes counted for one entry: those of a file, none for a directory.
pub open spec fn entry_size(entry: DirEntryView) -> nat {
    if entry.is_directory {
        0
    } else {
        entry.props.old_size as nat
    }
}

/// The bytes of all the files among `entries`.
pub open spec fn total_size(entries: Seq<DirEntryView>) -> nat
    decreases entries.len(),
{
    if entries.len() == 0 {
        0
    } else {
        total_size(entries.drop_last()) + entry_size(entries.last())
    }
}

/// Whether a top-level directory called `name` wraps the whole content of
/// an archive whose name, without suffix, is `prefix`: it is called like
/// the archive, with or without a separator before or after.
pub open spec fn is_wrapper_name(name: Seq<char>, prefix: Seq<char>) -> bool {
    ||| name == prefix
    ||| name == seq![SEPARATOR] + prefix
    ||| name == prefix + seq![SEPARATOR]
}

/// The top level of a listing: when `files` is a single directory that
/// wraps the content of the archive called `prefix`, what that directory
/// holds; otherwise `files`.
pub open spec fn collapsed(files: Seq<FilePropsView>, prefix: Seq<char>) -> Seq<FilePropsView> {
    if files.len() == 1 && is_wrapper_name(files[0].name, prefix) {
        files[0].files
    } else {
        files
    }
}

/// The tree shown for `entries` met under `root`, for a listing whose
/// name without suffix is `prefix`.
pub open spec fn listing(entries: Seq<DirEntryView>, root: Seq<char>, prefix: Seq<char>) -> Seq<
    FilePropsView,
> {
    collapsed(organized(leaves_of(entries, root)).files, prefix)
}

/// The message with which a listing is refused whose files are larger,
/// taken together, than can be counted.
pub const MESSAGE_SIZE_OVERFLOW: &'static str = "the total size of the files is too large";

/// The manifest of a directory at `path` holding `files`, `size` bytes in
/// all.
pub open spec fn directory_response(
    response: HttpResponseView,
    path: Seq<char>,
    files: Seq<FilePropsView>,
    size: u64,
) -> HttpResponseView {
    finished(
        HttpResponseView {
            file_props: FilePropsView {
                kind: KIND_DIRECTORY@,
                size: size_text(size),
                files,
                full_path: path,
                ..response.file_props
            },
            ..response
        },
        None,
        TYPE_DIRECTORY@,
    )
}

/// A child index exists and is unique.
pub proof fn lemma_child_index(kids: Seq<FilePropsView>, name: Seq<char>)
    ensures
        is_child_index(kids, name, child_index(kids, name)),
        forall|i: int| is_child_index(kids, name, i) ==> i == child_index(kids, name),
    decreases kids.len(),
{
    if kids.len() == 0 {
        assert(is_child_index(kids, name, 0));
    } else {
        let front = kids.drop_last();
        lemma_child_index(front, name);
        let k = child_index(front, name);
        assert forall|j: int| 0 <= j < k implies (#[trigger] kids[j]).name != name by {
            assert(front[j] == kids[j]);
        }
        if k < front.len() {
            assert(front[k] == kids[k]);
            assert(is_child_index(kids, name, k));
        } else if kids.last().name == name {
            assert(is_child_index(kids, name, kids.len() - 1));
        } else {
            assert(is_child_index(kids, name, kids.len() as int));
        }
    }
    let c = child_index(kids, name);
    assert forall|i: int| is_child_index(kids, name, i) implies i == c by {
        if i < c {
            assert(kids[i].name == name);
        } else if c < i {
            assert(kids[c].name == name);
        }
    }
}

/// No component is empty and none holds a separator.
pub proof fn lemma_components_plain(path: Seq<char>)
    ensures
        forall|k: int|
            0 <= k < components(path).len() ==> {
                &&& (#[trigger] components(path)[k]).len() > 0
                &&& !components(path)[k].contains(SEPARATOR)
            },
        path.len() > 0 && path.last() != SEPARATOR ==> components(path).len() > 0,
    decreases path.len(),
{
    if path.len() > 0 {
        lemma_components_plain(path.drop_last());
        let before = components(path.drop_last());
        if path.last() == SEPARATOR {
        } else if path.len() >= 2 && path[path.len() - 2] != SEPARATOR {
            assert(path.drop_last().last() == path[path.len() - 2]);
            let grown = before.last().push(path.last());
            assert forall|k: int| 0 <= k < components(path).len() implies {
                &&& (#[trigger] components(path)[k]).len() > 0
                &&& !components(path)[k].contains(SEPARATOR)
            } by {
                if k == components(path).len() - 1 {
                    assert(components(path)[k] == grown);
                    assert(!before.last().contains(SEPARATOR));
                    assert forall|m: int| 0 <= m < grown.len() implies grown[m] != SEPARATOR by {
                        if m < before.last().len() {
                            assert(before.last()[m] != SEPARATOR);
                        }
                    }
                } else {
                    assert(components(path)[k] == before[k]);
                }
            }
        } else {
            assert forall|k: int| 0 <= k < components(path).len() implies {
                &&& (#[trigger] components(path)[k]).len() > 0
                &&& !components(path)[k].contains(SEPARATOR)
            } by {
                if k == components(path).len() - 1 {
                    assert(components(path)[k] =~= seq![path.last()]);
                } else {
                    assert(components(path)[k] == before[k]);
                }
            }
        }
    }
}

/// Splits a path into its components.
pub fn path_components(path: &str) -> (parts: Vec<String>)
    ensures
        texts(parts@) == components(path@),
{
    let chars = chars_of(path);
    let mut parts: Vec<String> = Vec::new();
    let mut start: usize = 0;
    let mut i: usize = 0;
    assert(path@.take(0) =~= Seq::<char>::empty());
    assert(texts(parts@) =~= components(path@.take(0)));
    while i < chars.len()
        invariant
            chars@ == path@,
            start <= i <= chars@.len(),
            forall|k: int| start <= k < i ==> path@[k] != SEPARATOR,
            start > 0 ==> path@[start - 1] == SEPARATOR,
            components(path@.take(i as int)) == if start < i {
                texts(parts@).push(path@.subrange(start as int, i as int))
            } else {
                texts(parts@)
            },
        decreases chars@.len() - i,
    {
        let ghost done = texts(parts@);
        let ghost now = path@.take(i + 1);
        proof {
            assert(now.drop_last() =~= path@.take(i as int));
            assert(now.last() == path@[i as int]);
            if i > 0 {
                assert(now[now.len() - 2] == path@[i - 1]);
            }
        }
        if chars[i] == SEPARATOR {
            if start < i {
                let part = slice_text(path, start, i);
                parts.push(part);
                assert(texts(parts@) =~= done.push(path@.subrange(start as int, i as int)));
            }
            start = i + 1;
        } else {
            proof {
                if start < i {
                    let open = path@.subrange(start as int, i as int);
                    assert(open.push(path@[i as int]) =~= path@.subrange(start as int, i + 1));
                    assert(done.push(open).drop_last() =~= done);
                } else {
                    assert(seq![path@[i as int]] =~= path@.subrange(start as int, i + 1));
                }
            }
        }
        i += 1;
    }
    assert(path@.take(chars@.len() as int) =~= path@);
    if start < i {
        let ghost done = texts(parts@);
        let part = slice_text(path, start, i);
        parts.push(part);
        assert(texts(parts@) =~= done.push(path@.subrange(start as int, i as int)));
    }
    parts
}

impl Process {
    /// Where the first child called `name` stands, or the number of
    /// children when none is called so.
    fn find_child(kids: &Vec<FileProps>, name: &str) -> (i: usize)
        ensures
            i == child_index(props_views(kids@), name@),
            i <= kids@.len(),
    {
        let mut i: usize = 0;
        while i < kids.len()
            invariant
                i <= kids@.len(),
                forall|j: int| 0 <= j < i ==> (#[trigger] props_views(kids@)[j]).name != name@,
            decreases kids@.len() - i,
        {
            if same_text(kids[i].name.as_str(), name) {
                proof {
                    assert(props_views(kids@)[i as int].name == name@);
                    assert(is_child_index(props_views(kids@), name@, i as int));
                    lemma_child_index(props_views(kids@), name@);
                }
                return i;
            }
            assert(props_views(kids@)[i as int].name != name@);
            i += 1;
        }
        proof {
            assert(is_child_index(props_views(kids@), name@, i as int));
            lemma_child_index(props_views(kids@), name@);
        }
        i
    }

    /// The first `count` of `parts`, joined by separators.
    fn join_parts(parts: &Vec<String>, count: usize) -> (path: String)
        requires
            count <= parts@.len(),
        ensures
            path@ == joined(texts(parts@).take(count as int)),
    {
        let mut path = String::new();
        let mut i: usize = 0;
        assert(texts(parts@).take(0) =~= Seq::<Seq<char>>::empty());
        while i < count
            invariant
                i <= count <= parts@.len(),
                path@ == joined(texts(parts@).take(i as int)),
            decreases count - i,
        {
            proof {
                let next = texts(parts@).take(i + 1);
                assert(next.drop_last() =~= texts(parts@).take(i as int));
                assert(next.last() == parts@[i as int]@);
                reveal_strlit("/");
            }
            if i > 0 {
                path.append("/");
            }
            path.append(parts[i].as_str());
            proof {
                let next = texts(parts@).take(i + 1);
                if i == 0 {
                    assert(next.len() == 1);
                    assert(path@ =~= next[0]);
                } else {
                    assert(path@ =~= joined(next.drop_last()) + seq![SEPARATOR] + next.last());
                }
            }
            i += 1;
        }
        path
    }

    /// Makes the node for component `depth` of a leaf's path.
    fn new_node(leaf: &FileProps, parts: &Vec<String>, depth: usize) -> (node: FileProps)
        requires
            depth < parts@.len(),
        ensures
            node@ == node_for(leaf@, texts(parts@), depth as int),
            node.files@.len() == 0,
    {
        let mut node = leaf.without_files();
        let name = parts[depth].clone();
        let is_file = depth == parts.len() - 1 && !leaf.is_directory;
        if is_file {
            node.suffix = FileUtils::get_file_suffix(name.as_str());
            node.kind = FileUtils::get_file_suffix(name.as_str());
        } else {
            node.suffix = String::new();
            node.kind = String::new();
        }
        node.is_directory = !is_file;
        node.path = Self::join_parts(parts, depth + 1);
        node.name = name;
        assert(node@.files =~= seq![]);
        node
    }

    /// Walks the path of `leaf` below `node` from component `depth` on,
    /// making the nodes that are missing.
    fn insert_leaf(node: &mut FileProps, leaf: &FileProps, parts: &Vec<String>, depth: usize)
        requires
            depth <= parts@.len(),
        ensures
            final(node)@ == insert_at(old(node)@, leaf@, texts(parts@), depth as int),
        decreases parts@.len() - depth,
    {
        if depth >= parts.len() {
            return ;
        }
        let ghost before = node@;
        let ghost kids = node.files@;
        proof {
            lemma_files_view(*node);
        }
        let i = Self::find_child(&node.files, parts[depth].as_str());
        if i == node.files.len() {
            let fresh = Self::new_node(leaf, parts, depth);
            node.files.push(fresh);
        }
        let ghost found = node.files@[i as int]@;
        let child = &mut node.files[i];
        if depth + 1 < parts.len() {
            child.is_directory = true;
        }
        Self::insert_leaf(child, leaf, parts, depth + 1);
        proof {
            lemma_files_view(*node);
            let grown = node.files@[i as int]@;
            if i < kids.len() {
                assert(found == before.files[i as int]);
                assert(node@.files =~= before.files.update(i as int, grown));
            } else {
                assert(found == node_for(leaf@, texts(parts@), depth as int));
                assert(node@.files =~= before.files.push(grown));
            }
        }
    }

    /// `path` as seen from `root`.
    fn relative_path(path: &str, root: &str) -> (out: String)
        ensures
            out@ == relative_to(path@, root@),
    {
        let p = chars_of(path);
        let r = chars_of(root);
        if r.len() <= p.len() && matches_at(&p, 0, &r) {
            let out = slice_text(path, r.len(), p.len());
            assert(path@.skip(root@.len() as int) =~= path@.subrange(
                root@.len() as int,
                path@.len() as int,
            ));
            out
        } else {
            path.to_owned()
        }
    }

    /// The flat descriptor of one entry met under `root`.
    fn leaf_entry(entry: &DirEntry, root: &str) -> (leaf: FileProps)
        ensures
            leaf@ == leaf_of(entry@, root@),
    {
        let lower = FileUtils::get_file_suffix(entry.file_name.as_str());
        let suffix = if entry.is_directory {
            String::new()
        } else {
            to_uppercase(lower.as_str())
        };
        let leaf = FileProps {
            key: entry.path.clone(),
            name: suffix.clone(),
            suffix: suffix.clone(),
            prefix: String::new(),
            path: Self::relative_path(entry.path.as_str(), root),
            full_path: entry.path.clone(),
            size: if entry.is_directory {
                String::new()
            } else {
                entry.props.size.clone()
            },
            old_size: if entry.is_directory {
                0
            } else {
                entry.props.old_size
            },
            packed: String::new(),
            modified: entry.props.modified.clone(),
            permissions: String::new(),
            executable: entry.props.executable,
            kind: suffix,
            is_directory: entry.is_directory,
            files: Vec::new(),
        };
        assert(leaf@.files =~= seq![]);
        leaf
    }

    /// Turns the entries met while the directory `root` was walked into
    /// flat descriptors, and adds up the bytes of the files among them.
    ///
    /// Fails only when the sum does not fit in 64 bits.
    pub fn read_files(entries: &Vec<DirEntry>, root: &str) -> (r: Result<
        (Vec<FileProps>, u64),
        String,
    >)
        ensures
            r is Ok <==> total_size(entry_views(entries@)) <= u64::MAX,
            r matches Ok((files, size)) ==> {
                &&& props_views(files@) == leaves_of(entry_views(entries@), root@)
                &&& size == total_size(entry_views(entries@))
            },
            r matches Err(message) ==> message@ == MESSAGE_SIZE_OVERFLOW@,
    {
        let mut files: Vec<FileProps> = Vec::new();
        let mut size: u64 = 0;
        let mut i: usize = 0;
        assert(entry_views(entries@).take(0) =~= Seq::<DirEntryView>::empty());
        while i < entries.len()
            invariant
                i <= entries@.len(),
                files@.len() == i,
                forall|j: int|
                    0 <= j < i ==> (#[trigger] files@[j])@ == leaf_of(entries@[j]@, root@),
                size == total_size(entry_views(entries@).take(i as int)),
            decreases entries@.len() - i,
        {
            let entry = &entries[i];
            proof {
                let next = entry_views(entries@).take(i + 1);
                assert(next.drop_last() =~= entry_views(entries@).take(i as int));
                assert(next.last() == entry@);
            }
            files.push(Self::leaf_entry(entry, root));
            if !entry.is_directory {
                match size.checked_add(entry.props.old_size) {
                    Some(sum) => {
                        size = sum;
                    },
                    None => {
                        proof {
                            lemma_total_size_grows(entry_views(entries@), i + 1);
                        }
                        return Err(MESSAGE_SIZE_OVERFLOW.to_owned());
                    },
                }
            }
            i += 1;
        }
        assert(entry_views(entries@).take(entries@.len() as int) =~= entry_views(entries@));
        assert(props_views(files@) =~= leaves_of(entry_views(entries@), root@));
        Ok((files, size))
    }

    /// Whether a top-level directory called `name` wraps the content of
    /// the archive called `prefix`.
    fn wraps(name: &str, prefix: &str) -> (r: bool)
        ensures
            r == is_wrapper_name(name@, prefix@),
    {
        proof {
            reveal_strlit("/");
        }
        if same_text(name, prefix) {
            return true;
        }
        let before = join_text("/", prefix);
        let after = join_text(prefix, "/");
        assert(before@ =~= seq![SEPARATOR] + prefix@);
        assert(after@ =~= prefix@ + seq![SEPARATOR]);
        same_text(name, before.as_str()) || same_text(name, after.as_str())
    }

    /// Builds the tree shown for a directory that was walked: the entries
    /// are arranged by their paths, and a single top-level directory that
    /// is called like the listing itself is left out, its content taking
    /// its place. Also returns the bytes of all the files.
    ///
    /// Fails only when those bytes do not fit in 64 bits.
    pub fn read_directory(entries: &Vec<DirEntry>, root: &str, prefix: &str) -> (r: Result<
        (Vec<FileProps>, u64),
        String,
    >)
        ensures
            r is Ok <==> total_size(entry_views(entries@)) <= u64::MAX,
            r matches Ok((files, size)) ==> {
                &&& props_views(files@) == listing(entry_views(entries@), root@, prefix@)
                &&& size == total_size(entry_views(entries@))
                &&& distinct_names(props_views(files@))
                &&& forall|i: int| 0 <= i < files@.len() ==> tidy(#[trigger] props_views(files@)[i])
            },
            r matches Err(message) ==> message@ == MESSAGE_SIZE_OVERFLOW@,
    {
        let (leaves, size) = match Self::read_files(entries, root) {
            Ok(read) => read,
            Err(message) => {
                return Err(message);
            },
        };
        let mut tree = Self::organize_files(leaves);
        let ghost whole = tree@;
        proof {
            lemma_files_view(tree);
            assert(tidy(whole));
        }
        if tree.files.len() == 1 && Self::wraps(tree.files[0].name.as_str(), prefix) {
            let wrapper = tree.files.remove(0);
            proof {
                lemma_files_view(wrapper);
                assert(wrapper@ == whole.files[0]);
                assert(tidy(whole.files[0]));
                assert(props_views(wrapper.files@) == whole.files[0].files);
            }
            Ok((wrapper.files, size))
        } else {
            assert(props_views(tree.files@) == whole.files);
            Ok((tree.files, size))
        }
    }

    /// Finishes the manifest of a directory that was walked.
    ///
    /// Fails only when the bytes of its files do not fit in 64 bits.
    pub fn prepare_directory(
        entries: &Vec<DirEntry>,
        path: &str,
        response: HttpResponse,
    ) -> (r: Result<HttpResponse, String>)
        ensures
            r is Ok <==> total_size(entry_views(entries@)) <= u64::MAX,
            r matches Ok(res) ==> res@ == directory_response(
                response@,
                path@,
                listing(entry_views(entries@), path@, response@.file_props.prefix),
                total_size(entry_views(entries@)) as u64,
            ),
            r matches Err(message) ==> message@ == MESSAGE_SIZE_OVERFLOW@,
    {
        let (files, size) = match Self::read_directory(
            entries,
            path,
            response.file_props.prefix.as_str(),
        ) {
            Ok(read) => read,
            Err(message) => {
                return Err(message);
            },
        };
        let mut res = response;
        res.file_props.kind = KIND_DIRECTORY.to_owned();
        res.file_props.size = FileUtils::convert_size(size);
        res.file_props.files = files;
        res.file_props.full_path = path.to_owned();
        proof {
            lemma_files_view(res.file_props);
        }
        Ok(Self::prepare_response(res, None, TYPE_DIRECTORY))
    }

    /// Arranges a flat list of entries as a tree under an empty root.
    /// Each entry is placed along the components of its `path`; the nodes
    /// of a shared leading part are shared.
    pub fn organize_files(files: Vec<FileProps>) -> (root: FileProps)
        ensures
            root@ == organized(props_views(files@)),
            tidy(root@),
            files@.len() == 0 ==> root@ == FilePropsView::empty(),
    {
        let mut root = FileProps::default();
        let mut i: usize = 0;
        assert(props_views(files@).take(0) =~= Seq::<FilePropsView>::empty());
        while i < files.len()
            invariant
                i <= files@.len(),
                root@ == organized(props_views(files@).take(i as int)),
            decreases files@.len() - i,
        {
            let leaf = &files[i];
            let parts = path_components(leaf.path.as_str());
            proof {
                let next = props_views(files@).take(i + 1);
                assert(next.drop_last() =~= props_views(files@).take(i as int));
                assert(next.last() == leaf@);
            }
            Self::insert_leaf(&mut root, leaf, &parts, 0);
            i += 1;
        }
        proof {
            assert(props_views(files@).take(files@.len() as int) =~= props_views(files@));
            lemma_organized_tidy(props_views(files@));
        }
        root
    }
}

/// The bytes counted over a leading part of the entries are at most those
/// counted over all of them.
pub proof fn lemma_total_size_grows(entries: Seq<DirEntryView>, n: int)
    requires
        0 <= n <= entries.len(),
    ensures
        total_size(entries.take(n)) <= total_size(entries),
    decreases entries.len() - n,
{
    if n < entries.len() {
        lemma_total_size_grows(entries, n + 1);
        assert(entries.take(n + 1).drop_last() =~= entries.take(n));
    } else {
        assert(entries.take(n) =~= entries);
    }
}

/// Inserting a leaf keeps a tree tidy.
pub proof fn lemma_insert_tidy(
    node: FilePropsView,
    leaf: FilePropsView,
    parts: Seq<Seq<char>>,
    depth: int,
)
    requires
        tidy(node),
        0 <= depth <= parts.len(),
    ensures
        tidy(insert_at(node, leaf, parts, depth)),
        insert_at(node, leaf, parts, depth).name == node.name,
        insert_at(node, leaf, parts, depth).is_directory == node.is_directory,
        depth < parts.len() ==> insert_at(node, leaf, parts, depth).files.len() > 0,
    decreases parts.len() - depth,
{
    if depth < parts.len() {
        let name = parts[depth];
        lemma_child_index(node.files, name);
        let i = child_index(node.files, name);
        let found = if i < node.files.len() {
            node.files[i]
        } else {
            node_for(leaf, parts, depth)
        };
        let child = if depth + 1 < parts.len() {
            as_directory(found)
        } else {
            found
        };
        assert(tidy(child)) by {
            if i < node.files.len() {
                assert(tidy(node.files[i]));
            }
            assert(child.files == found.files);
        }
        lemma_insert_tidy(child, leaf, parts, depth + 1);
        let grown = insert_at(child, leaf, parts, depth + 1);
        let out = insert_at(node, leaf, parts, depth);
        assert(grown.name == name);
        assert(grown.files.len() > 0 ==> grown.is_directory) by {
            if depth + 1 < parts.len() {
            } else {
                assert(grown == child);
                if i < node.files.len() {
                    assert(node.files[i].files.len() > 0 ==> node.files[i].is_directory);
                }
            }
        }
        assert forall|a: int, b: int| 0 <= a < b < out.files.len() implies (
        #[trigger] out.files[a]).name != (#[trigger] out.files[b]).name by {
            if i < node.files.len() {
                assert(out.files[a].name == node.files[a].name);
                assert(out.files[b].name == node.files[b].name);
            } else {
                if b == node.files.len() {
                    assert(out.files[a] == node.files[a]);
                    assert(node.files[a].name != name);
                } else {
                    assert(out.files[a] == node.files[a]);
                    assert(out.files[b] == node.files[b]);
                }
            }
        }
        assert forall|k: int| 0 <= k < out.files.len() implies {
            &&& (#[trigger] out.files[k]).files.len() > 0 ==> out.files[k].is_directory
            &&& tidy(out.files[k])
        } by {
            if k == i {
                assert(out.files[k] == grown);
            } else {
                assert(out.files[k] == node.files[k]);
            }
        }
    }
}

/// After a leaf has been inserted, its path leads to a node.
pub proof fn lemma_insert_makes_path(
    node: FilePropsView,
    leaf: FilePropsView,
    parts: Seq<Seq<char>>,
    depth: int,
)
    requires
        0 <= depth <= parts.len(),
    ensures
        has_path(insert_at(node, leaf, parts, depth), parts, depth),
    decreases parts.len() - depth,
{
    if depth < parts.len() {
        let name = parts[depth];
        lemma_child_index(node.files, name);
        let i = child_index(node.files, name);
        let found = if i < node.files.len() {
            node.files[i]
        } else {
            node_for(leaf, parts, depth)
        };
        let child = if depth + 1 < parts.len() {
            as_directory(found)
        } else {
            found
        };
        lemma_insert_makes_path(child, leaf, parts, depth + 1);
        lemma_insert_keeps_name(child, leaf, parts, depth + 1);
        let out = insert_at(node, leaf, parts, depth);
        assert(out.files[i] == insert_at(child, leaf, parts, depth + 1));
        assert(out.files[i].name == name);
    }
}

/// Inserting below a node leaves the node's own name as it is.
pub proof fn lemma_insert_keeps_name(
    node: FilePropsView,
    leaf: FilePropsView,
    parts: Seq<Seq<char>>,
    depth: int,
)
    ensures
        insert_at(node, leaf, parts, depth).name == node.name,
{
}

/// Inserting a leaf takes no node away: a path that led to a node before
/// still does.
pub proof fn lemma_insert_keeps_paths(
    node: FilePropsView,
    leaf: FilePropsView,
    parts: Seq<Seq<char>>,
    depth: int,
    other: Seq<Seq<char>>,
    at: int,
)
    requires
        has_path(node, other, at),
    ensures
        has_path(insert_at(node, leaf, parts, depth), other, at),
    decreases other.len() - at,
{
    if 0 <= at < other.len() && 0 <= depth < parts.len() {
        let name = parts[depth];
        lemma_child_index(node.files, name);
        let i = child_index(node.files, name);
        let out = insert_at(node, leaf, parts, depth);
        let j = choose|j: int|
            0 <= j < node.files.len() && (#[trigger] node.files[j]).name == other[at] && has_path(
                node.files[j],
                other,
                at + 1,
            );
        if j == i {
            let child = if depth + 1 < parts.len() {
                as_directory(node.files[i])
            } else {
                node.files[i]
            };
            lemma_same_children_same_paths(node.files[i], child, other, at + 1);
            lemma_insert_keeps_paths(child, leaf, parts, depth + 1, other, at + 1);
            lemma_insert_keeps_name(child, leaf, parts, depth + 1);
            assert(out.files[j] == insert_at(child, leaf, parts, depth + 1));
            assert(out.files[j].name == other[at]);
        } else {
            assert(out.files[j] == node.files[j]);
        }
    }
}

/// Whether a path leads down from a node depends on its children alone.
pub proof fn lemma_same_children_same_paths(
    a: FilePropsView,
    b: FilePropsView,
    parts: Seq<Seq<char>>,
    depth: int,
)
    requires
        a.files == b.files,
    ensures
        has_path(a, parts, depth) == has_path(b, parts, depth),
{
}

/// In the tree of a list of leaves, the path of every leaf leads to a
/// node. Since no two siblings share a name, it leads to exactly one: two
/// leaves whose paths begin alike share the nodes of that beginning.
pub proof fn lemma_every_leaf_is_placed(leaves: Seq<FilePropsView>, k: int)
    requires
        0 <= k < leaves.len(),
    ensures
        has_path(organized(leaves), components(leaves[k].path), 0),
    decreases leaves.len(),
{
    let front = leaves.drop_last();
    let last = leaves.last();
    if k == leaves.len() - 1 {
        lemma_insert_makes_path(organized(front), last, components(last.path), 0);
    } else {
        lemma_every_leaf_is_placed(front, k);
        assert(front[k] == leaves[k]);
        lemma_insert_keeps_paths(
            organized(front),
            last,
            components(last.path),
            0,
            components(leaves[k].path),
            0,
        );
    }
}

/// The tree of any list of leaves is tidy.
pub proof fn lemma_organized_tidy(leaves: Seq<FilePropsView>)
    ensures
        tidy(organized(leaves)),
    decreases leaves.len(),
{
    if leaves.len() > 0 {
        lemma_organized_tidy(leaves.drop_last());
        lemma_insert_tidy(
            organized(leaves.drop_last()),
            leaves.last(),
            components(leaves.last().path),
            0,
        );
    }
}

} // verus!
