//! The virtual path tree: a derived, disposable folder/file view grouping
//! record names by their '/'-delimited segments, for presentation only.
//!
//! A leaf carries the full record name it stands for, so a caller picking a
//! leaf can hand that exact name back to `Archive::read_record`. Directory
//! lookup by segment is case-sensitive and exact; children keep first-seen
//! order, so the same name sequence always yields the same tree.
use crate::text::str_eq;
use vstd::prelude::*;
use vstd::string::{StrSliceExecFns, StringExecFns};

verus! {

/// Mathematical image of a tree node.
#[verifier::ext_equal]
pub ghost enum TreeModel {
    Leaf { name: Seq<char> },
    Dir { label: Seq<char>, children: Seq<TreeModel> },
}

/// One node of the path tree: a file leaf carrying a full record name, or a
/// directory carrying its segment label and its children in first-seen order.
#[derive(Debug)]
pub enum Item {
    File(String),
    Directory(String, Vec<Item>),
}

impl Item {
    /// The node's mathematical image.
    pub open spec fn model(self) -> TreeModel
        decreases self,
    {
        match self {
            Item::File(name) => TreeModel::Leaf { name: name@ },
            Item::Directory(label, children) => TreeModel::Dir {
                label: label@,
                children: models_of(children@),
            },
        }
    }
}

/// The models of a sequence of nodes, in order.
pub open spec fn models_of(s: Seq<Item>) -> Seq<TreeModel>
    decreases s,
{
    if s.len() == 0 {
        Seq::empty()
    } else {
        seq![s[0].model()] + models_of(s.drop_first())
    }
}

/// `models_of` maps each node to its model, position by position.
pub broadcast proof fn lemma_models_of(s: Seq<Item>)
    ensures
        #[trigger] models_of(s).len() == s.len(),
        forall|i: int| 0 <= i < s.len() ==> models_of(s)[i] == s[i].model(),
    decreases s.len(),
{
    if s.len() == 0 {
    } else {
        lemma_models_of(s.drop_first());
        assert forall|i: int| 0 <= i < s.len() implies models_of(s)[i] == s[i].model() by {
            if i > 0 {
                assert(models_of(s)[i] == models_of(s.drop_first())[i - 1]);
                assert(s.drop_first()[i - 1] == s[i]);
            }
        }
    }
}

/// Whether the node is a directory labelled `seg`.
pub open spec fn dir_matches(t: TreeModel, seg: Seq<char>) -> bool {
    t matches TreeModel::Dir { label, .. } && label == seg
}

/// The first child that is a directory labelled `seg`, if any.
pub open spec fn dir_index(children: Seq<TreeModel>, seg: Seq<char>) -> Option<int>
    decreases children.len(),
{
    if children.len() == 0 {
        None
    } else if dir_matches(children[0], seg) {
        Some(0)
    } else {
        match dir_index(children.drop_first(), seg) {
            None => None,
            Some(j) => Some(j + 1),
        }
    }
}

/// `dir_index` finds the first matching child and nothing before it.
pub proof fn lemma_dir_index(children: Seq<TreeModel>, seg: Seq<char>)
    ensures
        match dir_index(children, seg) {
            Some(j) => {
                &&& 0 <= j < children.len()
                &&& dir_matches(children[j], seg)
                &&& forall|k: int| 0 <= k < j ==> !dir_matches(children[k], seg)
            },
            None => forall|k: int| 0 <= k < children.len() ==> !dir_matches(children[k], seg),
        },
    decreases children.len(),
{
    if children.len() == 0 {
    } else if dir_matches(children[0], seg) {
    } else {
        lemma_dir_index(children.drop_first(), seg);
        assert forall|k: int| 1 <= k < children.len() implies children.drop_first()[k - 1]
            == children[k] by {}
    }
}

/// What inserting the record name `full` into the tree yields, `rest` being
/// the part of the name not yet consumed. Segments before the next '/' walk
/// or create directories; the last segment becomes a leaf carrying `full`.
/// Inserting into a leaf changes nothing.
pub open spec fn spec_add_to_tree(t: TreeModel, full: Seq<char>, rest: Seq<char>) -> TreeModel
    decreases rest.len(),
    via spec_add_to_tree_decreases
{
    match t {
        TreeModel::Leaf { .. } => t,
        TreeModel::Dir { label, children } => {
            match rest.index_of_first('/') {
                None => TreeModel::Dir {
                    label,
                    children: children.push(TreeModel::Leaf { name: full }),
                },
                Some(i) => {
                    let seg = rest.take(i);
                    let tail = rest.skip(i + 1);
                    match dir_index(children, seg) {
                        None => TreeModel::Dir {
                            label,
                            children: children.push(
                                spec_add_to_tree(
                                    TreeModel::Dir { label: seg, children: Seq::empty() },
                                    full,
                                    tail,
                                ),
                            ),
                        },
                        Some(j) => TreeModel::Dir {
                            label,
                            children: children.update(j, spec_add_to_tree(children[j], full, tail)),
                        },
                    }
                },
            }
        },
    }
}

#[via_fn]
proof fn spec_add_to_tree_decreases(t: TreeModel, full: Seq<char>, rest: Seq<char>) {
    rest.index_of_first_ensures('/');
}

/// What building the tree from `names` on top of `t` yields: the names are
/// inserted one by one, in order.
pub open spec fn spec_build_from(t: TreeModel, names: Seq<Seq<char>>) -> TreeModel
    decreases names.len(),
{
    if names.len() == 0 {
        t
    } else {
        spec_build_from(spec_add_to_tree(t, names[0], names[0]), names.drop_first())
    }
}

/// What `build_file_system_tree` yields: every name inserted, in order, into
/// a fresh root directory labelled `root_label`.
pub open spec fn spec_build_tree(names: Seq<Seq<char>>, root_label: Seq<char>) -> TreeModel {
    spec_build_from(TreeModel::Dir { label: root_label, children: Seq::empty() }, names)
}

/// Building the tree is a pure function of the names and the root label:
/// any two results that meet `build_file_system_tree`'s contract for the
/// same inputs are structurally identical.
pub proof fn lemma_build_tree_deterministic(
    r1: Item,
    r2: Item,
    names: Seq<Seq<char>>,
    root_label: Seq<char>,
)
    requires
        r1.model() == spec_build_tree(names, root_label),
        r2.model() == spec_build_tree(names, root_label),
    ensures
        r1.model() == r2.model(),
{
}

/// Inserts the record name `full` into the node, `rest` being the part of
/// the name not yet consumed.
fn insert_path(t: Item, full: &str, rest: &str) -> (r: Item)
    ensures
        r.model() == spec_add_to_tree(t.model(), full@, rest@),
    decreases rest@.len(),
{
    broadcast use lemma_models_of;

    match t {
        Item::File(name) => Item::File(name),
        Item::Directory(label, mut children) => {
            let ghost old_children = children@;
            let n = rest.unicode_len();
            let mut i: usize = 0;
            while i < n
                invariant
                    i <= n,
                    n == rest@.len(),
                    forall|k: int| 0 <= k < i ==> rest@[k] != '/',
                ensures
                    i <= n,
                    n == rest@.len(),
                    forall|k: int| 0 <= k < i ==> rest@[k] != '/',
                    i < n ==> rest@[i as int] == '/',
                decreases n - i,
            {
                if rest.get_char(i) == '/' {
                    break ;
                }
                i = i + 1;
            }
            proof {
                rest@.index_of_first_ensures('/');
            }
            if i == n {
                proof {
                    assert(rest@.index_of_first('/') is None);
                }
                children.push(Item::File(String::from_str(full)));
                let out = Item::Directory(label, children);
                proof {
                    assert(models_of(children@) =~= models_of(old_children).push(
                        (TreeModel::Leaf { name: full@ }),
                    ));
                }
                out
            } else {
                proof {
                    assert(rest@.index_of_first('/') == Some(i as int));
                }
                let seg = rest.substring_char(0, i);
                let tail = rest.substring_char(i + 1, n);
                let ghost child_models = models_of(old_children);
                proof {
                    lemma_dir_index(child_models, seg@);
                }
                let mut j: usize = 0;
                while j < children.len()
                    invariant
                        j <= children@.len(),
                        children@ == old_children,
                        child_models == models_of(old_children),
                        forall|k: int| 0 <= k < j ==> !dir_matches(child_models[k], seg@),
                    ensures
                        j <= children@.len(),
                        children@ == old_children,
                        forall|k: int| 0 <= k < j ==> !dir_matches(child_models[k], seg@),
                        j < children@.len() ==> dir_matches(child_models[j as int], seg@),
                    decreases children@.len() - j,
                {
                    let is_match = match &children[j] {
                        Item::Directory(name, _) => str_eq(name.as_str(), seg),
                        _ => false,
                    };
                    proof {
                        lemma_models_of(old_children);
                        assert(child_models[j as int] == children@[j as int].model());
                    }
                    if is_match {
                        break ;
                    }
                    j = j + 1;
                }
                if j < children.len() {
                    proof {
                        assert(dir_index(child_models, seg@) == Some(j as int));
                    }
                    let child = children.remove(j);
                    let child = insert_path(child, full, tail);
                    children.insert(j, child);
                    let out = Item::Directory(label, children);
                    proof {
                        assert(children@ =~= old_children.update(j as int, children@[j as int]));
                        assert(models_of(children@) =~= child_models.update(
                            j as int,
                            spec_add_to_tree(child_models[j as int], full@, tail@),
                        ));
                    }
                    out
                } else {
                    proof {
                        assert(dir_index(child_models, seg@) is None);
                    }
                    let fresh = Item::Directory(String::from_str(seg), Vec::new());
                    proof {
                        assert(fresh.model() =~= (TreeModel::Dir {
                            label: seg@,
                            children: Seq::<TreeModel>::empty(),
                        }));
                    }
                    let fresh = insert_path(fresh, full, tail);
                    children.push(fresh);
                    let out = Item::Directory(label, children);
                    proof {
                        assert(models_of(children@) =~= child_models.push(
                            spec_add_to_tree(
                                TreeModel::Dir { label: seg@, children: Seq::empty() },
                                full@,
                                tail@,
                            ),
                        ));
                    }
                    out
                }
            }
        },
    }
}

/// Inserts the record name `path` into the tree: directories are walked or
/// created for every segment before the last, and the last segment becomes a
/// leaf carrying the full name. Inserting into a leaf changes nothing.
pub fn add_file_to_tree(current: &mut Item, path: &str)
    ensures
        final(current).model() == spec_add_to_tree(old(current).model(), path@, path@),
{
    let mut tmp = Item::File(String::new());
    core::mem::swap(current, &mut tmp);
    let updated = insert_path(tmp, path, path);
    *current = updated;
}

/// Builds the whole path tree: a root directory labelled `wad_name` with
/// every name of `paths` inserted, in order. Given the same names the same
/// tree is produced.
pub fn build_file_system_tree(paths: Vec<&str>, wad_name: String) -> (r: Item)
    ensures
        r.model() == spec_build_tree(paths.deep_view(), wad_name@),
{
    let ghost names = paths.deep_view();
    let mut root = Item::Directory(wad_name, Vec::new());
    proof {
        assert(root.model() =~= (TreeModel::Dir {
            label: wad_name@,
            children: Seq::<TreeModel>::empty(),
        }));
    }
    proof {
        assert(names.skip(0) =~= names);
    }
    let mut idx: usize = 0;
    while idx < paths.len()
        invariant
            idx <= paths@.len(),
            names == paths.deep_view(),
            names.len() == paths@.len(),
            spec_build_tree(names, wad_name@) == spec_build_from(root.model(), names.skip(idx as int)),
        decreases paths@.len() - idx,
    {
        let ghost before = root.model();
        add_file_to_tree(&mut root, paths[idx]);
        proof {
            assert(names[idx as int] == paths@[idx as int]@);
            assert(names.skip(idx as int)[0] == names[idx as int]);
            assert(names.skip(idx as int).drop_first() =~= names.skip(idx as int + 1));
            assert(spec_build_from(before, names.skip(idx as int)) == spec_build_from(
                root.model(),
                names.skip(idx as int + 1),
            ));
        }
        idx = idx + 1;
    }
    proof {
        assert(names.skip(names.len() as int) =~= Seq::<Seq<char>>::empty());
    }
    root
}

impl Item {
    /// Whether the node is a file leaf.
    pub fn is_leaf(&self) -> (b: bool)
        ensures
            b == (self.model() is Leaf),
    {
        match self {
            Item::File(_) => true,
            Item::Directory(_, _) => false,
        }
    }

    /// The node's name: the full record name of a leaf, the segment label of
    /// a directory.
    pub fn name(&self) -> (n: &String)
        ensures
            self.model() is Leaf ==> n@ == self.model()->name,
            self.model() is Dir ==> n@ == self.model()->label,
    {
        match self {
            Item::File(name) => name,
            Item::Directory(label, _) => label,
        }
    }

    /// A directory's children, in first-seen order; a leaf has none.
    pub fn children(&self) -> (c: &[Item])
        ensures
            self.model() is Dir ==> {
                &&& c@.len() == self.model()->children.len()
                &&& forall|k: int|
                    0 <= k < c@.len() ==> c@[k].model() == self.model()->children[k]
            },
            self.model() is Leaf ==> c@.len() == 0,
    {
        match self {
            Item::File(_) => &[],
            Item::Directory(_, children) => {
                proof {
                    lemma_models_of(children@);
                }
                children.as_slice()
            },
        }
    }
}

} // verus!
