//! The namespace tree: flat variable names with dots become nested groups.
//!
//! A name such as `author.name` is a path of two segments. Building the tree
//! walks each path, creates the groups on the way and puts the value at its
//! end unless one is there already. A path that is a value for one name and a
//! group for another is a conflict.

use vstd::prelude::*;
use vstd::string::*;
use crate::error::Error;
use crate::error::ErrorView;
use crate::text::flat_model;
use crate::text::join;
use crate::text::same;

verus! {

/// A nested value: a text, or a group of named values. Where a group holds a
/// name twice, the later entry is the one that counts.
#[derive(Debug)]
pub enum TreeValue {
    Leaf(String),
    Node(Vec<(String, TreeValue)>),
}

/// The mathematical value of a [`TreeValue`]: a group is a map from names to
/// values.
pub enum TreeModel {
    Leaf(Seq<char>),
    Node(Map<Seq<char>, TreeModel>),
}

/// The map that the first `n` entries of a group stand for.
pub open spec fn entries_model(entries: Seq<(String, TreeValue)>, n: nat) -> Map<
    Seq<char>,
    TreeModel,
>
    decreases entries, n,
{
    if n == 0 || n > entries.len() {
        Map::empty()
    } else {
        entries_model(entries, (n - 1) as nat).insert(
            entries[n - 1].0@,
            tree_model(entries[n - 1].1),
        )
    }
}

/// The value of a tree.
pub open spec fn tree_model(tree: TreeValue) -> TreeModel
    decreases tree,
{
    match tree {
        TreeValue::Leaf(s) => TreeModel::Leaf(s@),
        TreeValue::Node(entries) => TreeModel::Node(entries_model(entries@, entries@.len())),
    }
}

impl View for TreeValue {
    type V = TreeModel;

    open spec fn view(&self) -> TreeModel {
        tree_model(*self)
    }
}

/// The segments of a dotted name: a dot ends one segment and starts the next,
/// every other character belongs to the segment it stands in. A name without
/// a dot is one segment; segments may be empty.
pub open spec fn split_dots(name: Seq<char>) -> Seq<Seq<char>>
    decreases name.len(),
{
    if name.len() == 0 {
        seq![Seq::<char>::empty()]
    } else {
        let before = split_dots(name.drop_last());
        if name.last() == '.' {
            before.push(Seq::<char>::empty())
        } else {
            before.update(before.len() - 1, before.last().push(name.last()))
        }
    }
}

/// Splitting a name gives at least one segment, no segment holds a dot, and
/// joining the segments with dots gives the name back.
pub proof fn lemma_split_dots(name: Seq<char>)
    ensures
        split_dots(name).len() >= 1,
        forall|i: int, j: int|
            0 <= i < split_dots(name).len() && 0 <= j < split_dots(name)[i].len()
                ==> split_dots(name)[i][j] != '.',
        join(split_dots(name), seq!['.']) == name,
    decreases name.len(),
{
    let dot = seq!['.'];
    if name.len() == 0 {
        assert(join(split_dots(name), dot) =~= name);
    } else {
        let before = split_dots(name.drop_last());
        lemma_split_dots(name.drop_last());
        let last = before.len() - 1;
        if name.last() == '.' {
            let after = before.push(Seq::<char>::empty());
            assert(after.drop_last() =~= before);
            assert(join(after, dot) =~= name.drop_last() + dot);
            assert(name.drop_last() + dot =~= name);
        } else {
            let after = before.update(last, before.last().push(name.last()));
            if before.len() == 1 {
                assert(join(before, dot) == before[0]);
                assert(join(after, dot) =~= name.drop_last().push(name.last()));
            } else {
                assert(after.drop_last() =~= before.drop_last());
                assert(join(after, dot) =~= (join(before.drop_last(), dot) + dot
                    + before.last()).push(name.last()));
            }
            assert(name.drop_last().push(name.last()) =~= name);
        }
    }
}

/// The segments of a dotted name, in order.
pub fn split_path(name: &str) -> (segments: Vec<String>)
    ensures
        segments.deep_view() == split_dots(name@),
{
    let n = name.unicode_len();
    let mut segments: Vec<String> = Vec::new();
    let mut start: usize = 0;
    let mut i: usize = 0;
    assert(name@.take(0) =~= Seq::<char>::empty());
    assert(segments.deep_view().push(name@.subrange(0, 0)) =~= seq![Seq::<char>::empty()]);
    while i < n
        invariant
            n == name@.len(),
            start <= i <= n,
            split_dots(name@.take(i as int)) == segments.deep_view().push(
                name@.subrange(start as int, i as int),
            ),
        decreases n - i,
    {
        let c = name.get_char(i);
        proof {
            let upto = name@.take(i + 1);
            assert(upto.drop_last() =~= name@.take(i as int));
            assert(upto.last() == c);
        }
        if c == '.' {
            let ghost done = segments.deep_view();
            let ghost from = start as int;
            segments.push(name.substring_char(start, i).to_owned());
            start = i + 1;
            proof {
                assert(segments.deep_view() =~= done.push(name@.subrange(from, i as int)));
                assert(name@.subrange(start as int, i + 1) =~= Seq::<char>::empty());
            }
        } else {
            proof {
                let before = split_dots(name@.take(i as int));
                assert(before.last() == name@.subrange(start as int, i as int));
                assert(name@.subrange(start as int, i as int).push(c) =~= name@.subrange(
                    start as int,
                    i + 1,
                ));
                assert(before.update(before.len() - 1, before.last().push(c))
                    =~= segments.deep_view().push(name@.subrange(start as int, i + 1)));
            }
        }
        i += 1;
    }
    assert(name@.take(n as int) =~= name@);
    let ghost done = segments.deep_view();
    segments.push(name.substring_char(start, n).to_owned());
    assert(segments.deep_view() =~= done.push(name@.subrange(start as int, n as int)));
    segments
}

/// The value that a group holds under a name; a text holds none.
pub open spec fn child_model(tree: TreeModel, name: Seq<char>) -> Option<TreeModel> {
    match tree {
        TreeModel::Node(m) => if m.contains_key(name) {
            Some(m[name])
        } else {
            None
        },
        TreeModel::Leaf(_) => None,
    }
}

/// The value found by following a path of names from a tree.
pub open spec fn lookup_model(tree: TreeModel, path: Seq<Seq<char>>) -> Option<TreeModel>
    decreases path.len(),
{
    if path.len() == 0 {
        Some(tree)
    } else {
        match child_model(tree, path[0]) {
            Some(child) => lookup_model(child, path.skip(1)),
            None => None,
        }
    }
}

/// The tree after a value was put at a path, or `None` where the path
/// conflicts with the tree.
///
/// Groups on the way are created where they are missing. At the end of the
/// path the value is put only if nothing is there: a text that is there stays
/// as it is. It is a conflict to walk through a text, or to end at a group.
pub open spec fn insert_model(tree: TreeModel, path: Seq<Seq<char>>, value: Seq<char>) -> Option<
    TreeModel,
>
    decreases path.len(),
{
    if path.len() == 0 {
        None
    } else {
        match tree {
            TreeModel::Leaf(_) => None,
            TreeModel::Node(m) => {
                let name = path[0];
                if path.len() == 1 {
                    if m.contains_key(name) {
                        match m[name] {
                            TreeModel::Leaf(_) => Some(tree),
                            TreeModel::Node(_) => None,
                        }
                    } else {
                        Some(TreeModel::Node(m.insert(name, TreeModel::Leaf(value))))
                    }
                } else {
                    let child = if m.contains_key(name) {
                        m[name]
                    } else {
                        TreeModel::Node(Map::empty())
                    };
                    match insert_model(child, path.skip(1), value) {
                        Some(grown) => Some(TreeModel::Node(m.insert(name, grown))),
                        None => None,
                    }
                }
            },
        }
    }
}

/// The tree built from pairs of a dotted name and a value, taken in order, or
/// the first name whose path conflicts with what the pairs before it built.
pub open spec fn build_model(flat: Seq<(Seq<char>, Seq<char>)>) -> Result<TreeModel, Seq<char>>
    decreases flat.len(),
{
    if flat.len() == 0 {
        Ok(TreeModel::Node(Map::empty()))
    } else {
        match build_model(flat.drop_last()) {
            Err(name) => Err(name),
            Ok(tree) => match insert_model(tree, split_dots(flat.last().0), flat.last().1) {
                Some(grown) => Ok(grown),
                None => Err(flat.last().0),
            },
        }
    }
}

/// The value of an optional tree.
pub open spec fn optional_model(tree: Option<TreeValue>) -> Option<TreeModel> {
    match tree {
        Some(t) => Some(t@),
        None => None,
    }
}

/// The value of an optional reference to a tree.
pub open spec fn optional_ref_model(tree: Option<&TreeValue>) -> Option<TreeModel> {
    match tree {
        Some(t) => Some(t@),
        None => None,
    }
}

/// The map of the first `n` entries depends on those entries alone, and only
/// on their names and values.
proof fn lemma_entries_agree(
    a: Seq<(String, TreeValue)>,
    b: Seq<(String, TreeValue)>,
    n: nat,
)
    requires
        n <= a.len(),
        n <= b.len(),
        forall|j: int| 0 <= j < n ==> a[j].0@ == b[j].0@ && a[j].1@ == b[j].1@,
    ensures
        entries_model(a, n) == entries_model(b, n),
    decreases n,
{
    if n > 0 {
        lemma_entries_agree(a, b, (n - 1) as nat);
    }
}

/// Where no entry among the first `n` has the name, their map has it not.
proof fn lemma_entries_absent(entries: Seq<(String, TreeValue)>, n: nat, name: Seq<char>)
    requires
        n <= entries.len(),
        forall|j: int| 0 <= j < n ==> entries[j].0@ != name,
    ensures
        !entries_model(entries, n).contains_key(name),
    decreases n,
{
    if n > 0 {
        lemma_entries_absent(entries, (n - 1) as nat, name);
    }
}

/// The map of the first `n` entries holds, under a name, the value of the
/// last of them with that name.
proof fn lemma_entries_last(entries: Seq<(String, TreeValue)>, n: nat, name: Seq<char>, j: int)
    requires
        n <= entries.len(),
        0 <= j < n,
        entries[j].0@ == name,
        forall|k: int| j < k < n ==> entries[k].0@ != name,
    ensures
        entries_model(entries, n).contains_key(name),
        entries_model(entries, n)[name] == entries[j].1@,
    decreases n,
{
    if j < n - 1 {
        lemma_entries_last(entries, (n - 1) as nat, name, j);
    }
}

/// Replacing the value of the last entry with a name puts the new value
/// under that name in the map.
proof fn lemma_entries_replace(
    before: Seq<(String, TreeValue)>,
    after: Seq<(String, TreeValue)>,
    i: int,
    n: nat,
)
    requires
        0 <= i < before.len(),
        before.len() == after.len(),
        i < n <= before.len(),
        after[i].0@ == before[i].0@,
        forall|j: int| 0 <= j < before.len() && j != i ==> after[j] == before[j],
        forall|j: int| i < j < before.len() ==> before[j].0@ != before[i].0@,
    ensures
        entries_model(after, n) == entries_model(before, n).insert(before[i].0@, after[i].1@),
    decreases n,
{
    let name = before[i].0@;
    if n == i + 1 {
        lemma_entries_agree(before, after, i as nat);
        assert(entries_model(after, n) =~= entries_model(before, n).insert(name, after[i].1@));
    } else {
        lemma_entries_replace(before, after, i, (n - 1) as nat);
        assert(entries_model(after, n) =~= entries_model(before, n).insert(name, after[i].1@));
    }
}

/// The index of the last entry with the name.
fn find(entries: &Vec<(String, TreeValue)>, name: &str) -> (r: Option<usize>)
    ensures
        match r {
            Some(i) => i < entries.len() && entries[i as int].0@ == name@ && forall|j: int|
                i < j < entries.len() ==> entries[j].0@ != name@,
            None => forall|j: int| 0 <= j < entries.len() ==> entries[j].0@ != name@,
        },
{
    let mut i: usize = entries.len();
    while i > 0
        invariant
            i <= entries.len(),
            forall|j: int| i <= j < entries.len() ==> entries[j].0@ != name@,
        decreases i,
    {
        i -= 1;
        if same(entries[i].0.as_str(), name) {
            return Some(i);
        }
    }
    None
}

impl TreeValue {
    /// A group without entries.
    pub fn new() -> (tree: TreeValue)
        ensures
            tree@ == TreeModel::Node(Map::empty()),
    {
        TreeValue::Node(Vec::new())
    }

    /// The value that this group holds under the name; `None` where it holds
    /// none or this is a text.
    pub fn get(&self, name: &str) -> (child: Option<&TreeValue>)
        ensures
            optional_ref_model(child) == child_model(self@, name@),
    {
        match self {
            TreeValue::Leaf(_) => None,
            TreeValue::Node(entries) => {
                match find(entries, name) {
                    Some(i) => {
                        proof {
                            lemma_entries_last(entries@, entries@.len(), name@, i as int);
                        }
                        Some(&entries[i].1)
                    },
                    None => {
                        proof {
                            lemma_entries_absent(entries@, entries@.len(), name@);
                        }
                        None
                    },
                }
            },
        }
    }

    /// The value at the end of the path, followed from this tree.
    pub fn lookup(&self, path: &Vec<String>) -> (found: Option<&TreeValue>)
        ensures
            optional_ref_model(found) == lookup_model(self@, path.deep_view()),
    {
        let mut current: &TreeValue = self;
        let mut depth: usize = 0;
        assert(path.deep_view().skip(0) =~= path.deep_view());
        while depth < path.len()
            invariant
                depth <= path.len(),
                lookup_model(self@, path.deep_view()) == lookup_model(
                    current@,
                    path.deep_view().skip(depth as int),
                ),
            decreases path.len() - depth,
        {
            proof {
                let rest = path.deep_view().skip(depth as int);
                assert(rest[0] == path[depth as int]@);
                assert(rest.skip(1) =~= path.deep_view().skip(depth + 1));
            }
            match current.get(path[depth].as_str()) {
                Some(child) => {
                    current = child;
                },
                None => {
                    return None;
                },
            }
            depth += 1;
        }
        Some(current)
    }

    /// The text of this value; `None` for a group.
    pub fn text(&self) -> (text: Option<&String>)
        ensures
            match self@ {
                TreeModel::Leaf(s) => text is Some && text.unwrap()@ == s,
                TreeModel::Node(_) => text is None,
            },
    {
        match self {
            TreeValue::Leaf(s) => Some(s),
            TreeValue::Node(_) => None,
        }
    }

    /// Puts `value` at the path that starts at `path[depth]`, unless a text is
    /// there already. `None` where the path conflicts with the tree.
    fn insert_from(self, path: &Vec<String>, depth: usize, value: &str) -> (grown: Option<
        TreeValue,
    >)
        requires
            depth < path.len(),
        ensures
            optional_model(grown) == insert_model(
                self@,
                path.deep_view().skip(depth as int),
                value@,
            ),
        decreases path.len() - depth,
    {
        let ghost rest = path.deep_view().skip(depth as int);
        proof {
            assert(rest[0] == path[depth as int]@);
            assert(rest.skip(1) =~= path.deep_view().skip(depth + 1));
            assert(rest.len() == path.len() - depth);
        }
        match self {
            TreeValue::Leaf(_) => None,
            TreeValue::Node(entries) => {
                let mut entries = entries;
                let ghost before = entries@;
                let ghost map = entries_model(before, before.len());
                let name = &path[depth];
                let found = find(&entries, name.as_str());
                proof {
                    match found {
                        Some(i) => lemma_entries_last(before, before.len(), name@, i as int),
                        None => lemma_entries_absent(before, before.len(), name@),
                    }
                }
                if depth + 1 == path.len() {
                    match found {
                        Some(i) => match &entries[i].1 {
                            TreeValue::Leaf(_) => Some(TreeValue::Node(entries)),
                            TreeValue::Node(_) => None,
                        },
                        None => {
                            let leaf = TreeValue::Leaf(value.to_owned());
                            assert(leaf@ == TreeModel::Leaf(value@));
                            entries.push((name.clone(), leaf));
                            proof {
                                lemma_entries_agree(before, entries@, before.len());
                                assert(entries_model(entries@, entries@.len()) == map.insert(
                                    name@,
                                    TreeModel::Leaf(value@),
                                ));
                            }
                            Some(TreeValue::Node(entries))
                        },
                    }
                } else {
                    match found {
                        Some(i) => {
                            let (key, child) = entries.remove(i);
                            assert(child@ == map[name@]);
                            match child.insert_from(path, depth + 1, value) {
                                Some(grown) => {
                                    entries.insert(i, (key, grown));
                                    proof {
                                        lemma_entries_replace(
                                            before,
                                            entries@,
                                            i as int,
                                            before.len(),
                                        );
                                    }
                                    Some(TreeValue::Node(entries))
                                },
                                None => None,
                            }
                        },
                        None => match TreeValue::new().insert_from(path, depth + 1, value) {
                            Some(grown) => {
                                entries.push((name.clone(), grown));
                                proof {
                                    lemma_entries_agree(before, entries@, before.len());
                                    assert(entries_model(entries@, entries@.len()) == map.insert(
                                        name@,
                                        grown@,
                                    ));
                                }
                                Some(TreeValue::Node(entries))
                            },
                            None => None,
                        },
                    }
                }
            },
        }
    }

    /// Puts `value` under the dotted `name`, unless a text is there already.
    /// `None` where the name's path conflicts with the tree.
    pub fn insert(self, name: &str, value: &str) -> (grown: Option<TreeValue>)
        ensures
            optional_model(grown) == insert_model(self@, split_dots(name@), value@),
    {
        let path = split_path(name);
        proof {
            lemma_split_dots(name@);
            assert(path.deep_view().skip(0) =~= path.deep_view());
        }
        self.insert_from(&path, 0, value)
    }
}

/// The value of what [`build`] returns.
pub open spec fn built(r: Result<TreeValue, Error>) -> Result<TreeModel, Seq<char>> {
    match r {
        Ok(tree) => Ok(tree@),
        Err(Error::ConflictingNamespace(name)) => Err(name@),
        Err(_) => Err(Seq::<char>::empty()),
    }
}

/// Builds the namespace tree of a flat map, given as pairs of a dotted name
/// and a value. The pairs are taken in order, and the first value put at a
/// path stays. Fails with the first name whose path is a text for one pair
/// and a group for another.
pub fn build(flat: &Vec<(String, String)>) -> (r: Result<TreeValue, Error>)
    ensures
        r is Err ==> r.unwrap_err() is ConflictingNamespace,
        built(r) == build_model(flat_model(flat@)),
{
    let mut tree = TreeValue::new();
    let mut i: usize = 0;
    assert(flat_model(flat@).take(0) =~= Seq::<(Seq<char>, Seq<char>)>::empty());
    while i < flat.len()
        invariant
            i <= flat.len(),
            build_model(flat_model(flat@).take(i as int)) == Ok::<TreeModel, Seq<char>>(tree@),
        decreases flat.len() - i,
    {
        proof {
            let upto = flat_model(flat@).take(i + 1);
            assert(upto.drop_last() =~= flat_model(flat@).take(i as int));
            assert(upto.last() == (flat[i as int].0@, flat[i as int].1@));
        }
        match tree.insert(flat[i].0.as_str(), flat[i].1.as_str()) {
            Some(grown) => {
                tree = grown;
            },
            None => {
                proof {
                    lemma_build_conflict_stays(flat_model(flat@), i + 1);
                }
                return Err(Error::ConflictingNamespace(flat[i].0.clone()));
            },
        }
        i += 1;
    }
    assert(flat_model(flat@).take(i as int) =~= flat_model(flat@));
    Ok(tree)
}

/// Once the first `n` pairs conflict, so do all the pairs, on the same name.
proof fn lemma_build_conflict_stays(flat: Seq<(Seq<char>, Seq<char>)>, n: int)
    requires
        0 <= n <= flat.len(),
        build_model(flat.take(n)) is Err,
    ensures
        build_model(flat) == build_model(flat.take(n)),
    decreases flat.len(),
{
    if n == flat.len() {
        assert(flat.take(n) =~= flat);
    } else {
        assert(flat.drop_last().take(n) =~= flat.take(n));
        lemma_build_conflict_stays(flat.drop_last(), n);
    }
}

/// The first value put at a path stays: where a text is found at the path,
/// putting another value there leaves the tree as it is.
pub proof fn lemma_first_write_wins(tree: TreeModel, path: Seq<Seq<char>>, value: Seq<char>)
    requires
        path.len() > 0,
        lookup_model(tree, path) is Some,
        lookup_model(tree, path).unwrap() is Leaf,
    ensures
        insert_model(tree, path, value) == Some(tree),
    decreases path.len(),
{
    let m = tree->Node_0;
    let name = path[0];
    if path.len() == 1 {
        assert(path.skip(1).len() == 0);
    } else {
        lemma_first_write_wins(m[name], path.skip(1), value);
        assert(m.insert(name, m[name]) =~= m);
    }
}

/// After a value was put at a path, a text is found there: the text that was
/// there before, or else the value.
pub proof fn lemma_insert_then_lookup(tree: TreeModel, path: Seq<Seq<char>>, value: Seq<char>)
    requires
        insert_model(tree, path, value) is Some,
    ensures
        lookup_model(insert_model(tree, path, value).unwrap(), path) == Some(
            if lookup_model(tree, path) is Some {
                lookup_model(tree, path).unwrap()
            } else {
                TreeModel::Leaf(value)
            },
        ),
        lookup_model(insert_model(tree, path, value).unwrap(), path).unwrap() is Leaf,
    decreases path.len(),
{
    let m = tree->Node_0;
    let name = path[0];
    let grown = insert_model(tree, path, value).unwrap();
    let rest = path.skip(1);
    if path.len() == 1 {
        assert(rest.len() == 0);
        if m.contains_key(name) {
            assert(lookup_model(m[name], rest) == Some(m[name]));
        } else {
            let leaf = TreeModel::Leaf(value);
            assert(child_model(grown, name) == Some(leaf));
            assert(lookup_model(leaf, rest) == Some(leaf));
        }
    } else {
        let child = if m.contains_key(name) {
            m[name]
        } else {
            TreeModel::Node(Map::empty())
        };
        lemma_insert_then_lookup(child, rest, value);
        let below = insert_model(child, rest, value).unwrap();
        assert(child_model(grown, name) == Some(below));
        if !m.contains_key(name) {
            lemma_lookup_in_empty(rest);
        }
    }
}

/// Nothing is found in a group without entries, on any path with a name.
pub proof fn lemma_lookup_in_empty(path: Seq<Seq<char>>)
    requires
        path.len() > 0,
    ensures
        lookup_model(TreeModel::Node(Map::empty()), path) is None,
{
}

/// Putting a value at one path changes no text found at another path.
pub proof fn lemma_insert_keeps_texts(
    tree: TreeModel,
    path: Seq<Seq<char>>,
    value: Seq<char>,
    other: Seq<Seq<char>>,
)
    requires
        insert_model(tree, path, value) is Some,
        lookup_model(tree, other) is Some,
        lookup_model(tree, other).unwrap() is Leaf,
    ensures
        lookup_model(insert_model(tree, path, value).unwrap(), other) == lookup_model(tree, other),
    decreases path.len(),
{
    let m = tree->Node_0;
    let name = path[0];
    if other.len() > 0 && other[0] == name {
        if path.len() == 1 {
        } else {
            lemma_insert_keeps_texts(m[name], path.skip(1), value, other.skip(1));
        }
    }
}

/// Two names with the same segments are the same name.
pub proof fn lemma_split_injective(a: Seq<char>, b: Seq<char>)
    requires
        split_dots(a) == split_dots(b),
    ensures
        a == b,
{
    lemma_split_dots(a);
    lemma_split_dots(b);
}

/// A text that is found after a value was put at a path was there before, or
/// is the value at that path.
pub proof fn lemma_insert_adds_one_text(
    tree: TreeModel,
    path: Seq<Seq<char>>,
    value: Seq<char>,
    other: Seq<Seq<char>>,
)
    requires
        insert_model(tree, path, value) is Some,
        lookup_model(insert_model(tree, path, value).unwrap(), other) is Some,
        lookup_model(insert_model(tree, path, value).unwrap(), other).unwrap() is Leaf,
    ensures
        lookup_model(tree, other) == lookup_model(insert_model(tree, path, value).unwrap(), other)
            || (other == path && lookup_model(
            insert_model(tree, path, value).unwrap(),
            other,
        ) == Some(TreeModel::Leaf(value))),
    decreases path.len(),
{
    let m = tree->Node_0;
    let name = path[0];
    let grown = insert_model(tree, path, value).unwrap();
    if other.len() > 0 && other[0] == name {
        let rest = other.skip(1);
        if path.len() == 1 {
            if !m.contains_key(name) {
                let leaf = TreeModel::Leaf(value);
                assert(child_model(grown, name) == Some(leaf));
                assert(lookup_model(grown, other) == lookup_model(leaf, rest));
                if rest.len() > 0 {
                    assert(lookup_model(leaf, rest) is None);
                }
                assert(other =~= path);
            }
        } else {
            let child = if m.contains_key(name) {
                m[name]
            } else {
                TreeModel::Node(Map::empty())
            };
            let below = insert_model(child, path.skip(1), value).unwrap();
            assert(child_model(grown, name) == Some(below));
            lemma_insert_adds_one_text(child, path.skip(1), value, rest);
            if rest == path.skip(1) {
                assert(other.len() == path.len());
                assert forall|i: int| 0 <= i < other.len() implies other[i] == path[i] by {
                    if i > 0 {
                        assert(other[i] == rest[i - 1]);
                        assert(path[i] == path.skip(1)[i - 1]);
                    }
                }
                assert(other =~= path);
            }
            if !m.contains_key(name) && rest.len() > 0 {
                lemma_lookup_in_empty(rest);
            }
        }
    }
}

/// Whether the pair at `i` is the first of the pairs with its name.
pub open spec fn is_first(flat: Seq<(Seq<char>, Seq<char>)>, i: int) -> bool {
    0 <= i < flat.len() && forall|k: int| 0 <= k < i ==> flat[k].0 != flat[i].0
}

/// The place of the first pair with the name of the pair at `k`.
proof fn lemma_first_of(flat: Seq<(Seq<char>, Seq<char>)>, k: int) -> (first: int)
    requires
        0 <= k < flat.len(),
    ensures
        0 <= first <= k,
        flat[first].0 == flat[k].0,
        is_first(flat, first),
    decreases k,
{
    if exists|j: int| 0 <= j < k && flat[j].0 == flat[k].0 {
        let j = choose|j: int| 0 <= j < k && flat[j].0 == flat[k].0;
        lemma_first_of(flat, j)
    } else {
        k
    }
}

/// In the tree built from pairs without a conflict, the value of the first
/// pair with a name is found at the path of the name.
pub proof fn lemma_build_lookup(flat: Seq<(Seq<char>, Seq<char>)>, i: int)
    requires
        build_model(flat) is Ok,
        is_first(flat, i),
    ensures
        lookup_model(build_model(flat)->Ok_0, split_dots(flat[i].0)) == Some(
            TreeModel::Leaf(flat[i].1),
        ),
    decreases flat.len(), 0nat,
{
    let front = flat.drop_last();
    let before = build_model(front)->Ok_0;
    let last = flat.last();
    let path = split_dots(last.0);
    if i < flat.len() - 1 {
        assert(is_first(front, i));
        lemma_build_lookup(front, i);
        lemma_insert_keeps_texts(before, path, last.1, split_dots(flat[i].0));
    } else {
        lemma_insert_then_lookup(before, path, last.1);
        if lookup_model(before, path) is Some {
            let j = lemma_build_origin(front, path);
            lemma_split_injective(front[j].0, last.0);
            assert(flat[j].0 == flat[i].0);
        }
    }
}

/// In the tree built from pairs without a conflict, every text is the value
/// of the first pair with some name, found at the path of that name.
pub proof fn lemma_build_origin(flat: Seq<(Seq<char>, Seq<char>)>, path: Seq<Seq<char>>) -> (j: int)
    requires
        build_model(flat) is Ok,
        lookup_model(build_model(flat)->Ok_0, path) is Some,
        lookup_model(build_model(flat)->Ok_0, path).unwrap() is Leaf,
    ensures
        is_first(flat, j),
        split_dots(flat[j].0) == path,
        lookup_model(build_model(flat)->Ok_0, path) == Some(TreeModel::Leaf(flat[j].1)),
    decreases flat.len(), 1nat,
{
    if flat.len() == 0 {
        if path.len() > 0 {
            lemma_lookup_in_empty(path);
        }
        0
    } else {
        let front = flat.drop_last();
        let before = build_model(front)->Ok_0;
        let last = flat.last();
        let tree = build_model(flat)->Ok_0;
        lemma_insert_adds_one_text(before, split_dots(last.0), last.1, path);
        if lookup_model(before, path) == lookup_model(tree, path) {
            let j = lemma_build_origin(front, path);
            assert(forall|k: int| 0 <= k <= j ==> flat[k] == front[k]);
            assert(is_first(flat, j));
            j
        } else {
            let n = flat.len() - 1;
            assert forall|k: int| 0 <= k < n implies flat[k].0 != flat[n].0 by {
                if flat[k].0 == flat[n].0 {
                    let first = lemma_first_of(front, k);
                    lemma_build_lookup(front, first);
                    lemma_first_write_wins(before, split_dots(last.0), last.1);
                }
            }
            n
        }
    }
}

/// Whether the path walks through a text of the tree: a text is found at a
/// proper beginning of the path.
pub open spec fn walks_through_text(tree: TreeModel, path: Seq<Seq<char>>) -> bool {
    exists|n: int|
        0 < n < path.len() && #[trigger] lookup_model(tree, path.take(n)) is Some && lookup_model(
            tree,
            path.take(n),
        ).unwrap() is Leaf
}

/// Whether the path ends at a group of the tree.
pub open spec fn ends_at_group(tree: TreeModel, path: Seq<Seq<char>>) -> bool {
    lookup_model(tree, path) is Some && lookup_model(tree, path).unwrap() is Node
}

/// Putting a value at a path of a group conflicts exactly if the path walks
/// through a text or ends at a group.
pub proof fn lemma_insert_conflict(tree: TreeModel, path: Seq<Seq<char>>, value: Seq<char>)
    requires
        tree is Node,
        path.len() > 0,
    ensures
        insert_model(tree, path, value) is None <==> walks_through_text(tree, path)
            || ends_at_group(tree, path),
    decreases path.len(),
{
    let m = tree->Node_0;
    let name = path[0];
    let rest = path.skip(1);
    if path.len() == 1 {
        assert(rest.len() == 0);
        if m.contains_key(name) {
            assert(lookup_model(m[name], rest) == Some(m[name]));
        }
    } else {
        let child = if m.contains_key(name) {
            m[name]
        } else {
            TreeModel::Node(Map::empty())
        };
        assert forall|n: int| 0 < n <= path.len() implies lookup_model(tree, path.take(n)) == (
        if m.contains_key(name) {
            lookup_model(child, rest.take(n - 1))
        } else {
            None
        }) by {
            assert(path.take(n)[0] == name);
            assert(path.take(n).skip(1) =~= rest.take(n - 1));
        }
        assert(path.take(path.len() as int) =~= path);
        assert(rest.take(rest.len() as int) =~= rest);
        assert(rest.take(0).len() == 0);
        if child is Leaf {
            assert(lookup_model(child, rest.take(0)) == Some(child));
            assert(lookup_model(tree, path.take(1)) == Some(child));
        } else {
            lemma_insert_conflict(child, rest, value);
            if !m.contains_key(name) {
                assert forall|n: int| 0 < n <= rest.len() implies lookup_model(
                    child,
                    rest.take(n),
                ) is None by {
                    lemma_lookup_in_empty(rest.take(n));
                }
                assert(!walks_through_text(child, rest));
                assert(!ends_at_group(child, rest));
            } else {
                if walks_through_text(child, rest) {
                    let n = choose|n: int|
                        0 < n < rest.len() && #[trigger] lookup_model(child, rest.take(n)) is Some
                            && lookup_model(child, rest.take(n)).unwrap() is Leaf;
                    assert(lookup_model(tree, path.take(n + 1)) == lookup_model(
                        child,
                        rest.take(n),
                    ));
                }
                if walks_through_text(tree, path) {
                    let n = choose|n: int|
                        0 < n < path.len() && #[trigger] lookup_model(tree, path.take(n)) is Some
                            && lookup_model(tree, path.take(n)).unwrap() is Leaf;
                    assert(lookup_model(tree, path.take(n)) == lookup_model(
                        child,
                        rest.take(n - 1),
                    ));
                    if n == 1 {
                        assert(lookup_model(child, rest.take(0)) == Some(child));
                    }
                }
            }
        }
    }
}

} // verus!
