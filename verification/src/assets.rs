//! The document that names the files and the fonts of a package, so that
//! other documents can refer to them: a record for each folder, a value for
//! each file, and a record for the fonts.

use crate::package::{Font, Package};
use crate::text::{
    from_chars, last_index_of, lemma_last_index_in_range, rsplit_once, str_equal, to_chars, trim,
    trimmed,
};
use vstd::prelude::*;
use vstd::string::*;

verus! {

/// The pieces of `s` between the separators `sep`; one piece more than
/// there are separators.
pub open spec fn split_at(s: Seq<char>, sep: char) -> Seq<Seq<char>>
    decreases s.len(),
{
    if s.len() == 0 {
        seq![Seq::empty()]
    } else if s.last() == sep {
        split_at(s.drop_last(), sep).push(Seq::empty())
    } else {
        let before = split_at(s.drop_last(), sep);
        before.drop_last().push(before.last().push(s.last()))
    }
}

/// The first `n` of `parts`, with a slash between one and the next.
pub open spec fn joined(parts: Seq<Seq<char>>, n: int) -> Seq<char>
    decreases n,
{
    if n <= 0 {
        Seq::empty()
    } else if n == 1 {
        parts[0]
    } else {
        joined(parts, n - 1) + "/"@ + parts[n - 1]
    }
}

/// `s` without the dots it starts with.
pub open spec fn without_leading_dots(s: Seq<char>) -> Seq<char>
    decreases s.len(),
{
    if s.len() > 0 && s[0] == '.' {
        without_leading_dots(s.skip(1))
    } else {
        s
    }
}

/// `c`, or a dash in place of a slash, a dot or an underscore.
pub open spec fn dashed(c: char) -> char {
    if c == '/' || c == '.' || c == '_' {
        '-'
    } else {
        c
    }
}

/// The key under which documents refer to the file or folder at `full_path`:
/// the path without leading dots and surrounding white space, with a dash
/// for every slash, dot and underscore.
pub open spec fn key_of(full_path: Seq<char>) -> Seq<char> {
    let path = trimmed(without_leading_dots(full_path));
    Seq::new(path.len(), |i: int| dashed(path[i]))
}

/// The name and the extension of a file: what stands before the last dot
/// and what stands after it. A file without a dot has no extension, and a
/// file with nothing before the dot goes by the name `DOT`.
pub open spec fn leaf_name(name: Seq<char>) -> (Seq<char>, Option<Seq<char>>) {
    match last_index_of(name, '.') {
        Some(i) => (
            if i == 0 {
                "DOT"@
            } else {
                name.take(i)
            },
            Some(name.skip(i + 1)),
        ),
        None => (name, None),
    }
}

/// The pieces of `s` between slashes.
pub fn split_path(s: &str) -> (parts: Vec<String>)
    ensures
        parts.deep_view() == split_at(s@, '/'),
{
    let chars = to_chars(s);
    let mut parts: Vec<String> = Vec::new();
    let mut current = String::new();
    let mut i: usize = 0;
    assert(chars@.take(0) =~= Seq::<char>::empty());
    assert(parts.deep_view().push(current@) =~= split_at(chars@.take(0), '/'));
    while i < chars.len()
        invariant
            i <= chars.len(),
            parts.deep_view().push(current@) == split_at(chars@.take(i as int), '/'),
        decreases chars.len() - i,
    {
        let ghost before = parts.deep_view();
        let ghost piece = current@;
        proof {
            assert(chars@.take(i + 1).drop_last() =~= chars@.take(i as int));
            assert(chars@.take(i + 1).last() == chars@[i as int]);
            assert(before.push(piece).drop_last() =~= before);
        }
        if chars[i] == '/' {
            parts.push(current);
            current = String::new();
            assert(parts.deep_view() =~= before.push(piece));
        } else {
            current.push(chars[i]);
        }
        i += 1;
    }
    assert(chars@.take(chars.len() as int) =~= chars@);
    let ghost before = parts.deep_view();
    parts.push(current);
    assert(parts.deep_view() =~= before.push(current@));
    parts
}

/// The first `n` of `parts`, or all of them where they are fewer, with a
/// slash between one and the next.
pub fn join_parts(parts: &Vec<String>, n: usize) -> (r: String)
    ensures
        r@ == joined(
            parts.deep_view(),
            if n <= parts.len() {
                n as int
            } else {
                parts.len() as int
            },
        ),
{
    let n = if n <= parts.len() {
        n
    } else {
        parts.len()
    };
    let mut r = String::new();
    let mut i: usize = 0;
    while i < n
        invariant
            i <= n <= parts.len(),
            r@ == joined(parts.deep_view(), i as int),
        decreases n - i,
    {
        if i > 0 {
            r.append("/");
        } else {
            assert(r@ + parts[0]@ =~= parts[0]@);
        }
        r.append(parts[i].as_str());
        i += 1;
    }
    r
}

/// The key under which documents refer to the file or folder at `full_path`.
pub fn full_path_to_key(full_path: &str) -> (key: String)
    ensures
        key@ == key_of(full_path@),
{
    let chars = to_chars(full_path);
    let mut from: usize = 0;
    assert(chars@.skip(0) =~= chars@);
    while from < chars.len() && chars[from] == '.'
        invariant
            from <= chars.len(),
            without_leading_dots(chars@) == without_leading_dots(chars@.skip(from as int)),
        decreases chars.len() - from,
    {
        assert(chars@.skip(from as int).skip(1) =~= chars@.skip(from + 1));
        from += 1;
    }
    let stripped = from_chars(&chars, from, chars.len());
    assert(stripped@ =~= chars@.skip(from as int));
    let path = to_chars(trim(stripped.as_str()).as_str());
    let mut key = String::new();
    let mut i: usize = 0;
    while i < path.len()
        invariant
            i <= path.len(),
            key@ == Seq::new(i as nat, |k: int| dashed(path@[k])),
        decreases path.len() - i,
    {
        let c = path[i];
        let d = if c == '/' || c == '.' || c == '_' {
            '-'
        } else {
            c
        };
        key.push(d);
        assert(key@ =~= Seq::new((i + 1) as nat, |k: int| dashed(path@[k])));
        i += 1;
    }
    assert(key@ =~= key_of(full_path@));
    key
}

/// The name and the extension of a file.
pub fn process_leaf_node(name: &str) -> (r: (String, Option<String>))
    ensures
        (r.0@, r.1.deep_view()) == leaf_name(name@),
{
    proof {
        lemma_last_index_in_range(name@, '.');
    }
    match rsplit_once(name, '.') {
        Some((before, ext)) => {
            if before.as_str().is_empty() {
                ("DOT".to_owned(), Some(ext))
            } else {
                (before, Some(ext))
            }
        },
        None => (name.to_owned(), None),
    }
}

/// A file or a folder of a package, with what lies in it.
#[derive(Debug)]
pub struct Dir {
    pub name: String,
    pub full_path: String,
    pub children: Vec<Dir>,
}

/// A file or a folder, as the contracts speak of it.
pub struct Tree {
    pub name: Seq<char>,
    pub full_path: Seq<char>,
    pub children: Seq<Tree>,
}

impl Dir {
    /// The file or folder, as the contracts speak of it.
    pub open spec fn tree(self) -> Tree
        decreases self,
    {
        Tree {
            name: self.name@,
            full_path: self.full_path@,
            children: Seq::new(
                self.children@.len(),
                |i: int|
                    if 0 <= i < self.children@.len() {
                        self.children@[i].tree()
                    } else {
                        arbitrary()
                    },
            ),
        }
    }
}

impl View for Dir {
    type V = Tree;

    open spec fn view(&self) -> Tree {
        self.tree()
    }
}

/// A file or a folder without anything in it.
pub open spec fn empty_tree(name: Seq<char>, full_path: Seq<char>) -> Tree {
    Tree { name, full_path, children: Seq::empty() }
}

/// The position of the first of `children` that is called `name`.
pub open spec fn child_named(children: Seq<Tree>, name: Seq<char>) -> Option<int>
    decreases children.len(),
{
    if children.len() == 0 {
        None
    } else {
        match child_named(children.drop_last(), name) {
            Some(i) => Some(i),
            None => if children.last().name == name {
                Some(children.len() - 1)
            } else {
                None
            },
        }
    }
}

/// The tree `t` with the path entered that the pieces `parts[depth..]` make
/// below it: each piece is a child of the piece before, taken where it is
/// there and added after its siblings where it is not.
pub open spec fn with_path(t: Tree, parts: Seq<Seq<char>>, depth: int) -> Tree
    decreases parts.len() - depth,
{
    if depth < 0 || depth >= parts.len() {
        t
    } else {
        match child_named(t.children, parts[depth]) {
            Some(i) => Tree {
                children: t.children.update(i, with_path(t.children[i], parts, depth + 1)),
                ..t
            },
            None => Tree {
                children: t.children.push(
                    with_path(
                        empty_tree(parts[depth], joined(parts, depth + 1)),
                        parts,
                        depth + 1,
                    ),
                ),
                ..t
            },
        }
    }
}

/// The tree of the first `n` files of a package, below a root; the package
/// file itself is left out.
pub open spec fn tree_of(ids: Seq<Seq<char>>, n: int) -> Tree
    decreases n,
{
    if n <= 0 {
        empty_tree("root"@, "root"@)
    } else if ids[n - 1] == "FPM.ftd"@ {
        tree_of(ids, n - 1)
    } else {
        with_path(tree_of(ids, n - 1), split_at(ids[n - 1], '/'), 0)
    }
}

impl Dir {
    /// A file or folder without anything in it.
    pub fn new(name: &str, full_path: &str) -> (d: Dir)
        ensures
            d@ == empty_tree(name@, full_path@),
    {
        let d = Dir { name: name.to_owned(), full_path: full_path.to_owned(), children: Vec::new() };
        assert(d@.children =~= Seq::<Tree>::empty());
        d
    }

    /// Whether nothing lies in it.
    pub fn is_leaf(&self) -> (b: bool)
        ensures
            b == (self@.children.len() == 0),
    {
        self.children.len() == 0
    }

    /// The key under which documents refer to it.
    pub fn full_path_to_key(&self) -> (key: String)
        ensures
            key@ == key_of(self@.full_path),
    {
        full_path_to_key(self.full_path.as_str())
    }

    /// The position of the first child that is called `name`.
    pub fn find_child(&self, name: &str) -> (r: Option<usize>)
        ensures
            match r {
                Some(i) => child_named(self@.children, name@) == Some(i as int) && i
                    < self.children.len(),
                None => child_named(self@.children, name@) is None,
            },
    {
        let ghost children = self@.children;
        let mut i: usize = 0;
        assert(children.take(0) =~= Seq::<Tree>::empty());
        while i < self.children.len()
            invariant
                i <= self.children.len(),
                children == self@.children,
                children.len() == self.children.len(),
                child_named(children.take(i as int), name@) is None,
            decreases self.children.len() - i,
        {
            assert(children.take(i + 1).drop_last() =~= children.take(i as int));
            assert(children.take(i + 1).last() == self.children@[i as int]@);
            if str_equal(self.children[i].name.as_str(), name) {
                proof {
                    lemma_child_named_prefix(children, name@, i + 1);
                }
                return Some(i);
            }
            i += 1;
        }
        assert(children.take(i as int) =~= children);
        None
    }
}

/// A child that is found among the first siblings is found among all.
proof fn lemma_child_named_prefix(children: Seq<Tree>, name: Seq<char>, n: int)
    requires
        0 <= n <= children.len(),
        child_named(children.take(n), name) is Some,
    ensures
        child_named(children, name) == child_named(children.take(n), name),
    decreases children.len() - n,
{
    if n == children.len() {
        assert(children.take(n) =~= children);
    } else {
        assert(children.take(n + 1).drop_last() =~= children.take(n));
        lemma_child_named_prefix(children, name, n + 1);
    }
}

/// Enters the path that the pieces `parts[depth..]` make below `node`.
pub fn build_tree(node: Dir, parts: &Vec<String>, depth: usize) -> (r: Dir)
    ensures
        r@ == with_path(node@, parts.deep_view(), depth as int),
    decreases parts.len() - depth,
{
    if depth >= parts.len() {
        return node;
    }
    let mut node = node;
    let ghost before = node@;
    let ghost pieces = parts.deep_view();
    let item = &parts[depth];
    assert(pieces[depth as int] == item@);
    match node.find_child(item.as_str()) {
        Some(i) => {
            let child = node.children.remove(i);
            let built = build_tree(child, parts, depth + 1);
            node.children.insert(i, built);
            assert(node@.children =~= before.children.update(
                i as int,
                with_path(before.children[i as int], pieces, depth + 1),
            ));
        },
        None => {
            let full_path = join_parts(parts, depth + 1);
            let d = Dir::new(item.as_str(), full_path.as_str());
            let built = build_tree(d, parts, depth + 1);
            node.children.push(built);
            assert(node@.children =~= before.children.push(
                with_path(
                    empty_tree(pieces[depth as int], joined(pieces, depth + 1)),
                    pieces,
                    depth + 1,
                ),
            ));
        },
    }
    node
}

/// The tree of the files of a package, below a root; the package file
/// itself is left out.
pub fn tree_of_files(ids: &Vec<String>) -> (top: Dir)
    ensures
        top@ == tree_of(ids.deep_view(), ids.len() as int),
{
    let mut top = Dir::new("root", "root");
    let mut i: usize = 0;
    while i < ids.len()
        invariant
            i <= ids.len(),
            top@ == tree_of(ids.deep_view(), i as int),
        decreases ids.len() - i,
    {
        if !str_equal(ids[i].as_str(), "FPM.ftd") {
            let parts = split_path(ids[i].as_str());
            top = build_tree(top, &parts, 0);
        }
        i += 1;
    }
    top
}

/// The field that the record of a folder has for `s`, one of the things
/// in the folder.
pub open spec fn sub_record(s: Tree) -> Seq<char> {
    if s.children.len() == 0 {
        match leaf_name(s.name).1 {
            Some(ext) => ext + "-file "@ + leaf_name(s.name).0 + ":"@,
            None => "string "@ + leaf_name(s.name).0 + ":"@,
        }
    } else {
        key_of(s.full_path) + "-folder "@ + s.name + ":"@
    }
}

/// The line that the value of a folder has for `s`, one of the things in
/// the folder.
pub open spec fn sub_value(s: Tree) -> Seq<char> {
    if s.children.len() == 0 {
        match leaf_name(s.name).1 {
            Some(ext) => leaf_name(s.name).0 + ": $"@ + key_of(s.full_path),
            None => leaf_name(s.name).0 + ": "@ + s.full_path,
        }
    } else {
        s.name + ": $"@ + key_of(s.full_path)
    }
}

/// The record of the folder `c`, with a field for each of the first `n`
/// things in it.
pub open spec fn folder_record(c: Tree, n: int) -> Seq<char>
    decreases n,
{
    if n <= 0 {
        "-- record "@ + key_of(c.full_path) + "-folder:"@
    } else {
        folder_record(c, n - 1) + "\n"@ + sub_record(c.children[n - 1])
    }
}

/// The value of the folder `c`, with a line for each of the first `n`
/// things in it.
pub open spec fn folder_value(c: Tree, n: int) -> Seq<char>
    decreases n,
{
    if n <= 0 {
        "-- "@ + key_of(c.full_path) + "-folder "@ + key_of(c.full_path) + ":"@
    } else {
        folder_value(c, n - 1) + "\n"@ + sub_value(c.children[n - 1])
    }
}

/// The value of the file `c`.
pub open spec fn leaf_value(c: Tree) -> Seq<char> {
    match leaf_name(c.name).1 {
        Some(ext) => "-- "@ + ext + "-file "@ + key_of(c.full_path) + ":\n"@ + ext + ": "@
            + c.full_path,
        None => "-- string "@ + leaf_name(c.name).0 + ": "@ + c.full_path,
    }
}

/// The records of all folders below `t`: for each folder in turn those of
/// the folders below it, then its own.
pub open spec fn records_of(t: Tree) -> Seq<char>
    decreases t, 1nat,
{
    records_upto(t, t.children.len() as int)
}

/// The records of the folders among the first `n` things in `t`.
pub open spec fn records_upto(t: Tree, n: int) -> Seq<char>
    decreases t, 0nat, n,
{
    if n <= 0 || n > t.children.len() {
        Seq::empty()
    } else {
        let c = t.children[n - 1];
        if c.children.len() > 0 {
            records_upto(t, n - 1) + "\n"@ + records_of(c) + "\n"@ + folder_record(
                c,
                c.children.len() as int,
            )
        } else {
            records_upto(t, n - 1)
        }
    }
}

/// The values of all files and folders below `t`: for each thing in turn,
/// the value of a file, or the values of what lies in a folder and then
/// that of the folder.
pub open spec fn values_of(t: Tree) -> Seq<char>
    decreases t, 1nat,
{
    values_upto(t, t.children.len() as int)
}

/// The values of the first `n` things in `t`.
pub open spec fn values_upto(t: Tree, n: int) -> Seq<char>
    decreases t, 0nat, n,
{
    if n <= 0 || n > t.children.len() {
        Seq::empty()
    } else {
        let c = t.children[n - 1];
        if c.children.len() > 0 {
            values_upto(t, n - 1) + "\n"@ + values_of(c) + "\n"@ + folder_value(
                c,
                c.children.len() as int,
            )
        } else {
            values_upto(t, n - 1) + "\n"@ + leaf_value(c)
        }
    }
}

/// The extensions of all files below `t`, in the order of the files.
pub open spec fn extensions_of(t: Tree) -> Seq<Seq<char>>
    decreases t, 1nat,
{
    extensions_upto(t, t.children.len() as int)
}

/// The extensions of the files among and below the first `n` things in `t`.
pub open spec fn extensions_upto(t: Tree, n: int) -> Seq<Seq<char>>
    decreases t, 0nat, n,
{
    if n <= 0 || n > t.children.len() {
        Seq::empty()
    } else {
        let c = t.children[n - 1];
        if c.children.len() > 0 {
            extensions_upto(t, n - 1) + extensions_of(c)
        } else {
            match leaf_name(c.name).1 {
                Some(ext) => extensions_upto(t, n - 1).push(ext),
                None => extensions_upto(t, n - 1),
            }
        }
    }
}

/// The record and the value of a folder.
fn folder_lines(child: &Dir) -> (r: (String, String))
    ensures
        r.0@ == folder_record(child@, child@.children.len() as int),
        r.1@ == folder_value(child@, child@.children.len() as int),
{
    let key = child.full_path_to_key();
    let mut record = "-- record ".to_owned();
    record.append(key.as_str());
    record.append("-folder:");
    let mut value = "-- ".to_owned();
    value.append(key.as_str());
    value.append("-folder ");
    value.append(key.as_str());
    value.append(":");
    let mut i: usize = 0;
    while i < child.children.len()
        invariant
            i <= child.children.len(),
            child@.children.len() == child.children.len(),
            record@ == folder_record(child@, i as int),
            value@ == folder_value(child@, i as int),
        decreases child.children.len() - i,
    {
        let sub = &child.children[i];
        assert(child@.children[i as int] == sub@);
        record.append("\n");
        value.append("\n");
        if sub.is_leaf() {
            let (name, ext) = process_leaf_node(sub.name.as_str());
            match ext {
                Some(ext) => {
                    record.append(ext.as_str());
                    record.append("-file ");
                    record.append(name.as_str());
                    record.append(":");
                    value.append(name.as_str());
                    value.append(": $");
                    value.append(sub.full_path_to_key().as_str());
                    assert(record@ =~= folder_record(child@, i as int) + "\n"@ + sub_record(sub@));
                    assert(value@ =~= folder_value(child@, i as int) + "\n"@ + sub_value(sub@));
                },
                None => {
                    record.append("string ");
                    record.append(name.as_str());
                    record.append(":");
                    value.append(name.as_str());
                    value.append(": ");
                    value.append(sub.full_path.as_str());
                    assert(record@ =~= folder_record(child@, i as int) + "\n"@ + sub_record(sub@));
                    assert(value@ =~= folder_value(child@, i as int) + "\n"@ + sub_value(sub@));
                },
            }
        } else {
            let sub_key = sub.full_path_to_key();
            record.append(sub_key.as_str());
            record.append("-folder ");
            record.append(sub.name.as_str());
            record.append(":");
            value.append(sub.name.as_str());
            value.append(": $");
            value.append(sub_key.as_str());
            assert(record@ =~= folder_record(child@, i as int) + "\n"@ + sub_record(sub@));
            assert(value@ =~= folder_value(child@, i as int) + "\n"@ + sub_value(sub@));
        }
        i += 1;
    }
    (record, value)
}

/// The value of a file, and its extension if it has one.
fn leaf_lines(child: &Dir) -> (r: (String, Option<String>))
    ensures
        r.0@ == leaf_value(child@),
        r.1.deep_view() == leaf_name(child@.name).1,
{
    let (file_name, file_ext) = process_leaf_node(child.name.as_str());
    let mut value = String::new();
    match &file_ext {
        Some(ext) => {
            value.append("-- ");
            value.append(ext.as_str());
            value.append("-file ");
            value.append(child.full_path_to_key().as_str());
            value.append(":\n");
            value.append(ext.as_str());
            value.append(": ");
            value.append(child.full_path.as_str());
            assert(value@ =~= leaf_value(child@));
        },
        None => {
            value.append("-- string ");
            value.append(file_name.as_str());
            value.append(": ");
            value.append(child.full_path.as_str());
            assert(value@ =~= leaf_value(child@));
        },
    }
    (value, file_ext)
}

/// The records and the values of everything below `node`. The extensions of
/// the files are added to `found_extensions`, in the order of the files.
pub fn build_record_values(node: &Dir, found_extensions: &mut Vec<String>) -> (r: (String, String))
    ensures
        r.0@ == records_of(node@),
        r.1@ == values_of(node@),
        final(found_extensions).deep_view() == old(found_extensions).deep_view() + extensions_of(
            node@,
        ),
    decreases node,
{
    let mut resp_records = String::new();
    let mut resp_values = String::new();
    let ghost found = found_extensions.deep_view();
    let mut i: usize = 0;
    assert(found + extensions_upto(node@, 0) =~= found);
    while i < node.children.len()
        invariant
            i <= node.children.len(),
            node@.children.len() == node.children.len(),
            resp_records@ == records_upto(node@, i as int),
            resp_values@ == values_upto(node@, i as int),
            found_extensions.deep_view() == found + extensions_upto(node@, i as int),
        decreases node.children.len() - i,
    {
        let child_node = &node.children[i];
        assert(node@.children[i as int] == child_node@);
        let ghost so_far = found_extensions.deep_view();
        if !child_node.is_leaf() {
            let (new_records, new_values) = folder_lines(child_node);
            let (child_records, child_values) = build_record_values(child_node, found_extensions);
            resp_records.append("\n");
            resp_records.append(child_records.as_str());
            resp_records.append("\n");
            resp_records.append(new_records.as_str());
            resp_values.append("\n");
            resp_values.append(child_values.as_str());
            resp_values.append("\n");
            resp_values.append(new_values.as_str());
            assert(found_extensions.deep_view() =~= found + extensions_upto(node@, i + 1));
        } else {
            let (new_values, file_ext) = leaf_lines(child_node);
            match file_ext {
                Some(ext) => {
                    found_extensions.push(ext);
                    assert(found_extensions.deep_view() =~= so_far.push(ext@));
                },
                None => {},
            }
            resp_values.append("\n");
            resp_values.append(new_values.as_str());
            assert(found_extensions.deep_view() =~= found + extensions_upto(node@, i + 1));
        }
        i += 1;
    }
    (resp_records, resp_values)
}

/// Whether `x` is among the first `n` of `list`.
pub open spec fn among(list: Seq<Seq<char>>, n: int, x: Seq<char>) -> bool {
    exists|i: int| 0 <= i < n && i < list.len() && #[trigger] list[i] == x
}

/// The record of the files of each extension among the first `n`
/// extensions; an extension that was met before is passed over, and the
/// records stand on lines of their own.
pub open spec fn extension_records(extensions: Seq<Seq<char>>, n: int) -> Seq<char>
    decreases n,
{
    if n <= 0 {
        Seq::empty()
    } else if among(extensions, n - 1, extensions[n - 1]) {
        extension_records(extensions, n - 1)
    } else {
        let record = "-- record "@ + extensions[n - 1] + "-file:\nstring "@ + extensions[n - 1]
            + ":"@;
        if n == 1 {
            record
        } else {
            extension_records(extensions, n - 1) + "\n"@ + record
        }
    }
}

/// Whether a font called `name` is among the first `n` fonts.
pub open spec fn font_among(fonts: Seq<Font>, n: int, name: Seq<char>) -> bool {
    exists|i: int| 0 <= i < n && i < fonts.len() && (#[trigger] fonts[i]).name@ == name
}

/// The record of the fonts: a field for each of the first `n` fonts; a font
/// whose name was met before is passed over.
pub open spec fn font_record(fonts: Seq<Font>, n: int) -> Seq<char>
    decreases n,
{
    if n <= 0 {
        "-- record font:"@
    } else if font_among(fonts, n - 1, fonts[n - 1].name@) {
        font_record(fonts, n - 1)
    } else {
        font_record(fonts, n - 1) + "\nstring "@ + fonts[n - 1].name@ + ":"@
    }
}

/// The fonts: for each of the first `n` fonts the family name under which
/// pages use it; a font whose name was met before is passed over.
pub open spec fn font_values(fonts: Seq<Font>, n: int) -> Seq<char>
    decreases n,
{
    if n <= 0 {
        "-- font fonts:"@
    } else if font_among(fonts, n - 1, fonts[n - 1].name@) {
        font_values(fonts, n - 1)
    } else {
        font_values(fonts, n - 1) + "\n"@ + fonts[n - 1].name@ + ": "@ + fonts[n - 1].html_name@
    }
}

/// The document that names the files `ids` and the fonts `fonts`.
pub open spec fn assets_doc(ids: Seq<Seq<char>>, fonts: Seq<Font>) -> Seq<char> {
    let top = tree_of(ids, ids.len() as int);
    let extensions = extensions_of(top);
    "-- import: fpm\n\n"@ + extension_records(extensions, extensions.len() as int) + "\n\n"@
        + records_of(top) + "\n\n"@ + values_of(top) + "\n"@ + font_record(
        fonts,
        fonts.len() as int,
    ) + "\n"@ + font_values(fonts, fonts.len() as int) + "\n"@
}

fn extension_records_text(extensions: &Vec<String>) -> (r: String)
    ensures
        r@ == extension_records(extensions.deep_view(), extensions.len() as int),
{
    let ghost all = extensions.deep_view();
    let mut r = String::new();
    let mut i: usize = 0;
    while i < extensions.len()
        invariant
            i <= extensions.len(),
            all == extensions.deep_view(),
            r@ == extension_records(all, i as int),
        decreases extensions.len() - i,
    {
        let ext = &extensions[i];
        assert(all[i as int] == ext@);
        let mut seen = false;
        let mut j: usize = 0;
        while j < i && !seen
            invariant
                j <= i < extensions.len(),
                all == extensions.deep_view(),
                all[i as int] == ext@,
                seen ==> among(all, i as int, all[i as int]),
                !seen ==> forall|k: int| 0 <= k < j ==> #[trigger] all[k] != all[i as int],
            decreases i - j + (if seen {
                0int
            } else {
                1int
            }),
        {
            assert(all[j as int] == extensions[j as int]@);
            if str_equal(extensions[j].as_str(), ext.as_str()) {
                seen = true;
            } else {
                j += 1;
            }
        }
        if !seen {
            if i > 0 {
                r.append("\n");
            }
            r.append("-- record ");
            r.append(ext.as_str());
            r.append("-file:\nstring ");
            r.append(ext.as_str());
            r.append(":");
            assert(!among(all, i as int, all[i as int]));
            assert(r@ =~= extension_records(all, i + 1));
        }
        i += 1;
    }
    r
}

fn font_lines(fonts: &Vec<Font>) -> (r: (String, String))
    ensures
        r.0@ == font_record(fonts@, fonts.len() as int),
        r.1@ == font_values(fonts@, fonts.len() as int),
{
    let mut record = "-- record font:".to_owned();
    let mut values = "-- font fonts:".to_owned();
    let mut i: usize = 0;
    while i < fonts.len()
        invariant
            i <= fonts.len(),
            record@ == font_record(fonts@, i as int),
            values@ == font_values(fonts@, i as int),
        decreases fonts.len() - i,
    {
        let font = &fonts[i];
        let mut seen = false;
        let mut j: usize = 0;
        while j < i && !seen
            invariant
                j <= i < fonts.len(),
                *font == fonts@[i as int],
                seen ==> font_among(fonts@, i as int, font.name@),
                !seen ==> forall|k: int| 0 <= k < j ==> (#[trigger] fonts@[k]).name@ != font.name@,
            decreases i - j + (if seen {
                0int
            } else {
                1int
            }),
        {
            if str_equal(fonts[j].name.as_str(), font.name.as_str()) {
                seen = true;
            } else {
                j += 1;
            }
        }
        if !seen {
            record.append("\nstring ");
            record.append(font.name.as_str());
            record.append(":");
            values.append("\n");
            values.append(font.name.as_str());
            values.append(": ");
            values.append(font.html_name.as_str());
            assert(!font_among(fonts@, i as int, font.name@));
        }
        i += 1;
    }
    (record, values)
}

impl Package {
    /// The document that names the files and the fonts of the package, so
    /// that other documents can refer to them. `file_ids` are the names of
    /// the files of the package, and the package file among them is left out.
    ///
    /// The document holds a record for the files of each extension, a record
    /// for each folder, a value for each file and each folder, and a record
    /// and a value for the fonts.
    pub fn get_assets_doc(&self, file_ids: &Vec<String>) -> (r: String)
        ensures
            r@ == assets_doc(file_ids.deep_view(), self.fonts@),
    {
        let top = tree_of_files(file_ids);
        let mut all_extensions: Vec<String> = Vec::new();
        assert(all_extensions.deep_view() =~= Seq::<Seq<char>>::empty());
        let (resp1, resp2) = build_record_values(&top, &mut all_extensions);
        assert(all_extensions.deep_view() =~= extensions_of(top@));
        let extension_records = extension_records_text(&all_extensions);
        let (font_record, fonts) = font_lines(&self.fonts);
        let mut r = "-- import: fpm\n\n".to_owned();
        r.append(extension_records.as_str());
        r.append("\n\n");
        r.append(resp1.as_str());
        r.append("\n\n");
        r.append(resp2.as_str());
        r.append("\n");
        r.append(font_record.as_str());
        r.append("\n");
        r.append(fonts.as_str());
        r.append("\n");
        r
    }
}

} // verus!
