//! Showing a tree of named fields and ordered children, one node to a line.
//!
//! Each node is drawn with a branch before its label; the children of a node
//! are indented under it. Fields named `line` are not shown, and in an array
//! an element with nothing to show is passed over.

use crate::text::{nat_text, push_usize};
use vstd::prelude::*;
use vstd::string::*;

verus! {

/// A field of an object: its name and what it holds.
#[derive(Debug)]
pub struct Field {
    pub name: String,
    pub value: Tree,
}

/// A tree: an object of named fields, an array of trees, or a leaf that holds
/// the text to show.
#[derive(Debug)]
pub enum Tree {
    Object(Vec<Field>),
    Array(Vec<Tree>),
    Scalar(String),
}

/// The mathematical content of a field.
pub struct FieldView {
    pub name: Seq<char>,
    pub value: TreeView,
}

/// The mathematical content of a tree.
pub enum TreeView {
    Object(Seq<FieldView>),
    Array(Seq<TreeView>),
    Scalar(Seq<char>),
}

/// The mathematical content of a tree.
pub open spec fn tree_view(tree: Tree) -> TreeView
    decreases tree,
{
    match tree {
        Tree::Object(fields) => TreeView::Object(
            Seq::new(
                fields.len() as nat,
                |i: int|
                    if 0 <= i < fields.len() {
                        FieldView { name: fields[i].name@, value: tree_view(fields[i].value) }
                    } else {
                        FieldView { name: Seq::empty(), value: TreeView::Scalar(Seq::empty()) }
                    },
            ),
        ),
        Tree::Array(items) => TreeView::Array(
            Seq::new(
                items.len() as nat,
                |i: int|
                    if 0 <= i < items.len() {
                        tree_view(items[i])
                    } else {
                        TreeView::Scalar(Seq::empty())
                    },
            ),
        ),
        Tree::Scalar(text) => TreeView::Scalar(text@),
    }
}

impl View for Tree {
    type V = TreeView;

    open spec fn view(&self) -> TreeView {
        tree_view(*self)
    }
}

impl View for Field {
    type V = FieldView;

    open spec fn view(&self) -> FieldView {
        FieldView { name: self.name@, value: self.value@ }
    }
}

/// The name of the field that is not shown.
pub open spec fn hidden(name: Seq<char>) -> bool {
    name == "line"@
}

/// How many of the first `count` fields are shown.
pub open spec fn shown_among(fields: Seq<FieldView>, count: nat) -> nat
    decreases count,
{
    if count == 0 || count > fields.len() {
        0
    } else if hidden(fields[count - 1].name) {
        shown_among(fields, (count - 1) as nat)
    } else {
        shown_among(fields, (count - 1) as nat) + 1
    }
}

/// Whether a node has nothing to show: an object without fields to show, or
/// an array without elements.
pub open spec fn is_bare(tree: TreeView) -> bool {
    match tree {
        TreeView::Object(fields) => shown_among(fields, fields.len()) == 0,
        TreeView::Array(items) => items.len() == 0,
        TreeView::Scalar(_) => false,
    }
}

/// The branch before the label of a node, by whether the node is the last
/// under its parent.
pub open spec fn branch(last: bool) -> Seq<char> {
    if last {
        "└──"@
    } else {
        "├──"@
    }
}

/// What the children of a node are indented with, by whether the node is the
/// last under its parent.
pub open spec fn indent(last: bool) -> Seq<char> {
    if last {
        "    "@
    } else {
        "│   "@
    }
}

/// How a tree is shown under `prefix`.
pub open spec fn tree_text(tree: TreeView, prefix: Seq<char>) -> Seq<char>
    decreases tree, 0nat,
{
    match tree {
        TreeView::Object(fields) => fields_text(fields, fields.len(), prefix),
        TreeView::Array(items) => items_text(items, items.len(), prefix),
        TreeView::Scalar(text) => prefix + "└──"@ + text + "\n"@,
    }
}

/// How the first `count` fields of an object are shown under `prefix`. The
/// last field shown gets the closing branch.
pub open spec fn fields_text(fields: Seq<FieldView>, count: nat, prefix: Seq<char>) -> Seq<char>
    decreases fields, count,
{
    if count == 0 || count > fields.len() {
        Seq::empty()
    } else {
        let field = fields[count - 1];
        let before = fields_text(fields, (count - 1) as nat, prefix);
        if hidden(field.name) {
            before
        } else {
            let last = shown_among(fields, count) == shown_among(fields, fields.len());
            before + prefix + branch(last) + field.name + "\n"@ + tree_text(
                field.value,
                prefix + indent(last),
            )
        }
    }
}

/// How the first `count` elements of an array are shown under `prefix`, each
/// under its place in the array. Only the element at the last place gets the
/// closing branch.
pub open spec fn items_text(items: Seq<TreeView>, count: nat, prefix: Seq<char>) -> Seq<char>
    decreases items, count,
{
    if count == 0 || count > items.len() {
        Seq::empty()
    } else {
        let item = items[count - 1];
        let before = items_text(items, (count - 1) as nat, prefix);
        if is_bare(item) {
            before
        } else {
            let last = count == items.len();
            before + prefix + branch(last) + "["@ + nat_text((count - 1) as nat) + "]\n"@
                + tree_text(item, prefix + indent(last))
        }
    }
}

fn is_hidden(name: &String) -> (is: bool)
    ensures
        is == hidden(name@),
{
    let line = String::from_str("line");
    *name == line
}

fn count_shown(fields: &Vec<Field>) -> (count: usize)
    ensures
        count == shown_among(Tree::Object(*fields)@->Object_0, fields.len() as nat),
{
    let ghost shown = Tree::Object(*fields)@->Object_0;
    let mut count: usize = 0;
    let mut i: usize = 0;
    while i < fields.len()
        invariant
            i <= fields.len(),
            count <= i,
            shown == Tree::Object(*fields)@->Object_0,
            count == shown_among(shown, i as nat),
        decreases fields.len() - i,
    {
        if !is_hidden(&fields[i].name) {
            count += 1;
        }
        i += 1;
    }
    count
}

fn node_empty(value: &Tree) -> (bare: bool)
    ensures
        bare == is_bare(value@),
{
    match value {
        Tree::Object(fields) => count_shown(fields) == 0,
        Tree::Array(items) => items.len() == 0,
        Tree::Scalar(_) => false,
    }
}

fn indented(prefix: &str, last: bool) -> (deeper: String)
    ensures
        deeper@ == prefix@ + indent(last),
{
    let mut deeper = String::from_str(prefix);
    if last {
        deeper.append("    ");
    } else {
        deeper.append("│   ");
    }
    deeper
}

fn push_branch(output: &mut String, prefix: &str, last: bool)
    ensures
        final(output)@ == old(output)@ + prefix@ + branch(last),
{
    output.append(prefix);
    if last {
        output.append("└──");
    } else {
        output.append("├──");
    }
}

/// The tree as shown, from its root.
pub fn pretty_print_ast(tree: &Tree) -> (output: String)
    ensures
        output@ == tree_text(tree@, Seq::empty()),
{
    let mut output = String::new();
    format_tree(tree, &mut output, "");
    assert(output@ =~= tree_text(tree@, ""@));
    assert(""@ =~= Seq::<char>::empty()) by {
        reveal_strlit("");
    }
    output
}

fn format_tree(value: &Tree, output: &mut String, prefix: &str)
    ensures
        final(output)@ == old(output)@ + tree_text(value@, prefix@),
    decreases value,
{
    match value {
        Tree::Object(fields) => {
            let ghost shown = value@->Object_0;
            let total = count_shown(fields);
            let mut seen: usize = 0;
            let mut i: usize = 0;
            assert(output@ =~= old(output)@ + fields_text(shown, 0, prefix@));
            while i < fields.len()
                invariant
                    i <= fields.len(),
                    seen <= i,
                    decreases_to!(value => fields),
                    shown == Tree::Object(*fields)@->Object_0,
                    shown == value@->Object_0,
                    seen == shown_among(shown, i as nat),
                    total == shown_among(shown, fields.len() as nat),
                    output@ == old(output)@ + fields_text(shown, i as nat, prefix@),
                decreases fields.len() - i,
            {
                let ghost before = output@;
                if !is_hidden(&fields[i].name) {
                    seen += 1;
                    let last = seen == total;
                    push_branch(output, prefix, last);
                    output.append(fields[i].name.as_str());
                    output.append("\n");
                    let deeper = indented(prefix, last);
                    format_tree(&fields[i].value, output, deeper.as_str());
                    proof {
                        assert(shown[i as int].value == fields[i as int].value@);
                        assert(output@ =~= before + prefix@ + branch(last) + shown[i as int].name
                            + "\n"@ + tree_text(shown[i as int].value, prefix@ + indent(last)));
                    }
                }
                i += 1;
            }
        },
        Tree::Array(items) => {
            let ghost shown = value@->Array_0;
            let mut i: usize = 0;
            assert(output@ =~= old(output)@ + items_text(shown, 0, prefix@));
            while i < items.len()
                invariant
                    i <= items.len(),
                    decreases_to!(value => items),
                    shown == Tree::Array(*items)@->Array_0,
                    shown == value@->Array_0,
                    output@ == old(output)@ + items_text(shown, i as nat, prefix@),
                decreases items.len() - i,
            {
                let ghost before = output@;
                assert(shown[i as int] == items[i as int]@);
                if !node_empty(&items[i]) {
                    let last = i + 1 == items.len();
                    push_branch(output, prefix, last);
                    output.append("[");
                    push_usize(output, i);
                    output.append("]\n");
                    let deeper = indented(prefix, last);
                    format_tree(&items[i], output, deeper.as_str());
                    proof {
                        assert(output@ =~= before + prefix@ + branch(last) + "["@ + nat_text(i as nat)
                            + "]\n"@ + tree_text(shown[i as int], prefix@ + indent(last)));
                    }
                }
                i += 1;
            }
        },
        Tree::Scalar(text) => {
            output.append(prefix);
            output.append("└──");
            output.append(text.as_str());
            output.append("\n");
            assert(final(output)@ =~= old(output)@ + (prefix@ + "└──"@ + text@ + "\n"@));
        },
    }
}

} // verus!
