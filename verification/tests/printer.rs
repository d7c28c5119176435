use lemma::printer::{pretty_print_ast, Field, Tree};

fn field(name: &str, value: Tree) -> Field {
    Field {
        name: name.to_string(),
        value,
    }
}

fn leaf(text: &str) -> Tree {
    Tree::Scalar(text.to_string())
}

#[test]
fn a_leaf_is_one_line() {
    assert_eq!(pretty_print_ast(&leaf("42")), "└──42\n");
}

#[test]
fn fields_are_shown_in_order_and_the_last_closes() {
    let tree = Tree::Object(vec![
        field("name", leaf("\"add\"")),
        field("line", leaf("2")),
        field("body", leaf("1")),
    ]);
    assert_eq!(
        pretty_print_ast(&tree),
        "├──name\n│   └──\"add\"\n└──body\n    └──1\n"
    );
}

#[test]
fn a_hidden_field_at_the_end_does_not_take_the_closing_branch() {
    let tree = Tree::Object(vec![field("id", leaf("\"a\"")), field("line", leaf("2"))]);
    assert_eq!(pretty_print_ast(&tree), "└──id\n    └──\"a\"\n");
}

#[test]
fn elements_are_shown_under_their_places() {
    let tree = Tree::Array(vec![leaf("1"), Tree::Array(vec![]), leaf("3")]);
    assert_eq!(
        pretty_print_ast(&tree),
        "├──[0]\n│   └──1\n└──[2]\n    └──3\n"
    );
}

#[test]
fn a_bare_element_at_the_end_leaves_the_branch_open() {
    let tree = Tree::Array(vec![
        leaf("1"),
        Tree::Object(vec![field("line", leaf("7"))]),
    ]);
    assert_eq!(pretty_print_ast(&tree), "├──[0]\n│   └──1\n");
}

#[test]
fn nothing_to_show_is_no_text() {
    assert_eq!(pretty_print_ast(&Tree::Object(vec![])), "");
    assert_eq!(pretty_print_ast(&Tree::Array(vec![])), "");
    assert_eq!(
        pretty_print_ast(&Tree::Object(vec![field("line", leaf("1"))])),
        ""
    );
}

#[test]
fn children_are_indented_under_their_parents() {
    let tree = Tree::Object(vec![
        field(
            "functions",
            Tree::Array(vec![Tree::Object(vec![
                field("signature", leaf("\"Int\"")),
                field("definition", leaf("\"f\"")),
            ])]),
        ),
        field("tail", leaf("null")),
    ]);
    let expected = "├──functions
│   └──[0]
│       ├──signature
│       │   └──\"Int\"
│       └──definition
│           └──\"f\"
└──tail
    └──null
";
    assert_eq!(pretty_print_ast(&tree), expected);
}
