use crate::syntax::{fits_depth, SyntaxNode};
use crate::text::same_text;
use tree_sitter::{Language, LanguageError, Node, Parser, Tree};
use vstd::prelude::*;

verus! {

/// `tree_sitter::Parser`, which is carried through and never looked into.
#[verifier::external_type_specification]
#[verifier::external_body]
pub struct ExParser(Parser);

/// `tree_sitter::Tree`, which is carried through and never looked into.
#[verifier::external_type_specification]
#[verifier::external_body]
pub struct ExTree(Tree);

/// `tree_sitter::Node`, which is read only through the functions below.
#[verifier::external_type_specification]
#[verifier::external_body]
pub struct ExNode<'tree>(Node<'tree>);

/// `tree_sitter::Language`, a grammar, which is carried through and never looked
/// into.
#[verifier::external_type_specification]
#[verifier::external_body]
pub struct ExLanguage(Language);

/// `tree_sitter::LanguageError`, of which only the presence is looked at.
#[verifier::external_type_specification]
#[verifier::external_body]
pub struct ExLanguageError(LanguageError);

/// The grammar of Rust: `Language::from` on `tree_sitter_rust::LANGUAGE`. Nothing is
/// claimed of it.
#[verifier::external_body]
fn rust_grammar() -> Language {
    tree_sitter_rust::LANGUAGE.into()
}

/// The grammar of Python: `Language::from` on `tree_sitter_python::LANGUAGE`. Nothing is
/// claimed of it.
#[verifier::external_body]
fn python_grammar() -> Language {
    tree_sitter_python::LANGUAGE.into()
}

/// The grammar of JavaScript: `Language::from` on `tree_sitter_javascript::LANGUAGE`. Nothing is
/// claimed of it.
#[verifier::external_body]
fn javascript_grammar() -> Language {
    tree_sitter_javascript::LANGUAGE.into()
}

/// The grammar of C#: `Language::from` on `tree_sitter_c_sharp::LANGUAGE`. Nothing is
/// claimed of it.
#[verifier::external_body]
fn csharp_grammar() -> Language {
    tree_sitter_c_sharp::LANGUAGE.into()
}

/// `Parser::new`: a parser without a language. Nothing is claimed of it.
#[verifier::external_body]
fn new_parser() -> Parser {
    Parser::new()
}

/// Whether a parser takes a language that it is given: what `Parser::set_language`
/// answers, success or not.
pub uninterp spec fn language_taken(parser: Parser, language: Language) -> bool;

/// What a parser reads from a text: what the tree holds that `Parser::parse` gives
/// for the whole text with no earlier tree, and nothing where it gives no tree.
pub uninterp spec fn parse_nodes(parser: Parser, text: Seq<char>) -> Option<
    Map<Seq<int>, (Seq<char>, int, int, int)>,
>;

/// The fields of what a parser reads from a text: those of the tree that
/// `Parser::parse` gives.
pub uninterp spec fn parse_fields(parser: Parser, text: Seq<char>) -> Option<
    Map<Seq<int>, Option<Seq<char>>>,
>;

/// `Parser::set_language`: tries to give the parser its language. Whether it
/// succeeds depends on the parser and the language alone. Nothing is claimed of the
/// parser afterwards.
#[verifier::external_body]
fn set_language(parser: &mut Parser, language: &Language) -> (r: Result<(), LanguageError>)
    ensures
        r is Ok <==> language_taken(*old(parser), *language),
{
    parser.set_language(language)
}

/// `Parser::parse` on the whole of `text`, with no earlier tree. Whether there is a
/// tree, and what it holds, depends on the parser and the text alone. Nothing is
/// claimed of the parser afterwards.
#[verifier::external_body]
fn parse_text(parser: &mut Parser, text: &str) -> (r: Option<Tree>)
    ensures
        match r {
            Some(tree) => parse_nodes(*old(parser), text@) == Some(tree_nodes(tree))
                && parse_fields(*old(parser), text@) == Some(tree_fields(tree)),
            None => parse_nodes(*old(parser), text@) is None,
        },
{
    parser.parse(text, None)
}

/// What a node of the parser holds. A path is a sequence of child indices; it leads
/// from the node to a node below it, the empty path to the node itself. The map
/// holds the paths along which the parser gives a node, and for each the kind of
/// the node there, its first byte, the byte behind its last, and the number of
/// children that it reports.
pub uninterp spec fn nodes_of(node: Node) -> Map<Seq<int>, (Seq<char>, int, int, int)>;

/// The fields of what a node of the parser holds: for each path, the field that
/// the node at its end fills in its parent, as the parent names it.
pub uninterp spec fn fields_of(node: Node) -> Map<Seq<int>, Option<Seq<char>>>;

/// What a tree of the parser holds: what its root node holds.
pub uninterp spec fn tree_nodes(tree: Tree) -> Map<Seq<int>, (Seq<char>, int, int, int)>;

/// The fields of what a tree of the parser holds: those of its root node.
pub uninterp spec fn tree_fields(tree: Tree) -> Map<Seq<int>, Option<Seq<char>>>;

/// The text of a field, if there is one.
pub open spec fn field_text(field: Option<String>) -> Option<Seq<char>> {
    match field {
        Some(f) => Some(f@),
        None => None,
    }
}

/// The path to the node itself.
pub open spec fn here() -> Seq<int> {
    Seq::empty()
}

/// The part of `m` below the child at index `i`: what stands in `m` at a path that
/// begins with `i`, at that path without its beginning.
pub open spec fn below<V>(m: Map<Seq<int>, V>, i: int) -> Map<Seq<int>, V> {
    Map::new(|p: Seq<int>| m.dom().contains(seq![i] + p), |p: Seq<int>| m[seq![i] + p])
}

/// The parser gives a child at index `i`.
pub open spec fn has_child(m: Map<Seq<int>, (Seq<char>, int, int, int)>, i: int) -> bool {
    m.dom().contains(seq![i])
}

/// `Tree::root_node`. The node holds what the tree holds: it depends on the tree
/// alone.
#[verifier::external_body]
fn root_node<'a>(tree: &'a Tree) -> (r: Node<'a>)
    ensures
        nodes_of(r) == tree_nodes(*tree),
        fields_of(r) == tree_fields(*tree),
{
    tree.root_node()
}

/// `Node::kind`, as a string of its own. The kind is what the node holds as its
/// kind: it depends on the node alone.
#[verifier::external_body]
fn node_kind(node: &Node) -> (r: String)
    ensures
        r@ == nodes_of(*node)[here()].0,
{
    node.kind().to_string()
}

/// `Node::start_byte`. The byte is what the node holds as its first byte: it depends
/// on the node alone.
#[verifier::external_body]
fn node_start_byte(node: &Node) -> (r: usize)
    ensures
        r == nodes_of(*node)[here()].1,
{
    node.start_byte()
}

/// `Node::end_byte`. The byte is what the node holds as the byte behind its last:
/// it depends on the node alone.
#[verifier::external_body]
fn node_end_byte(node: &Node) -> (r: usize)
    ensures
        r == nodes_of(*node)[here()].2,
{
    node.end_byte()
}

/// `Node::child_count`. The number is what the node holds as the number of its
/// children: it depends on the node alone. That a child is given at every index
/// below it is not claimed.
#[verifier::external_body]
fn node_child_count(node: &Node) -> (r: u32)
    ensures
        r == nodes_of(*node)[here()].3,
{
    node.child_count()
}

/// `Node::child`: the child at index `i`, if the parser gives one. Whether it does
/// depends on the node and the index alone, and a child that is given holds what
/// its parent holds below that index.
#[verifier::external_body]
fn node_child<'a>(node: &Node<'a>, i: u32) -> (r: Option<Node<'a>>)
    ensures
        match r {
            Some(child) => has_child(nodes_of(*node), i as int) && nodes_of(child) == below(
                nodes_of(*node),
                i as int,
            ) && fields_of(child) == below(fields_of(*node), i as int),
            None => !has_child(nodes_of(*node), i as int),
        },
{
    node.child(i)
}

/// `Node::field_name_for_child`: the field that the child at index `i` fills, as a
/// string of its own. The field is what the node holds as the field at that index:
/// it depends on the node and the index alone.
#[verifier::external_body]
fn node_field_name_for_child(node: &Node, i: u32) -> (r: Option<String>)
    ensures
        field_text(r) == fields_of(*node)[seq![i as int]],
{
    node.field_name_for_child(i).map(String::from)
}

/// The grammars that there are.
#[derive(PartialEq, Eq, Debug, Clone, Copy)]
pub enum Grammar {
    Rust,
    Python,
    JavaScript,
    CSharp,
}

/// The grammar for the files that end in `ext`, if there is one.
pub open spec fn grammar_of(ext: Seq<char>) -> Option<Grammar> {
    if ext == "rs"@ {
        Some(Grammar::Rust)
    } else if ext == "py"@ {
        Some(Grammar::Python)
    } else if ext == "js"@ {
        Some(Grammar::JavaScript)
    } else if ext == "cs"@ {
        Some(Grammar::CSharp)
    } else {
        None
    }
}

/// The file extensions for which a grammar exists.
pub open spec fn has_grammar(ext: Seq<char>) -> bool {
    grammar_of(ext) is Some
}

/// The grammar for the files that end in `ext`: that of Rust for `rs`, of Python for
/// `py`, of JavaScript for `js` and of C# for `cs`; none for any other extension.
pub fn grammar_for(ext: &str) -> (r: Option<Grammar>)
    ensures
        r == grammar_of(ext@),
{
    if same_text(ext, "rs") {
        Some(Grammar::Rust)
    } else if same_text(ext, "py") {
        Some(Grammar::Python)
    } else if same_text(ext, "js") {
        Some(Grammar::JavaScript)
    } else if same_text(ext, "cs") {
        Some(Grammar::CSharp)
    } else {
        None
    }
}

/// The parser, where it took its language. `outcome` is what the parser answered
/// when the language was set: the parser is handed on where that was a success, and
/// dropped where it was not.
pub fn parser_with_language(parser: Parser, outcome: Result<(), LanguageError>) -> (r: Option<
    Parser,
>)
    ensures
        r is Some <==> outcome is Ok,
        r matches Some(p) ==> p == parser,
{
    match outcome {
        Ok(_) => Some(parser),
        Err(_) => None,
    }
}

/// A parser for the language whose files end in `lang`. There is none for an
/// extension without a grammar. For an extension with a grammar a new parser is given
/// a language, and there is a parser exactly where it takes that language. Which
/// language is given cannot be said here: a grammar has no name.
pub fn get_parser(lang: &str) -> (r: Option<Parser>)
    ensures
        !has_grammar(lang@) ==> r is None,
        has_grammar(lang@) ==> exists|parser: Parser, language: Language|
            (r is Some <==> #[trigger] language_taken(parser, language)),
{
    let language = match grammar_for(lang) {
        Some(Grammar::Rust) => rust_grammar(),
        Some(Grammar::Python) => python_grammar(),
        Some(Grammar::JavaScript) => javascript_grammar(),
        Some(Grammar::CSharp) => csharp_grammar(),
        None => {
            return None;
        },
    };
    let mut parser = new_parser();
    let ghost fresh = parser;
    let outcome = set_language(&mut parser, &language);
    let r = parser_with_language(parser, outcome);
    assert(r is Some <==> language_taken(fresh, language));
    r
}

/// How many levels below its root a syntax tree may have to be read. Trees are
/// walked by recursion, and this bound keeps the walk within the stack.
pub const MAX_TREE_DEPTH: usize = 2000;

/// The indices below `upto` at which the parser gives a child, in rising order.
pub open spec fn given_children(m: Map<Seq<int>, (Seq<char>, int, int, int)>, upto: int) -> Seq<
    int,
>
    decreases upto,
{
    if upto <= 0 {
        Seq::empty()
    } else if has_child(m, upto - 1) {
        given_children(m, upto - 1).push(upto - 1)
    } else {
        given_children(m, upto - 1)
    }
}

/// No node that the parser gives along `m` stands more than `depth` levels below
/// the node that holds `m`. Only indices below the number of children that a node
/// reports are looked at.
pub open spec fn is_within(m: Map<Seq<int>, (Seq<char>, int, int, int)>, depth: nat) -> bool
    decreases depth,
{
    forall|i: int|
        0 <= i < m[here()].3 && #[trigger] has_child(m, i) ==> depth > 0 && is_within(
            below(m, i),
            (depth - 1) as nat,
        )
}

/// `tree` is what is read from a node that holds `m` and `f` and fills the field
/// `field`: it has the kind and the bytes of that node and the given field, and its
/// children are what is read, in order, from the children that the parser gives at
/// the indices below the number that the node reports, each with the field at its
/// index.
pub open spec fn is_reading_of(
    tree: SyntaxNode,
    field: Option<Seq<char>>,
    m: Map<Seq<int>, (Seq<char>, int, int, int)>,
    f: Map<Seq<int>, Option<Seq<char>>>,
) -> bool
    decreases tree,
{
    let given = given_children(m, m[here()].3);
    &&& tree.kind@ == m[here()].0
    &&& field_text(tree.field) == field
    &&& tree.start_byte == m[here()].1
    &&& tree.end_byte == m[here()].2
    &&& tree.children.len() == given.len()
    &&& forall|k: int|
        #![trigger tree.children[k]]
        0 <= k < tree.children.len() ==> is_reading_of(
            tree.children[k],
            f[seq![given[k]]],
            below(m, given[k]),
            below(f, given[k]),
        )
}

/// The subtree of `node` as a tree of the library, with `field` as the field that
/// its root fills. `depth` bounds how far down the tree is followed: there is a
/// result exactly where no node that the parser gives stands more than `depth`
/// levels below `node`. An index at which the parser gives no child is passed over.
fn read_node(node: &Node, field: Option<String>, depth: usize) -> (r: Option<SyntaxNode>)
    ensures
        r is Some <==> is_within(nodes_of(*node), depth as nat),
        r matches Some(tree) ==> is_reading_of(
            tree,
            field_text(field),
            nodes_of(*node),
            fields_of(*node),
        ) && fits_depth(tree, depth as nat),
    decreases depth,
{
    let n = node_child_count(node);
    let mut children: Vec<SyntaxNode> = Vec::new();
    let mut i: u32 = 0;
    let ghost m = nodes_of(*node);
    let ghost f = fields_of(*node);
    while i < n
        invariant
            i <= n == m[here()].3,
            m == nodes_of(*node),
            f == fields_of(*node),
            children.len() > 0 ==> depth > 0,
            forall|j: int|
                0 <= j < children.len() ==> fits_depth(#[trigger] children[j], (depth - 1) as nat),
            forall|j: int|
                0 <= j < i && #[trigger] has_child(m, j) ==> depth > 0 && is_within(
                    below(m, j),
                    (depth - 1) as nat,
                ),
            children.len() == given_children(m, i as int).len(),
            forall|k: int|
                #![trigger children[k]]
                0 <= k < children.len() ==> is_reading_of(
                    children[k],
                    f[seq![given_children(m, i as int)[k]]],
                    below(m, given_children(m, i as int)[k]),
                    below(f, given_children(m, i as int)[k]),
                ),
        decreases n - i,
    {
        match node_child(node, i) {
            Some(child) => {
                if depth == 0 {
                    assert(has_child(m, i as int));
                    return None;
                }
                match read_node(&child, node_field_name_for_child(node, i), depth - 1) {
                    Some(c) => {
                        children.push(c);
                    },
                    None => {
                        assert(has_child(m, i as int));
                        return None;
                    },
                }
            },
            None => {},
        }
        i += 1;
    }
    Some(
        SyntaxNode {
            kind: node_kind(node),
            field,
            start_byte: node_start_byte(node),
            end_byte: node_end_byte(node),
            children,
        },
    )
}

/// A tree of the parser as a tree of the library. There is a result exactly where
/// no node that the parser gives stands more than `MAX_TREE_DEPTH` levels below the
/// root. The result holds, node by node, the kind, the field and the bytes that the
/// parser gives; its root fills no field.
pub fn read_tree(parsed: &Tree) -> (r: Option<SyntaxNode>)
    ensures
        r is Some <==> is_within(tree_nodes(*parsed), MAX_TREE_DEPTH as nat),
        r matches Some(tree) ==> is_reading_of(
            tree,
            None,
            tree_nodes(*parsed),
            tree_fields(*parsed),
        ) && fits_depth(tree, MAX_TREE_DEPTH as nat),
{
    read_node(&root_node(parsed), None, MAX_TREE_DEPTH)
}

/// `tree` is what comes of parsing `text` with `parser`: there is a tree exactly
/// where the parser reads one from the text and no node of it stands more than
/// `MAX_TREE_DEPTH` levels below the root, and the tree is the reading of what the
/// parser reads.
pub open spec fn is_parse_of(tree: Option<SyntaxNode>, parser: Parser, text: Seq<char>) -> bool {
    &&& tree is Some <==> (parse_nodes(parser, text) matches Some(m) && is_within(
        m,
        MAX_TREE_DEPTH as nat,
    ))
    &&& tree matches Some(t) ==> (parse_nodes(parser, text) matches Some(m) && parse_fields(
        parser,
        text,
    ) matches Some(f) && is_reading_of(t, None, m, f))
}

/// Parses `source` and hands the syntax tree back as a tree of the library: what
/// the parser, as it is handed in, reads from exactly this text. There is no tree
/// where the parser gives none, and none where the parser's tree is more than
/// `MAX_TREE_DEPTH` levels deep: such a file counts as one that did not parse.
pub fn parse_source(parser: &mut Parser, source: &str) -> (r: Option<SyntaxNode>)
    ensures
        is_parse_of(r, *old(parser), source@),
        r matches Some(tree) ==> fits_depth(tree, MAX_TREE_DEPTH as nat),
{
    match parse_text(parser, source) {
        Some(parsed) => read_tree(&parsed),
        None => None,
    }
}

} // verus!
