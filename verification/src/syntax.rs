use crate::text::{
    chars_of, contains_token, find_token, lines_of, same_text, trim_chars, trimmed,
};
use crate::utils::{LangSettingsView, MethodView};
use vstd::prelude::*;
use vstd::string::StringSliceAdditionalSpecFns;
use vstd::utf8::{
    decode_utf8, encode_utf8, encode_utf8_decode_utf8, encode_utf8_valid_utf8, is_char_boundary,
    is_char_boundary_iff_not_is_continuation_byte, is_char_boundary_start_end_of_seq,
};

verus! {

/// One node of a concrete syntax tree: its kind, the field of its parent that it
/// fills, the bytes of the source text that it spans, and its children in source
/// order.
#[derive(Debug)]
pub struct SyntaxNode {
    pub kind: String,
    pub field: Option<String>,
    pub start_byte: usize,
    pub end_byte: usize,
    pub children: Vec<SyntaxNode>,
}

/// No node of the tree stands more than `depth` levels below `node`.
pub open spec fn fits_depth(node: SyntaxNode, depth: nat) -> bool
    decreases depth,
{
    node.children.len() == 0 || (depth > 0 && forall|i: int|
        #![trigger node.children[i]]
        0 <= i < node.children.len() ==> fits_depth(node.children[i], (depth - 1) as nat))
}

/// The bytes `start..end` of the UTF-8 form of `text` are a text of their own: the
/// range lies inside the text and both ends fall between two characters.
pub open spec fn span_is_valid(text: Seq<char>, start: int, end: int) -> bool {
    let bytes = encode_utf8(text);
    &&& 0 <= start <= end <= bytes.len()
    &&& is_char_boundary(bytes, start)
    &&& is_char_boundary(bytes, end)
}

/// The characters that the bytes `start..end` of the UTF-8 form of `text` encode.
pub open spec fn span_text(text: Seq<char>, start: int, end: int) -> Seq<char> {
    decode_utf8(encode_utf8(text).subrange(start, end))
}

/// The part of `source` that the bytes `start..end` hold, where that range is a text
/// of its own.
pub fn slice_span<'a>(source: &'a str, start: usize, end: usize) -> (r: Option<&'a str>)
    ensures
        r is Some <==> span_is_valid(source@, start as int, end as int),
        r matches Some(t) ==> t@ == span_text(source@, start as int, end as int),
{
    proof {
        encode_utf8_valid_utf8(source@);
    }
    if start <= end && source.is_char_boundary(start) && source.is_char_boundary(end) {
        let ghost bytes = source.spec_bytes();
        let (head, _tail) = source.split_at(end);
        proof {
            let head_bytes = head.spec_bytes();
            encode_utf8_valid_utf8(head@);
            if start == end {
                is_char_boundary_start_end_of_seq(head_bytes);
            } else {
                is_char_boundary_iff_not_is_continuation_byte(bytes, start as int);
                is_char_boundary_iff_not_is_continuation_byte(head_bytes, start as int);
            }
        }
        let (_, mid) = head.split_at(start);
        proof {
            assert(mid.spec_bytes() =~= bytes.subrange(start as int, end as int));
            encode_utf8_decode_utf8(mid@);
        }
        Some(mid)
    } else {
        None
    }
}

impl SyntaxNode {
    /// The source text of the node, where its span is a text of its own.
    pub open spec fn text(&self, source: Seq<char>) -> Option<Seq<char>> {
        if span_is_valid(source, self.start_byte as int, self.end_byte as int) {
            Some(span_text(source, self.start_byte as int, self.end_byte as int))
        } else {
            None
        }
    }

    /// The node fills the field `name` of its parent.
    pub open spec fn is_name(&self) -> bool {
        self.field matches Some(f) && f@ == "name"@
    }
}

/// The index of the first node from index `from` on that fills the field `name`.
pub open spec fn first_name_child(children: Seq<SyntaxNode>, from: int) -> Option<int>
    decreases children.len() - from,
{
    if from < 0 || from >= children.len() {
        None
    } else if children[from].is_name() {
        Some(from)
    } else {
        first_name_child(children, from + 1)
    }
}

/// The declared name of `node`: the text of its first child in the field `name`. A
/// node without such a child has none, and neither has one whose name is empty or
/// cannot be read from the source.
pub open spec fn resolved_name(node: SyntaxNode, source: Seq<char>) -> Option<Seq<char>> {
    match first_name_child(node.children@, 0) {
        Some(i) => match node.children@[i].text(source) {
            Some(t) => if t.len() > 0 {
                Some(t)
            } else {
                None
            },
            None => None,
        },
        None => None,
    }
}

/// A text in the shape of a marker: an attribute or annotation, which begins with
/// `#` or with `[`.
pub open spec fn is_marker_text(t: Seq<char>) -> bool {
    t.len() > 0 && (t[0] == '#' || t[0] == '[')
}

/// One of the markers that stand directly in front of index `k` among `siblings`,
/// with nothing else between them, holds `pattern`.
pub open spec fn marked_before(
    siblings: Seq<SyntaxNode>,
    k: int,
    source: Seq<char>,
    pattern: Seq<char>,
) -> bool
    decreases k,
{
    if k <= 0 || k > siblings.len() {
        false
    } else {
        match siblings[k - 1].text(source) {
            Some(raw) => {
                let t = trimmed(raw);
                is_marker_text(t) && (contains_token(t, pattern) || marked_before(
                    siblings,
                    k - 1,
                    source,
                    pattern,
                ))
            },
            None => false,
        }
    }
}

/// One of the markers with which `children` begin from index `k` on, with nothing
/// else between them, holds `pattern`.
pub open spec fn marked_from(
    children: Seq<SyntaxNode>,
    k: int,
    source: Seq<char>,
    pattern: Seq<char>,
) -> bool
    decreases children.len() - k,
{
    if k < 0 || k >= children.len() {
        false
    } else {
        match children[k].text(source) {
            Some(raw) => {
                let t = trimmed(raw);
                is_marker_text(t) && (contains_token(t, pattern) || marked_from(
                    children,
                    k + 1,
                    source,
                    pattern,
                ))
            },
            None => false,
        }
    }
}

/// The node kinds that declare a function or method.
pub open spec fn is_declaration_kind(kind: Seq<char>, uses_classes: bool) -> bool {
    if uses_classes {
        kind == "method_declaration"@ || kind == "constructor_declaration"@
    } else {
        kind == "function_item"@ || kind == "method_declaration"@
    }
}

/// The node kind of a named type that holds declarations.
pub open spec fn is_container_kind(kind: Seq<char>) -> bool {
    kind == "class_declaration"@
}

/// Whether the declaration `node` is a test. In a language with containers the
/// markers are the first children of the declaration; in one without, they are the
/// siblings in front of it, and `marked` says what was found there.
pub open spec fn is_test_declaration(
    node: SyntaxNode,
    marked: bool,
    source: Seq<char>,
    settings: LangSettingsView,
) -> bool {
    if settings.uses_classes {
        marked_from(node.children@, 0, source, settings.test_pattern)
    } else {
        marked
    }
}

/// The lines of the node's source text; none where the text cannot be read.
pub open spec fn body_of(node: SyntaxNode, source: Seq<char>) -> Seq<Seq<char>> {
    match node.text(source) {
        Some(t) => lines_of(t),
        None => Seq::empty(),
    }
}

/// The declaration that `node` itself stands for, if any: one for a node of a
/// declaring kind with a name.
pub open spec fn declared_by(
    node: SyntaxNode,
    marked: bool,
    owner: Seq<char>,
    source: Seq<char>,
    settings: LangSettingsView,
) -> Option<MethodView> {
    if is_declaration_kind(node.kind@, settings.uses_classes) {
        match resolved_name(node, source) {
            Some(name) => Some(
                MethodView {
                    class_name: owner,
                    method_name: name,
                    body: body_of(node, source),
                    is_test: is_test_declaration(node, marked, source, settings),
                    start_byte: node.start_byte as int,
                    end_byte: node.end_byte as int,
                },
            ),
            None => None,
        }
    } else {
        None
    }
}

/// The owner of what stands below `node`: the name of `node` where it is a named
/// container and the language has containers, else the owner of `node` itself.
pub open spec fn owner_below(
    node: SyntaxNode,
    owner: Seq<char>,
    source: Seq<char>,
    settings: LangSettingsView,
) -> Seq<char> {
    if settings.uses_classes && is_container_kind(node.kind@) {
        match resolved_name(node, source) {
            Some(name) => name,
            None => owner,
        }
    } else {
        owner
    }
}

/// The declarations in the subtree of `node`, in source order: that of `node`
/// itself, then those of its children.
pub open spec fn declarations_in(
    node: SyntaxNode,
    marked: bool,
    owner: Seq<char>,
    source: Seq<char>,
    settings: LangSettingsView,
) -> Seq<MethodView>
    decreases node, 0nat,
{
    let own = match declared_by(node, marked, owner, source, settings) {
        Some(m) => seq![m],
        None => Seq::empty(),
    };
    own + declarations_among(
        node.children,
        0,
        owner_below(node, owner, source, settings),
        source,
        settings,
    )
}

/// The declarations in the subtrees of `siblings` from index `from` on.
pub open spec fn declarations_among(
    siblings: Vec<SyntaxNode>,
    from: int,
    owner: Seq<char>,
    source: Seq<char>,
    settings: LangSettingsView,
) -> Seq<MethodView>
    decreases siblings, siblings.len() - from,
{
    if from < 0 || from >= siblings.len() {
        Seq::empty()
    } else {
        declarations_in(
            siblings[from],
            marked_before(siblings@, from, source, settings.test_pattern),
            owner,
            source,
            settings,
        ) + declarations_among(siblings, from + 1, owner, source, settings)
    }
}

/// The declared name of `node` in `source`.
pub fn node_name(node: &SyntaxNode, source: &str) -> (r: Option<String>)
    ensures
        match r {
            Some(name) => resolved_name(*node, source@) == Some(name@),
            None => resolved_name(*node, source@) is None,
        },
{
    let mut i: usize = 0;
    while i < node.children.len()
        invariant
            i <= node.children.len(),
            first_name_child(node.children@, 0) == first_name_child(node.children@, i as int),
        decreases node.children.len() - i,
    {
        let child = &node.children[i];
        let found = match &child.field {
            Some(f) => same_text(f.as_str(), "name"),
            None => false,
        };
        if found {
            return match slice_span(source, child.start_byte, child.end_byte) {
                Some(t) => if t.is_empty() {
                    None
                } else {
                    Some(t.to_owned())
                },
                None => None,
            };
        }
        i += 1;
    }
    None
}

/// Whether the text of `node` is a marker that holds `pattern`, and whether it is a
/// marker at all.
pub(crate) fn marker_holds(node: &SyntaxNode, source: &str, pattern: &Vec<char>) -> (r: (
    bool,
    bool,
))
    ensures
        r.0 == (node.text(source@) matches Some(raw) && is_marker_text(trimmed(raw))),
        r.1 == (node.text(source@) matches Some(raw) && is_marker_text(trimmed(raw))
            && contains_token(trimmed(raw), pattern@)),
{
    match slice_span(source, node.start_byte, node.end_byte) {
        Some(raw) => {
            let t = trim_chars(&chars_of(raw));
            if t.len() > 0 && (t[0] == '#' || t[0] == '[') {
                (true, find_token(&t, pattern).is_some())
            } else {
                (false, false)
            }
        },
        None => (false, false),
    }
}

/// Whether a node of kind `kind` declares a function or method.
pub fn is_declaration(kind: &str, uses_classes: bool) -> (r: bool)
    ensures
        r == is_declaration_kind(kind@, uses_classes),
{
    if uses_classes {
        same_text(kind, "method_declaration") || same_text(kind, "constructor_declaration")
    } else {
        same_text(kind, "function_item") || same_text(kind, "method_declaration")
    }
}

} // verus!
