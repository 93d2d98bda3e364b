use crate::calls::{
    assertion_candidates, assertion_candidates_of, call_site_candidates, call_site_candidates_of,
    hits, record_hits,
};
use crate::codeanalysis::is_test_method;
use crate::syntax::{
    declarations_among, declarations_in, declared_by, is_declaration, is_declaration_kind,
    marked_before, marked_from, marker_holds, node_name, owner_below, SyntaxNode,
};
use crate::text::{chars_of, same_text, texts_of};
use crate::utils::{extract_body, methods_of, LangSettings, Method};
use vstd::hash_set::StringHashSet;
use vstd::prelude::*;

verus! {

/// Whether `node` is a declaration that carries a test marker among its first
/// children: whether it is of a declaring kind, a method or a constructor, and one
/// of the markers with which its children begin holds the test pattern of
/// `lang_settings`. A node that declares nothing is no test, whatever it begins with.
pub fn is_csharp_test_method(node: &SyntaxNode, source: &str, lang_settings: &LangSettings) -> (r:
    bool)
    ensures
        r == (is_declaration_kind(node.kind@, true) && marked_from(
            node.children@,
            0,
            source@,
            lang_settings.test_pattern@,
        )),
{
    if !is_declaration(node.kind.as_str(), true) {
        return false;
    }
    let pattern = chars_of(lang_settings.test_pattern.as_str());
    let n = node.children.len();
    let mut k: usize = 0;
    while k < n
        invariant
            k <= n == node.children.len(),
            is_declaration_kind(node.kind@, true),
            pattern@ == lang_settings.test_pattern@,
            marked_from(node.children@, 0, source@, pattern@) == marked_from(
                node.children@,
                k as int,
                source@,
                pattern@,
            ),
        decreases n - k,
    {
        let (marker, holds) = marker_holds(&node.children[k], source, &pattern);
        if holds {
            return true;
        }
        if !marker {
            return false;
        }
        k += 1;
    }
    false
}

/// The name of the type that encloses what stands below `node`: the name of `node`
/// where it is a named class and the language has classes, else `owner`, the name
/// that holds for `node` itself.
pub fn find_csharp_class_name(
    node: &SyntaxNode,
    source: &str,
    lang_settings: &LangSettings,
    owner: &str,
) -> (r: String)
    ensures
        r@ == owner_below(*node, owner@, source@, lang_settings@),
{
    if lang_settings.uses_classes && same_text(node.kind.as_str(), "class_declaration") {
        match node_name(node, source) {
            Some(name) => name,
            None => owner.to_owned(),
        }
    } else {
        owner.to_owned()
    }
}

/// The declaration that `node` itself stands for, if any.
fn declaration_of(
    node: &SyntaxNode,
    marked: bool,
    owner: &str,
    source: &str,
    lang_settings: &LangSettings,
) -> (r: Option<Method>)
    ensures
        match r {
            Some(m) => declared_by(*node, marked, owner@, source@, lang_settings@) == Some(m@),
            None => declared_by(*node, marked, owner@, source@, lang_settings@) is None,
        },
{
    if !is_declaration(node.kind.as_str(), lang_settings.uses_classes) {
        return None;
    }
    match node_name(node, source) {
        Some(name) => {
            let is_test = if lang_settings.uses_classes {
                is_csharp_test_method(node, source, lang_settings)
            } else {
                marked
            };
            Some(
                Method {
                    class_name: owner.to_owned(),
                    method_name: name,
                    body: extract_body(node, source),
                    is_test,
                    start_byte: node.start_byte,
                    end_byte: node.end_byte,
                },
            )
        },
        None => None,
    }
}

/// Appends to `methods` the declarations in the subtree of `node`, in source order.
/// `marked` says whether a test marker stands in front of `node` among its siblings;
/// `owner` names the type that encloses `node`.
fn traverse(
    node: &SyntaxNode,
    marked: bool,
    owner: &str,
    source: &str,
    lang_settings: &LangSettings,
    methods: &mut Vec<Method>,
)
    ensures
        methods_of(final(methods)@) == methods_of(old(methods)@) + declarations_in(
            *node,
            marked,
            owner@,
            source@,
            lang_settings@,
        ),
    decreases node,
{
    match declaration_of(node, marked, owner, source, lang_settings) {
        Some(m) => {
            methods.push(m);
        },
        None => {},
    }
    let below = find_csharp_class_name(node, source, lang_settings, owner);
    let ghost own = methods_of(methods@);
    let n = node.children.len();
    let mut i: usize = 0;
    while i < n
        invariant
            i <= n == node.children.len(),
            below@ == owner_below(*node, owner@, source@, lang_settings@),
            methods_of(methods@) + declarations_among(
                node.children,
                i as int,
                below@,
                source@,
                lang_settings@,
            ) == own + declarations_among(node.children, 0, below@, source@, lang_settings@),
        decreases n - i,
    {
        let child = &node.children[i];
        let child_marked = if !lang_settings.uses_classes && is_declaration(
            child.kind.as_str(),
            false,
        ) {
            is_test_method(&node.children, i, source, lang_settings)
        } else {
            false
        };
        traverse(child, child_marked, below.as_str(), source, lang_settings, methods);
        proof {
            let found = declarations_in(*child, child_marked, below@, source@, lang_settings@);
            assert(found == declarations_in(
                *child,
                marked_before(node.children@, i as int, source@, lang_settings.test_pattern@),
                below@,
                source@,
                lang_settings@,
            ));
        }
        i += 1;
    }
}

/// Walks the subtree of `node` and appends each declaration found there to `methods`,
/// in source order: a node of a declaring kind that has a name, also where it stands
/// inside a container or inside another declaration. In a language with containers
/// each declaration carries the name of the nearest named class around it.
pub fn traverse_c_sharp_nodes(
    node: &SyntaxNode,
    source: &str,
    lang_settings: &LangSettings,
    methods: &mut Vec<Method>,
)
    ensures
        methods_of(final(methods)@) == methods_of(old(methods)@) + declarations_in(
            *node,
            false,
            Seq::empty(),
            source@,
            lang_settings@,
        ),
{
    let owner = String::new();
    traverse(node, false, owner.as_str(), source, lang_settings, methods);
}

/// The token between a receiver and the member called on it: a dot.
pub open spec fn member_separator() -> Seq<char> {
    seq!['.']
}

/// The member separator, as characters.
fn member_separator_chars() -> (r: Vec<char>)
    ensures
        r@ == member_separator(),
{
    let mut r: Vec<char> = Vec::new();
    r.push('.');
    r
}

/// Reads the arguments of an assertion on `line` and appends to `tested_methods`
/// each name among `logic_method_names` that they refer to. The arguments stand
/// between the first opening and the last closing parenthesis of the line and are
/// cut at the top-level commas. An argument that is a call, `obj.Method(..)`, refers
/// to the member in front of its parenthesis; every argument also refers to itself,
/// whole, as a function handed over by name.
pub fn extract_csharp_assert_targets(
    line: &str,
    logic_method_names: &StringHashSet,
    tested_methods: &mut Vec<String>,
)
    ensures
        texts_of(final(tested_methods)@) == texts_of(old(tested_methods)@) + hits(
            assertion_candidates(line@, member_separator()),
            logic_method_names@,
        ),
{
    let candidates = assertion_candidates_of(&chars_of(line), &member_separator_chars());
    record_hits(&candidates, logic_method_names, tested_methods);
}

/// Reads every call on `line` and appends to `tested_methods` each name among
/// `logic_method_names` that one of them refers to. A call is an opening
/// parenthesis; its target is read from the text between it and the parenthesis
/// before: `result = target.Method(` names `Method`.
pub fn extract_csharp_method_calls(
    line: &str,
    logic_method_names: &StringHashSet,
    tested_methods: &mut Vec<String>,
)
    ensures
        texts_of(final(tested_methods)@) == texts_of(old(tested_methods)@) + hits(
            call_site_candidates(line@, member_separator()),
            logic_method_names@,
        ),
{
    let candidates = call_site_candidates_of(&chars_of(line), &member_separator_chars());
    record_hits(&candidates, logic_method_names, tested_methods);
}

} // verus!
