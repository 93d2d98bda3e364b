use crate::calls::{
    argument_candidates, assertion_candidates, assignment_token, call_prefix_candidates,
    call_target, candidates_among, hits, is_hit, member_name,
};
use crate::codeanalysis::{
    analysis_of, body_references, declarations_of, first_mentions, has_assertion, is_debug_line,
    line_candidates, logic_names, references, test_references, tested_names_of, ParsedFile,
};
use crate::coverage::{
    coverage_entries, coverage_of, identifier, lemma_tested_among_bound, matched_identifiers,
    percentage_hundredths, tested_identifiers, CoverageResult,
};
use crate::syntax::{
    declared_by, is_declaration_kind, is_marker_text, marked_before, marked_from, resolved_name,
    SyntaxNode,
};
use crate::text::{
    after_last, contains_token, is_blank, is_last_occurrence, lemma_last_occurrence_unique,
    normalized, not_blank, occurs_at, split_top_level, trimmed,
};
use crate::utils::{is_logic, is_test, LangSettingsView, MethodView};
use vstd::prelude::*;
use vstd::seq_lib::{lemma_seq_concat_contains_all_elements, lemma_seq_contains_after_push};

verus! {

/// A repository without logic declarations has a coverage of zero: nothing is
/// counted, and the percentage is 0, whatever is held to be tested.
pub proof fn lemma_no_logic_means_zero_coverage(
    methods: Seq<MethodView>,
    tests: Set<Seq<char>>,
    uses_classes: bool,
)
    requires
        forall|i: int| 0 <= i < methods.len() ==> (#[trigger] methods[i]).is_test,
    ensures
        coverage_of(methods, tests, uses_classes).total_logic == 0,
        coverage_of(methods, tests, uses_classes).tested_count == 0,
        coverage_of(methods, tests, uses_classes).tested_names.len() == 0,
        percentage_hundredths(
            coverage_of(methods, tests, uses_classes).tested_count,
            coverage_of(methods, tests, uses_classes).total_logic,
        ) == 0,
    decreases methods.len(),
{
    if methods.len() > 0 {
        lemma_no_logic_means_zero_coverage(methods.drop_last(), tests, uses_classes);
    }
}

/// Whatever the counts, the percentage of nothing is 0.
pub proof fn lemma_percentage_of_nothing(tested_count: nat)
    ensures
        percentage_hundredths(tested_count, 0) == 0,
{
}

/// The tested are among the counted, so the percentage never exceeds one hundred.
pub proof fn lemma_percentage_is_bounded(
    methods: Seq<MethodView>,
    tests: Set<Seq<char>>,
    uses_classes: bool,
)
    ensures
        coverage_of(methods, tests, uses_classes).tested_count <= coverage_of(
            methods,
            tests,
            uses_classes,
        ).total_logic,
        percentage_hundredths(
            coverage_of(methods, tests, uses_classes).tested_count,
            coverage_of(methods, tests, uses_classes).total_logic,
        ) <= 10000,
{
    let report = coverage_of(methods, tests, uses_classes);
    lemma_tested_among_bound(report.methods);
    if report.total_logic > 0 {
        let t = report.tested_count as int;
        let n = report.total_logic as int;
        assert(t * 10000 / n <= 10000) by (nonlinear_arith)
            requires
                0 <= t <= n,
                n > 0,
        ;
    }
}

/// A declaration is a test or a logic declaration, never both and never neither.
pub proof fn lemma_test_and_logic_exclude_each_other(m: MethodView)
    ensures
        is_test()(m) != is_logic()(m),
{
}

/// Sorting declarations into logic and tests loses none and doubles none: the two
/// sides together hold as many as there were.
pub proof fn lemma_sorting_keeps_every_declaration(methods: Seq<MethodView>)
    ensures
        methods.filter(is_logic()).len() + methods.filter(is_test()).len() == methods.len(),
    decreases methods.len(),
{
    reveal(Seq::filter);
    if methods.len() > 0 {
        lemma_sorting_keeps_every_declaration(methods.drop_last());
    }
}

/// In a language without containers, a declaration with a marker directly in front
/// of it that holds the test pattern is a test.
pub proof fn lemma_marker_in_front_makes_a_test(
    siblings: Seq<SyntaxNode>,
    k: int,
    owner: Seq<char>,
    source: Seq<char>,
    settings: LangSettingsView,
)
    requires
        0 < k < siblings.len(),
        !settings.uses_classes,
        is_declaration_kind(siblings[k].kind@, false),
        resolved_name(siblings[k], source) is Some,
        siblings[k - 1].text(source) matches Some(raw) && is_marker_text(trimmed(raw))
            && contains_token(trimmed(raw), settings.test_pattern),
    ensures
        marked_before(siblings, k, source, settings.test_pattern),
        declared_by(
            siblings[k],
            marked_before(siblings, k, source, settings.test_pattern),
            owner,
            source,
            settings,
        ) matches Some(m) && m.is_test,
{
}

/// In a language with containers, a declaration whose first child is a marker that
/// holds the test pattern is a test, whatever stands in front of the declaration.
pub proof fn lemma_leading_marker_makes_a_test(
    node: SyntaxNode,
    marked: bool,
    owner: Seq<char>,
    source: Seq<char>,
    settings: LangSettingsView,
)
    requires
        settings.uses_classes,
        is_declaration_kind(node.kind@, true),
        resolved_name(node, source) is Some,
        node.children.len() > 0,
        node.children@[0].text(source) matches Some(raw) && is_marker_text(trimmed(raw))
            && contains_token(trimmed(raw), settings.test_pattern),
    ensures
        marked_from(node.children@, 0, source, settings.test_pattern),
        declared_by(node, marked, owner, source, settings) matches Some(m) && m.is_test,
{
}

/// A marker counts only where it stands directly in front: behind a sibling that is
/// no marker, nothing further up is looked at.
pub proof fn lemma_marker_behind_other_text_does_not_count(
    siblings: Seq<SyntaxNode>,
    k: int,
    source: Seq<char>,
    pattern: Seq<char>,
)
    requires
        0 < k <= siblings.len(),
        siblings[k - 1].text(source) matches Some(raw) ==> !is_marker_text(trimmed(raw)),
    ensures
        !marked_before(siblings, k, source, pattern),
{
}

/// Running the analysis twice on the same declarations gives the same result.
pub proof fn lemma_analysis_is_repeatable(
    first: CoverageResult,
    second: CoverageResult,
    methods: Seq<MethodView>,
    settings: LangSettingsView,
)
    requires
        first@ == analysis_of(methods, settings),
        second@ == analysis_of(methods, settings),
    ensures
        first@ == second@,
        first.total_logic == second.total_logic,
        first.tested_count == second.tested_count,
{
}

/// The files that were parsed.
pub open spec fn is_parsed() -> spec_fn(ParsedFile) -> bool {
    |f: ParsedFile| f.tree is Some
}

/// Files that did not parse add nothing: the declarations of a repository are those
/// of its parsed files alone.
pub proof fn lemma_unparsed_files_add_nothing(files: Seq<ParsedFile>, settings: LangSettingsView)
    ensures
        declarations_of(files, settings) == declarations_of(files.filter(is_parsed()), settings),
    decreases files.len(),
{
    reveal(Seq::filter);
    if files.len() > 0 {
        let front = files.drop_last();
        lemma_unparsed_files_add_nothing(front, settings);
        if files.last().tree is Some {
            let kept = front.filter(is_parsed()).push(files.last());
            assert(kept.drop_last() =~= front.filter(is_parsed()));
        }
    }
}

/// A candidate is a hit where it is not empty and stands among the names, and only
/// there.
pub proof fn lemma_hits_are_named_candidates(
    candidates: Seq<Seq<char>>,
    names: Set<Seq<char>>,
    c: Seq<char>,
)
    ensures
        hits(candidates, names).contains(c) <==> candidates.contains(c) && c.len() > 0
            && names.contains(c),
{
    if hits(candidates, names).contains(c) {
        candidates.lemma_filter_contains_rev(is_hit(names), c);
    }
}

/// The logic names are the names of the declarations that are no tests.
pub proof fn lemma_logic_names_are_names_of_logic(methods: Seq<MethodView>, name: Seq<char>)
    ensures
        logic_names(methods).contains(name) <==> exists|i: int|
            0 <= i < methods.len() && !(#[trigger] methods[i]).is_test && methods[i].method_name
                == name,
    decreases methods.len(),
{
    if methods.len() > 0 {
        let front = methods.drop_last();
        lemma_logic_names_are_names_of_logic(front, name);
        if exists|i: int|
            0 <= i < methods.len() && !(#[trigger] methods[i]).is_test && methods[i].method_name
                == name {
            let i = choose|i: int|
                0 <= i < methods.len() && !(#[trigger] methods[i]).is_test
                    && methods[i].method_name == name;
            if i < methods.len() - 1 {
                assert(front[i] == methods[i]);
            }
        }
    }
}

/// A line of `lines` may refer to `name`.
pub open spec fn is_named_in(
    lines: Seq<Seq<char>>,
    settings: LangSettingsView,
    name: Seq<char>,
) -> bool {
    exists|j: int|
        0 <= j < lines.len() && line_candidates(#[trigger] lines[j], settings).contains(name)
}

/// A test among `methods` may refer to `name`.
pub open spec fn is_referred_to(
    methods: Seq<MethodView>,
    settings: LangSettingsView,
    name: Seq<char>,
) -> bool {
    exists|i: int|
        0 <= i < methods.len() && (#[trigger] methods[i]).is_test && is_named_in(
            methods[i].body,
            settings,
            name,
        )
}

/// What a body refers to among `names` are the names that one of its lines may
/// refer to.
pub proof fn lemma_body_references(
    lines: Seq<Seq<char>>,
    settings: LangSettingsView,
    names: Set<Seq<char>>,
    name: Seq<char>,
)
    ensures
        body_references(lines, settings, names).contains(name) <==> name.len() > 0
            && names.contains(name) && is_named_in(lines, settings, name),
    decreases lines.len(),
{
    if lines.len() > 0 {
        let front = lines.drop_last();
        lemma_body_references(front, settings, names, name);
        lemma_hits_are_named_candidates(line_candidates(lines.last(), settings), names, name);
        lemma_seq_concat_contains_all_elements(
            body_references(front, settings, names),
            hits(line_candidates(lines.last(), settings), names),
            name,
        );
        if is_named_in(lines, settings, name) {
            let j = choose|j: int|
                0 <= j < lines.len() && line_candidates(#[trigger] lines[j], settings).contains(
                    name,
                );
            if j < lines.len() - 1 {
                assert(front[j] == lines[j]);
            }
        }
    }
}

/// What the tests refer to among `names` are the names that a line of a test may
/// refer to.
pub proof fn lemma_test_references(
    methods: Seq<MethodView>,
    settings: LangSettingsView,
    names: Set<Seq<char>>,
    name: Seq<char>,
)
    ensures
        test_references(methods, settings, names).contains(name) <==> name.len() > 0
            && names.contains(name) && is_referred_to(methods, settings, name),
    decreases methods.len(),
{
    if methods.len() > 0 {
        let front = methods.drop_last();
        let last = methods.last();
        lemma_test_references(front, settings, names, name);
        lemma_body_references(last.body, settings, names, name);
        lemma_seq_concat_contains_all_elements(
            test_references(front, settings, names),
            body_references(last.body, settings, names),
            name,
        );
        if is_referred_to(methods, settings, name) {
            let i = choose|i: int|
                0 <= i < methods.len() && (#[trigger] methods[i]).is_test && is_named_in(
                    methods[i].body,
                    settings,
                    name,
                );
            if i < methods.len() - 1 {
                assert(front[i] == methods[i]);
            }
        }
    }
}

/// A name is found referred to exactly where it is the name of a logic declaration,
/// not empty, and a line of a test may refer to it. What is found is therefore always
/// drawn from the logic declarations: a reference to a name that none of them has
/// changes nothing.
pub proof fn lemma_references_are_names_of_logic(
    methods: Seq<MethodView>,
    settings: LangSettingsView,
    name: Seq<char>,
)
    ensures
        references(methods, settings).contains(name) <==> name.len() > 0 && is_referred_to(
            methods,
            settings,
            name,
        ) && exists|i: int|
            0 <= i < methods.len() && !(#[trigger] methods[i]).is_test && methods[i].method_name
                == name,
{
    lemma_test_references(methods, settings, logic_names(methods), name);
    lemma_logic_names_are_names_of_logic(methods, name);
}

/// What is found holds each name that is referred to, and none twice, however often
/// and by whichever reading of a line it is referred to.
pub proof fn lemma_each_name_is_found_once(names: Seq<Seq<char>>, name: Seq<char>)
    ensures
        first_mentions(names).no_duplicates(),
        first_mentions(names).contains(name) <==> names.contains(name),
    decreases names.len(),
{
    if names.len() > 0 {
        let front = names.drop_last();
        let before = first_mentions(front);
        lemma_each_name_is_found_once(front, name);
        lemma_each_name_is_found_once(front, names.last());
        lemma_seq_contains_after_push(before, names.last(), name);
        assert(front.push(names.last()) =~= names);
        lemma_seq_contains_after_push(front, names.last(), name);
    }
}

/// Matching only adds: a further line in the body of a test takes no name away from
/// what the body refers to.
pub proof fn lemma_a_further_line_removes_no_name(
    lines: Seq<Seq<char>>,
    line: Seq<char>,
    settings: LangSettingsView,
    names: Set<Seq<char>>,
    name: Seq<char>,
)
    requires
        first_mentions(body_references(lines, settings, names)).contains(name),
    ensures
        first_mentions(body_references(lines.push(line), settings, names)).contains(name),
{
    let before = body_references(lines, settings, names);
    let added = hits(line_candidates(line, settings), names);
    assert(lines.push(line).drop_last() =~= lines);
    lemma_each_name_is_found_once(before, name);
    lemma_seq_concat_contains_all_elements(before, added, name);
    lemma_each_name_is_found_once(before + added, name);
}

/// The identifiers of the matched are those of the logic declarations whose name
/// is matched, and none comes twice.
pub proof fn lemma_matched_identifiers(
    methods: Seq<MethodView>,
    matched: Set<Seq<char>>,
    uses_classes: bool,
    id: Seq<char>,
)
    ensures
        matched_identifiers(methods, matched, uses_classes).no_duplicates(),
        matched_identifiers(methods, matched, uses_classes).contains(id) <==> exists|i: int|
            0 <= i < methods.len() && !(#[trigger] methods[i]).is_test && matched.contains(
                methods[i].method_name,
            ) && identifier(methods[i], uses_classes) == id,
    decreases methods.len(),
{
    if methods.len() > 0 {
        let front = methods.drop_last();
        let last = methods.last();
        let before = matched_identifiers(front, matched, uses_classes);
        lemma_matched_identifiers(front, matched, uses_classes, id);
        lemma_seq_contains_after_push(before, identifier(last, uses_classes), id);
        if exists|i: int|
            0 <= i < methods.len() && !(#[trigger] methods[i]).is_test && matched.contains(
                methods[i].method_name,
            ) && identifier(methods[i], uses_classes) == id {
            let i = choose|i: int|
                0 <= i < methods.len() && !(#[trigger] methods[i]).is_test && matched.contains(
                    methods[i].method_name,
                ) && identifier(methods[i], uses_classes) == id;
            if i < methods.len() - 1 {
                assert(front[i] == methods[i]);
            }
        }
    }
}

/// Two logic declarations with one name are tested alike: where a test refers to the
/// name, the identifiers of both are among the tested.
pub proof fn lemma_one_name_is_tested_alike(
    methods: Seq<MethodView>,
    settings: LangSettingsView,
    i: int,
    j: int,
)
    requires
        0 <= i < methods.len(),
        0 <= j < methods.len(),
        !methods[i].is_test,
        !methods[j].is_test,
        methods[i].method_name == methods[j].method_name,
    ensures
        references(methods, settings).contains(methods[i].method_name) ==> {
            let tested = tested_names_of(methods, settings);
            tested.contains(identifier(methods[i], settings.uses_classes)) && tested.contains(
                identifier(methods[j], settings.uses_classes),
            )
        },
        !settings.uses_classes ==> {
            let tested = tested_names_of(methods, settings);
            tested.contains(identifier(methods[i], false)) == tested.contains(
                identifier(methods[j], false),
            )
        },
{
    let matched = references(methods, settings).to_set();
    lemma_matched_identifiers(
        methods,
        matched,
        settings.uses_classes,
        identifier(methods[i], settings.uses_classes),
    );
    lemma_matched_identifiers(
        methods,
        matched,
        settings.uses_classes,
        identifier(methods[j], settings.uses_classes),
    );
}

/// The report counts the logic declarations, all of them and nothing else.
pub proof fn lemma_report_counts_logic(
    methods: Seq<MethodView>,
    tests: Set<Seq<char>>,
    uses_classes: bool,
)
    ensures
        coverage_of(methods, tests, uses_classes).total_logic == methods.filter(is_logic()).len(),
    decreases methods.len(),
{
    reveal(Seq::filter);
    if methods.len() > 0 {
        lemma_report_counts_logic(methods.drop_last(), tests, uses_classes);
    }
}

/// An entry of the report with the identifier `id` exists exactly where a logic
/// declaration has that identifier, and it is tested exactly where `tests` holds it.
pub proof fn lemma_report_entries(
    methods: Seq<MethodView>,
    tests: Set<Seq<char>>,
    uses_classes: bool,
    id: Seq<char>,
    tested: bool,
)
    ensures
        coverage_entries(methods, tests, uses_classes).contains((id, tested)) <==> tested
            == tests.contains(id) && exists|i: int|
            0 <= i < methods.len() && !(#[trigger] methods[i]).is_test && identifier(
                methods[i],
                uses_classes,
            ) == id,
    decreases methods.len(),
{
    if methods.len() > 0 {
        let front = methods.drop_last();
        let last = methods.last();
        let before = coverage_entries(front, tests, uses_classes);
        let id_last = identifier(last, uses_classes);
        lemma_report_entries(front, tests, uses_classes, id, tested);
        lemma_seq_contains_after_push(before, (id_last, tests.contains(id_last)), (id, tested));
        if exists|i: int|
            0 <= i < methods.len() && !(#[trigger] methods[i]).is_test && identifier(
                methods[i],
                uses_classes,
            ) == id {
            let i = choose|i: int|
                0 <= i < methods.len() && !(#[trigger] methods[i]).is_test && identifier(
                    methods[i],
                    uses_classes,
                ) == id;
            if i < methods.len() - 1 {
                assert(front[i] == methods[i]);
            }
        }
    }
}

/// The tested identifiers of a list of entries are the identifiers of its tested
/// entries, and none comes twice.
pub proof fn lemma_tested_identifiers(entries: Seq<(Seq<char>, bool)>, id: Seq<char>)
    ensures
        tested_identifiers(entries).no_duplicates(),
        tested_identifiers(entries).contains(id) <==> entries.contains((id, true)),
    decreases entries.len(),
{
    if entries.len() > 0 {
        let front = entries.drop_last();
        let before = tested_identifiers(front);
        lemma_tested_identifiers(front, id);
        lemma_seq_contains_after_push(before, entries.last().0, id);
        assert(front.push(entries.last()) =~= entries);
        if entries.last().1 && !before.contains(entries.last().0) {
        } else if entries.last().1 {
        }
    }
}

/// The names that a report gives as tested are drawn from the logic declarations
/// and from what was held to be tested: each is the identifier of a logic
/// declaration and stands in `tests`, and every such identifier is given, once.
pub proof fn lemma_tested_names_are_tested_logic(
    methods: Seq<MethodView>,
    tests: Set<Seq<char>>,
    uses_classes: bool,
    id: Seq<char>,
)
    ensures
        coverage_of(methods, tests, uses_classes).tested_names.no_duplicates(),
        coverage_of(methods, tests, uses_classes).tested_names.contains(id) <==> tests.contains(
            id,
        ) && exists|i: int|
            0 <= i < methods.len() && !(#[trigger] methods[i]).is_test && identifier(
                methods[i],
                uses_classes,
            ) == id,
{
    lemma_tested_identifiers(coverage_entries(methods, tests, uses_classes), id);
    lemma_report_entries(methods, tests, uses_classes, id, true);
}

/// The analysis reports as tested what the matching found, no more and no less:
/// the identifiers of the logic declarations whose name a test refers to.
pub proof fn lemma_analysis_reports_the_matched(
    methods: Seq<MethodView>,
    settings: LangSettingsView,
    id: Seq<char>,
)
    ensures
        analysis_of(methods, settings).tested_names.contains(id) <==> tested_names_of(
            methods,
            settings,
        ).contains(id),
        analysis_of(methods, settings).tested_names.contains(id) <==> exists|i: int|
            0 <= i < methods.len() && !(#[trigger] methods[i]).is_test && references(
                methods,
                settings,
            ).contains(methods[i].method_name) && identifier(methods[i], settings.uses_classes)
                == id,
{
    let matched = references(methods, settings).to_set();
    let tests = tested_names_of(methods, settings).to_set();
    lemma_matched_identifiers(methods, matched, settings.uses_classes, id);
    lemma_tested_names_are_tested_logic(methods, tests, settings.uses_classes, id);
}

/// The compact form of a line holds no space and no tab, and every other character
/// of the line, in order.
pub proof fn lemma_compact_form_has_no_blank(line: Seq<char>)
    ensures
        forall|i: int|
            0 <= i < normalized(line).len() ==> !is_blank(#[trigger] normalized(line)[i]),
        forall|i: int|
            0 <= i < line.len() && !is_blank(line[i]) ==> normalized(line).contains(
                #[trigger] line[i],
            ),
        normalized(line).len() <= line.len(),
{
    assert forall|i: int| 0 <= i < normalized(line).len() implies !is_blank(
        #[trigger] normalized(line)[i],
    ) by {
        line.lemma_filter_pred(not_blank(), i);
    }
    assert forall|i: int| 0 <= i < line.len() && !is_blank(line[i]) implies normalized(
        line,
    ).contains(#[trigger] line[i]) by {
        line.lemma_filter_contains(not_blank(), i);
    }
    line.lemma_filter_len(not_blank());
}

/// A line without spaces and tabs is its own compact form; so the compact form of a
/// compact form is that form again.
pub proof fn lemma_compact_form_is_final(line: Seq<char>)
    ensures
        (forall|i: int| 0 <= i < line.len() ==> !is_blank(#[trigger] line[i])) ==> normalized(
            line,
        ) == line,
        normalized(normalized(line)) == normalized(line),
{
    if forall|i: int| 0 <= i < line.len() ==> !is_blank(#[trigger] line[i]) {
        lemma_unblanked_is_kept(line);
    }
    lemma_compact_form_has_no_blank(line);
    lemma_unblanked_is_kept(normalized(line));
}

/// A text without spaces and tabs is kept whole.
proof fn lemma_unblanked_is_kept(line: Seq<char>)
    requires
        forall|i: int| 0 <= i < line.len() ==> !is_blank(#[trigger] line[i]),
    ensures
        normalized(line) == line,
    decreases line.len(),
{
    reveal(Seq::filter);
    if line.len() > 0 {
        lemma_unblanked_is_kept(line.drop_last());
        assert(line.drop_last().push(line.last()) =~= line);
    }
}

/// Behind the last separator stands what follows it: where `sep` does not occur
/// again in `sep + tail` behind its start, the text after the last `sep` of
/// `head + sep + tail` is `tail`.
pub proof fn lemma_after_last_of_joined(head: Seq<char>, sep: Seq<char>, tail: Seq<char>)
    requires
        sep.len() > 0,
        forall|j: int| 0 < j ==> !occurs_at(sep + tail, sep, j),
    ensures
        after_last(head + sep + tail, sep) == tail,
{
    let whole = head + sep + tail;
    let at = head.len() as int;
    assert(whole.subrange(at, at + sep.len()) =~= sep);
    assert forall|j: int| at < j implies !occurs_at(whole, sep, j) by {
        if occurs_at(whole, sep, j) {
            assert((sep + tail).subrange(j - at, j - at + sep.len()) =~= whole.subrange(
                j,
                j + sep.len(),
            ));
            assert(occurs_at(sep + tail, sep, j - at));
        }
    }
    let chosen = choose|i: int| is_last_occurrence(whole, sep, i);
    lemma_last_occurrence_unique(whole, sep, at, chosen);
}

/// A text in which the separator does not occur is its own last segment.
pub proof fn lemma_after_last_without_separator(s: Seq<char>, sep: Seq<char>)
    requires
        !contains_token(s, sep),
    ensures
        after_last(s, sep) == s,
{
}

/// Receivers are stripped from a qualified name: of `receiver`, separator and
/// `name`, the member is `name`, without white space around it, whatever the
/// receiver is.
pub proof fn lemma_member_of_qualified_name(receiver: Seq<char>, sep: Seq<char>, name: Seq<char>)
    requires
        sep.len() > 0,
        forall|j: int| 0 < j ==> !occurs_at(sep + name, sep, j),
    ensures
        member_name(receiver + sep + name, sep) == trimmed(name),
{
    lemma_after_last_of_joined(receiver, sep, name);
}

/// The target of an assignment is passed over: in front of a call, what stands left
/// of the last `=` plays no part in the name that the call refers to.
pub proof fn lemma_assigned_call_names_the_value(
    target: Seq<char>,
    value: Seq<char>,
    sep: Seq<char>,
)
    requires
        !value.contains('='),
    ensures
        call_target(target + assignment_token() + value, sep) == member_name(value, sep),
{
    let eq = assignment_token();
    assert forall|j: int| 0 < j implies !occurs_at(eq + value, eq, j) by {
        if occurs_at(eq + value, eq, j) {
            assert((eq + value).subrange(j, j + 1)[0] == '=');
        }
    }
    lemma_after_last_of_joined(target, eq, value);
}

/// A call that stands alone names its function: a text without `=` and without the
/// separator, in front of a parenthesis, refers to itself.
pub proof fn lemma_plain_call_names_the_function(name: Seq<char>, sep: Seq<char>)
    requires
        !name.contains('='),
        !contains_token(name, sep),
    ensures
        call_target(name, sep) == trimmed(name),
{
    let eq = assignment_token();
    assert forall|j: int| !occurs_at(name, eq, j) by {
        if occurs_at(name, eq, j) {
            assert(name.subrange(j, j + 1)[0] == '=');
        }
    }
}

/// The candidates among arguments are the candidates of each argument.
pub proof fn lemma_candidates_among(args: Seq<Seq<char>>, sep: Seq<char>, c: Seq<char>)
    ensures
        candidates_among(args, sep).contains(c) <==> exists|i: int|
            0 <= i < args.len() && argument_candidates(#[trigger] args[i], sep).contains(c),
    decreases args.len(),
{
    if args.len() > 0 {
        let front = args.drop_last();
        lemma_candidates_among(front, sep, c);
        lemma_seq_concat_contains_all_elements(
            candidates_among(front, sep),
            argument_candidates(args.last(), sep),
            c,
        );
        if exists|i: int|
            0 <= i < args.len() && argument_candidates(#[trigger] args[i], sep).contains(c) {
            let i = choose|i: int|
                0 <= i < args.len() && argument_candidates(#[trigger] args[i], sep).contains(c);
            if i < args.len() - 1 {
                assert(front[i] == args[i]);
            }
        }
    }
}

/// Every argument of an assertion is read: on a line that holds an assertion, each
/// candidate of each top-level piece of the argument list is a candidate of the
/// line, also where the line only prints or logs and whatever the assertion itself
/// is called.
pub proof fn lemma_assertion_arguments_are_read(
    line: Seq<char>,
    settings: LangSettingsView,
    args: Seq<char>,
    i: int,
    c: Seq<char>,
)
    requires
        has_assertion(normalized(line), settings),
        crate::calls::argument_list(normalized(line)) == Some(args),
        0 <= i < split_top_level(args).len(),
        argument_candidates(split_top_level(args)[i], settings.qualifier_separator).contains(c),
    ensures
        line_candidates(line, settings).contains(c),
{
    let sep = settings.qualifier_separator;
    lemma_candidates_among(split_top_level(args), sep, c);
    let in_assertion = assertion_candidates(normalized(line), sep);
    let in_call = if is_debug_line(normalized(line)) {
        Seq::empty()
    } else {
        call_prefix_candidates(normalized(line), sep)
    };
    lemma_seq_concat_contains_all_elements(in_assertion, in_call, c);
}

} // verus!
