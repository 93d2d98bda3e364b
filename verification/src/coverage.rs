use crate::text::{lemma_texts_of_push, texts_of};
use crate::utils::{methods_of, LangSettings, Method, MethodView};
use vstd::hash_set::StringHashSet;
use vstd::prelude::*;
use vstd::string::StringExecFns;

verus! {

/// What the report says of one logic declaration.
#[derive(PartialEq, Eq, Debug)]
pub struct MethodCoverage {
    /// The identifier under which the declaration is reported.
    pub method_id: String,
    /// Whether a test refers to it.
    pub tested: bool,
}

/// The outcome of a coverage run.
#[derive(PartialEq, Eq, Debug)]
pub struct CoverageResult {
    /// How many logic declarations there are.
    pub total_logic: usize,
    /// How many of them are tested.
    pub tested_count: usize,
    /// The identifiers of the tested logic declarations, each once, in source order.
    pub tested_names: Vec<String>,
    /// The logic declarations one by one, in source order.
    pub methods: Vec<MethodCoverage>,
}

/// A coverage result as plain values: the counts, the names of the tested, and for
/// each logic declaration its identifier and whether it is tested.
pub struct CoverageResultView {
    pub total_logic: nat,
    pub tested_count: nat,
    pub tested_names: Seq<Seq<char>>,
    pub methods: Seq<(Seq<char>, bool)>,
}

/// What a sequence of report entries holds.
pub open spec fn entries_of(v: Seq<MethodCoverage>) -> Seq<(Seq<char>, bool)> {
    v.map_values(|e: MethodCoverage| (e.method_id@, e.tested))
}

impl View for CoverageResult {
    type V = CoverageResultView;

    open spec fn view(&self) -> CoverageResultView {
        CoverageResultView {
            total_logic: self.total_logic as nat,
            tested_count: self.tested_count as nat,
            tested_names: texts_of(self.tested_names@),
            methods: entries_of(self.methods@),
        }
    }
}

/// The identifier under which a declaration is reported: owner, dot and name in a
/// language with containers, the bare name in one without.
pub open spec fn identifier(m: MethodView, uses_classes: bool) -> Seq<char> {
    if uses_classes {
        m.class_name + seq!['.'] + m.method_name
    } else {
        m.method_name
    }
}

/// The identifiers of the logic declarations among `methods` whose name stands in
/// `matched`, each once, in the order in which they first come.
pub open spec fn matched_identifiers(
    methods: Seq<MethodView>,
    matched: Set<Seq<char>>,
    uses_classes: bool,
) -> Seq<Seq<char>>
    decreases methods.len(),
{
    if methods.len() == 0 {
        Seq::empty()
    } else {
        let before = matched_identifiers(methods.drop_last(), matched, uses_classes);
        let m = methods.last();
        let id = identifier(m, uses_classes);
        if !m.is_test && matched.contains(m.method_name) && !before.contains(id) {
            before.push(id)
        } else {
            before
        }
    }
}

/// The report entries of the logic declarations among `methods`, in their order:
/// for each its identifier and whether that identifier stands in `tests`.
pub open spec fn coverage_entries(
    methods: Seq<MethodView>,
    tests: Set<Seq<char>>,
    uses_classes: bool,
) -> Seq<(Seq<char>, bool)>
    decreases methods.len(),
{
    if methods.len() == 0 {
        Seq::empty()
    } else {
        let before = coverage_entries(methods.drop_last(), tests, uses_classes);
        let m = methods.last();
        if m.is_test {
            before
        } else {
            before.push((identifier(m, uses_classes), tests.contains(identifier(m, uses_classes))))
        }
    }
}

/// How many of `entries` are tested.
pub open spec fn tested_among(entries: Seq<(Seq<char>, bool)>) -> nat
    decreases entries.len(),
{
    if entries.len() == 0 {
        0
    } else if entries.last().1 {
        tested_among(entries.drop_last()) + 1
    } else {
        tested_among(entries.drop_last())
    }
}

/// The identifiers of the tested among `entries`, each once, in the order in which
/// they first come.
pub open spec fn tested_identifiers(entries: Seq<(Seq<char>, bool)>) -> Seq<Seq<char>>
    decreases entries.len(),
{
    if entries.len() == 0 {
        Seq::empty()
    } else {
        let before = tested_identifiers(entries.drop_last());
        if entries.last().1 && !before.contains(entries.last().0) {
            before.push(entries.last().0)
        } else {
            before
        }
    }
}

/// The coverage of `methods` when the identifiers in `tests` count as tested.
pub open spec fn coverage_of(methods: Seq<MethodView>, tests: Set<Seq<char>>, uses_classes: bool)
    -> CoverageResultView {
    let entries = coverage_entries(methods, tests, uses_classes);
    CoverageResultView {
        total_logic: entries.len(),
        tested_count: tested_among(entries),
        tested_names: tested_identifiers(entries),
        methods: entries,
    }
}

/// The share of tested declarations in hundredths of a percent, rounded down; zero
/// where there is no logic declaration at all.
pub open spec fn percentage_hundredths(tested_count: nat, total_logic: nat) -> nat {
    if total_logic == 0 {
        0
    } else {
        (tested_count * 10000 / total_logic) as nat
    }
}

/// No more entries are tested than there are.
pub proof fn lemma_tested_among_bound(entries: Seq<(Seq<char>, bool)>)
    ensures
        tested_among(entries) <= entries.len(),
    decreases entries.len(),
{
    if entries.len() > 0 {
        lemma_tested_among_bound(entries.drop_last());
    }
}

/// The texts of `names` as a set.
pub fn name_set(names: &Vec<String>) -> (set: StringHashSet)
    ensures
        set@ == texts_of(names@).to_set(),
{
    let mut set = StringHashSet::new();
    let n = names.len();
    let mut i: usize = 0;
    while i < n
        invariant
            i <= n == names.len(),
            set@ == texts_of(names@).subrange(0, i as int).to_set(),
        decreases n - i,
    {
        proof {
            let all = texts_of(names@);
            assert(all.subrange(0, i + 1) =~= all.subrange(0, i as int).push(names@[i as int]@));
            all.subrange(0, i as int).lemma_push_to_set_commute(names@[i as int]@);
        }
        set.insert(names[i].clone());
        i += 1;
    }
    proof {
        assert(texts_of(names@).subrange(0, n as int) =~= texts_of(names@));
    }
    set
}

/// The identifier under which `method` is reported.
pub fn method_identifier(method: &Method, uses_classes: bool) -> (id: String)
    ensures
        id@ == identifier(method@, uses_classes),
{
    if uses_classes {
        let mut id = method.class_name.clone();
        id.append(".");
        proof {
            reveal_strlit(".");
        }
        id.append(method.method_name.as_str());
        id
    } else {
        method.method_name.clone()
    }
}

/// The identifiers under which the tested logic declarations are reported: for each
/// logic declaration among `methods` whose name stands in `matched`, its identifier,
/// once, in source order. Two declarations with one name are tested alike.
pub fn identify_tested(methods: &Vec<Method>, matched: &Vec<String>, lang_settings: &LangSettings)
    -> (tested: Vec<String>)
    ensures
        texts_of(tested@) == matched_identifiers(
            methods_of(methods@),
            texts_of(matched@).to_set(),
            lang_settings.uses_classes,
        ),
{
    let matched_set = name_set(matched);
    let mut seen = StringHashSet::new();
    let mut tested: Vec<String> = Vec::new();
    let n = methods.len();
    let mut i: usize = 0;
    let ghost all = methods_of(methods@);
    while i < n
        invariant
            i <= n == methods.len(),
            all == methods_of(methods@),
            matched_set@ == texts_of(matched@).to_set(),
            seen@ == texts_of(tested@).to_set(),
            texts_of(tested@) == matched_identifiers(
                all.subrange(0, i as int),
                matched_set@,
                lang_settings.uses_classes,
            ),
        decreases n - i,
    {
        let m = &methods[i];
        proof {
            assert(all.subrange(0, i + 1).drop_last() =~= all.subrange(0, i as int));
        }
        if !m.is_test && matched_set.contains(m.method_name.as_str()) {
            let id = method_identifier(m, lang_settings.uses_classes);
            if !seen.contains(id.as_str()) {
                proof {
                    lemma_texts_of_push(tested@, id);
                    texts_of(tested@).lemma_push_to_set_commute(id@);
                }
                seen.insert(id.clone());
                tested.push(id);
            }
        }
        i += 1;
    }
    proof {
        assert(all.subrange(0, n as int) =~= all);
    }
    tested
}

/// Counts the coverage of the declarations in `data`. Only logic declarations
/// count. Each is reported under its identifier, and is tested where that identifier
/// stands in `tests`; an entry of `tests` that names no logic declaration changes
/// nothing. The result lists the logic declarations in source order, says how many
/// there are and how many are tested, and names the tested ones.
pub fn generate_method_level_coverage_report(
    data: &Vec<Method>,
    tests: &Vec<String>,
    lang_settings: &LangSettings,
) -> (report: CoverageResult)
    ensures
        report@ == coverage_of(
            methods_of(data@),
            texts_of(tests@).to_set(),
            lang_settings.uses_classes,
        ),
        report.tested_count <= report.total_logic <= data.len(),
{
    let tests_set = name_set(tests);
    let mut seen = StringHashSet::new();
    let mut tested_names: Vec<String> = Vec::new();
    let mut methods: Vec<MethodCoverage> = Vec::new();
    let mut total_logic: usize = 0;
    let mut tested_count: usize = 0;
    let n = data.len();
    let mut i: usize = 0;
    let ghost all = methods_of(data@);
    let uses_classes = lang_settings.uses_classes;
    while i < n
        invariant
            i <= n == data.len(),
            all == methods_of(data@),
            tests_set@ == texts_of(tests@).to_set(),
            seen@ == texts_of(tested_names@).to_set(),
            entries_of(methods@) == coverage_entries(
                all.subrange(0, i as int),
                tests_set@,
                uses_classes,
            ),
            total_logic == methods.len() <= i,
            tested_count == tested_among(entries_of(methods@)) <= methods.len(),
            texts_of(tested_names@) == tested_identifiers(entries_of(methods@)),
        decreases n - i,
    {
        let m = &data[i];
        proof {
            assert(all.subrange(0, i + 1).drop_last() =~= all.subrange(0, i as int));
        }
        if !m.is_test {
            let id = method_identifier(m, uses_classes);
            let tested = tests_set.contains(id.as_str());
            let entry = MethodCoverage { method_id: id.clone(), tested };
            proof {
                let grown = entries_of(methods@).push((id@, tested));
                assert(entries_of(methods@.push(entry)) =~= grown);
                assert(grown.drop_last() =~= entries_of(methods@));
            }
            if tested {
                tested_count += 1;
                if !seen.contains(id.as_str()) {
                    proof {
                        lemma_texts_of_push(tested_names@, id);
                        texts_of(tested_names@).lemma_push_to_set_commute(id@);
                    }
                    seen.insert(id.clone());
                    tested_names.push(id);
                }
            }
            methods.push(entry);
            total_logic += 1;
        }
        i += 1;
    }
    proof {
        assert(all.subrange(0, n as int) =~= all);
    }
    CoverageResult { total_logic, tested_count, tested_names, methods }
}

impl CoverageResult {
    /// The share of tested declarations in hundredths of a percent, rounded down:
    /// 10000 where every logic declaration is tested, 0 where none is or where there
    /// is no logic declaration.
    pub fn percentage_hundredths(&self) -> (p: u128)
        ensures
            p == percentage_hundredths(self.tested_count as nat, self.total_logic as nat),
    {
        if self.total_logic == 0 {
            0
        } else {
            let scaled: u128 = (self.tested_count as u128) * 10000;
            scaled / (self.total_logic as u128)
        }
    }
}

} // verus!
