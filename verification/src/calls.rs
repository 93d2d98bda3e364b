use crate::text::{
    after_last, after_last_token, find_char, find_last_char, lemma_texts_of_push, slice_of,
    split_top_level, split_top_level_chars, string_of, texts_of, trim_chars, trimmed, views_of,
};
use vstd::hash_set::StringHashSet;
use vstd::prelude::*;

verus! {

/// The token that stands between the target of an assignment and the assigned value.
pub open spec fn assignment_token() -> Seq<char> {
    seq!['=']
}

/// The member that a possibly qualified name ends in: what follows the last
/// separator `sep` in `name`, or all of `name`, without white space around it.
pub open spec fn member_name(name: Seq<char>, sep: Seq<char>) -> Seq<char> {
    trimmed(after_last(name, sep))
}

/// The function that a call names, read from the text `prefix` in front of the
/// opening parenthesis: what follows the last assignment in `prefix`, and of that
/// the member.
pub open spec fn call_target(prefix: Seq<char>, sep: Seq<char>) -> Seq<char> {
    member_name(after_last(prefix, assignment_token()), sep)
}

/// Where the parentheses of `line` stand: the index of its first opening and that
/// of its last closing parenthesis. A line in which one of the two is missing, or in
/// which they stand the other way round, has none.
pub open spec fn parentheses(line: Seq<char>) -> Option<(int, int)> {
    match (line.index_of_first('('), line.index_of_last(')')) {
        (Some(p), Some(q)) => if p < q {
            Some((p, q))
        } else {
            None
        },
        _ => None,
    }
}

/// The argument list of `line`: what stands between its first opening and its last
/// closing parenthesis.
pub open spec fn argument_list(line: Seq<char>) -> Option<Seq<char>> {
    match parentheses(line) {
        Some((p, q)) => Some(line.subrange(p + 1, q)),
        None => None,
    }
}

/// The names that one argument may refer to: where the argument is itself a call,
/// the member named in front of its first parenthesis; and in any case the whole
/// argument, for a function that is handed over without being called.
pub open spec fn argument_candidates(arg: Seq<char>, sep: Seq<char>) -> Seq<Seq<char>> {
    match parentheses(arg) {
        Some((p, _)) => seq![member_name(arg.subrange(0, p), sep), trimmed(arg)],
        None => seq![trimmed(arg)],
    }
}

/// The candidates of each of `args` in turn.
pub open spec fn candidates_among(args: Seq<Seq<char>>, sep: Seq<char>) -> Seq<Seq<char>>
    decreases args.len(),
{
    if args.len() == 0 {
        Seq::empty()
    } else {
        candidates_among(args.drop_last(), sep) + argument_candidates(args.last(), sep)
    }
}

/// The names that the arguments of an assertion on `line` may refer to: the
/// candidates of each piece of the argument list, cut at its top-level commas.
pub open spec fn assertion_candidates(line: Seq<char>, sep: Seq<char>) -> Seq<Seq<char>> {
    match argument_list(line) {
        Some(args) => candidates_among(split_top_level(args), sep),
        None => Seq::empty(),
    }
}

/// The name that the first call on `line` may refer to; none on a line without an
/// opening parenthesis.
pub open spec fn call_prefix_candidates(line: Seq<char>, sep: Seq<char>) -> Seq<Seq<char>> {
    match line.index_of_first('(') {
        Some(p) => seq![call_target(line.subrange(0, p), sep)],
        None => Seq::empty(),
    }
}

/// The names that the calls on `line` may refer to, one for each opening
/// parenthesis: the target read from what stands between it and the parenthesis
/// before. (The first index of a character is an index of the text; the test on it
/// only serves to show that the reading ends.)
pub open spec fn call_site_candidates(line: Seq<char>, sep: Seq<char>) -> Seq<Seq<char>>
    decreases line.len(),
{
    match line.index_of_first('(') {
        Some(p) => if 0 <= p < line.len() {
            seq![call_target(line.subrange(0, p), sep)] + call_site_candidates(
                line.subrange(p + 1, line.len() as int),
                sep,
            )
        } else {
            Seq::empty()
        },
        None => Seq::empty(),
    }
}

/// The candidates that name something in `names`: those that are not empty and
/// stand in it.
pub open spec fn is_hit(names: Set<Seq<char>>) -> spec_fn(Seq<char>) -> bool {
    |c: Seq<char>| c.len() > 0 && names.contains(c)
}

/// The candidates that name something: those that are not empty and stand in
/// `names`, in their order and as often as they come.
pub open spec fn hits(candidates: Seq<Seq<char>>, names: Set<Seq<char>>) -> Seq<Seq<char>> {
    candidates.filter(is_hit(names))
}

/// The hits grow with the candidates, one by one.
pub(crate) proof fn lemma_hits_push(candidates: Seq<Seq<char>>, c: Seq<char>, names: Set<Seq<char>>)
    ensures
        hits(candidates.push(c), names) == if c.len() > 0 && names.contains(c) {
            hits(candidates, names).push(c)
        } else {
            hits(candidates, names)
        },
{
    candidates.lemma_filter_push(c, is_hit(names));
}

/// Appends to `tested` each of `candidates` that is not empty and stands in `names`.
pub fn record_hits(candidates: &Vec<Vec<char>>, names: &StringHashSet, tested: &mut Vec<String>)
    ensures
        texts_of(final(tested)@) == texts_of(old(tested)@) + hits(views_of(candidates@), names@),
{
    let n = candidates.len();
    let mut i: usize = 0;
    while i < n
        invariant
            i <= n == candidates.len(),
            texts_of(tested@) == texts_of(old(tested)@) + hits(
                views_of(candidates@).subrange(0, i as int),
                names@,
            ),
        decreases n - i,
    {
        let c = &candidates[i];
        proof {
            let all = views_of(candidates@);
            assert(all.subrange(0, i + 1) =~= all.subrange(0, i as int).push(c@));
            lemma_hits_push(all.subrange(0, i as int), c@, names@);
        }
        if c.len() > 0 {
            let name = string_of(c);
            if names.contains(name.as_str()) {
                proof {
                    lemma_texts_of_push(tested@, name);
                }
                tested.push(name);
            }
        }
        i += 1;
    }
    proof {
        assert(views_of(candidates@).subrange(0, n as int) =~= views_of(candidates@));
    }
}

/// Where the parentheses of `line` stand.
pub fn parentheses_of(line: &Vec<char>) -> (r: Option<(usize, usize)>)
    ensures
        match r {
            Some((p, q)) => parentheses(line@) == Some((p as int, q as int)) && p < q < line.len(),
            None => parentheses(line@) is None,
        },
{
    match find_char(line, '(') {
        Some(p) => match find_last_char(line, ')') {
            Some(q) => if p < q {
                Some((p, q))
            } else {
                None
            },
            None => None,
        },
        None => None,
    }
}

/// The argument list of `line`.
pub fn argument_list_of(line: &Vec<char>) -> (r: Option<Vec<char>>)
    ensures
        match r {
            Some(args) => argument_list(line@) == Some(args@),
            None => argument_list(line@) is None,
        },
{
    match parentheses_of(line) {
        Some((p, q)) => Some(slice_of(line, p + 1, q)),
        None => None,
    }
}

/// The member that the name `name` ends in.
pub fn member_name_of(name: &Vec<char>, sep: &Vec<char>) -> (r: Vec<char>)
    ensures
        r@ == member_name(name@, sep@),
{
    trim_chars(&after_last_token(name, sep))
}

/// The function named by the text `prefix` in front of an opening parenthesis.
pub fn call_target_of(prefix: &Vec<char>, sep: &Vec<char>) -> (r: Vec<char>)
    ensures
        r@ == call_target(prefix@, sep@),
{
    let mut assign: Vec<char> = Vec::new();
    assign.push('=');
    member_name_of(&after_last_token(prefix, &assign), sep)
}

/// Appends to `out` the candidates of the argument `arg`.
fn push_argument_candidates(arg: &Vec<char>, sep: &Vec<char>, out: &mut Vec<Vec<char>>)
    ensures
        views_of(final(out)@) == views_of(old(out)@) + argument_candidates(arg@, sep@),
{
    let direct = trim_chars(arg);
    match parentheses_of(arg) {
        Some((p, _)) => {
            let member = member_name_of(&slice_of(arg, 0, p), sep);
            out.push(member);
            out.push(direct);
        },
        None => {
            out.push(direct);
        },
    }
}

/// The names that the arguments of an assertion on `line` may refer to.
pub fn assertion_candidates_of(line: &Vec<char>, sep: &Vec<char>) -> (r: Vec<Vec<char>>)
    ensures
        views_of(r@) == assertion_candidates(line@, sep@),
{
    let mut r: Vec<Vec<char>> = Vec::new();
    match argument_list_of(line) {
        Some(args) => {
            let pieces = split_top_level_chars(&args);
            let n = pieces.len();
            let mut i: usize = 0;
            while i < n
                invariant
                    i <= n == pieces.len(),
                    views_of(r@) == candidates_among(
                        views_of(pieces@).subrange(0, i as int),
                        sep@,
                    ),
                decreases n - i,
            {
                proof {
                    let all = views_of(pieces@);
                    assert(all.subrange(0, i + 1).drop_last() =~= all.subrange(0, i as int));
                }
                push_argument_candidates(&pieces[i], sep, &mut r);
                i += 1;
            }
            proof {
                assert(views_of(pieces@).subrange(0, n as int) =~= views_of(pieces@));
            }
        },
        None => {},
    }
    r
}

/// The name that the first call on `line` may refer to.
pub fn call_prefix_candidates_of(line: &Vec<char>, sep: &Vec<char>) -> (r: Vec<Vec<char>>)
    ensures
        views_of(r@) == call_prefix_candidates(line@, sep@),
{
    let mut r: Vec<Vec<char>> = Vec::new();
    match find_char(line, '(') {
        Some(p) => {
            let target = call_target_of(&slice_of(line, 0, p), sep);
            r.push(target);
        },
        None => {},
    }
    r
}

/// The names that the calls on `line` may refer to, one for each opening parenthesis.
pub fn call_site_candidates_of(line: &Vec<char>, sep: &Vec<char>) -> (r: Vec<Vec<char>>)
    ensures
        views_of(r@) == call_site_candidates(line@, sep@),
{
    let mut r: Vec<Vec<char>> = Vec::new();
    let mut rest = slice_of(line, 0, line.len());
    proof {
        assert(rest@ =~= line@);
    }
    loop
        invariant
            views_of(r@) + call_site_candidates(rest@, sep@) == call_site_candidates(line@, sep@),
        ensures
            views_of(r@) == call_site_candidates(line@, sep@),
        decreases rest.len(),
    {
        match find_char(&rest, '(') {
            Some(p) => {
                let target = call_target_of(&slice_of(&rest, 0, p), sep);
                let tail = slice_of(&rest, p + 1, rest.len());
                r.push(target);
                rest = tail;
            },
            None => {
                break ;
            },
        }
    }
    r
}

} // verus!
