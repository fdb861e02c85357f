//! Choosing the test cases to run by patterns of their names.
use crate::error::RpcError;
use crate::text::texts_of;
use vstd::prelude::*;
use vstd::string::*;

verus! {

/// A compiled regular expression of the `regex` crate, which proofs do not look into.
#[verifier::external_type_specification]
#[verifier::external_body]
pub struct ExRegex(regex::Regex);

/// The texts in which the regular expression `pattern` finds a match, as the `regex`
/// crate defines its syntax.
pub uninterp spec fn pattern_language(pattern: Seq<char>) -> Set<Seq<char>>;

/// The texts in which a compiled regular expression finds a match.
pub uninterp spec fn regex_language(re: regex::Regex) -> Set<Seq<char>>;

/// `regex::Regex::new` compiles a pattern, or gives the reason why it cannot. The compiled
/// expression finds matches where the pattern does. Which patterns compile is not said: it
/// depends on the size of the compiled form on the machine at hand.
#[verifier::external_body]
fn compile(pattern: &str) -> (re: Result<regex::Regex, String>)
    ensures
        re matches Ok(compiled) ==> regex_language(compiled) == pattern_language(pattern@),
{
    regex::Regex::new(pattern).map_err(|e| e.to_string())
}

/// `regex::Regex::is_match` tells whether the expression finds a match in a text.
#[verifier::external_body]
fn is_match(re: &regex::Regex, text: &str) -> (found: bool)
    ensures
        found == regex_language(*re).contains(text@),
{
    re.is_match(text)
}

/// Whether compiling `pattern` can fail with the reason `cause`.
pub closed spec fn refused(pattern: Seq<char>, cause: Seq<char>) -> bool {
    exists|p: &str, c: String|
        p@ == pattern && c@ == cause && #[trigger] call_ensures(
            compile,
            (p,),
            Err::<regex::Regex, String>(c),
        )
}

/// Whether compiling `pattern` can succeed.
pub closed spec fn compiles(pattern: Seq<char>) -> bool {
    exists|p: &str, re: regex::Regex|
        p@ == pattern && #[trigger] call_ensures(compile, (p,), Ok::<regex::Regex, String>(re))
}

/// A pattern is refused by nothing but a call that compiles it, for the reason that this
/// call gives, and compiles by nothing but such a call; what it compiles to finds matches
/// where the pattern does.
proof fn only_compiling_decides(pattern: Seq<char>, cause: Seq<char>)
    ensures
        refused(pattern, cause) ==> exists|p: &str, c: String|
            p@ == pattern && c@ == cause && #[trigger] call_ensures(
                compile,
                (p,),
                Err::<regex::Regex, String>(c),
            ),
        compiles(pattern) ==> exists|p: &str, re: regex::Regex|
            p@ == pattern && regex_language(re) == pattern_language(pattern)
                && #[trigger] call_ensures(compile, (p,), Ok::<regex::Regex, String>(re)),
{
    if compiles(pattern) {
        let (p, re) = choose|p: &str, re: regex::Regex|
            p@ == pattern && #[trigger] call_ensures(compile, (p,), Ok::<regex::Regex, String>(re));
        assert(regex_language(re) == pattern_language(p@));
    }
}

/// Whether a test case of the name `name` is among those chosen.
pub open spec fn chosen(order: Seq<usize>, names: Seq<Seq<char>>, name: Seq<char>) -> bool {
    exists|k: int| 0 <= k < order.len() && names[#[trigger] order[k] as int] == name
}

/// The choice after one pattern was held against the first `n` names: those that it hits
/// and that were not chosen before are added in turn.
pub open spec fn choose_by_pattern(
    order: Seq<usize>,
    names: Seq<Seq<char>>,
    hits: Seq<bool>,
    n: nat,
) -> Seq<usize>
    decreases n,
{
    if n == 0 {
        order
    } else {
        let before = choose_by_pattern(order, names, hits, (n - 1) as nat);
        if hits[n - 1] && !chosen(before, names, names[n - 1]) {
            before.push((n - 1) as usize)
        } else {
            before
        }
    }
}

/// The choice after each of a list of patterns was held against all names, where
/// `rows[p][j]` tells whether pattern `p` hits name `j`.
pub open spec fn choose_by_patterns(names: Seq<Seq<char>>, rows: Seq<Seq<bool>>) -> Seq<usize>
    decreases rows.len(),
{
    if rows.len() == 0 {
        Seq::empty()
    } else {
        choose_by_pattern(
            choose_by_patterns(names, rows.drop_last()),
            names,
            rows.last(),
            names.len(),
        )
    }
}

/// Which of the names are among the texts of `language`.
pub open spec fn hits_in(language: Set<Seq<char>>, names: Seq<Seq<char>>) -> Seq<bool> {
    Seq::new(names.len(), |j: int| language.contains(names[j]))
}

/// Which of the names a pattern hits.
pub open spec fn hits_of(pattern: Seq<char>, names: Seq<Seq<char>>) -> Seq<bool> {
    hits_in(pattern_language(pattern), names)
}

/// Which of the names each of a list of patterns hits.
pub open spec fn rows_of(patterns: Seq<Seq<char>>, names: Seq<Seq<char>>) -> Seq<Seq<bool>> {
    Seq::new(patterns.len(), |p: int| hits_of(patterns[p], names))
}

/// Whether a test case with the name at `at` was chosen already.
fn is_chosen(order: &Vec<usize>, names: &Vec<String>, at: usize) -> (found: bool)
    requires
        at < names@.len(),
        forall|k: int| 0 <= k < order@.len() ==> #[trigger] order@[k] < names@.len(),
    ensures
        found == chosen(order@, texts_of(names@), names@[at as int]@),
{
    let mut k: usize = 0;
    while k < order.len()
        invariant
            k <= order@.len(),
            at < names@.len(),
            forall|i: int| 0 <= i < order@.len() ==> #[trigger] order@[i] < names@.len(),
            forall|i: int|
                0 <= i < k ==> texts_of(names@)[#[trigger] order@[i] as int] != names@[at as int]@,
        decreases order@.len() - k,
    {
        if names[order[k]] == names[at] {
            assert(texts_of(names@)[order@[k as int] as int] == names@[at as int]@);
            return true;
        }
        k = k + 1;
    }
    false
}

/// Adds to the choice the test cases that one pattern hits and that were not chosen
/// before, in the order of the names.
pub fn choose_hits(order: &mut Vec<usize>, names: &Vec<String>, hits: &Vec<bool>)
    requires
        hits@.len() == names@.len(),
        forall|k: int| 0 <= k < old(order)@.len() ==> #[trigger] old(order)@[k] < names@.len(),
    ensures
        final(order)@ == choose_by_pattern(
            old(order)@,
            texts_of(names@),
            hits@,
            names@.len(),
        ),
        forall|k: int| 0 <= k < final(order)@.len() ==> #[trigger] final(order)@[k] < names@.len(),
        old(order)@.len() <= final(order)@.len(),
        forall|k: int| 0 <= k < old(order)@.len() ==> #[trigger] final(order)@[k] == old(order)@[k],
        forall|k: int|
            old(order)@.len() <= k < final(order)@.len() ==> hits@[#[trigger] final(order)@[k] as int],
        forall|a: int, b: int|
            old(order)@.len() <= a < b < final(order)@.len() ==> #[trigger] final(order)@[a]
                < #[trigger] final(order)@[b],
        forall|a: int, b: int|
            0 <= a < b < final(order)@.len() && old(order)@.len() <= b
                ==> names@[#[trigger] final(order)@[a] as int]@ != names@[#[trigger] final(order)@[b] as int]@,
        forall|j: int|
            0 <= j < names@.len() && #[trigger] hits@[j] ==> exists|k: int|
                0 <= k < final(order)@.len() && names@[#[trigger] final(order)@[k] as int]@ == names@[j]@,
{
    let ghost before = order@;
    let mut j: usize = 0;
    while j < names.len()
        invariant
            j <= names@.len(),
            hits@.len() == names@.len(),
            order@ == choose_by_pattern(before, texts_of(names@), hits@, j as nat),
            forall|k: int| 0 <= k < order@.len() ==> #[trigger] order@[k] < names@.len(),
        decreases names@.len() - j,
    {
        assert(texts_of(names@)[j as int] == names@[j as int]@);
        if hits[j] && !is_chosen(order, names, j) {
            order.push(j);
        }
        j = j + 1;
    }
    proof {
        let texts = texts_of(names@);
        added_by_pattern(before, texts, hits@, names@.len());
        assert(forall|i: int| 0 <= i < names@.len() ==> #[trigger] texts[i] == names@[i]@);
        assert forall|a: int, b: int|
            0 <= a < b < order@.len() && before.len() <= b implies names@[#[trigger] order@[a] as int]@
            != names@[#[trigger] order@[b] as int]@ by {
            assert(texts[order@[a] as int] != texts[order@[b] as int]);
        }
        assert forall|i: int| 0 <= i < names@.len() && #[trigger] hits@[i] implies exists|k: int|
            0 <= k < order@.len() && names@[#[trigger] order@[k] as int]@ == names@[i]@ by {
            assert(chosen(order@, texts, texts[i]));
            let k = choose|k: int|
                0 <= k < order@.len() && texts[#[trigger] order@[k] as int] == texts[i];
            assert(names@[order@[k] as int]@ == names@[i]@);
        }
    }
}

/// A pattern that does not compile.
#[derive(Debug)]
pub struct InvalidPattern {
    /// Number of the pattern in the list
    pub number: usize,
    /// Why it does not compile
    pub cause: String,
}

/// The test cases to run.
#[derive(Debug)]
pub struct Selection {
    /// Numbers of the test cases, in the order in which they run
    pub order: Vec<usize>,
    /// The pattern at which choosing stopped
    pub invalid: Option<InvalidPattern>,
}

impl Selection {
    /// How many of `patterns` were held against the names.
    pub open spec fn patterns_used(&self, patterns: nat) -> nat {
        match self.invalid {
            Some(bad) => bad.number as nat,
            None => patterns,
        }
    }
}

/// Takes into account the pattern with the given number, from which of the names it hits
/// or the reason why it does not compile.
pub fn apply_pattern(
    selection: &mut Selection,
    names: &Vec<String>,
    number: usize,
    hits: Result<Vec<bool>, String>,
)
    requires
        hits matches Ok(row) ==> row@.len() == names@.len(),
        forall|k: int|
            0 <= k < old(selection).order@.len() ==> #[trigger] old(selection).order@[k]
                < names@.len(),
    ensures
        match hits {
            Ok(row) => {
                &&& final(selection).order@ == choose_by_pattern(
                    old(selection).order@,
                    texts_of(names@),
                    row@,
                    names@.len(),
                )
                &&& final(selection).invalid == old(selection).invalid
            },
            Err(cause) => {
                &&& final(selection).order@ == old(selection).order@
                &&& final(selection).invalid == Some(InvalidPattern { number, cause })
            },
        },
        forall|k: int|
            0 <= k < final(selection).order@.len() ==> #[trigger] final(selection).order@[k]
                < names@.len(),
        hits matches Ok(row) ==> {
            &&& old(selection).order@.len() <= final(selection).order@.len()
            &&& forall|k: int|
                0 <= k < old(selection).order@.len() ==> #[trigger] final(selection).order@[k]
                    == old(selection).order@[k]
            &&& forall|k: int|
                old(selection).order@.len() <= k < final(selection).order@.len()
                    ==> row@[#[trigger] final(selection).order@[k] as int]
            &&& forall|a: int, b: int|
                old(selection).order@.len() <= a < b < final(selection).order@.len()
                    ==> #[trigger] final(selection).order@[a] < #[trigger] final(selection).order@[b]
            &&& forall|a: int, b: int|
                0 <= a < b < final(selection).order@.len() && old(selection).order@.len() <= b
                    ==> names@[#[trigger] final(selection).order@[a] as int]@
                    != names@[#[trigger] final(selection).order@[b] as int]@
            &&& forall|j: int|
                0 <= j < names@.len() && #[trigger] row@[j] ==> exists|k: int|
                    0 <= k < final(selection).order@.len() && names@[#[trigger] final(selection).order@[k] as int]@ == names@[j]@
        },
{
    match hits {
        Ok(row) => choose_hits(&mut selection.order, names, &row),
        Err(cause) => {
            selection.invalid = Some(InvalidPattern { number, cause });
        },
    }
}

/// Which of the names a pattern hits, or the reason why it does not compile. Whether it
/// compiles is up to the `regex` crate; `match_names` says what follows either way.
fn find_hits(pattern: &str, names: &Vec<String>) -> (hits: Result<Vec<bool>, String>)
    ensures
        hits matches Ok(row) ==> row@ == hits_of(pattern@, texts_of(names@)),
        match hits {
            Ok(row) => {
                &&& exists|re: regex::Regex| #[trigger]
                    call_ensures(compile, (pattern,), Ok::<regex::Regex, String>(re))
                &&& row@.len() == names@.len()
                &&& forall|j: int|
                    0 <= j < names@.len() ==> #[trigger] row@[j] == pattern_language(
                        pattern@,
                    ).contains(names@[j]@)
            },
            Err(cause) => call_ensures(compile, (pattern,), Err::<regex::Regex, String>(cause)),
        },
{
    match_names(compile(pattern), names)
}

/// Which of the names a compiled pattern hits; the reason why a pattern does not compile
/// is passed on.
pub fn match_names(compiled: Result<regex::Regex, String>, names: &Vec<String>) -> (hits: Result<
    Vec<bool>,
    String,
>)
    ensures
        match compiled {
            Ok(re) => hits matches Ok(row) && row@ == hits_in(
                regex_language(re),
                texts_of(names@),
            ),
            Err(cause) => hits == Err::<Vec<bool>, String>(cause),
        },
        compiled matches Ok(re) ==> (hits matches Ok(row) && row@.len() == names@.len()
            && forall|j: int|
            0 <= j < names@.len() ==> #[trigger] row@[j] == regex_language(re).contains(
                names@[j]@,
            )),
{
    let ghost texts = texts_of(names@);
    let re = match compiled {
        Ok(re) => re,
        Err(cause) => {
            return Err(cause);
        },
    };
    let mut row: Vec<bool> = Vec::new();
    let mut j: usize = 0;
    while j < names.len()
        invariant
            j <= names@.len(),
            texts == texts_of(names@),
            row@ =~= hits_in(regex_language(re), texts).take(j as int),
        decreases names@.len() - j,
    {
        assert(texts[j as int] == names@[j as int]@);
        row.push(is_match(&re, names[j].as_str()));
        j = j + 1;
    }
    assert(row@ =~= hits_in(regex_language(re), texts));
    Ok(row)
}

/// The rows of the first `n` outcomes, which are all there.
pub open spec fn rows_in(outcomes: Seq<Result<Vec<bool>, String>>, n: nat) -> Seq<Seq<bool>> {
    Seq::new(n, |p: int| outcomes[p]->Ok_0@)
}

/// Whether each of the first `n` patterns compiled.
pub open spec fn all_compiled(outcomes: Seq<Result<Vec<bool>, String>>, n: nat) -> bool {
    forall|p: int| 0 <= p < n ==> #[trigger] outcomes[p] is Ok
}

/// Chooses test cases by what became of each pattern: which of the names it hits, or the
/// reason why it does not compile. At the first one that does not compile choosing stops.
pub fn choose_tests(outcomes: Vec<Result<Vec<bool>, String>>, names: &Vec<String>) -> (selection:
    Selection)
    requires
        forall|p: int|
            0 <= p < outcomes@.len() ==> (#[trigger] outcomes@[p] matches Ok(row) ==> row@.len()
                == names@.len()),
    ensures
        selection.invalid is None <==> all_compiled(outcomes@, outcomes@.len()),
        selection.invalid matches Some(bad) ==> {
            &&& bad.number < outcomes@.len()
            &&& all_compiled(outcomes@, bad.number as nat)
            &&& outcomes@[bad.number as int] matches Err(cause) && bad.cause@ == cause@
        },
        selection.order@ == choose_by_patterns(
            texts_of(names@),
            rows_in(outcomes@, selection.patterns_used(outcomes@.len())),
        ),
        forall|k: int|
            0 <= k < selection.order@.len() ==> #[trigger] selection.order@[k] < names@.len(),
        selection.invalid is None <==> forall|p: int|
            0 <= p < outcomes@.len() ==> #[trigger] outcomes@[p] is Ok,
        selection.invalid matches Some(bad) ==> forall|p: int|
            0 <= p < bad.number ==> #[trigger] outcomes@[p] is Ok,
        forall|a: int, b: int|
            0 <= a < b < selection.order@.len() ==> names@[#[trigger] selection.order@[a] as int]@
                != names@[#[trigger] selection.order@[b] as int]@,
        ({
            let used: int = match selection.invalid {
                Some(bad) => bad.number as int,
                None => outcomes@.len() as int,
            };
            &&& forall|k: int|
                0 <= k < selection.order@.len() ==> exists|p: int|
                    0 <= p < used && (#[trigger] outcomes@[p])->Ok_0@[#[trigger] selection.order@[k] as int]
            &&& forall|p: int, j: int|
                0 <= p < used && 0 <= j < names@.len() && #[trigger] outcomes@[p]->Ok_0@[j] ==> exists|k: int|
                    0 <= k < selection.order@.len() && names@[#[trigger] selection.order@[k] as int]@
                        == names@[j]@
            &&& forall|a: int, b: int|
                0 <= a < b < selection.order@.len() ==> {
                    let i = #[trigger] selection.order@[a] as int;
                    let j = #[trigger] selection.order@[b] as int;
                    exists|p: int|
                        0 <= p < used && (#[trigger] outcomes@[p])->Ok_0@[i] && (outcomes@[p]->Ok_0@[j] ==> i < j)
                            && forall|q: int| 0 <= q < p ==> !(#[trigger] outcomes@[q])->Ok_0@[j]
                }
        }),
{
    let mut selection = Selection { order: Vec::new(), invalid: None };
    let mut p: usize = 0;
    assert(rows_in(outcomes@, 0) =~= Seq::empty());
    while p < outcomes.len()
        invariant
            p <= outcomes@.len(),
            forall|i: int|
                0 <= i < outcomes@.len() ==> (#[trigger] outcomes@[i] matches Ok(row) ==> row@.len()
                    == names@.len()),
            all_compiled(outcomes@, p as nat),
            selection.invalid is None,
            selection.order@ == choose_by_patterns(
                texts_of(names@),
                rows_in(outcomes@, p as nat),
            ),
            forall|k: int|
                0 <= k < selection.order@.len() ==> #[trigger] selection.order@[k] < names@.len(),
        decreases outcomes@.len() - p,
    {
        let hits: Result<Vec<bool>, String> = match &outcomes[p] {
            Ok(row) => Ok(row.clone()),
            Err(cause) => Err(cause.clone()),
        };
        apply_pattern(&mut selection, names, p, hits);
        if selection.invalid.is_some() {
            proof {
                assert(names.len() == names@.len());
                chosen_by_outcomes(outcomes@, names@, selection.order@, p as nat);
            }
            return selection;
        }
        proof {
            let rows = rows_in(outcomes@, (p + 1) as nat);
            assert(rows.drop_last() =~= rows_in(outcomes@, p as nat));
            assert(rows.last() =~= outcomes@[p as int]->Ok_0@);
        }
        p = p + 1;
    }
    proof {
        assert(names.len() == names@.len());
        chosen_by_outcomes(outcomes@, names@, selection.order@, p as nat);
    }
    selection
}

/// A chosen test case is hit by one of the first `n` outcomes.
proof fn outcome_hits(
    outcomes: Seq<Result<Vec<bool>, String>>,
    texts: Seq<Seq<char>>,
    n: nat,
    k: int,
)
    requires
        texts.len() <= usize::MAX,
        0 <= k < choose_by_patterns(texts, rows_in(outcomes, n)).len(),
    ensures
        exists|p: int|
            0 <= p < n && (#[trigger] outcomes[p])->Ok_0@[choose_by_patterns(
                texts,
                rows_in(outcomes, n),
            )[k] as int],
{
    let rows = rows_in(outcomes, n);
    let i = choose_by_patterns(texts, rows)[k] as int;
    choose_by_patterns_facts(texts, rows);
    assert(hit_by_any(rows, i));
    let p = choose|p: int| 0 <= p < rows.len() && #[trigger] rows[p][i];
    assert(outcomes[p]->Ok_0@[i]);
}

/// A name that one of the first `n` outcomes hits is chosen.
proof fn outcome_is_chosen(
    outcomes: Seq<Result<Vec<bool>, String>>,
    texts: Seq<Seq<char>>,
    n: nat,
    p: int,
    j: int,
)
    requires
        texts.len() <= usize::MAX,
        0 <= p < n,
        0 <= j < texts.len(),
        outcomes[p]->Ok_0@[j],
    ensures
        chosen(choose_by_patterns(texts, rows_in(outcomes, n)), texts, texts[j]),
{
    let rows = rows_in(outcomes, n);
    choose_by_patterns_facts(texts, rows);
    assert(rows[p][j]);
}

/// Of two chosen test cases the first is put first by one of the first `n` outcomes.
proof fn outcome_puts_first(
    outcomes: Seq<Result<Vec<bool>, String>>,
    texts: Seq<Seq<char>>,
    n: nat,
    a: int,
    b: int,
)
    requires
        texts.len() <= usize::MAX,
        0 <= a < b < choose_by_patterns(texts, rows_in(outcomes, n)).len(),
    ensures
        ({
            let i = choose_by_patterns(texts, rows_in(outcomes, n))[a] as int;
            let j = choose_by_patterns(texts, rows_in(outcomes, n))[b] as int;
            exists|p: int|
                0 <= p < n && (#[trigger] outcomes[p])->Ok_0@[i] && (outcomes[p]->Ok_0@[j] ==> i
                    < j) && forall|q: int| 0 <= q < p ==> !(#[trigger] outcomes[q])->Ok_0@[j]
        }),
{
    let rows = rows_in(outcomes, n);
    let i = choose_by_patterns(texts, rows)[a] as int;
    let j = choose_by_patterns(texts, rows)[b] as int;
    patterns_put_first(texts, rows);
    assert(put_first(rows, i, j));
    let p = choose|p: int|
        0 <= p < rows.len() && (#[trigger] rows[p])[i] && (rows[p][j] ==> i < j)
            && forall|q: int| 0 <= q < p ==> !(#[trigger] rows[q])[j];
    assert(rows[p] == outcomes[p]->Ok_0@);
    assert forall|q: int| 0 <= q < p implies !(#[trigger] outcomes[q])->Ok_0@[j] by {
        assert(rows[q] == outcomes[q]->Ok_0@);
        assert(!rows[q][j]);
    }
    assert(outcomes[p]->Ok_0@[i]);
}

/// Which test cases are chosen by the first `n` outcomes, and in which order.
proof fn chosen_by_outcomes(
    outcomes: Seq<Result<Vec<bool>, String>>,
    names: Seq<String>,
    order: Seq<usize>,
    n: nat,
)
    requires
        names.len() <= usize::MAX,
        n <= outcomes.len(),
        order == choose_by_patterns(texts_of(names), rows_in(outcomes, n)),
    ensures
        forall|a: int, b: int|
            0 <= a < b < order.len() ==> names[#[trigger] order[a] as int]@
                != names[#[trigger] order[b] as int]@,
        forall|k: int|
            0 <= k < order.len() ==> exists|p: int|
                0 <= p < n && (#[trigger] outcomes[p])->Ok_0@[#[trigger] order[k] as int],
        forall|p: int, j: int|
            0 <= p < n && 0 <= j < names.len() && #[trigger] outcomes[p]->Ok_0@[j]
                ==> exists|k: int|
                0 <= k < order.len() && names[#[trigger] order[k] as int]@ == names[j]@,
        forall|a: int, b: int|
            0 <= a < b < order.len() ==> {
                let i = #[trigger] order[a] as int;
                let j = #[trigger] order[b] as int;
                exists|p: int|
                    0 <= p < n && (#[trigger] outcomes[p])->Ok_0@[i] && (outcomes[p]->Ok_0@[j] ==> i
                        < j) && forall|q: int| 0 <= q < p ==> !(#[trigger] outcomes[q])->Ok_0@[j]
            },
{
    let texts = texts_of(names);
    assert forall|a: int, b: int| 0 <= a < b < order.len() implies names[#[trigger] order[a] as int]@
        != names[#[trigger] order[b] as int]@ by {
        choose_by_patterns_facts(texts, rows_in(outcomes, n));
        assert(texts[order[a] as int] == names[order[a] as int]@);
        assert(texts[order[b] as int] == names[order[b] as int]@);
    }
    assert forall|k: int| 0 <= k < order.len() implies exists|p: int|
        0 <= p < n && (#[trigger] outcomes[p])->Ok_0@[#[trigger] order[k] as int] by {
        outcome_hits(outcomes, texts, n, k);
    }
    assert forall|p: int, j: int|
        0 <= p < n && 0 <= j < names.len() && #[trigger] outcomes[p]->Ok_0@[j] implies exists|
        k: int,
    | 0 <= k < order.len() && names[#[trigger] order[k] as int]@ == names[j]@ by {
        outcome_is_chosen(outcomes, texts, n, p, j);
        choose_by_patterns_facts(texts, rows_in(outcomes, n));
        let k = choose|k: int| 0 <= k < order.len() && texts[#[trigger] order[k] as int] == texts[j];
        assert(texts[order[k] as int] == names[order[k] as int]@);
        assert(texts[j] == names[j]@);
    }
    assert forall|a: int, b: int| 0 <= a < b < order.len() implies ({
        let i = #[trigger] order[a] as int;
        let j = #[trigger] order[b] as int;
        exists|p: int|
            0 <= p < n && (#[trigger] outcomes[p])->Ok_0@[i] && (outcomes[p]->Ok_0@[j] ==> i < j)
                && forall|q: int| 0 <= q < p ==> !(#[trigger] outcomes[q])->Ok_0@[j]
    }) by {
        outcome_puts_first(outcomes, texts, n, a, b);
    }
}

/// Given a list of regex patterns, chooses all test cases whose names match any of the
/// patterns, each at most once. The order of the choice is based on the order of the
/// patterns. At a pattern that does not compile choosing stops. Which patterns compile,
/// and what is said of one that does not, is up to the `regex` crate; `choose_tests` says
/// what is chosen for each outcome.
pub fn run_selected(patterns: &Vec<String>, names: &Vec<String>) -> (selection: Selection)
    ensures
        selection.invalid matches Some(bad) ==> bad.number < patterns@.len(),
        selection.order@ == choose_by_patterns(
            texts_of(names@),
            rows_of(
                texts_of(patterns@).take(selection.patterns_used(patterns@.len()) as int),
                texts_of(names@),
            ),
        ),
        forall|k: int|
            0 <= k < selection.order@.len() ==> #[trigger] selection.order@[k] < names@.len(),
        selection.invalid matches Some(bad) ==> refused(
            patterns@[bad.number as int]@,
            bad.cause@,
        ),
        forall|p: int|
            0 <= p < patterns@.len() && (selection.invalid matches Some(bad) ==> p < bad.number)
                ==> compiles((#[trigger] patterns@[p])@),
        (forall|p: int, cause: Seq<char>|
            0 <= p < patterns@.len() ==> !#[trigger] refused(patterns@[p]@, cause))
            ==> selection.invalid is None,
        forall|a: int, b: int|
            0 <= a < b < selection.order@.len() ==> names@[#[trigger] selection.order@[a] as int]@
                != names@[#[trigger] selection.order@[b] as int]@,
        ({
            let used: int = match selection.invalid {
                Some(bad) => bad.number as int,
                None => patterns@.len() as int,
            };
            &&& forall|k: int|
                0 <= k < selection.order@.len() ==> exists|p: int|
                    0 <= p < used && pattern_language((#[trigger] patterns@[p])@).contains(names@[#[trigger] selection.order@[k] as int]@)
            &&& forall|p: int, j: int|
                0 <= p < used && 0 <= j < names@.len() && pattern_language((#[trigger] patterns@[p])@).contains((#[trigger] names@[j])@) ==> exists|k: int|
                    0 <= k < selection.order@.len() && names@[#[trigger] selection.order@[k] as int]@
                        == names@[j]@
            &&& forall|a: int, b: int|
                0 <= a < b < selection.order@.len() ==> {
                    let i = #[trigger] selection.order@[a] as int;
                    let j = #[trigger] selection.order@[b] as int;
                    exists|p: int|
                        0 <= p < used && pattern_language((#[trigger] patterns@[p])@).contains(names@[i]@) && (pattern_language(patterns@[p]@).contains(names@[j]@) ==> i < j)
                            && forall|q: int| 0 <= q < p ==> !pattern_language((#[trigger] patterns@[q])@).contains(names@[j]@)
                }
        }),
        forall|k: int, j: int|
            0 <= k < selection.order@.len() && 0 <= j < selection.order@[k]
                ==> (#[trigger] names@[j])@ != names@[#[trigger] selection.order@[k] as int]@,
{
    let ghost texts = texts_of(names@);
    let mut outcomes: Vec<Result<Vec<bool>, String>> = Vec::new();
    let mut p: usize = 0;
    let mut stopped: bool = false;
    while p < patterns.len() && !stopped
        invariant
            p == outcomes@.len(),
            p <= patterns@.len(),
            texts == texts_of(names@),
            stopped ==> p > 0 && outcomes@[p - 1] is Err,
            forall|i: int|
                0 <= i < outcomes@.len() ==> (#[trigger] outcomes@[i] matches Ok(row) ==> row@
                    == hits_of(patterns@[i]@, texts) && compiles(patterns@[i]@)),
            forall|i: int|
                0 <= i < outcomes@.len() ==> (#[trigger] outcomes@[i] matches Err(cause) ==> refused(
                    patterns@[i]@,
                    cause@,
                )),
        decreases patterns@.len() - p,
    {
        let hits = find_hits(patterns[p].as_str(), names);
        stopped = hits.is_err();
        outcomes.push(hits);
        p = p + 1;
    }
    let ghost found = outcomes@;
    let selection = choose_tests(outcomes, names);
    proof {
        let used = selection.patterns_used(patterns@.len());
        let rows = rows_of(texts_of(patterns@).take(used as int), texts);
        assert(rows_in(found, used) =~= rows);
        assert forall|i: int| 0 <= i < used implies compiles((#[trigger] patterns@[i])@) by {
            assert(found[i] is Ok);
        }
        assert(forall|p: int, j: int|
            0 <= p < used && 0 <= j < names@.len() ==> #[trigger] rows[p][j] == pattern_language(
                patterns@[p]@,
            ).contains(names@[j]@));
        assert(forall|i: int| 0 <= i < names@.len() ==> #[trigger] texts[i] == names@[i]@);
        assert(names.len() == names@.len());
        chosen_by_texts(patterns@, names@, selection.order@, used);
    }
    selection
}

/// Which test cases are chosen by the first `n` patterns, and in which order.
proof fn chosen_by_texts(patterns: Seq<String>, names: Seq<String>, order: Seq<usize>, n: nat)
    requires
        names.len() <= usize::MAX,
        n <= patterns.len(),
        order == choose_by_patterns(
            texts_of(names),
            rows_of(texts_of(patterns).take(n as int), texts_of(names)),
        ),
    ensures
        forall|k: int|
            0 <= k < order.len() ==> exists|p: int|
                0 <= p < n && pattern_language((#[trigger] patterns[p])@).contains(
                    names[#[trigger] order[k] as int]@,
                ),
        forall|p: int, j: int|
            0 <= p < n && 0 <= j < names.len() && pattern_language(
                (#[trigger] patterns[p])@,
            ).contains((#[trigger] names[j])@) ==> exists|k: int|
                0 <= k < order.len() && names[#[trigger] order[k] as int]@ == names[j]@,
        forall|a: int, b: int|
            0 <= a < b < order.len() ==> {
                let i = #[trigger] order[a] as int;
                let j = #[trigger] order[b] as int;
                exists|p: int|
                    0 <= p < n && pattern_language((#[trigger] patterns[p])@).contains(names[i]@)
                        && (pattern_language(patterns[p]@).contains(names[j]@) ==> i < j)
                        && forall|q: int|
                        0 <= q < p ==> !pattern_language((#[trigger] patterns[q])@).contains(
                            names[j]@,
                        )
            },
        forall|k: int, j: int|
            0 <= k < order.len() && 0 <= j < order[k] ==> (#[trigger] names[j])@
                != names[#[trigger] order[k] as int]@,
{
    let texts = texts_of(names);
    let rows = rows_of(texts_of(patterns).take(n as int), texts);
    assert(forall|i: int| 0 <= i < names.len() ==> #[trigger] texts[i] == names[i]@);
    assert(forall|p: int, j: int|
        0 <= p < n && 0 <= j < names.len() ==> #[trigger] rows[p][j] == pattern_language(
            patterns[p]@,
        ).contains(names[j]@));
    tests_run_by_patterns(texts, rows);
    first_of_a_name_runs(texts, rows);
    assert forall|k: int| 0 <= k < order.len() implies exists|p: int|
        0 <= p < n && pattern_language((#[trigger] patterns[p])@).contains(
            names[#[trigger] order[k] as int]@,
        ) by {
        let p = choose|p: int| 0 <= p < rows.len() && (#[trigger] rows[p])[order[k] as int];
        assert(rows[p][order[k] as int]);
        assert(pattern_language(patterns[p]@).contains(names[order[k] as int]@));
    }
    assert forall|p: int, j: int|
        0 <= p < n && 0 <= j < names.len() && pattern_language((#[trigger] patterns[p])@).contains(
            (#[trigger] names[j])@,
        ) implies exists|k: int|
        0 <= k < order.len() && names[#[trigger] order[k] as int]@ == names[j]@ by {
        assert(rows[p][j]);
        let k = choose|k: int| 0 <= k < order.len() && texts[#[trigger] order[k] as int] == texts[j];
        assert(names[order[k] as int]@ == names[j]@);
    }
    assert forall|a: int, b: int| 0 <= a < b < order.len() implies ({
        let i = #[trigger] order[a] as int;
        let j = #[trigger] order[b] as int;
        exists|p: int|
            0 <= p < n && pattern_language((#[trigger] patterns[p])@).contains(names[i]@) && (
            pattern_language(patterns[p]@).contains(names[j]@) ==> i < j) && forall|q: int|
                0 <= q < p ==> !pattern_language((#[trigger] patterns[q])@).contains(names[j]@)
    }) by {
        let (i, j) = (order[a] as int, order[b] as int);
        let p = choose|p: int|
            0 <= p < rows.len() && (#[trigger] rows[p])[i] && (rows[p][j] ==> i < j)
                && forall|q: int| 0 <= q < p ==> !(#[trigger] rows[q])[j];
        assert(rows[p][i] && (rows[p][j] ==> i < j));
        assert(pattern_language(patterns[p]@).contains(names[i]@));
        assert forall|q: int| 0 <= q < p implies !pattern_language(
            (#[trigger] patterns[q])@,
        ).contains(names[j]@) by {
            assert(!rows[q][j]);
        }
    }
    assert forall|k: int, j: int| 0 <= k < order.len() && 0 <= j < order[k] implies (
    #[trigger] names[j])@ != names[#[trigger] order[k] as int]@ by {
        assert(texts[j] != texts[order[k] as int]);
    }
}

/// The error that is reported, in place of a test case, for a pattern that does not
/// compile.
pub fn invalid_pattern_error(pattern: &str, cause: &str) -> (error: RpcError)
    ensures
        error matches RpcError::Other(text) && text@ == "invalid regex spec '"@ + pattern@
            + "' for test case: "@ + cause@,
{
    let mut text: String = "invalid regex spec '".to_owned();
    text.append(pattern);
    text.append("' for test case: ");
    text.append(cause);
    RpcError::Other(text)
}

/// The error of a test case whose task could not be joined.
pub fn join_error(cause: &str) -> (error: RpcError)
    ensures
        error matches RpcError::Other(text) && text@ == "join error: "@ + cause@,
{
    RpcError::Other("join error: ".to_owned().concat(cause))
}

/// Whether a choice holds numbers of names only.
spec fn in_range(order: Seq<usize>, names: Seq<Seq<char>>) -> bool {
    forall|k: int| 0 <= k < order.len() ==> #[trigger] order[k] < names.len()
}

/// Whether no two of the chosen test cases have the same name.
pub open spec fn names_differ(order: Seq<usize>, names: Seq<Seq<char>>) -> bool {
    forall|a: int, b: int|
        0 <= a < b < order.len() ==> names[#[trigger] order[a] as int] != names[#[trigger] order[b] as int]
}

/// Whether one of the patterns hits the name `j`.
pub open spec fn hit_by_any(rows: Seq<Seq<bool>>, j: int) -> bool {
    exists|p: int| 0 <= p < rows.len() && #[trigger] rows[p][j]
}

/// What holding one pattern against the first `n` names does to a choice: what was chosen
/// stays in front; what is added is hit, comes in ascending order and has a new name;
/// and every name that is hit is chosen in the end.
proof fn choose_by_pattern_facts(
    order: Seq<usize>,
    names: Seq<Seq<char>>,
    hits: Seq<bool>,
    n: nat,
)
    requires
        n <= names.len(),
        names.len() <= usize::MAX,
        in_range(order, names),
        names_differ(order, names),
    ensures
        ({
            let after = choose_by_pattern(order, names, hits, n);
            &&& in_range(after, names)
            &&& names_differ(after, names)
            &&& order.len() <= after.len()
            &&& after.take(order.len() as int) == order
            &&& forall|k: int|
                order.len() <= k < after.len() ==> #[trigger] after[k] < n && hits[after[k] as int]
            &&& forall|a: int, b: int|
                order.len() <= a < b < after.len() ==> #[trigger] after[a] < #[trigger] after[b]
            &&& forall|j: int| 0 <= j < n && #[trigger] hits[j] ==> chosen(after, names, names[j])
        }),
    decreases n,
{
    let after = choose_by_pattern(order, names, hits, n);
    if n == 0 {
        assert(after.take(order.len() as int) =~= order);
    } else {
        let before = choose_by_pattern(order, names, hits, (n - 1) as nat);
        choose_by_pattern_facts(order, names, hits, (n - 1) as nat);
        let last = n - 1;
        if hits[last] && !chosen(before, names, names[last]) {
            assert(after == before.push(last as usize));
            assert(after.take(order.len() as int) =~= before.take(order.len() as int));
            assert forall|a: int, b: int| 0 <= a < b < after.len() implies names[#[trigger] after[a] as int]
                != names[#[trigger] after[b] as int] by {
                assert(after[a] == before[a]);
                if b < before.len() {
                    assert(after[b] == before[b]);
                } else {
                    assert(names[before[a] as int] != names[last]);
                }
            }
        }
        assert forall|j: int| 0 <= j < n && #[trigger] hits[j] implies chosen(
            after,
            names,
            names[j],
        ) by {
            if chosen(before, names, names[j]) {
                let k = choose|k: int|
                    0 <= k < before.len() && names[#[trigger] before[k] as int] == names[j];
                assert(after[k] == before[k]);
            } else {
                assert(j == last);
                assert(after[after.len() - 1] == last as usize);
            }
        }
    }
}

proof fn choose_by_patterns_facts(names: Seq<Seq<char>>, rows: Seq<Seq<bool>>)
    requires
        names.len() <= usize::MAX,
    ensures
        in_range(choose_by_patterns(names, rows), names),
        names_differ(choose_by_patterns(names, rows), names),
        forall|k: int|
            0 <= k < choose_by_patterns(names, rows).len() ==> hit_by_any(
                rows,
                #[trigger] choose_by_patterns(names, rows)[k] as int,
            ),
        forall|p: int, j: int|
            0 <= p < rows.len() && 0 <= j < names.len() && #[trigger] rows[p][j] ==> chosen(
                choose_by_patterns(names, rows),
                names,
                names[j],
            ),
    decreases rows.len(),
{
    let after = choose_by_patterns(names, rows);
    if rows.len() > 0 {
        let rest = rows.drop_last();
        let before = choose_by_patterns(names, rest);
        choose_by_patterns_facts(names, rest);
        choose_by_pattern_facts(before, names, rows.last(), names.len());
        assert forall|k: int| 0 <= k < after.len() implies hit_by_any(
            rows,
            #[trigger] after[k] as int,
        ) by {
            if k < before.len() {
                assert(after.take(before.len() as int)[k] == after[k]);
                assert(hit_by_any(rest, before[k] as int));
                let p = choose|p: int| 0 <= p < rest.len() && #[trigger] rest[p][before[k] as int];
                assert(rows[p][after[k] as int]);
            } else {
                assert(rows[rows.len() - 1][after[k] as int]);
            }
        }
        assert forall|p: int, j: int|
            0 <= p < rows.len() && 0 <= j < names.len() && #[trigger] rows[p][j] implies chosen(
            after,
            names,
            names[j],
        ) by {
            if p < rest.len() {
                assert(rest[p][j]);
                assert(chosen(before, names, names[j]));
                let k = choose|k: int|
                    0 <= k < before.len() && names[#[trigger] before[k] as int] == names[j];
                assert(after.take(before.len() as int)[k] == after[k]);
            } else {
                assert(rows.last()[j]);
            }
        }
    }
}

/// Tests are run at most once, even if they match more than one pattern: no two of the
/// chosen test cases have the same name.
pub proof fn each_test_runs_at_most_once(names: Seq<Seq<char>>, rows: Seq<Seq<bool>>)
    requires
        names.len() <= usize::MAX,
    ensures
        names_differ(choose_by_patterns(names, rows), names),
{
    choose_by_patterns_facts(names, rows);
}

/// All tests that match any of the patterns run, and no others: a chosen test case is hit
/// by a pattern, and a name that a pattern hits is chosen.
pub proof fn matching_tests_run(names: Seq<Seq<char>>, rows: Seq<Seq<bool>>)
    requires
        names.len() <= usize::MAX,
    ensures
        forall|k: int|
            0 <= k < choose_by_patterns(names, rows).len() ==> hit_by_any(
                rows,
                #[trigger] choose_by_patterns(names, rows)[k] as int,
            ),
        forall|p: int, j: int|
            0 <= p < rows.len() && 0 <= j < names.len() && #[trigger] rows[p][j] ==> chosen(
                choose_by_patterns(names, rows),
                names,
                names[j],
            ),
{
    choose_by_patterns_facts(names, rows);
}

/// The order of the test runs is based on the order of the patterns: what the first `m`
/// patterns choose comes first, whatever patterns follow.
pub proof fn earlier_patterns_come_first(names: Seq<Seq<char>>, rows: Seq<Seq<bool>>, m: int)
    requires
        names.len() <= usize::MAX,
        0 <= m <= rows.len(),
    ensures
        choose_by_patterns(names, rows.take(m)).len() <= choose_by_patterns(names, rows).len(),
        choose_by_patterns(names, rows).take(
            choose_by_patterns(names, rows.take(m)).len() as int,
        ) == choose_by_patterns(names, rows.take(m)),
    decreases rows.len(),
{
    let first = choose_by_patterns(names, rows.take(m));
    let after = choose_by_patterns(names, rows);
    if m == rows.len() {
        assert(rows.take(m) =~= rows);
        assert(after.take(after.len() as int) =~= after);
    } else {
        let rest = rows.drop_last();
        let before = choose_by_patterns(names, rest);
        earlier_patterns_come_first(names, rest, m);
        assert(rest.take(m) =~= rows.take(m));
        choose_by_patterns_facts(names, rest);
        choose_by_pattern_facts(before, names, rows.last(), names.len());
        assert(after.take(first.len() as int) =~= after.take(before.len() as int).take(
            first.len() as int,
        ));
    }
}

/// The test cases that the last pattern adds run in the order in which they are listed.
pub proof fn added_tests_run_as_listed(names: Seq<Seq<char>>, rows: Seq<Seq<bool>>, a: int, b: int)
    requires
        names.len() <= usize::MAX,
        rows.len() > 0,
        choose_by_patterns(names, rows.drop_last()).len() <= a < b < choose_by_patterns(
            names,
            rows,
        ).len(),
    ensures
        choose_by_patterns(names, rows)[a] < choose_by_patterns(names, rows)[b],
{
    let before = choose_by_patterns(names, rows.drop_last());
    choose_by_patterns_facts(names, rows.drop_last());
    choose_by_pattern_facts(before, names, rows.last(), names.len());
}

/// Whether, of the names `i` and `j`, the patterns put `i` first: by a pattern that hits
/// it while none before hits `j`, or by the list where that pattern hits both.
spec fn put_first(rows: Seq<Seq<bool>>, i: int, j: int) -> bool {
    exists|p: int|
        0 <= p < rows.len() && (#[trigger] rows[p])[i] && (rows[p][j] ==> i < j) && forall|q: int|
            0 <= q < p ==> !(#[trigger] rows[q])[j]
}

/// What one pattern adds to any choice: what was chosen stays in front, and what is added is
/// hit, comes as listed and has a name that is not there yet; no name that is hit is missing.
proof fn added_by_pattern(order: Seq<usize>, names: Seq<Seq<char>>, hits: Seq<bool>, n: nat)
    requires
        n <= names.len(),
        names.len() <= usize::MAX,
        in_range(order, names),
    ensures
        ({
            let after = choose_by_pattern(order, names, hits, n);
            &&& in_range(after, names)
            &&& order.len() <= after.len()
            &&& forall|k: int| 0 <= k < order.len() ==> #[trigger] after[k] == order[k]
            &&& forall|k: int|
                order.len() <= k < after.len() ==> #[trigger] after[k] < n && hits[after[k] as int]
            &&& forall|a: int, b: int|
                order.len() <= a < b < after.len() ==> #[trigger] after[a] < #[trigger] after[b]
            &&& forall|a: int, b: int|
                0 <= a < b < after.len() && order.len() <= b ==> names[#[trigger] after[a] as int]
                    != names[#[trigger] after[b] as int]
            &&& forall|j: int|
                0 <= j < n && #[trigger] hits[j] ==> chosen(after, names, names[j])
            &&& forall|k: int, j: int|
                order.len() <= k < after.len() && 0 <= j < after[k] && hits[j]
                    ==> #[trigger] names[j] != names[#[trigger] after[k] as int]
        }),
    decreases n,
{
    if n > 0 {
        let before = choose_by_pattern(order, names, hits, (n - 1) as nat);
        let after = choose_by_pattern(order, names, hits, n);
        added_by_pattern(order, names, hits, (n - 1) as nat);
        let last = n - 1;
        if hits[last] && !chosen(before, names, names[last]) {
            assert(after == before.push(last as usize));
            assert forall|k: int| 0 <= k < order.len() implies #[trigger] after[k] == order[k] by {
                assert(after[k] == before[k]);
            }
            assert forall|a: int, b: int|
                0 <= a < b < after.len() && order.len() <= b implies names[#[trigger] after[a] as int]
                != names[#[trigger] after[b] as int] by {
                assert(after[a] == before[a]);
                if b < before.len() {
                    assert(after[b] == before[b]);
                } else {
                    assert(names[before[a] as int] != names[last]);
                }
            }
            assert forall|k: int, j: int|
                order.len() <= k < after.len() && 0 <= j < after[k] && hits[j] implies #[trigger] names[j]
                != names[#[trigger] after[k] as int] by {
                if k < before.len() {
                    assert(after[k] == before[k]);
                } else {
                    assert(hits[j]);
                    assert(chosen(before, names, names[j]));
                }
            }
        }
        assert forall|j: int| 0 <= j < n && #[trigger] hits[j] implies chosen(
            after,
            names,
            names[j],
        ) by {
            if chosen(before, names, names[j]) {
                let k = choose|k: int|
                    0 <= k < before.len() && names[#[trigger] before[k] as int] == names[j];
                assert(after[k] == before[k]);
            } else {
                assert(j == last);
                assert(after[after.len() - 1] == last as usize);
            }
        }
    }
}

/// Where the patterns go by the names alone, the first test case of a name is the one that
/// runs.
pub proof fn first_of_a_name_runs(names: Seq<Seq<char>>, rows: Seq<Seq<bool>>)
    requires
        names.len() <= usize::MAX,
        forall|p: int, i: int, j: int|
            0 <= p < rows.len() && 0 <= i < names.len() && 0 <= j < names.len() && names[i]
                == names[j] ==> #[trigger] rows[p][i] == #[trigger] rows[p][j],
    ensures
        forall|k: int, j: int|
            0 <= k < choose_by_patterns(names, rows).len() && 0 <= j < choose_by_patterns(
                names,
                rows,
            )[k] ==> #[trigger] names[j] != names[#[trigger] choose_by_patterns(
                names,
                rows,
            )[k] as int],
    decreases rows.len(),
{
    if rows.len() > 0 {
        let rest = rows.drop_last();
        let before = choose_by_patterns(names, rest);
        let after = choose_by_patterns(names, rows);
        let last = rows.len() - 1;
        assert forall|p: int, i: int, j: int|
            0 <= p < rest.len() && 0 <= i < names.len() && 0 <= j < names.len() && names[i]
                == names[j] implies #[trigger] rest[p][i] == #[trigger] rest[p][j] by {
            assert(rows[p][i] == rows[p][j]);
        }
        first_of_a_name_runs(names, rest);
        choose_by_patterns_facts(names, rest);
        added_by_pattern(before, names, rows.last(), names.len());
        assert forall|k: int, j: int|
            0 <= k < after.len() && 0 <= j < after[k] implies #[trigger] names[j]
            != names[#[trigger] after[k] as int] by {
            if k < before.len() {
                assert(after[k] == before[k]);
            } else if names[j] == names[after[k] as int] {
                assert(rows[last][j] == rows[last][after[k] as int]);
                assert(rows.last()[j]);
            }
        }
    }
}

proof fn patterns_put_first(names: Seq<Seq<char>>, rows: Seq<Seq<bool>>)
    requires
        names.len() <= usize::MAX,
    ensures
        forall|a: int, b: int|
            0 <= a < b < choose_by_patterns(names, rows).len() ==> put_first(
                rows,
                #[trigger] choose_by_patterns(names, rows)[a] as int,
                #[trigger] choose_by_patterns(names, rows)[b] as int,
            ),
    decreases rows.len(),
{
    if rows.len() > 0 {
        let rest = rows.drop_last();
        let before = choose_by_patterns(names, rest);
        let after = choose_by_patterns(names, rows);
        let last = rows.len() - 1;
        patterns_put_first(names, rest);
        choose_by_patterns_facts(names, rest);
        added_by_pattern(before, names, rows.last(), names.len());
        assert(forall|p: int| 0 <= p < rest.len() ==> #[trigger] rest[p] == rows[p]);
        assert forall|a: int, b: int| 0 <= a < b < after.len() implies put_first(
            rows,
            #[trigger] after[a] as int,
            #[trigger] after[b] as int,
        ) by {
            let (i, j) = (after[a] as int, after[b] as int);
            if b < before.len() {
                assert(put_first(rest, before[a] as int, before[b] as int));
                let p = choose|p: int|
                    0 <= p < rest.len() && (#[trigger] rest[p])[i] && (rest[p][j] ==> i < j)
                        && forall|q: int| 0 <= q < p ==> !(#[trigger] rest[q])[j];
                assert(rows[p] == rest[p]);
                assert forall|q: int| 0 <= q < p implies !(#[trigger] rows[q])[j] by {
                    assert(rest[q] == rows[q]);
                }
            } else {
                assert forall|q: int| 0 <= q < last implies !(#[trigger] rows[q])[j] by {
                    if rows[q][j] {
                        assert(rest[q][j]);
                        assert(chosen(before, names, names[j]));
                        let k = choose|k: int|
                            0 <= k < before.len() && names[#[trigger] before[k] as int] == names[j];
                        assert(after[k] == before[k]);
                        assert(names[after[k] as int] != names[after[b] as int]);
                    }
                }
                if a < before.len() {
                    assert(hit_by_any(rest, before[a] as int));
                    let p = choose|p: int| 0 <= p < rest.len() && #[trigger] rest[p][i];
                    assert(rows[p][i]);
                    assert(!rows[p][j]);
                } else {
                    assert(rows[last][i]);
                    assert(i < j);
                }
            }
        }
    }
}

/// Which tests run and in which order, by the patterns that hit them. No two have the same
/// name. Each is hit, and for each name that is hit there is one. Of two, the first is hit
/// by a pattern before which none hits the second; where that pattern hits both, they run
/// as listed.
pub proof fn tests_run_by_patterns(names: Seq<Seq<char>>, rows: Seq<Seq<bool>>)
    requires
        names.len() <= usize::MAX,
    ensures
        forall|k: int|
            0 <= k < choose_by_patterns(names, rows).len() ==> #[trigger] choose_by_patterns(
                names,
                rows,
            )[k] < names.len(),
        forall|a: int, b: int|
            0 <= a < b < choose_by_patterns(names, rows).len()
                ==> names[#[trigger] choose_by_patterns(names, rows)[a] as int]
                != names[#[trigger] choose_by_patterns(names, rows)[b] as int],
        forall|k: int|
            0 <= k < choose_by_patterns(names, rows).len() ==> exists|p: int|
                0 <= p < rows.len() && (#[trigger] rows[p])[#[trigger] choose_by_patterns(
                    names,
                    rows,
                )[k] as int],
        forall|p: int, j: int|
            0 <= p < rows.len() && 0 <= j < names.len() && #[trigger] rows[p][j] ==> exists|k: int|
                0 <= k < choose_by_patterns(names, rows).len()
                    && names[#[trigger] choose_by_patterns(names, rows)[k] as int] == names[j],
        forall|a: int, b: int|
            0 <= a < b < choose_by_patterns(names, rows).len() ==> {
                let i = #[trigger] choose_by_patterns(names, rows)[a] as int;
                let j = #[trigger] choose_by_patterns(names, rows)[b] as int;
                exists|p: int|
                    0 <= p < rows.len() && (#[trigger] rows[p])[i] && (rows[p][j] ==> i < j)
                        && forall|q: int| 0 <= q < p ==> !(#[trigger] rows[q])[j]
            },
{
    let order = choose_by_patterns(names, rows);
    choose_by_patterns_facts(names, rows);
    patterns_put_first(names, rows);
    assert forall|k: int| 0 <= k < order.len() implies exists|p: int|
        0 <= p < rows.len() && (#[trigger] rows[p])[#[trigger] order[k] as int] by {
        assert(hit_by_any(rows, order[k] as int));
        let p = choose|p: int| 0 <= p < rows.len() && #[trigger] rows[p][order[k] as int];
        assert(rows[p][order[k] as int]);
    }
    assert forall|p: int, j: int|
        0 <= p < rows.len() && 0 <= j < names.len() && #[trigger] rows[p][j] implies exists|k: int|
        0 <= k < order.len() && names[#[trigger] order[k] as int] == names[j] by {
        assert(chosen(order, names, names[j]));
    }
    assert forall|a: int, b: int| 0 <= a < b < order.len() implies ({
        let i = #[trigger] order[a] as int;
        let j = #[trigger] order[b] as int;
        exists|p: int|
            0 <= p < rows.len() && (#[trigger] rows[p])[i] && (rows[p][j] ==> i < j)
                && forall|q: int| 0 <= q < p ==> !(#[trigger] rows[q])[j]
    }) by {
        assert(put_first(rows, order[a] as int, order[b] as int));
    }
}

/// A pattern that hits no test case changes nothing: the choice is the one without it, and
/// the patterns after it choose as if it were not there.
pub proof fn pattern_without_hits_changes_nothing(
    names: Seq<Seq<char>>,
    before: Seq<Seq<bool>>,
    row: Seq<bool>,
    after: Seq<Seq<bool>>,
)
    requires
        forall|j: int| 0 <= j < names.len() ==> !#[trigger] row[j],
    ensures
        choose_by_patterns(names, before.push(row) + after) == choose_by_patterns(
            names,
            before + after,
        ),
    decreases after.len(),
{
    if after.len() == 0 {
        assert(before.push(row) + after =~= before.push(row));
        assert(before + after =~= before);
        assert(before.push(row).drop_last() =~= before);
        no_hits_add_nothing(choose_by_patterns(names, before), names, row, names.len());
    } else {
        let rest = after.drop_last();
        pattern_without_hits_changes_nothing(names, before, row, rest);
        assert((before.push(row) + after).drop_last() =~= before.push(row) + rest);
        assert((before + after).drop_last() =~= before + rest);
        assert((before.push(row) + after).last() == after.last());
        assert((before + after).last() == after.last());
    }
}

proof fn no_hits_add_nothing(order: Seq<usize>, names: Seq<Seq<char>>, row: Seq<bool>, n: nat)
    requires
        n <= names.len(),
        forall|j: int| 0 <= j < names.len() ==> !#[trigger] row[j],
    ensures
        choose_by_pattern(order, names, row, n) == order,
    decreases n,
{
    if n > 0 {
        no_hits_add_nothing(order, names, row, (n - 1) as nat);
    }
}

} // verus!
