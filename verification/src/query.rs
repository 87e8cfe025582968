//! Queries: which lines of an index a chain of regular expressions lets
//! through, and how the expressions of a query are made from what the user
//! typed.

use crate::config::TypesMap;
use crate::engine::{compile, error_text, is_match, regex_compiles, regex_is_match, Matcher};
use crate::index::{decode, decode_index};
use crate::text::{contains_upper, has_upper, is_upper, split, split_on, texts};
use vstd::prelude::*;
use vstd::string::*;

verus! {

/// Against what a regular expression is meant to match.
#[derive(Debug, Clone, Copy, PartialEq, Eq, Structural)]
pub enum MatchMode {
    /// Anywhere in the path.
    FullPath,
    /// Within the last segment of the path only.
    Basename,
}

/// Why a query did not run.
#[derive(Debug, Clone, PartialEq, Eq)]
pub enum QueryError {
    /// The database was never created.
    DoesNotExist,
    /// The database was created but holds no index yet.
    Empty,
    /// A pattern is not a regular expression; the text says why.
    InvalidRegex(String),
}

/// The one-line diagnostic for `error`, met while querying database
/// `db_name`.
pub open spec fn query_diagnostic(error: QueryError, db_name: Seq<char>) -> Seq<char> {
    match error {
        QueryError::DoesNotExist => "Database "@ + db_name
            + " doesn't exist. Perhaps you forgot to run lolcate --create "@ + db_name + " ?"@,
        QueryError::Empty => "Database "@ + db_name
            + " is empty. Perhaps you forgot to run lolcate --update "@ + db_name + " ?"@,
        QueryError::InvalidRegex(reason) => "Invalid regex: "@ + reason@,
    }
}

impl QueryError {
    /// The one-line diagnostic for this error, met while querying database
    /// `db_name`.
    pub fn message(&self, db_name: &str) -> (text: String)
        ensures
            text@ == query_diagnostic(*self, db_name@),
    {
        match self {
            QueryError::DoesNotExist => {
                let mut text = "Database ".to_owned();
                text.append(db_name);
                text.append(" doesn't exist. Perhaps you forgot to run lolcate --create ");
                text.append(db_name);
                text.append(" ?");
                text
            },
            QueryError::Empty => {
                let mut text = "Database ".to_owned();
                text.append(db_name);
                text.append(" is empty. Perhaps you forgot to run lolcate --update ");
                text.append(db_name);
                text.append(" ?");
                text
            },
            QueryError::InvalidRegex(reason) => {
                let mut text = "Invalid regex: ".to_owned();
                text.append(reason.as_str());
                text
            },
        }
    }
}

/// The diagnostic for a database that does not exist is never the one for a
/// database that is empty, whatever the database is called.
pub proof fn lemma_missing_is_not_empty(db_name: Seq<char>)
    ensures
        query_diagnostic(QueryError::DoesNotExist, db_name) != query_diagnostic(
            QueryError::Empty,
            db_name,
        ),
{
    reveal_strlit("Database ");
    reveal_strlit(" doesn't exist. Perhaps you forgot to run lolcate --create ");
    reveal_strlit(" is empty. Perhaps you forgot to run lolcate --update ");
    let missing = query_diagnostic(QueryError::DoesNotExist, db_name);
    let empty = query_diagnostic(QueryError::Empty, db_name);
    let at = ("Database "@.len() + db_name.len() + 1) as int;
    assert(missing[at] == 'd');
    assert(empty[at] == 'i');
}

/// Whether a database can be queried, from what is on disk: whether its
/// configuration directory exists and, if its index file exists, how many
/// bytes that holds.  A database without a configuration directory does not
/// exist; one with a configuration directory but without an index, or with an
/// index of no bytes, is empty.  The two are never taken for one another.
pub fn database_state(config_dir_exists: bool, index_size: Option<u64>) -> (r: Result<
    (),
    QueryError,
>)
    ensures
        r == Err::<(), QueryError>(QueryError::DoesNotExist) <==> !config_dir_exists,
        r == Err::<(), QueryError>(QueryError::Empty) <==> config_dir_exists && (index_size
            is None || index_size == Some(0u64)),
        r is Ok <==> config_dir_exists && index_size is Some && index_size != Some(0u64),
{
    if !config_dir_exists {
        return Err(QueryError::DoesNotExist);
    }
    match index_size {
        None => Err(QueryError::Empty),
        Some(size) => {
            if size == 0 {
                Err(QueryError::Empty)
            } else {
                Ok(())
            }
        },
    }
}

/// A regular expression of a query as plain values: the expression that is
/// searched for in a whole line, whether the search ignores case, and what
/// the expression is meant to match against.
pub struct PatternView {
    pub source: Seq<char>,
    pub case_insensitive: bool,
    pub mode: MatchMode,
}

/// A regular expression of a query, before it is compiled.
#[derive(Debug, Clone)]
pub struct Pattern {
    pub source: String,
    pub case_insensitive: bool,
    pub mode: MatchMode,
}

impl View for Pattern {
    type V = PatternView;

    open spec fn view(&self) -> PatternView {
        PatternView {
            source: self.source@,
            case_insensitive: self.case_insensitive,
            mode: self.mode,
        }
    }
}

/// A compiled regular expression of a query.
pub struct RegexPredicate {
    matcher: Matcher,
    mode: MatchMode,
}

impl View for RegexPredicate {
    type V = PatternView;

    closed spec fn view(&self) -> PatternView {
        PatternView {
            source: self.matcher.pattern(),
            case_insensitive: self.matcher.case_insensitive(),
            mode: self.mode,
        }
    }
}

/// The views of patterns, in order.
pub open spec fn pattern_views(patterns: Seq<Pattern>) -> Seq<PatternView> {
    Seq::new(patterns.len(), |i: int| patterns[i]@)
}

/// The views of compiled expressions, in order.
pub open spec fn views(predicates: Seq<RegexPredicate>) -> Seq<PatternView> {
    Seq::new(predicates.len(), |i: int| predicates[i]@)
}

/// Smart case: a pattern is matched without regard to case unless the caller
/// asked for that anyway or the pattern itself holds an upper-case letter.
pub open spec fn smart_case(pattern: Seq<char>, ignore_case: bool) -> bool {
    ignore_case || !contains_upper(pattern)
}

/// The expression that finds `pattern` within the last segment of a path:
/// after a `/`, with no further `/` before or after it up to the end.
pub open spec fn basename_source(pattern: Seq<char>) -> Seq<char> {
    "/[^/]*"@ + pattern + "[^/]*$"@
}

/// A pattern that is matched against the whole path.
pub open spec fn full_path(pattern: Seq<char>, ignore_case: bool) -> PatternView {
    PatternView {
        source: pattern,
        case_insensitive: smart_case(pattern, ignore_case),
        mode: MatchMode::FullPath,
    }
}

/// A pattern that is matched against the last segment of the path.
pub open spec fn basename(pattern: Seq<char>, ignore_case: bool) -> PatternView {
    PatternView {
        source: basename_source(pattern),
        case_insensitive: smart_case(basename_source(pattern), ignore_case),
        mode: MatchMode::Basename,
    }
}

/// The expression of a named file type: matched against the whole path, with
/// regard to case.
pub open spec fn of_type(pattern: Seq<char>) -> PatternView {
    PatternView { source: pattern, case_insensitive: false, mode: MatchMode::FullPath }
}

/// The expressions that the type names stand for, in the order of the names.
/// A name that the table does not define stands for nothing.
pub open spec fn wanted_types(
    names: Seq<Seq<char>>,
    types: Map<Seq<char>, Seq<char>>,
) -> Seq<PatternView>
    decreases names.len(),
{
    if names.len() == 0 {
        Seq::empty()
    } else {
        let before = wanted_types(names.drop_last(), types);
        if types.contains_key(names.last()) {
            before.push(of_type(types[names.last()]))
        } else {
            before
        }
    }
}

/// The expressions of the patterns of a query: those for whole paths first,
/// then those for the last segment, each group in the order given.
pub open spec fn wanted_patterns(
    patterns: Seq<Seq<char>>,
    basename_patterns: Seq<Seq<char>>,
    ignore_case: bool,
) -> Seq<PatternView> {
    Seq::new(patterns.len(), |i: int| full_path(patterns[i], ignore_case)) + Seq::new(
        basename_patterns.len(),
        |i: int| basename(basename_patterns[i], ignore_case),
    )
}

/// Whether the engine accepts the expression.
pub open spec fn compiles(pattern: PatternView) -> bool {
    regex_compiles(pattern.source, pattern.case_insensitive)
}

/// Whether every expression is accepted by the engine.
pub open spec fn all_compile(patterns: Seq<PatternView>) -> bool {
    forall|i: int| 0 <= i < patterns.len() ==> compiles(#[trigger] patterns[i])
}

/// Whether the expression matches somewhere in `line`.
pub open spec fn accepts(pattern: PatternView, line: Seq<char>) -> bool {
    regex_is_match(pattern.source, pattern.case_insensitive, line)
}

/// Whether a line passes a query.  The type expressions are alternatives: a
/// line has to match one of them, unless there are none.  The patterns are
/// conditions: a line has to match each of them.
pub open spec fn passes(
    patterns: Seq<PatternView>,
    types: Seq<PatternView>,
    line: Seq<char>,
) -> bool {
    &&& types.len() == 0 || exists|i: int| 0 <= i < types.len() && accepts(#[trigger] types[i], line)
    &&& forall|i: int| 0 <= i < patterns.len() ==> accepts(#[trigger] patterns[i], line)
}

/// The lines that pass a query, as a predicate.
pub open spec fn passing(patterns: Seq<PatternView>, types: Seq<PatternView>) -> spec_fn(
    Seq<char>,
) -> bool {
    |line: Seq<char>| passes(patterns, types, line)
}

/// The pattern that matches `pattern` against the whole path, smart case
/// applied.
pub fn full_path_pattern(pattern: &str, ignore_case: bool) -> (r: Pattern)
    ensures
        r@ == full_path(pattern@, ignore_case),
{
    let case_insensitive = ignore_case || !has_upper(pattern);
    Pattern { source: pattern.to_owned(), case_insensitive, mode: MatchMode::FullPath }
}

/// The pattern that matches `pattern` against the last segment of the path,
/// smart case applied.
pub fn basename_pattern(pattern: &str, ignore_case: bool) -> (r: Pattern)
    ensures
        r@ == basename(pattern@, ignore_case),
{
    let mut source = "/[^/]*".to_owned();
    source.append(pattern);
    source.append("[^/]*$");
    let case_insensitive = ignore_case || !has_upper(source.as_str());
    Pattern { source, case_insensitive, mode: MatchMode::Basename }
}

/// Smart case looks at what the user typed: the text put around a pattern to
/// tie it to the last segment holds no upper-case letter.
pub proof fn lemma_basename_smart_case(pattern: Seq<char>, ignore_case: bool)
    ensures
        smart_case(basename_source(pattern), ignore_case) == smart_case(pattern, ignore_case),
{
    reveal_strlit("/[^/]*");
    reveal_strlit("[^/]*$");
    let before = "/[^/]*"@;
    let after = "[^/]*$"@;
    let source = basename_source(pattern);
    assert forall|i: int| 0 <= i < before.len() implies !is_upper(#[trigger] before[i]) by {}
    assert forall|i: int| 0 <= i < after.len() implies !is_upper(#[trigger] after[i]) by {}
    if contains_upper(pattern) {
        let j = choose|j: int| 0 <= j < pattern.len() && is_upper(#[trigger] pattern[j]);
        assert(source[before.len() + j] == pattern[j]);
    }
    if contains_upper(source) {
        let j = choose|j: int| 0 <= j < source.len() && is_upper(#[trigger] source[j]);
        if j < before.len() {
            assert(source[j] == before[j]);
        } else if j < before.len() + pattern.len() {
            assert(source[j] == pattern[j - before.len()]);
        } else {
            assert(source[j] == after[j - before.len() - pattern.len()]);
        }
    }
}

/// The patterns that the comma-separated type names in `type_names` stand
/// for.  Names that `types` does not define are passed over.
pub fn type_patterns(type_names: &str, types: &TypesMap) -> (r: Vec<Pattern>)
    ensures
        pattern_views(r@) == wanted_types(split(type_names@, ','), types@),
{
    let names = split_on(type_names, ',');
    let mut wanted: Vec<Pattern> = Vec::new();
    let mut i: usize = 0;
    while i < names.len()
        invariant
            0 <= i <= names@.len(),
            pattern_views(wanted@) == wanted_types(texts(names@).take(i as int), types@),
        decreases names@.len() - i,
    {
        proof {
            let upto = texts(names@).take(i + 1);
            assert(upto.drop_last() =~= texts(names@).take(i as int));
            assert(upto.last() == names@[i as int]@);
        }
        let ghost had = pattern_views(wanted@);
        match types.get(names[i].as_str()) {
            Some(source) => {
                wanted.push(
                    Pattern {
                        source: source.clone(),
                        case_insensitive: false,
                        mode: MatchMode::FullPath,
                    },
                );
                proof {
                    assert(pattern_views(wanted@) =~= had.push(of_type(source@)));
                }
            },
            None => {},
        }
        i += 1;
    }
    proof {
        assert(texts(names@).take(names@.len() as int) =~= texts(names@));
    }
    wanted
}

/// The patterns of a query: `patterns` for whole paths, then
/// `basename_patterns` for last segments.
pub fn query_patterns(
    patterns: &Vec<String>,
    basename_patterns: &Vec<String>,
    ignore_case: bool,
) -> (r: Vec<Pattern>)
    ensures
        pattern_views(r@) == wanted_patterns(
            texts(patterns@),
            texts(basename_patterns@),
            ignore_case,
        ),
{
    let mut wanted: Vec<Pattern> = Vec::new();
    let mut i: usize = 0;
    while i < patterns.len()
        invariant
            0 <= i <= patterns@.len(),
            pattern_views(wanted@) == Seq::new(
                i as nat,
                |k: int| full_path(patterns@[k]@, ignore_case),
            ),
        decreases patterns@.len() - i,
    {
        let ghost had = pattern_views(wanted@);
        wanted.push(full_path_pattern(patterns[i].as_str(), ignore_case));
        proof {
            assert(pattern_views(wanted@) =~= had.push(full_path(patterns@[i as int]@, ignore_case)));
        }
        i += 1;
    }
    let ghost first = pattern_views(wanted@);
    let mut j: usize = 0;
    while j < basename_patterns.len()
        invariant
            0 <= j <= basename_patterns@.len(),
            pattern_views(wanted@) == first + Seq::new(
                j as nat,
                |k: int| basename(basename_patterns@[k]@, ignore_case),
            ),
        decreases basename_patterns@.len() - j,
    {
        let ghost had = pattern_views(wanted@);
        wanted.push(basename_pattern(basename_patterns[j].as_str(), ignore_case));
        proof {
            assert(pattern_views(wanted@) =~= had.push(
                basename(basename_patterns@[j as int]@, ignore_case),
            ));
        }
        j += 1;
    }
    proof {
        assert(pattern_views(wanted@) =~= wanted_patterns(
            texts(patterns@),
            texts(basename_patterns@),
            ignore_case,
        ));
    }
    wanted
}

/// What a compile attempt of the engine means for the query.
fn predicate_from(
    outcome: Result<Matcher, regex::Error>,
    mode: MatchMode,
) -> (r: Result<RegexPredicate, QueryError>)
    ensures
        r is Ok <==> outcome is Ok,
        r matches Ok(p) ==> p@ == (PatternView {
            source: outcome->Ok_0.pattern(),
            case_insensitive: outcome->Ok_0.case_insensitive(),
            mode,
        }),
        r matches Err(e) ==> e is InvalidRegex,
{
    match outcome {
        Ok(matcher) => Ok(RegexPredicate { matcher, mode }),
        Err(error) => Err(QueryError::InvalidRegex(error_text(&error))),
    }
}

/// Compiles a pattern.  It fails, with `InvalidRegex`, exactly when the
/// engine does not accept the expression.
pub fn compile_pattern(pattern: &Pattern) -> (r: Result<RegexPredicate, QueryError>)
    ensures
        r is Ok <==> compiles(pattern@),
        r matches Ok(p) ==> p@ == pattern@,
        r matches Err(e) ==> e is InvalidRegex,
{
    predicate_from(compile(pattern.source.as_str(), pattern.case_insensitive), pattern.mode)
}

/// Compiles every pattern, in order.  It fails, with the error of the first
/// pattern that the engine does not accept, exactly when there is one.
pub fn compile_all(patterns: &Vec<Pattern>) -> (r: Result<Vec<RegexPredicate>, QueryError>)
    ensures
        r is Ok <==> all_compile(pattern_views(patterns@)),
        r matches Ok(compiled) ==> views(compiled@) == pattern_views(patterns@),
        r matches Err(e) ==> e is InvalidRegex,
{
    let mut compiled: Vec<RegexPredicate> = Vec::new();
    let mut i: usize = 0;
    while i < patterns.len()
        invariant
            0 <= i <= patterns@.len(),
            views(compiled@) == pattern_views(patterns@).take(i as int),
            all_compile(pattern_views(patterns@).take(i as int)),
        decreases patterns@.len() - i,
    {
        let ghost had = views(compiled@);
        match compile_pattern(&patterns[i]) {
            Ok(predicate) => {
                compiled.push(predicate);
            },
            Err(error) => {
                proof {
                    assert(!compiles(pattern_views(patterns@)[i as int]));
                }
                return Err(error);
            },
        }
        proof {
            assert(views(compiled@) =~= had.push(patterns@[i as int]@));
            assert(pattern_views(patterns@).take(i + 1) =~= had.push(patterns@[i as int]@));
        }
        i += 1;
    }
    proof {
        assert(pattern_views(patterns@).take(patterns@.len() as int) =~= pattern_views(
            patterns@,
        ));
    }
    Ok(compiled)
}

/// Compiles a pattern that is matched against the whole path, smart case
/// applied.
pub fn build_regex(pattern: &str, ignore_case: bool) -> (r: Result<RegexPredicate, QueryError>)
    ensures
        r is Ok <==> compiles(full_path(pattern@, ignore_case)),
        r matches Ok(p) ==> p@ == full_path(pattern@, ignore_case),
        r matches Err(e) ==> e is InvalidRegex,
{
    compile_pattern(&full_path_pattern(pattern, ignore_case))
}

/// The compiled expressions of a query.
pub struct Query {
    /// Alternatives: a line has to match one of them, unless there are none.
    pub types: Vec<RegexPredicate>,
    /// Conditions: a line has to match each of them.
    pub patterns: Vec<RegexPredicate>,
}

/// Makes the expressions of a query from what the user typed: the
/// comma-separated names of file types, the patterns for whole paths and the
/// patterns for last segments.  Nothing is compiled for a type name that
/// `types` does not define.  The query is made exactly when the engine
/// accepts every expression.
pub fn build_query(
    type_names: &str,
    types: &TypesMap,
    patterns: &Vec<String>,
    basename_patterns: &Vec<String>,
    ignore_case: bool,
) -> (r: Result<Query, QueryError>)
    ensures
        r is Ok <==> all_compile(wanted_types(split(type_names@, ','), types@)) && all_compile(
            wanted_patterns(texts(patterns@), texts(basename_patterns@), ignore_case),
        ),
        r matches Ok(query) ==> views(query.types@) == wanted_types(
            split(type_names@, ','),
            types@,
        ) && views(query.patterns@) == wanted_patterns(
            texts(patterns@),
            texts(basename_patterns@),
            ignore_case,
        ),
        r matches Err(e) ==> e is InvalidRegex,
{
    let types = match compile_all(&type_patterns(type_names, types)) {
        Ok(compiled) => compiled,
        Err(error) => {
            return Err(error);
        },
    };
    let patterns = match compile_all(&query_patterns(patterns, basename_patterns, ignore_case)) {
        Ok(compiled) => compiled,
        Err(error) => {
            return Err(error);
        },
    };
    Ok(Query { types, patterns })
}

impl RegexPredicate {
    /// What the expression was compiled from.
    pub fn pattern(&self) -> (r: Pattern)
        ensures
            r@ == self@,
    {
        Pattern {
            source: self.matcher.source().clone(),
            case_insensitive: self.matcher.ignores_case(),
            mode: self.mode,
        }
    }

    /// Whether the expression matches somewhere in `line`.
    pub fn is_match(&self, line: &str) -> (r: bool)
        ensures
            r == accepts(self@, line@),
    {
        is_match(&self.matcher, line)
    }
}

/// For each expression, whether it matches somewhere in `line`.
pub fn hits(predicates: &Vec<RegexPredicate>, line: &str) -> (r: Vec<bool>)
    ensures
        r@ == Seq::new(predicates@.len(), |i: int| accepts(predicates@[i]@, line@)),
{
    let mut found: Vec<bool> = Vec::new();
    let mut i: usize = 0;
    while i < predicates.len()
        invariant
            0 <= i <= predicates@.len(),
            found@ == Seq::new(i as nat, |k: int| accepts(predicates@[k]@, line@)),
        decreases predicates@.len() - i,
    {
        found.push(predicates[i].is_match(line));
        proof {
            assert(found@ =~= Seq::new((i + 1) as nat, |k: int| accepts(predicates@[k]@, line@)));
        }
        i += 1;
    }
    found
}

/// Whether a line with these hits among the alternatives goes on: one hit is
/// enough, and where there are no alternatives every line goes on.
pub fn any_or_none(hits: &Vec<bool>) -> (r: bool)
    ensures
        r == (hits@.len() == 0 || exists|i: int| 0 <= i < hits@.len() && hits@[i]),
{
    if hits.len() == 0 {
        return true;
    }
    let mut i: usize = 0;
    while i < hits.len()
        invariant
            0 <= i <= hits@.len(),
            forall|k: int| 0 <= k < i ==> !hits@[k],
        decreases hits@.len() - i,
    {
        if hits[i] {
            return true;
        }
        i += 1;
    }
    false
}

/// Whether a line with these hits among the conditions goes on: every
/// condition has to be a hit.
pub fn all_hit(hits: &Vec<bool>) -> (r: bool)
    ensures
        r == forall|i: int| 0 <= i < hits@.len() ==> hits@[i],
{
    let mut i: usize = 0;
    while i < hits.len()
        invariant
            0 <= i <= hits@.len(),
            forall|k: int| 0 <= k < i ==> hits@[k],
        decreases hits@.len() - i,
    {
        if !hits[i] {
            return false;
        }
        i += 1;
    }
    true
}

/// Whether `line` passes the query.  The types are looked at first; the
/// patterns only for a line that the types let through.
pub fn line_passes(line: &str, patterns: &Vec<RegexPredicate>, types: &Vec<RegexPredicate>) -> (r:
    bool)
    ensures
        r == passes(views(patterns@), views(types@), line@),
{
    let type_hits = hits(types, line);
    if !any_or_none(&type_hits) {
        proof {
            assert forall|i: int| 0 <= i < types@.len() implies !accepts(
                #[trigger] views(types@)[i],
                line@,
            ) by {
                assert(!type_hits@[i]);
            }
        }
        return false;
    }
    proof {
        if type_hits@.len() > 0 {
            let i = choose|i: int| 0 <= i < type_hits@.len() && type_hits@[i];
            assert(accepts(views(types@)[i], line@));
        }
    }
    let pattern_hits = hits(patterns, line);
    let all = all_hit(&pattern_hits);
    proof {
        if all {
            assert forall|i: int| 0 <= i < patterns@.len() implies accepts(
                #[trigger] views(patterns@)[i],
                line@,
            ) by {
                assert(pattern_hits@[i]);
            }
        } else {
            let i = choose|i: int| 0 <= i < pattern_hits@.len() && !pattern_hits@[i];
            assert(!accepts(views(patterns@)[i], line@));
        }
    }
    all
}

/// The lines among `lines` that pass the query, in the order given.
pub fn select_lines(
    lines: &Vec<String>,
    patterns: &Vec<RegexPredicate>,
    types: &Vec<RegexPredicate>,
) -> (found: Vec<String>)
    ensures
        texts(found@) == texts(lines@).filter(passing(views(patterns@), views(types@))),
{
    let ghost wanted = passing(views(patterns@), views(types@));
    let mut found: Vec<String> = Vec::new();
    let mut i: usize = 0;
    proof {
        reveal(Seq::filter);
        assert(texts(lines@).take(0) =~= Seq::<Seq<char>>::empty());
    }
    while i < lines.len()
        invariant
            0 <= i <= lines@.len(),
            wanted == passing(views(patterns@), views(types@)),
            texts(found@) == texts(lines@).take(i as int).filter(wanted),
        decreases lines@.len() - i,
    {
        let ghost had = texts(found@);
        proof {
            reveal(Seq::filter);
            let upto = texts(lines@).take(i + 1);
            assert(upto.drop_last() =~= texts(lines@).take(i as int));
            assert(upto.last() == lines@[i as int]@);
        }
        if line_passes(lines[i].as_str(), patterns, types) {
            found.push(lines[i].clone());
            proof {
                assert(texts(found@) =~= had.push(lines@[i as int]@));
            }
        }
        i += 1;
    }
    proof {
        assert(texts(lines@).take(lines@.len() as int) =~= texts(lines@));
    }
    found
}

/// The lines of the index `index` that pass the query, in the order in which
/// the index holds them.
pub fn lookup_database(
    index: &str,
    patterns: &Vec<RegexPredicate>,
    types: &Vec<RegexPredicate>,
) -> (found: Vec<String>)
    ensures
        texts(found@) == decode(index@).filter(passing(views(patterns@), views(types@))),
{
    let lines = decode_index(index);
    select_lines(&lines, patterns, types)
}

} // verus!
