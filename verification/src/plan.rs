//! The decisions the command line makes before generating SQL: the table
//! name, the engine configuration of a single table, and the names of the
//! migration files.
use vstd::prelude::*;
use crate::generator::opt_view;
use crate::diff::opt_str_view;
use crate::scanner::SuggestionView;
use crate::scanner::scan;
use crate::scanner::suggestions_for;
use crate::scanner::suggestions_view;
use crate::scanner::EngineSuggestion;
use crate::scanner::first_of;
use crate::scanner::numeric_names;
use crate::scanner::suggests_summing;
use crate::scanner::timestamp_names;
use crate::schema::Column;
use crate::schema::EngineConfig;
use crate::schema::InferredSchema;
use crate::schema::TableEngine;
use crate::schema::engine_named;
use crate::schema::unknown_engine_message;
use crate::text::concat;
use crate::text::split_at_char;
use crate::text::split_seq;
use crate::text::str_eq;
use crate::text::trim;
use crate::text::trimmed;

verus! {

broadcast use vstd::string::group_string_axioms;

/// What `Path::file_stem` gives for a path, as text.
pub uninterp spec fn path_file_stem(path: Seq<char>) -> Option<Seq<char>>;

/// `std::path::Path::file_stem` of a path given as text; its rules
/// (components, leading dots) are named rather than restated.
#[verifier::external_body]
fn file_stem(path: &str) -> (res: Option<String>)
    ensures
        opt_view(res) == path_file_stem(path@),
{
    std::path::Path::new(path).file_stem().map(|s| s.to_string_lossy().into_owned())
}

/// The table name: the one given, else the input file's stem (`None` when the
/// input path has no stem).
pub fn table_name_from(name: Option<String>, input: &str) -> (res: Option<String>)
    ensures
        opt_view(res) == match name {
            Some(n) => Some(n@),
            None => path_file_stem(input@),
        },
{
    match name {
        Some(n) => Some(n),
        None => file_stem(input),
    }
}

/// `{t}_up.sql` and `{t}_down.sql`.
pub fn migration_file_names(table_name: &str) -> (res: (String, String))
    ensures
        res.0@ == table_name@ + "_up.sql"@,
        res.1@ == table_name@ + "_down.sql"@,
{
    (concat(table_name, "_up.sql"), concat(table_name, "_down.sql"))
}

/// The fields of an `--order-by` argument: comma-separated, each trimmed.
pub open spec fn order_by_fields(arg: Seq<char>) -> Seq<Seq<char>> {
    split_seq(arg, ',').map_values(|p: Seq<char>| trimmed(p))
}

/// Position of the first suggestion with engine `e`, or -1.
pub open spec fn first_with_engine(sugs: Seq<SuggestionView>, e: TableEngine) -> int
    decreases sugs.len(),
{
    if sugs.len() == 0 {
        -1
    } else {
        let p = first_with_engine(sugs.drop_last(), e);
        if p >= 0 {
            p
        } else if sugs.last().engine == e {
            sugs.len() - 1
        } else {
            -1
        }
    }
}

/// The engine configuration of a table: engine, `ORDER BY` fields and summed
/// columns, or the error for an unknown engine name.
///
/// Without an engine, the first suggestion. With one, its `ORDER BY` comes
/// from `--order-by` if given, else from the first suggestion of that engine
/// (the first suggestion if there is none); the summed columns are those of
/// the `SummingMergeTree` suggestion, if any. A replicated scan is asked for
/// exactly when the engine is `ReplicatedMergeTree`.
pub open spec fn table_config(
    cols: Seq<Column>,
    engine: Option<Seq<char>>,
    order_by: Option<Seq<char>>,
) -> Result<(TableEngine, Seq<Seq<char>>, Seq<Seq<char>>), Seq<char>> {
    let sugs = suggestions_for(cols, engine == Some("ReplicatedMergeTree"@));
    match engine {
        None => Ok((sugs[0].engine, sugs[0].order_by, sugs[0].sum_columns)),
        Some(name) => match engine_named(name) {
            None => Err(unknown_engine_message(name)),
            Some(e) => {
                let order = match order_by {
                    Some(arg) => order_by_fields(arg),
                    None => {
                        let p = first_with_engine(sugs, e);
                        if p >= 0 {
                            sugs[p].order_by
                        } else {
                            sugs[0].order_by
                        }
                    },
                };
                let q = first_with_engine(sugs, TableEngine::SummingMergeTree);
                let sums = if q >= 0 {
                    sugs[q].sum_columns
                } else {
                    Seq::empty()
                };
                Ok((e, order, sums))
            },
        },
    }
}

proof fn lemma_first_with_engine(sugs: Seq<SuggestionView>, e: TableEngine, i: int)
    requires
        0 <= i <= sugs.len(),
        forall|j: int| 0 <= j < i ==> sugs[j].engine != e,
        i < sugs.len() ==> sugs[i].engine == e,
    ensures
        i < sugs.len() ==> first_with_engine(sugs, e) == i,
        i == sugs.len() ==> first_with_engine(sugs, e) == -1,
    decreases sugs.len(),
{
    if sugs.len() > 0 {
        if i < sugs.len() - 1 {
            lemma_first_with_engine(sugs.drop_last(), e, i);
        } else {
            lemma_first_with_engine(sugs.drop_last(), e, sugs.len() - 1);
        }
    }
}

fn find_engine(sugs: &Vec<EngineSuggestion>, e: TableEngine) -> (p: Option<usize>)
    ensures
        match p {
            Some(i) => i < sugs.len() && first_with_engine(suggestions_view(sugs@), e) == i,
            None => first_with_engine(suggestions_view(sugs@), e) == -1,
        },
{
    let ghost sv = suggestions_view(sugs@);
    let mut i: usize = 0;
    while i < sugs.len()
        invariant
            sv == suggestions_view(sugs@),
            i <= sugs.len(),
            forall|j: int| 0 <= j < i ==> sv[j].engine != e,
        decreases sugs.len() - i,
    {
        if sugs[i].engine == e {
            proof {
                lemma_first_with_engine(sv, e, i as int);
            }
            return Some(i);
        }
        i = i + 1;
    }
    proof {
        lemma_first_with_engine(sv, e, sugs.len() as int);
    }
    None
}

fn clone_fields(v: &Vec<String>) -> (res: Vec<String>)
    ensures
        res.deep_view() == v.deep_view(),
{
    let ghost dv = v.deep_view();
    let mut res: Vec<String> = Vec::new();
    let mut i: usize = 0;
    while i < v.len()
        invariant
            dv == v.deep_view(),
            i <= v.len(),
            res.deep_view() == dv.take(i as int),
        decreases v.len() - i,
    {
        let ghost r0 = res.deep_view();
        res.push(v[i].clone());
        assert(res.deep_view() =~= r0.push(dv[i as int]));
        assert(dv.take(i + 1) =~= dv.take(i as int).push(dv[i as int]));
        i = i + 1;
    }
    assert(dv.take(v.len() as int) =~= dv);
    res
}

/// Splits an `--order-by` argument into trimmed fields.
fn parse_order_by(arg: &str) -> (res: Vec<String>)
    ensures
        res.deep_view() == order_by_fields(arg@),
{
    let pieces = split_at_char(arg, ',');
    let ghost pv = pieces.deep_view();
    let mut res: Vec<String> = Vec::new();
    let mut i: usize = 0;
    while i < pieces.len()
        invariant
            pv == pieces.deep_view(),
            i <= pieces.len(),
            res.deep_view() == pv.take(i as int).map_values(|p: Seq<char>| trimmed(p)),
        decreases pieces.len() - i,
    {
        let field = trim(pieces[i].as_str());
        let ghost r0 = res.deep_view();
        res.push(field);
        assert(res.deep_view() =~= r0.push(trimmed(pv[i as int])));
        assert(pv.take(i + 1).map_values(|p: Seq<char>| trimmed(p)) =~= pv.take(
            i as int,
        ).map_values(|p: Seq<char>| trimmed(p)).push(trimmed(pv[i as int])));
        i = i + 1;
    }
    assert(pv.take(pieces.len() as int) =~= pv);
    res
}

/// The engine configuration for a `CREATE TABLE` migration of `schema`, from
/// the optional engine name and `--order-by` argument.
pub fn resolve_engine_config(
    schema: &InferredSchema,
    engine: Option<&str>,
    order_by: Option<&str>,
) -> (res: Result<EngineConfig, String>)
    ensures
        match table_config(schema.columns@, opt_str_view(engine), opt_str_view(order_by)) {
            Ok(c) => res is Ok && res->Ok_0.engine == c.0 && res->Ok_0.order_by.deep_view()
                == c.1 && res->Ok_0.sum_columns.deep_view() == c.2,
            Err(m) => res is Err && res->Err_0@ == m,
        },
{
    let replicated = match engine {
        Some(e) => str_eq(e, "ReplicatedMergeTree"),
        None => false,
    };
    assert(replicated == (opt_str_view(engine) == Some("ReplicatedMergeTree"@)));
    let scan_result = scan(schema, replicated);
    let sugs = &scan_result.suggestions;
    let ghost sv = suggestions_view(sugs@);
    assert(sv.len() > 0 && sv[0] == sugs@[0]@);
    match engine {
        None => Ok(sugs[0].to_engine_config()),
        Some(name) => {
            let e = TableEngine::from_name(name)?;
            let order = match order_by {
                Some(arg) => parse_order_by(arg),
                None => match find_engine(sugs, e) {
                    Some(p) => clone_fields(&sugs[p].order_by),
                    None => clone_fields(&sugs[0].order_by),
                },
            };
            let sums = match find_engine(sugs, TableEngine::SummingMergeTree) {
                Some(q) => clone_fields(&sugs[q].sum_columns),
                None => {
                    let v: Vec<String> = Vec::new();
                    assert(v.deep_view() =~= Seq::<Seq<char>>::empty());
                    v
                },
            };
            Ok(EngineConfig { engine: e, order_by: order, sum_columns: sums })
        },
    }
}

/// The `SummingMergeTree` suggestion, when there is one, is the last; no
/// other suggestion has that engine.
proof fn lemma_summing_position(cols: Seq<Column>, replicated: bool)
    ensures
        suggests_summing(cols) ==> first_with_engine(
            suggestions_for(cols, replicated),
            TableEngine::SummingMergeTree,
        ) == suggestions_for(cols, replicated).len() - 1,
        !suggests_summing(cols) ==> first_with_engine(
            suggestions_for(cols, replicated),
            TableEngine::SummingMergeTree,
        ) == -1,
{
    let sugs = suggestions_for(cols, replicated);
    let n = sugs.len() as int;
    if suggests_summing(cols) {
        assert forall|j: int| 0 <= j < n - 1 implies sugs[j].engine
            != TableEngine::SummingMergeTree by {}
        lemma_first_with_engine(sugs, TableEngine::SummingMergeTree, n - 1);
    } else {
        assert forall|j: int| 0 <= j < n implies sugs[j].engine
            != TableEngine::SummingMergeTree by {}
        lemma_first_with_engine(sugs, TableEngine::SummingMergeTree, n);
    }
}

/// The summed columns that `table_config` picks from the suggestions.
pub open spec fn suggested_sums(sugs: Seq<SuggestionView>) -> Seq<Seq<char>> {
    let q = first_with_engine(sugs, TableEngine::SummingMergeTree);
    if q >= 0 {
        sugs[q].sum_columns
    } else {
        Seq::empty()
    }
}

proof fn lemma_config_known_engine(cols: Seq<Column>, name: Seq<char>, e: TableEngine, order_by: Option<Seq<char>>)
    requires
        engine_named(name) == Some(e),
    ensures
        ({
            let sugs = suggestions_for(cols, name == "ReplicatedMergeTree"@);
            let p = first_with_engine(sugs, e);
            table_config(cols, Some(name), order_by) == Ok::<
                (TableEngine, Seq<Seq<char>>, Seq<Seq<char>>),
                Seq<char>,
            >((e, match order_by {
                Some(arg) => order_by_fields(arg),
                None => if p >= 0 {
                    sugs[p].order_by
                } else {
                    sugs[0].order_by
                },
            }, suggested_sums(sugs)))
        }),
{
}

proof fn lemma_sums_and_first(cols: Seq<Column>, replicated: bool)
    ensures
        suggested_sums(suggestions_for(cols, replicated)) == if suggests_summing(cols) {
            numeric_names(cols)
        } else {
            Seq::<Seq<char>>::empty()
        },
        suggestions_for(cols, replicated)[0].order_by == first_of(timestamp_names(cols)),
{
    lemma_summing_position(cols, replicated);
}

/// How a table's engine configuration is resolved for a known engine `e`:
/// the engine is `e`; an `--order-by` argument gives the key as its trimmed
/// fields; without one, the key is that of the first suggestion of engine
/// `e`, and when no suggestion has that engine, that of the first
/// suggestion, the `MergeTree` ordered by the first timestamp-like field;
/// the summed columns are the numeric non-id fields when a
/// `SummingMergeTree` is suggested, and none otherwise.
pub proof fn law_table_config_fallbacks(cols: Seq<Column>, name: Seq<char>, e: TableEngine, arg: Seq<char>)
    requires
        engine_named(name) == Some(e),
    ensures
        ({
            let sugs = suggestions_for(cols, name == "ReplicatedMergeTree"@);
            let sums = if suggests_summing(cols) {
                numeric_names(cols)
            } else {
                Seq::<Seq<char>>::empty()
            };
            let cfg = table_config(cols, Some(name), None);
            &&& table_config(cols, Some(name), Some(arg)) == Ok::<
                (TableEngine, Seq<Seq<char>>, Seq<Seq<char>>),
                Seq<char>,
            >((e, order_by_fields(arg), sums))
            &&& cfg is Ok
            &&& cfg->Ok_0.0 == e
            &&& cfg->Ok_0.2 == sums
            &&& (forall|i: int| 0 <= i < sugs.len() ==> (#[trigger] sugs[i]).engine != e)
                ==> cfg->Ok_0.1 == first_of(timestamp_names(cols))
            &&& forall|i: int|
                0 <= i < sugs.len() && (#[trigger] sugs[i]).engine == e && (forall|j: int|
                    0 <= j < i ==> sugs[j].engine != e) ==> cfg->Ok_0.1 == sugs[i].order_by
        }),
{
    let replicated = name == "ReplicatedMergeTree"@;
    let sugs = suggestions_for(cols, replicated);
    lemma_config_known_engine(cols, name, e, Some(arg));
    lemma_config_known_engine(cols, name, e, None);
    lemma_sums_and_first(cols, replicated);
    if forall|i: int| 0 <= i < sugs.len() ==> (#[trigger] sugs[i]).engine != e {
        lemma_first_with_engine(sugs, e, sugs.len() as int);
    }
    assert forall|i: int|
        0 <= i < sugs.len() && (#[trigger] sugs[i]).engine == e && (forall|j: int|
            0 <= j < i ==> sugs[j].engine != e) implies table_config(cols, Some(name), None)->Ok_0.1
        == sugs[i].order_by by {
        lemma_first_with_engine(sugs, e, i);
    }
}

/// Without an engine, a table is a plain `MergeTree` ordered by the first
/// timestamp-like field and sums nothing, whatever `--order-by` says; an
/// engine name that denotes no engine is refused with its message.
pub proof fn law_table_config_defaults(cols: Seq<Column>, name: Seq<char>, order_by: Option<Seq<char>>)
    ensures
        table_config(cols, None, order_by) == Ok::<
            (TableEngine, Seq<Seq<char>>, Seq<Seq<char>>),
            Seq<char>,
        >((TableEngine::MergeTree, first_of(timestamp_names(cols)), Seq::<Seq<char>>::empty())),
        engine_named(name) is None ==> table_config(cols, Some(name), order_by) == Err::<
            (TableEngine, Seq<Seq<char>>, Seq<Seq<char>>),
            Seq<char>,
        >(unknown_engine_message(name)),
{
}

} // verus!
