//! Field roles (timestamp-like, id-like, numeric) and the table engines they
//! suggest.
use vstd::prelude::*;
use crate::schema::Column;
use crate::schema::ColumnType;
use crate::schema::EngineConfig;
use crate::schema::InferredSchema;
use crate::schema::TableEngine;
use crate::schema::ch_type_name;
use crate::text::ends_with;
use crate::text::join;
use crate::text::join_seqs;
use crate::text::lowercase_of;
use crate::text::str_ends_with;
use crate::text::str_eq;
use crate::text::to_lowercase;

verus! {

broadcast use vstd::string::group_string_axioms;

/// A field name that reads as a timestamp: after lowercasing, one of
/// `timestamp`, `date`, `created_at`, `updated_at`, `event_time`, or ending in
/// `_at`, `_time` or `_date`.
pub open spec fn is_timestamp_name(name: Seq<char>) -> bool {
    let l = lowercase_of(name);
    ||| l == "timestamp"@
    ||| l == "date"@
    ||| l == "created_at"@
    ||| l == "updated_at"@
    ||| l == "event_time"@
    ||| ends_with(l, "_at"@)
    ||| ends_with(l, "_time"@)
    ||| ends_with(l, "_date"@)
}

/// A field name that reads as an identifier: after lowercasing, `id` or
/// `uuid`, or ending in `_id` or `_uuid`.
pub open spec fn is_id_name(name: Seq<char>) -> bool {
    let l = lowercase_of(name);
    ||| l == "id"@
    ||| l == "uuid"@
    ||| ends_with(l, "_id"@)
    ||| ends_with(l, "_uuid"@)
}

/// Integer and float types.
pub open spec fn is_numeric_type(t: ColumnType) -> bool {
    t == ColumnType::Int64 || t == ColumnType::UInt64 || t == ColumnType::Float64
}

fn is_timestamp(name: &str) -> (b: bool)
    ensures
        b == is_timestamp_name(name@),
{
    let lower = to_lowercase(name);
    let l = lower.as_str();
    if str_eq(l, "timestamp") || str_eq(l, "date") || str_eq(l, "created_at") || str_eq(
        l,
        "updated_at",
    ) || str_eq(l, "event_time") {
        return true;
    }
    str_ends_with(l, "_at") || str_ends_with(l, "_time") || str_ends_with(l, "_date")
}

fn is_id(name: &str) -> (b: bool)
    ensures
        b == is_id_name(name@),
{
    let lower = to_lowercase(name);
    let l = lower.as_str();
    if str_eq(l, "id") || str_eq(l, "uuid") {
        return true;
    }
    str_ends_with(l, "_id") || str_ends_with(l, "_uuid")
}

fn is_numeric(col_type: &ColumnType) -> (b: bool)
    ensures
        b == is_numeric_type(*col_type),
{
    match col_type {
        ColumnType::Int64 | ColumnType::UInt64 | ColumnType::Float64 => true,
        _ => false,
    }
}

/// The first element of a sequence, if any, as a sequence.
pub open spec fn first_of(s: Seq<Seq<char>>) -> Seq<Seq<char>> {
    if s.len() > 0 {
        seq![s[0]]
    } else {
        Seq::empty()
    }
}

/// Up to one leading id field and one leading timestamp field, in that
/// order: the default grouping and ordering key.
pub open spec fn dimensions(ids: Seq<Seq<char>>, ts: Seq<Seq<char>>) -> Seq<Seq<char>> {
    first_of(ids) + first_of(ts)
}

fn clone_strings(v: &Vec<String>) -> (res: Vec<String>)
    ensures
        res.deep_view() == v.deep_view(),
{
    let ghost dv = v.deep_view();
    let mut res: Vec<String> = Vec::new();
    let mut i: usize = 0;
    while i < v.len()
        invariant
            dv == v.deep_view(),
            i <= v.len(),
            res.deep_view() == dv.take(i as int),
        decreases v.len() - i,
    {
        let ghost r0 = res.deep_view();
        res.push(v[i].clone());
        assert(res.deep_view() =~= r0.push(dv[i as int]));
        assert(dv.take(i + 1) =~= dv.take(i as int).push(dv[i as int]));
        i = i + 1;
    }
    assert(dv.take(v.len() as int) =~= dv);
    res
}

fn first_only(v: &Vec<String>) -> (res: Vec<String>)
    ensures
        res.deep_view() == first_of(v.deep_view()),
{
    let mut res: Vec<String> = Vec::new();
    if v.len() > 0 {
        res.push(v[0].clone());
        assert(res.deep_view() =~= seq![v.deep_view()[0]]);
    } else {
        assert(res.deep_view() =~= Seq::<Seq<char>>::empty());
    }
    res
}

fn primary_dimensions(id_fields: &Vec<String>, timestamp_fields: &Vec<String>) -> (res: Vec<
    String,
>)
    ensures
        res.deep_view() == dimensions(id_fields.deep_view(), timestamp_fields.deep_view()),
{
    let mut res = first_only(id_fields);
    let mut more = first_only(timestamp_fields);
    let ghost a = res.deep_view();
    let ghost b = more.deep_view();
    res.append(&mut more);
    assert(res.deep_view() =~= a + b);
    res
}

/// A field of the schema with the roles its name and type suggest.
pub struct FieldRole {
    pub name: String,
    pub ch_type: String,
    pub nullable: bool,
    pub timestamp: bool,
    pub id: bool,
    pub numeric: bool,
}

/// `f` is the role record of column `c`. A numeric id is not a metric.
pub open spec fn role_of(f: FieldRole, c: Column) -> bool {
    &&& f.name@ == c.name@
    &&& f.ch_type@ == ch_type_name(c.ch_type, c.nullable)
    &&& f.nullable == c.nullable
    &&& f.timestamp == is_timestamp_name(c.name@)
    &&& f.id == is_id_name(c.name@)
    &&& f.numeric == (is_numeric_type(c.ch_type) && !is_id_name(c.name@))
}

/// A suggested engine with its key, its summed columns and why.
pub struct EngineSuggestion {
    pub engine: TableEngine,
    pub order_by: Vec<String>,
    pub sum_columns: Vec<String>,
    pub rationale: String,
}

/// The abstract content of a suggestion.
pub struct SuggestionView {
    pub engine: TableEngine,
    pub order_by: Seq<Seq<char>>,
    pub sum_columns: Seq<Seq<char>>,
    pub rationale: Seq<char>,
}

impl View for EngineSuggestion {
    type V = SuggestionView;

    open spec fn view(&self) -> SuggestionView {
        SuggestionView {
            engine: self.engine,
            order_by: self.order_by.deep_view(),
            sum_columns: self.sum_columns.deep_view(),
            rationale: self.rationale@,
        }
    }
}

impl EngineSuggestion {
    /// The engine configuration this suggestion stands for.
    pub fn to_engine_config(&self) -> (c: EngineConfig)
        ensures
            c.engine == self.engine,
            c.order_by.deep_view() == self.order_by.deep_view(),
            c.sum_columns.deep_view() == self.sum_columns.deep_view(),
    {
        EngineConfig {
            engine: self.engine,
            order_by: clone_strings(&self.order_by),
            sum_columns: clone_strings(&self.sum_columns),
        }
    }
}

/// The field roles of a schema and the engines they suggest.
pub struct ScanResult {
    pub fields: Vec<FieldRole>,
    pub suggestions: Vec<EngineSuggestion>,
}

/// The roles a field can play in an engine suggestion.
#[derive(Clone, Copy, PartialEq, Eq)]
pub enum Role {
    Timestamp,
    Id,
    Metric,
}

/// Column `c` plays `role`: a timestamp-like name, an id-like name, or a
/// numeric type under a name that is not id-like.
pub open spec fn has_role(c: Column, role: Role) -> bool {
    match role {
        Role::Timestamp => is_timestamp_name(c.name@),
        Role::Id => is_id_name(c.name@),
        Role::Metric => is_numeric_type(c.ch_type) && !is_id_name(c.name@),
    }
}

/// Names of the columns that play `role`, in order.
pub open spec fn names_with_role(cs: Seq<Column>, role: Role) -> Seq<Seq<char>>
    decreases cs.len(),
{
    if cs.len() == 0 {
        Seq::empty()
    } else if has_role(cs.last(), role) {
        names_with_role(cs.drop_last(), role).push(cs.last().name@)
    } else {
        names_with_role(cs.drop_last(), role)
    }
}

/// Names of the timestamp-like fields, in order.
pub open spec fn timestamp_names(cs: Seq<Column>) -> Seq<Seq<char>> {
    names_with_role(cs, Role::Timestamp)
}

/// Names of the id-like fields, in order.
pub open spec fn id_names(cs: Seq<Column>) -> Seq<Seq<char>> {
    names_with_role(cs, Role::Id)
}

/// Names of the numeric fields that are not ids, in order.
pub open spec fn numeric_names(cs: Seq<Column>) -> Seq<Seq<char>> {
    names_with_role(cs, Role::Metric)
}

/// The always-present first suggestion: a (replicated) `MergeTree` ordered
/// by the first timestamp-like field.
pub open spec fn merge_tree_suggestion(cs: Seq<Column>, replicated: bool) -> SuggestionView {
    SuggestionView {
        engine: if replicated {
            TableEngine::ReplicatedMergeTree
        } else {
            TableEngine::MergeTree
        },
        order_by: first_of(timestamp_names(cs)),
        sum_columns: Seq::empty(),
        rationale: "general purpose time-series table"@,
    }
}

/// `ReplacingMergeTree` keyed by the first id and the first timestamp.
pub open spec fn replacing_suggestion(cs: Seq<Column>) -> SuggestionView {
    SuggestionView {
        engine: TableEngine::ReplacingMergeTree,
        order_by: dimensions(id_names(cs), timestamp_names(cs)),
        sum_columns: Seq::empty(),
        rationale: "deduplicates rows by `"@ + id_names(cs)[0] + "` — good for upsert-like data"@,
    }
}

/// `SummingMergeTree` summing the numeric fields, grouped by the dimensions;
/// its rationale names each summed field in backticks.
pub open spec fn summing_suggestion(cs: Seq<Column>) -> SuggestionView {
    let dims = dimensions(id_names(cs), timestamp_names(cs));
    SuggestionView {
        engine: TableEngine::SummingMergeTree,
        order_by: dims,
        sum_columns: numeric_names(cs),
        rationale: "pre-aggregates `"@ + join_seqs(numeric_names(cs), "`, `"@)
            + "` — good for metrics/counters"@,
    }
}

/// A `ReplacingMergeTree` is suggested when there is an id and a timestamp.
pub open spec fn suggests_replacing(cs: Seq<Column>) -> bool {
    id_names(cs).len() > 0 && timestamp_names(cs).len() > 0
}

/// A `SummingMergeTree` is suggested when there are metrics and a dimension.
pub open spec fn suggests_summing(cs: Seq<Column>) -> bool {
    numeric_names(cs).len() > 0 && dimensions(id_names(cs), timestamp_names(cs)).len() > 0
}

/// The suggestions, in order: `MergeTree` always, then `ReplacingMergeTree`
/// and `SummingMergeTree` when they apply.
pub open spec fn suggestions_for(cs: Seq<Column>, replicated: bool) -> Seq<SuggestionView> {
    let s1 = seq![merge_tree_suggestion(cs, replicated)];
    let s2 = if suggests_replacing(cs) {
        s1.push(replacing_suggestion(cs))
    } else {
        s1
    };
    if suggests_summing(cs) {
        s2.push(summing_suggestion(cs))
    } else {
        s2
    }
}

/// The views of a run of suggestions.
pub open spec fn suggestions_view(v: Seq<EngineSuggestion>) -> Seq<SuggestionView> {
    v.map_values(|s: EngineSuggestion| s@)
}

/// Names of the columns that play `role`, in order.
fn names_playing(cols: &Vec<Column>, role: Role) -> (res: Vec<String>)
    ensures
        res.deep_view() == names_with_role(cols@, role),
{
    let mut res: Vec<String> = Vec::new();
    let mut i: usize = 0;
    while i < cols.len()
        invariant
            i <= cols.len(),
            res.deep_view() == names_with_role(cols@.take(i as int), role),
        decreases cols.len() - i,
    {
        assert(cols@.take(i + 1).drop_last() =~= cols@.take(i as int));
        let c = &cols[i];
        let plays = match role {
            Role::Timestamp => is_timestamp(c.name.as_str()),
            Role::Id => is_id(c.name.as_str()),
            Role::Metric => is_numeric(&c.ch_type) && !is_id(c.name.as_str()),
        };
        if plays {
            let ghost r0 = res.deep_view();
            res.push(c.name.clone());
            assert(res.deep_view() =~= r0.push(c.name@));
        }
        i = i + 1;
    }
    assert(cols@.take(cols.len() as int) =~= cols@);
    res
}

/// Classifies the fields of a schema and suggests engines for it; with
/// `replicated` the first suggestion is `ReplicatedMergeTree`.
pub fn scan(schema: &InferredSchema, replicated: bool) -> (r: ScanResult)
    ensures
        r.fields.len() == schema.columns.len(),
        forall|i: int| 0 <= i < r.fields.len() ==> role_of(#[trigger] r.fields@[i], schema.columns@[i]),
        suggestions_view(r.suggestions@) == suggestions_for(schema.columns@, replicated),
{
    let cols = &schema.columns;
    let mut fields: Vec<FieldRole> = Vec::new();
    let mut i: usize = 0;
    while i < cols.len()
        invariant
            i <= cols.len(),
            fields.len() == i,
            forall|k: int| 0 <= k < i ==> role_of(#[trigger] fields@[k], cols@[k]),
        decreases cols.len() - i,
    {
        let col = &cols[i];
        let id = is_id(col.name.as_str());
        let role = FieldRole {
            name: col.name.clone(),
            ch_type: String::from_str(col.ch_type.as_ch_str(col.nullable)),
            nullable: col.nullable,
            timestamp: is_timestamp(col.name.as_str()),
            id,
            numeric: is_numeric(&col.ch_type) && !id,
        };
        fields.push(role);
        i = i + 1;
    }
    let timestamp_fields = names_playing(cols, Role::Timestamp);
    let id_fields = names_playing(cols, Role::Id);
    let numeric_fields = names_playing(cols, Role::Metric);
    let ghost cs = cols@;

    let mut suggestions: Vec<EngineSuggestion> = Vec::new();
    let mt_engine = if replicated {
        TableEngine::ReplicatedMergeTree
    } else {
        TableEngine::MergeTree
    };
    let mt = EngineSuggestion {
        engine: mt_engine,
        order_by: first_only(&timestamp_fields),
        sum_columns: Vec::new(),
        rationale: String::from_str("general purpose time-series table"),
    };
    assert(mt.sum_columns.deep_view() =~= Seq::<Seq<char>>::empty());
    assert(mt@ == merge_tree_suggestion(cs, replicated));
    suggestions.push(mt);
    assert(suggestions_view(suggestions@) =~= seq![merge_tree_suggestion(cs, replicated)]);
    let ghost s1 = suggestions_view(suggestions@);

    if id_fields.len() > 0 && timestamp_fields.len() > 0 {
        let mut rationale = String::from_str("deduplicates rows by `");
        rationale.append(id_fields[0].as_str());
        rationale.append("` — good for upsert-like data");
        let rep = EngineSuggestion {
            engine: TableEngine::ReplacingMergeTree,
            order_by: primary_dimensions(&id_fields, &timestamp_fields),
            sum_columns: Vec::new(),
            rationale,
        };
        assert(rep.sum_columns.deep_view() =~= Seq::<Seq<char>>::empty());
        assert(rep@ == replacing_suggestion(cs));
        let ghost before = suggestions@;
        suggestions.push(rep);
        assert(suggestions@ =~= before.push(rep));
        assert(suggestions_view(suggestions@) =~= s1.push(replacing_suggestion(cs)));
    }
    let ghost s2 = suggestions_view(suggestions@);

    let dims = primary_dimensions(&id_fields, &timestamp_fields);
    if numeric_fields.len() > 0 && dims.len() > 0 {
        let order_by = clone_strings(&dims);
        let sum_columns = clone_strings(&numeric_fields);
        let mut rationale = String::from_str("pre-aggregates `");
        rationale.append(join(&sum_columns, "`, `").as_str());
        rationale.append("` — good for metrics/counters");
        let sum = EngineSuggestion {
            engine: TableEngine::SummingMergeTree,
            order_by,
            sum_columns,
            rationale,
        };
        assert(sum@ == summing_suggestion(cs));
        let ghost before = suggestions@;
        suggestions.push(sum);
        assert(suggestions@ =~= before.push(sum));
        assert(suggestions_view(suggestions@) =~= s2.push(summing_suggestion(cs)));
    }
    ScanResult { fields, suggestions }
}


proof fn lemma_names_subset(cs: Seq<Column>, x: Seq<char>)
    ensures
        timestamp_names(cs).contains(x) ==> exists|i: int|
            0 <= i < cs.len() && (#[trigger] cs[i]).name@ == x && is_timestamp_name(x),
        id_names(cs).contains(x) ==> exists|i: int|
            0 <= i < cs.len() && (#[trigger] cs[i]).name@ == x && is_id_name(x),
        numeric_names(cs).contains(x) ==> exists|i: int|
            0 <= i < cs.len() && (#[trigger] cs[i]).name@ == x && is_numeric_type(cs[i].ch_type)
                && !is_id_name(x),
    decreases cs.len(),
{
    if cs.len() > 0 {
        let d = cs.drop_last();
        lemma_names_subset(d, x);
        if timestamp_names(cs).contains(x) && !timestamp_names(d).contains(x) {
            assert(timestamp_names(cs).last() == x);
            assert(cs[cs.len() - 1].name@ == x);
        }
        if timestamp_names(d).contains(x) {
            let i = choose|i: int| 0 <= i < d.len() && (#[trigger] d[i]).name@ == x && is_timestamp_name(x);
            assert(cs[i] == d[i]);
        }
        if id_names(cs).contains(x) && !id_names(d).contains(x) {
            assert(id_names(cs).last() == x);
            assert(cs[cs.len() - 1].name@ == x);
        }
        if id_names(d).contains(x) {
            let i = choose|i: int| 0 <= i < d.len() && (#[trigger] d[i]).name@ == x && is_id_name(x);
            assert(cs[i] == d[i]);
        }
        if numeric_names(cs).contains(x) && !numeric_names(d).contains(x) {
            assert(numeric_names(cs).last() == x);
            assert(cs[cs.len() - 1].name@ == x);
        }
        if numeric_names(d).contains(x) {
            let i = choose|i: int|
                0 <= i < d.len() && (#[trigger] d[i]).name@ == x && is_numeric_type(d[i].ch_type)
                    && !is_id_name(x);
            assert(cs[i] == d[i]);
        }
    }
}

/// The first suggestion is always a plain (or, when asked, replicated)
/// `MergeTree`, and no suggested key has more than two fields.
pub proof fn law_suggestions_shape(cs: Seq<Column>, replicated: bool)
    ensures
        suggestions_for(cs, replicated).len() >= 1,
        suggestions_for(cs, replicated)[0].engine == if replicated {
            TableEngine::ReplicatedMergeTree
        } else {
            TableEngine::MergeTree
        },
        forall|i: int|
            0 <= i < suggestions_for(cs, replicated).len() ==> (#[trigger] suggestions_for(
                cs,
                replicated,
            )[i]).order_by.len() <= 2,
{
}

/// A `SummingMergeTree` is suggested exactly when there is a numeric field
/// that is not an id and some id or timestamp field to group by; it sums
/// only such numeric fields.
pub proof fn law_summing_sums_metrics(cs: Seq<Column>, replicated: bool, x: Seq<char>)
    ensures
        suggests_summing(cs) <==> (numeric_names(cs).len() > 0 && (id_names(cs).len() > 0
            || timestamp_names(cs).len() > 0)),
        summing_suggestion(cs).sum_columns.contains(x) ==> exists|i: int|
            0 <= i < cs.len() && (#[trigger] cs[i]).name@ == x && is_numeric_type(cs[i].ch_type)
                && !is_id_name(x),
{
    lemma_names_subset(cs, x);
}


/// The default key is the first id field followed by the first timestamp
/// field, leaving out what is missing: at most two names.
pub proof fn law_dimensions(ids: Seq<Seq<char>>, ts: Seq<Seq<char>>)
    ensures
        dimensions(ids, ts).len() <= 2,
        ids.len() > 0 && ts.len() > 0 ==> dimensions(ids, ts) == seq![ids[0], ts[0]],
        ids.len() == 0 ==> dimensions(ids, ts) == first_of(ts),
        ts.len() == 0 ==> dimensions(ids, ts) == first_of(ids),
{
    assert(ids.len() > 0 && ts.len() > 0 ==> dimensions(ids, ts) =~= seq![ids[0], ts[0]]);
    assert(ids.len() == 0 ==> dimensions(ids, ts) =~= first_of(ts));
    assert(ts.len() == 0 ==> dimensions(ids, ts) =~= first_of(ids));
}

/// Timestamp-like names, judged on the lowercased name: `event_time` is,
/// `timestamps` and `at` are not (a suffix needs its underscore).
pub proof fn law_timestamp_examples(name: Seq<char>)
    ensures
        lowercase_of(name) == "event_time"@ ==> is_timestamp_name(name),
        lowercase_of(name) == "order_date"@ ==> is_timestamp_name(name),
        lowercase_of(name) == "timestamps"@ ==> !is_timestamp_name(name),
        lowercase_of(name) == "at"@ ==> !is_timestamp_name(name),
{
    reveal_strlit("timestamp");
    reveal_strlit("date");
    reveal_strlit("created_at");
    reveal_strlit("updated_at");
    reveal_strlit("event_time");
    reveal_strlit("order_date");
    reveal_strlit("_at");
    reveal_strlit("_time");
    reveal_strlit("_date");
    reveal_strlit("timestamps");
    reveal_strlit("at");
    let l = lowercase_of(name);
    if l == "order_date"@ {
        assert(l.subrange(l.len() - 5, l.len() as int) =~= "_date"@);
    }
    if l == "timestamps"@ {
        assert(l.subrange(l.len() - 3, l.len() as int) != "_at"@) by {
            assert(l.subrange(l.len() - 3, l.len() as int)[0] == 'm');
        }
        assert(l.subrange(l.len() - 5, l.len() as int) != "_time"@) by {
            assert(l.subrange(l.len() - 5, l.len() as int)[0] == 't');
        }
        assert(l.subrange(l.len() - 5, l.len() as int) != "_date"@) by {
            assert(l.subrange(l.len() - 5, l.len() as int)[0] == 't');
        }
        assert(l != "timestamp"@);
    }
    if l == "at"@ {
        assert(l.len() == 2);
        assert(!ends_with(l, "_at"@));
        assert(!ends_with(l, "_time"@));
        assert(!ends_with(l, "_date"@));
        assert(l != "date"@);
    }
}

/// Id-like names, judged on the lowercased name: `user_id` and `uuid` are,
/// `valid` and `identity` are not.
pub proof fn law_id_examples(name: Seq<char>)
    ensures
        lowercase_of(name) == "user_id"@ ==> is_id_name(name),
        lowercase_of(name) == "uuid"@ ==> is_id_name(name),
        lowercase_of(name) == "valid"@ ==> !is_id_name(name),
        lowercase_of(name) == "identity"@ ==> !is_id_name(name),
{
    reveal_strlit("id");
    reveal_strlit("uuid");
    reveal_strlit("_id");
    reveal_strlit("_uuid");
    reveal_strlit("user_id");
    reveal_strlit("valid");
    reveal_strlit("identity");
    let l = lowercase_of(name);
    if l == "user_id"@ {
        assert(l.subrange(l.len() - 3, l.len() as int) =~= "_id"@);
    }
    if l == "valid"@ {
        assert(l.subrange(l.len() - 3, l.len() as int) != "_id"@) by {
            assert(l.subrange(l.len() - 3, l.len() as int)[0] == 'l');
        }
        assert(l.subrange(l.len() - 5, l.len() as int) != "_uuid"@) by {
            assert(l.subrange(l.len() - 5, l.len() as int)[0] == 'v');
        }
    }
    if l == "identity"@ {
        assert(l.subrange(l.len() - 3, l.len() as int) != "_id"@) by {
            assert(l.subrange(l.len() - 3, l.len() as int)[0] == 'i');
        }
        assert(l.subrange(l.len() - 5, l.len() as int) != "_uuid"@) by {
            assert(l.subrange(l.len() - 5, l.len() as int)[0] == 'n');
        }
    }
}

/// The timestamp rule in full, on the lowercased name: each of `timestamp`,
/// `date`, `created_at`, `updated_at` and `event_time` is timestamp-like, so
/// is every name ending in `_at`, `_time` or `_date`, and no other name is.
pub proof fn law_timestamp_rule(name: Seq<char>)
    ensures
        lowercase_of(name) == "timestamp"@ ==> is_timestamp_name(name),
        lowercase_of(name) == "date"@ ==> is_timestamp_name(name),
        lowercase_of(name) == "created_at"@ ==> is_timestamp_name(name),
        lowercase_of(name) == "updated_at"@ ==> is_timestamp_name(name),
        lowercase_of(name) == "event_time"@ ==> is_timestamp_name(name),
        ends_with(lowercase_of(name), "_at"@) ==> is_timestamp_name(name),
        ends_with(lowercase_of(name), "_time"@) ==> is_timestamp_name(name),
        ends_with(lowercase_of(name), "_date"@) ==> is_timestamp_name(name),
        is_timestamp_name(name) ==> {
            ||| lowercase_of(name) == "timestamp"@
            ||| lowercase_of(name) == "date"@
            ||| ends_with(lowercase_of(name), "_at"@)
            ||| ends_with(lowercase_of(name), "_time"@)
            ||| ends_with(lowercase_of(name), "_date"@)
        },
{
    reveal_strlit("created_at");
    reveal_strlit("updated_at");
    reveal_strlit("event_time");
    reveal_strlit("_at");
    reveal_strlit("_time");
    let l = lowercase_of(name);
    if l == "created_at"@ || l == "updated_at"@ {
        assert(l.subrange(l.len() - 3, l.len() as int) =~= "_at"@);
    }
    if l == "event_time"@ {
        assert(l.subrange(l.len() - 5, l.len() as int) =~= "_time"@);
    }
}

/// The id rule in full, on the lowercased name: `id` and `uuid` are id-like,
/// so is every name ending in `_id` or `_uuid`, and no other name is.
pub proof fn law_id_rule(name: Seq<char>)
    ensures
        lowercase_of(name) == "id"@ ==> is_id_name(name),
        lowercase_of(name) == "uuid"@ ==> is_id_name(name),
        ends_with(lowercase_of(name), "_id"@) ==> is_id_name(name),
        ends_with(lowercase_of(name), "_uuid"@) ==> is_id_name(name),
        is_id_name(name) ==> {
            ||| lowercase_of(name) == "id"@
            ||| lowercase_of(name) == "uuid"@
            ||| ends_with(lowercase_of(name), "_id"@)
            ||| ends_with(lowercase_of(name), "_uuid"@)
        },
{
}

/// A field is a metric exactly when its type is `Int64`, `UInt64` or
/// `Float64` and its name is not id-like: a numeric id is never summed.
pub proof fn law_metric_rule(c: Column)
    ensures
        has_role(c, Role::Metric) <==> ((c.ch_type == ColumnType::Int64 || c.ch_type
            == ColumnType::UInt64 || c.ch_type == ColumnType::Float64) && !is_id_name(c.name@)),
        is_id_name(c.name@) ==> !has_role(c, Role::Metric),
{
}

/// The first suggestion orders by the first timestamp-like column, when
/// there is one: a schema with a timestamp-like column never gets an empty
/// `ORDER BY` on its `MergeTree`, and one without gets `tuple()`.
pub proof fn law_merge_tree_orders_by_first_timestamp(cs: Seq<Column>, replicated: bool, k: int)
    requires
        0 <= k < cs.len(),
        is_timestamp_name(cs[k].name@),
        forall|i: int| 0 <= i < k ==> !is_timestamp_name((#[trigger] cs[i]).name@),
    ensures
        suggestions_for(cs, replicated)[0].order_by == seq![cs[k].name@],
{
    lemma_first_with_role(cs, Role::Timestamp, k);
    assert(suggestions_for(cs, replicated)[0] == merge_tree_suggestion(cs, replicated));
}

/// With no timestamp-like column, the first suggestion has an empty key.
pub proof fn law_merge_tree_without_timestamp(cs: Seq<Column>, replicated: bool)
    requires
        forall|i: int| 0 <= i < cs.len() ==> !is_timestamp_name((#[trigger] cs[i]).name@),
    ensures
        suggestions_for(cs, replicated)[0].order_by == Seq::<Seq<char>>::empty(),
{
    lemma_no_role(cs, Role::Timestamp);
    assert(suggestions_for(cs, replicated)[0] == merge_tree_suggestion(cs, replicated));
}

proof fn lemma_no_role(cs: Seq<Column>, role: Role)
    requires
        forall|i: int| 0 <= i < cs.len() ==> !has_role(#[trigger] cs[i], role),
    ensures
        names_with_role(cs, role) == Seq::<Seq<char>>::empty(),
    decreases cs.len(),
{
    if cs.len() > 0 {
        let d = cs.drop_last();
        assert forall|i: int| 0 <= i < d.len() implies !has_role(#[trigger] d[i], role) by {
            assert(d[i] == cs[i]);
        }
        lemma_no_role(d, role);
        assert(!has_role(cs[cs.len() - 1], role));
    }
}

proof fn lemma_first_with_role(cs: Seq<Column>, role: Role, k: int)
    requires
        0 <= k < cs.len(),
        has_role(cs[k], role),
        forall|i: int| 0 <= i < k ==> !has_role(#[trigger] cs[i], role),
    ensures
        names_with_role(cs, role).len() > 0,
        names_with_role(cs, role)[0] == cs[k].name@,
    decreases cs.len(),
{
    let d = cs.drop_last();
    if k == cs.len() - 1 {
        assert forall|i: int| 0 <= i < d.len() implies !has_role(#[trigger] d[i], role) by {
            assert(d[i] == cs[i]);
        }
        lemma_no_role(d, role);
        assert(cs.last() == cs[k]);
    } else {
        assert(d[k] == cs[k]);
        assert forall|i: int| 0 <= i < k implies !has_role(#[trigger] d[i], role) by {
            assert(d[i] == cs[i]);
        }
        lemma_first_with_role(d, role, k);
    }
}

/// What each suggestion holds. `ReplacingMergeTree` comes second, when there
/// is an id-like and a timestamp-like field, keyed by the first id-like field
/// then the first timestamp-like field; `SummingMergeTree` comes last, when
/// there is a metric and a dimension, keyed by the same dimensions and
/// summing every metric in order; nothing else is suggested.
pub proof fn law_suggestions_content(cs: Seq<Column>, replicated: bool)
    ensures
        ({
            let sugs = suggestions_for(cs, replicated);
            let ids = id_names(cs);
            let ts = timestamp_names(cs);
            &&& sugs.len() == 1 + (if suggests_replacing(cs) { 1int } else { 0int }) + (
            if suggests_summing(cs) { 1int } else { 0int })
            &&& suggests_replacing(cs) ==> sugs[1].engine == TableEngine::ReplacingMergeTree
                && sugs[1].order_by == seq![ids[0], ts[0]] && sugs[1].sum_columns.len() == 0
            &&& suggests_summing(cs) ==> sugs[sugs.len() - 1].engine
                == TableEngine::SummingMergeTree && sugs[sugs.len() - 1].order_by == dimensions(
                ids,
                ts,
            ) && sugs[sugs.len() - 1].sum_columns == numeric_names(cs)
            &&& sugs[0].sum_columns.len() == 0
        }),
{
    let ids = id_names(cs);
    let ts = timestamp_names(cs);
    if suggests_replacing(cs) {
        assert(dimensions(ids, ts) =~= seq![ids[0], ts[0]]);
    }
}

/// Every field of a suggested key is the name of a column that plays the
/// part: the `ReplacingMergeTree` key is an id-like column then a
/// timestamp-like column.
pub proof fn law_replacing_key_roles(cs: Seq<Column>)
    requires
        suggests_replacing(cs),
    ensures
        exists|i: int|
            0 <= i < cs.len() && (#[trigger] cs[i]).name@ == replacing_suggestion(cs).order_by[0]
                && is_id_name(cs[i].name@),
        exists|i: int|
            0 <= i < cs.len() && (#[trigger] cs[i]).name@ == replacing_suggestion(cs).order_by[1]
                && is_timestamp_name(cs[i].name@),
{
    let ids = id_names(cs);
    let ts = timestamp_names(cs);
    assert(dimensions(ids, ts) =~= seq![ids[0], ts[0]]);
    assert(ids.contains(ids[0]));
    assert(ts.contains(ts[0]));
    lemma_names_subset(cs, ids[0]);
    lemma_names_subset(cs, ts[0]);
}

} // verus!
