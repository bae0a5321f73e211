//! Column type inference over JSON records.
//!
//! Every record must be an object. Each key becomes a column, in the order in
//! which keys first appear; its type is the widening of the kinds of all its
//! values; it is nullable when some record lacks it.
use vstd::prelude::*;
use crate::json::JsonKind;
use crate::json::JsonRecord;
use crate::json::json_array_records;
use crate::json::json_stream_records;
use crate::json::json_stream_item_count;
use crate::json::parse_json_array;
use crate::json::parse_json_stream;
use crate::json::count_json_stream;
use crate::json::records_view;
use crate::schema::Column;
use crate::schema::ColumnType;
use crate::schema::InferredSchema;
use crate::text::decimal;
use crate::text::decimal_string;
use crate::text::trim;
use crate::text::trimmed;
use vstd::seq_lib::group_to_multiset_ensures;

verus! {

broadcast use vstd::string::group_string_axioms;

/// The column type a single JSON value suggests.
pub open spec fn kind_type(k: JsonKind) -> ColumnType {
    match k {
        JsonKind::Bool => ColumnType::Bool,
        JsonKind::Str => ColumnType::String,
        JsonKind::Number { as_i64, as_u64 } => if as_i64 is Some || as_u64 is Some {
            ColumnType::Int64
        } else {
            ColumnType::Float64
        },
        _ => ColumnType::String,
    }
}

/// Widening of two column types: equal types stay, `Int64` with `Float64` is
/// `Float64`, any other conflict is `String`.
pub open spec fn merged_type(a: ColumnType, b: ColumnType) -> ColumnType {
    if a == b {
        a
    } else if (a == ColumnType::Float64 && b == ColumnType::Int64) || (a == ColumnType::Int64
        && b == ColumnType::Float64) {
        ColumnType::Float64
    } else {
        ColumnType::String
    }
}

fn infer_type(k: &JsonKind) -> (t: ColumnType)
    ensures
        t == kind_type(*k),
{
    match k {
        JsonKind::Bool => ColumnType::Bool,
        JsonKind::Str => ColumnType::String,
        JsonKind::Number { as_i64, as_u64 } => {
            if as_i64.is_some() || as_u64.is_some() {
                ColumnType::Int64
            } else {
                ColumnType::Float64
            }
        },
        _ => ColumnType::String,
    }
}

fn merge_types(a: &ColumnType, b: &ColumnType) -> (t: ColumnType)
    ensures
        t == merged_type(*a, *b),
{
    if *a == *b {
        return *a;
    }
    match (a, b) {
        (ColumnType::Float64, ColumnType::Int64) | (ColumnType::Int64, ColumnType::Float64) => {
            ColumnType::Float64
        },
        _ => ColumnType::String,
    }
}

/// First position of `key` in `names`, or -1.
pub open spec fn position_of(names: Seq<Seq<char>>, key: Seq<char>) -> int
    decreases names.len(),
{
    if names.len() == 0 {
        -1
    } else {
        let p = position_of(names.drop_last(), key);
        if p >= 0 {
            p
        } else if names.last() == key {
            names.len() - 1
        } else {
            -1
        }
    }
}

/// Column names and types after one more key with a value of type `t`.
pub open spec fn absorb_entry(
    acc: (Seq<Seq<char>>, Seq<ColumnType>),
    key: Seq<char>,
    t: ColumnType,
) -> (Seq<Seq<char>>, Seq<ColumnType>) {
    let p = position_of(acc.0, key);
    if p >= 0 {
        (acc.0, acc.1.update(p, merged_type(acc.1[p], t)))
    } else {
        (acc.0.push(key), acc.1.push(t))
    }
}

/// Column names and types after the entries of one object, in order.
pub open spec fn absorb_entries(
    acc: (Seq<Seq<char>>, Seq<ColumnType>),
    es: Seq<(Seq<char>, JsonKind)>,
) -> (Seq<Seq<char>>, Seq<ColumnType>)
    decreases es.len(),
{
    if es.len() == 0 {
        acc
    } else {
        absorb_entry(absorb_entries(acc, es.drop_last()), es.last().0, kind_type(es.last().1))
    }
}

/// The entries of a record (none for a value that is not an object).
pub open spec fn entries_of(r: Option<Seq<(Seq<char>, JsonKind)>>) -> Seq<(Seq<char>, JsonKind)> {
    match r {
        Some(es) => es,
        None => Seq::empty(),
    }
}

/// Column names (in order of first appearance) and widened types of a run of
/// records.
pub open spec fn tally(rs: Seq<Option<Seq<(Seq<char>, JsonKind)>>>) -> (
    Seq<Seq<char>>,
    Seq<ColumnType>,
)
    decreases rs.len(),
{
    if rs.len() == 0 {
        (Seq::empty(), Seq::empty())
    } else {
        absorb_entries(tally(rs.drop_last()), entries_of(rs.last()))
    }
}

/// An object's entries mention `key`.
pub open spec fn has_key(es: Seq<(Seq<char>, JsonKind)>, key: Seq<char>) -> bool {
    exists|j: int| 0 <= j < es.len() && #[trigger] es[j].0 == key
}

/// How many of the records are objects with `key`.
pub open spec fn records_with_key(rs: Seq<Option<Seq<(Seq<char>, JsonKind)>>>, key: Seq<char>) -> nat
    decreases rs.len(),
{
    if rs.len() == 0 {
        0
    } else {
        records_with_key(rs.drop_last(), key) + if has_key(entries_of(rs.last()), key) {
            1nat
        } else {
            0nat
        }
    }
}

/// Position of the first record that is not an object, or -1.
pub open spec fn first_non_object(rs: Seq<Option<Seq<(Seq<char>, JsonKind)>>>) -> int
    decreases rs.len(),
{
    if rs.len() == 0 {
        -1
    } else {
        let p = first_non_object(rs.drop_last());
        if p >= 0 {
            p
        } else if rs.last() is None {
            rs.len() - 1
        } else {
            -1
        }
    }
}

/// The error for the `n`-th record (counting from 1) not being an object.
pub open spec fn not_object_message(n: nat) -> Seq<char> {
    "record "@ + decimal(n) + ": expected a JSON object, got something else"@
}

/// The error for input without records.
pub open spec fn no_records_message() -> Seq<char> {
    "input file is empty or contains no JSON objects"@
}

/// `s` is the schema named `table` that the records determine.
pub open spec fn schema_of_records(
    s: InferredSchema,
    rs: Seq<Option<Seq<(Seq<char>, JsonKind)>>>,
    table: Seq<char>,
) -> bool {
    let t = tally(rs);
    &&& s.table_name@ == table
    &&& s.columns@.len() == t.0.len()
    &&& forall|k: int|
        0 <= k < t.0.len() ==> {
            &&& (#[trigger] s.columns@[k]).name@ == t.0[k]
            &&& s.columns@[k].ch_type == t.1[k]
            &&& s.columns@[k].nullable == (records_with_key(rs, t.0[k]) < rs.len())
            &&& !s.columns@[k].low_cardinality
        }
}

/// The outcome of inference over records: the first non-object record is an
/// error, so is the absence of records; otherwise the schema they determine.
pub open spec fn inferred_from(
    res: Result<InferredSchema, String>,
    rs: Seq<Option<Seq<(Seq<char>, JsonKind)>>>,
    table: Seq<char>,
) -> bool {
    if first_non_object(rs) >= 0 {
        res is Err && res->Err_0@ == not_object_message((first_non_object(rs) + 1) as nat)
    } else if rs.len() == 0 {
        res is Err && res->Err_0@ == no_records_message()
    } else {
        res is Ok && schema_of_records(res->Ok_0, rs, table)
    }
}

proof fn lemma_position_bounds(names: Seq<Seq<char>>, key: Seq<char>)
    ensures
        -1 <= position_of(names, key) < names.len(),
        position_of(names, key) >= 0 ==> names[position_of(names, key)] == key,
    decreases names.len(),
{
    if names.len() > 0 {
        lemma_position_bounds(names.drop_last(), key);
    }
}

proof fn lemma_absorb_lengths(acc: (Seq<Seq<char>>, Seq<ColumnType>), es: Seq<(Seq<char>, JsonKind)>)
    requires
        acc.0.len() == acc.1.len(),
    ensures
        absorb_entries(acc, es).0.len() == absorb_entries(acc, es).1.len(),
        absorb_entries(acc, es).0.len() >= acc.0.len(),
    decreases es.len(),
{
    if es.len() > 0 {
        lemma_absorb_lengths(acc, es.drop_last());
        lemma_position_bounds(absorb_entries(acc, es.drop_last()).0, es.last().0);
    }
}

proof fn lemma_tally_lengths(rs: Seq<Option<Seq<(Seq<char>, JsonKind)>>>)
    ensures
        tally(rs).0.len() == tally(rs).1.len(),
    decreases rs.len(),
{
    if rs.len() > 0 {
        lemma_tally_lengths(rs.drop_last());
        lemma_absorb_lengths(tally(rs.drop_last()), entries_of(rs.last()));
    }
}

proof fn lemma_position_found(names: Seq<Seq<char>>, key: Seq<char>, i: int)
    requires
        0 <= i < names.len(),
        names[i] == key,
        forall|j: int| 0 <= j < i ==> names[j] != key,
    ensures
        position_of(names, key) == i,
    decreases names.len(),
{
    if i < names.len() - 1 {
        lemma_position_found(names.drop_last(), key, i);
    } else {
        lemma_position_absent(names.drop_last(), key);
    }
}

proof fn lemma_position_absent(names: Seq<Seq<char>>, key: Seq<char>)
    requires
        forall|j: int| 0 <= j < names.len() ==> names[j] != key,
    ensures
        position_of(names, key) == -1,
    decreases names.len(),
{
    if names.len() > 0 {
        lemma_position_absent(names.drop_last(), key);
    }
}

/// Where `key` stands among `names`.
fn find_name(names: &Vec<String>, key: &String) -> (p: Option<usize>)
    ensures
        match p {
            Some(i) => position_of(names.deep_view(), key@) == i as int && i < names.len(),
            None => position_of(names.deep_view(), key@) == -1,
        },
{
    let ghost dv = names.deep_view();
    let mut i: usize = 0;
    while i < names.len()
        invariant
            dv == names.deep_view(),
            i <= names.len(),
            forall|j: int| 0 <= j < i ==> dv[j] != key@,
        decreases names.len() - i,
    {
        if names[i] == *key {
            proof {
                lemma_position_found(dv, key@, i as int);
            }
            return Some(i);
        }
        i = i + 1;
    }
    proof {
        lemma_position_absent(dv, key@);
    }
    None
}

fn entries_have_key(entries: &Vec<crate::json::JsonEntry>, key: &String) -> (b: bool)
    ensures
        b == has_key(entries@.map_values(|e: crate::json::JsonEntry| e@), key@),
{
    let ghost ev = entries@.map_values(|e: crate::json::JsonEntry| e@);
    let mut j: usize = 0;
    while j < entries.len()
        invariant
            ev == entries@.map_values(|e: crate::json::JsonEntry| e@),
            j <= entries.len(),
            forall|k: int| 0 <= k < j ==> ev[k].0 != key@,
        decreases entries.len() - j,
    {
        if entries[j].key == *key {
            assert(ev[j as int].0 == key@);
            return true;
        }
        j = j + 1;
    }
    false
}

/// How many of the records are objects with `key`.
fn count_records_with(records: &Vec<JsonRecord>, key: &String) -> (n: usize)
    ensures
        n == records_with_key(records_view(records@), key@),
        n <= records.len(),
{
    let ghost rv = records_view(records@);
    let mut n: usize = 0;
    let mut i: usize = 0;
    while i < records.len()
        invariant
            rv == records_view(records@),
            i <= records.len(),
            n <= i,
            n == records_with_key(rv.take(i as int), key@),
        decreases records.len() - i,
    {
        assert(rv.take(i + 1).drop_last() =~= rv.take(i as int));
        match &records[i] {
            JsonRecord::Object(entries) => {
                if entries_have_key(entries, key) {
                    n = n + 1;
                }
            },
            JsonRecord::NotObject => {
                assert(entries_of(rv[i as int]) =~= Seq::empty());
            },
        }
        i = i + 1;
    }
    assert(rv.take(records.len() as int) =~= rv);
    n
}

proof fn lemma_first_non_object_prefix(rs: Seq<Option<Seq<(Seq<char>, JsonKind)>>>, i: int)
    requires
        0 <= i < rs.len(),
        first_non_object(rs.take(i)) < 0,
        rs[i] is None,
    ensures
        first_non_object(rs.take(i + 1)) == i,
{
    assert(rs.take(i + 1).drop_last() =~= rs.take(i));
}

/// Infers a schema named `table_name` from parsed records.
pub fn infer_schema_from_records(records: &Vec<JsonRecord>, table_name: &str) -> (res: Result<
    InferredSchema,
    String,
>)
    ensures
        inferred_from(res, records_view(records@), table_name@),
{
    let ghost rv = records_view(records@);
    let mut names: Vec<String> = Vec::new();
    let mut types: Vec<ColumnType> = Vec::new();
    let mut i: usize = 0;
    while i < records.len()
        invariant
            rv == records_view(records@),
            i <= records.len(),
            first_non_object(rv.take(i as int)) < 0,
            names.deep_view() == tally(rv.take(i as int)).0,
            types@ == tally(rv.take(i as int)).1,
        decreases records.len() - i,
    {
        assert(rv.take(i + 1).drop_last() =~= rv.take(i as int));
        match &records[i] {
            JsonRecord::NotObject => {
                proof {
                    lemma_first_non_object_prefix(rv, i as int);
                }
                let mut m = String::from_str("record ");
                let num = decimal_string(i + 1);
                m.append(num.as_str());
                m.append(": expected a JSON object, got something else");
                proof {
                    assert(rv.take(i + 1) =~= rv.take(i + 1));
                    lemma_first_non_object_stable(rv, i as int + 1);
                }
                return Err(m);
            },
            JsonRecord::Object(entries) => {
                let ghost ev = entries@.map_values(|e: crate::json::JsonEntry| e@);
                let ghost start = tally(rv.take(i as int));
                assert(entries_of(rv[i as int]) == ev);
                proof {
                    lemma_tally_lengths(rv.take(i as int));
                }
                let mut j: usize = 0;
                while j < entries.len()
                    invariant
                        ev == entries@.map_values(|e: crate::json::JsonEntry| e@),
                        j <= entries.len(),
                        names.deep_view() == absorb_entries(start, ev.take(j as int)).0,
                        types@ == absorb_entries(start, ev.take(j as int)).1,
                        names.len() == types.len(),
                    decreases entries.len() - j,
                {
                    assert(ev.take(j + 1).drop_last() =~= ev.take(j as int));
                    proof {
                        lemma_position_bounds(names.deep_view(), entries[j as int].key@);
                    }
                    let key = &entries[j].key;
                    let t = infer_type(&entries[j].kind);
                    match find_name(&names, key) {
                        Some(p) => {
                            let m = merge_types(&types[p], &t);
                            types.set(p, m);
                        },
                        None => {
                            let ghost before = names.deep_view();
                            names.push(key.clone());
                            types.push(t);
                            assert(names.deep_view() =~= before.push(key@));
                        },
                    }
                    j = j + 1;
                }
                assert(ev.take(entries.len() as int) =~= ev);
            },
        }
        i = i + 1;
    }
    assert(rv.take(records.len() as int) =~= rv);
    if records.len() == 0 {
        return Err(String::from_str("input file is empty or contains no JSON objects"));
    }
    let mut columns: Vec<Column> = Vec::new();
    let mut k: usize = 0;
    let ghost t = tally(rv);
    proof {
        lemma_tally_lengths(rv);
        assert(names.deep_view().len() == names.len());
    }
    while k < names.len()
        invariant
            rv == records_view(records@),
            t == tally(rv),
            names.deep_view() == t.0,
            types@ == t.1,
            k <= names.len(),
            names.len() == types.len(),
            columns.len() == k,
            forall|q: int|
                0 <= q < k ==> {
                    &&& (#[trigger] columns@[q]).name@ == t.0[q]
                    &&& columns@[q].ch_type == t.1[q]
                    &&& columns@[q].nullable == (records_with_key(rv, t.0[q]) < rv.len())
                    &&& !columns@[q].low_cardinality
                },
        decreases names.len() - k,
    {
        let count = count_records_with(records, &names[k]);
        let col = Column {
            name: names[k].clone(),
            ch_type: types[k],
            nullable: count < records.len(),
            low_cardinality: false,
        };
        columns.push(col);
        k = k + 1;
    }
    Ok(InferredSchema { table_name: String::from_str(table_name), columns })
}

/// The text starts a JSON array.
pub open spec fn opens_array(t: Seq<char>) -> bool {
    t.len() > 0 && t[0] == '['
}

/// The records of an input: its trimmed text read as a JSON array when it
/// starts with `[`, else as a stream of JSON values.
pub open spec fn parsed_records(content: Seq<char>) -> Result<
    Seq<Option<Seq<(Seq<char>, JsonKind)>>>,
    Seq<char>,
> {
    let t = trimmed(content);
    if opens_array(t) {
        match json_array_records(t) {
            Ok(rs) => Ok(rs),
            Err(e) => Err("Error parsing JSON array: "@ + e),
        }
    } else {
        match json_stream_records(t) {
            Ok(rs) => Ok(rs),
            Err(e) => Err("Error parsing JSON: "@ + e),
        }
    }
}

fn starts_array(t: &str) -> (b: bool)
    ensures
        b == opens_array(t@),
{
    !t.is_empty() && t.get_char(0) == '['
}

/// Infers the schema of the records in `content` (a JSON array, or JSON
/// values one after another), naming the table `table_name`.
pub fn infer_schema(content: &str, table_name: &str) -> (res: Result<InferredSchema, String>)
    ensures
        match parsed_records(content@) {
            Err(m) => res is Err && res->Err_0@ == m,
            Ok(rs) => inferred_from(res, rs, table_name@),
        },
{
    let trimmed_content = trim(content);
    let t = trimmed_content.as_str();
    let parsed = if starts_array(t) {
        match parse_json_array(t) {
            Ok(rs) => rs,
            Err(e) => {
                let mut m = String::from_str("Error parsing JSON array: ");
                m.append(e.as_str());
                return Err(m);
            },
        }
    } else {
        match parse_json_stream(t) {
            Ok(rs) => rs,
            Err(e) => {
                let mut m = String::from_str("Error parsing JSON: ");
                m.append(e.as_str());
                return Err(m);
            },
        }
    };
    infer_schema_from_records(&parsed, table_name)
}

/// The record count of an input: the array's length (0 when it does not
/// parse), or the number of items (values and errors) in the stream.
pub open spec fn counted_records(content: Seq<char>) -> nat {
    let t = trimmed(content);
    if opens_array(t) {
        match json_array_records(t) {
            Ok(rs) => rs.len(),
            Err(_) => 0,
        }
    } else {
        json_stream_item_count(t)
    }
}

/// Counts the top-level JSON values in `content`.
pub fn record_count(content: &str) -> (n: usize)
    ensures
        n == counted_records(content@),
{
    let trimmed_content = trim(content);
    let t = trimmed_content.as_str();
    if starts_array(t) {
        match parse_json_array(t) {
            Ok(rs) => rs.len(),
            Err(_) => 0,
        }
    } else {
        count_json_stream(t)
    }
}

proof fn lemma_first_non_object_stable(rs: Seq<Option<Seq<(Seq<char>, JsonKind)>>>, n: int)
    requires
        0 <= n <= rs.len(),
        first_non_object(rs.take(n)) >= 0,
    ensures
        first_non_object(rs) == first_non_object(rs.take(n)),
    decreases rs.len() - n,
{
    if n < rs.len() {
        assert(rs.take(n + 1).drop_last() =~= rs.take(n));
        lemma_first_non_object_stable(rs, n + 1);
    } else {
        assert(rs.take(n) =~= rs);
    }
}


// ---------------------------------------------------------------------------
// Laws of inference
// ---------------------------------------------------------------------------

/// The keys of an object's entries, in order.
pub open spec fn keys_of(es: Seq<(Seq<char>, JsonKind)>) -> Seq<Seq<char>> {
    es.map_values(|e: (Seq<char>, JsonKind)| e.0)
}

/// All entries of all records, record after record.
pub open spec fn all_entries(rs: Seq<Option<Seq<(Seq<char>, JsonKind)>>>) -> Seq<
    (Seq<char>, JsonKind),
>
    decreases rs.len(),
{
    if rs.len() == 0 {
        Seq::empty()
    } else {
        all_entries(rs.drop_last()) + entries_of(rs.last())
    }
}

/// The distinct elements of `s` in the order of their first appearance.
pub open spec fn first_appearances(s: Seq<Seq<char>>) -> Seq<Seq<char>>
    decreases s.len(),
{
    if s.len() == 0 {
        Seq::empty()
    } else {
        let d = first_appearances(s.drop_last());
        if d.contains(s.last()) {
            d
        } else {
            d.push(s.last())
        }
    }
}

/// The widening of the types of all values of `key` among `es`, in order
/// (`None` when `key` never occurs).
pub open spec fn widened(es: Seq<(Seq<char>, JsonKind)>, key: Seq<char>) -> Option<ColumnType>
    decreases es.len(),
{
    if es.len() == 0 {
        None
    } else {
        let w = widened(es.drop_last(), key);
        if es.last().0 == key {
            Some(
                match w {
                    None => kind_type(es.last().1),
                    Some(t) => merged_type(t, kind_type(es.last().1)),
                },
            )
        } else {
            w
        }
    }
}

/// No name occurs twice.
pub open spec fn names_distinct(names: Seq<Seq<char>>) -> bool {
    forall|i: int, j: int| 0 <= i < names.len() && 0 <= j < names.len() && i != j ==> names[i] != names[j]
}

/// The column names and types are those the entries `es` determine.
pub open spec fn tally_matches(acc: (Seq<Seq<char>>, Seq<ColumnType>), es: Seq<(Seq<char>, JsonKind)>) -> bool {
    &&& acc.0 == first_appearances(keys_of(es))
    &&& acc.0.len() == acc.1.len()
    &&& forall|k: int| 0 <= k < acc.0.len() ==> Some(#[trigger] acc.1[k]) == widened(es, acc.0[k])
}

proof fn lemma_first_appearances(s: Seq<Seq<char>>)
    ensures
        names_distinct(first_appearances(s)),
        forall|x: Seq<char>| first_appearances(s).contains(x) <==> s.contains(x),
    decreases s.len(),
{
    if s.len() > 0 {
        let sd = s.drop_last();
        lemma_first_appearances(sd);
        let d = first_appearances(sd);
        let f = first_appearances(s);
        assert(forall|i: int| 0 <= i < d.len() ==> f[i] == d[i]);
        assert forall|x: Seq<char>| f.contains(x) implies s.contains(x) by {
            let i = choose|i: int| 0 <= i < f.len() && f[i] == x;
            if i < d.len() {
                assert(d.contains(x));
                assert(sd.contains(x));
                let j = choose|j: int| 0 <= j < sd.len() && sd[j] == x;
                assert(s[j] == x);
            } else {
                assert(x == s.last());
                assert(s[s.len() - 1] == x);
            }
        }
        assert forall|x: Seq<char>| s.contains(x) implies f.contains(x) by {
            let i = choose|i: int| 0 <= i < s.len() && s[i] == x;
            if i < s.len() - 1 {
                assert(sd[i] == x);
                assert(sd.contains(x));
                assert(d.contains(x));
                let j = choose|j: int| 0 <= j < d.len() && d[j] == x;
                assert(f[j] == x);
            } else if d.contains(x) {
                let j = choose|j: int| 0 <= j < d.len() && d[j] == x;
                assert(f[j] == x);
            } else {
                assert(f[d.len() as int] == x);
            }
        }
    }
}

proof fn lemma_widened_absent(es: Seq<(Seq<char>, JsonKind)>, key: Seq<char>)
    requires
        !keys_of(es).contains(key),
    ensures
        widened(es, key) is None,
    decreases es.len(),
{
    if es.len() > 0 {
        assert(keys_of(es)[es.len() - 1] == es.last().0);
        assert(keys_of(es.drop_last()) =~= keys_of(es).drop_last());
        if keys_of(es.drop_last()).contains(key) {
            let i = choose|i: int| 0 <= i < keys_of(es.drop_last()).len() && keys_of(es.drop_last())[i] == key;
            assert(keys_of(es)[i] == key);
        }
        lemma_widened_absent(es.drop_last(), key);
    }
}

proof fn lemma_position_contains(names: Seq<Seq<char>>, key: Seq<char>)
    ensures
        position_of(names, key) >= 0 <==> names.contains(key),
    decreases names.len(),
{
    lemma_position_bounds(names, key);
    if names.len() > 0 {
        lemma_position_contains(names.drop_last(), key);
        if names.contains(key) && !names.drop_last().contains(key) {
            let i = choose|i: int| 0 <= i < names.len() && names[i] == key;
            if i < names.len() - 1 {
                assert(names.drop_last()[i] == key);
            }
        }
        if names.drop_last().contains(key) {
            let i = choose|i: int| 0 <= i < names.drop_last().len() && names.drop_last()[i] == key;
            assert(names[i] == key);
        }
    }
}

proof fn lemma_absorb_entry_matches(
    acc: (Seq<Seq<char>>, Seq<ColumnType>),
    es: Seq<(Seq<char>, JsonKind)>,
    e: (Seq<char>, JsonKind),
)
    requires
        tally_matches(acc, es),
    ensures
        tally_matches(absorb_entry(acc, e.0, kind_type(e.1)), es.push(e)),
{
    let es2 = es.push(e);
    let key = e.0;
    let t = kind_type(e.1);
    let next = absorb_entry(acc, key, t);
    assert(keys_of(es2) =~= keys_of(es).push(key));
    assert(keys_of(es2).drop_last() =~= keys_of(es));
    assert(es2.drop_last() =~= es);
    lemma_first_appearances(keys_of(es));
    lemma_position_contains(acc.0, key);
    lemma_position_bounds(acc.0, key);
    let p = position_of(acc.0, key);
    if p >= 0 {
        assert forall|k: int| 0 <= k < next.0.len() implies Some(#[trigger] next.1[k]) == widened(es2, next.0[k]) by {
            if k != p {
                assert(acc.0[k] != acc.0[p]);
            }
        }
    } else {
        assert(!keys_of(es).contains(key));
        lemma_widened_absent(es, key);
        assert forall|k: int| 0 <= k < next.0.len() implies Some(#[trigger] next.1[k]) == widened(es2, next.0[k]) by {
            if k < acc.0.len() {
                assert(acc.0.contains(acc.0[k]));
                assert(acc.0[k] != key);
            }
        }
    }
}

proof fn lemma_absorb_entries_matches(
    acc: (Seq<Seq<char>>, Seq<ColumnType>),
    es: Seq<(Seq<char>, JsonKind)>,
    more: Seq<(Seq<char>, JsonKind)>,
)
    requires
        tally_matches(acc, es),
    ensures
        tally_matches(absorb_entries(acc, more), es + more),
    decreases more.len(),
{
    if more.len() == 0 {
        assert(es + more =~= es);
    } else {
        lemma_absorb_entries_matches(acc, es, more.drop_last());
        lemma_absorb_entry_matches(absorb_entries(acc, more.drop_last()), es + more.drop_last(), more.last());
        assert((es + more.drop_last()).push(more.last()) =~= es + more);
    }
}

proof fn lemma_tally_matches(rs: Seq<Option<Seq<(Seq<char>, JsonKind)>>>)
    ensures
        tally_matches(tally(rs), all_entries(rs)),
    decreases rs.len(),
{
    if rs.len() == 0 {
        assert(keys_of(Seq::<(Seq<char>, JsonKind)>::empty()) =~= Seq::<Seq<char>>::empty());
    } else {
        lemma_tally_matches(rs.drop_last());
        lemma_absorb_entries_matches(tally(rs.drop_last()), all_entries(rs.drop_last()), entries_of(rs.last()));
    }
}

/// Columns come in the order in which their keys first appear in the input,
/// each key once.
pub proof fn law_columns_in_first_appearance_order(rs: Seq<Option<Seq<(Seq<char>, JsonKind)>>>)
    ensures
        tally(rs).0 == first_appearances(keys_of(all_entries(rs))),
        names_distinct(tally(rs).0),
{
    lemma_tally_matches(rs);
    lemma_first_appearances(keys_of(all_entries(rs)));
}

/// A key is a column exactly when some record has it.
pub proof fn law_columns_are_the_keys(rs: Seq<Option<Seq<(Seq<char>, JsonKind)>>>, key: Seq<char>)
    ensures
        tally(rs).0.contains(key) <==> keys_of(all_entries(rs)).contains(key),
{
    lemma_tally_matches(rs);
    lemma_first_appearances(keys_of(all_entries(rs)));
}

/// A column's type is the widening of the types of all the values of its
/// key, in input order.
pub proof fn law_column_type_is_widening(rs: Seq<Option<Seq<(Seq<char>, JsonKind)>>>, k: int)
    requires
        0 <= k < tally(rs).0.len(),
    ensures
        Some(tally(rs).1[k]) == widened(all_entries(rs), tally(rs).0[k]),
{
    lemma_tally_matches(rs);
}

/// Widening does not depend on the order of its two types.
pub proof fn law_widening_commutes(a: ColumnType, b: ColumnType)
    ensures
        merged_type(a, b) == merged_type(b, a),
{
}

/// Widening a type with itself keeps it.
pub proof fn law_widening_idempotent(a: ColumnType)
    ensures
        merged_type(a, a) == a,
{
}

/// Widening is associative, so a column's type does not depend on how its
/// values are grouped.
pub proof fn law_widening_associative(a: ColumnType, b: ColumnType, c: ColumnType)
    ensures
        merged_type(merged_type(a, b), c) == merged_type(a, merged_type(b, c)),
{
}

/// A column is nullable exactly when some record lacks its key.
pub proof fn law_nullable_iff_missing_somewhere(rs: Seq<Option<Seq<(Seq<char>, JsonKind)>>>, key: Seq<char>)
    ensures
        records_with_key(rs, key) <= rs.len(),
        (records_with_key(rs, key) < rs.len()) <==> exists|i: int|
            0 <= i < rs.len() && !has_key(entries_of(#[trigger] rs[i]), key),
    decreases rs.len(),
{
    if rs.len() > 0 {
        law_nullable_iff_missing_somewhere(rs.drop_last(), key);
        if exists|i: int| 0 <= i < rs.drop_last().len() && !has_key(entries_of(#[trigger] rs.drop_last()[i]), key) {
            let i = choose|i: int| 0 <= i < rs.drop_last().len() && !has_key(entries_of(#[trigger] rs.drop_last()[i]), key);
            assert(rs[i] == rs.drop_last()[i]);
        }
        if exists|i: int| 0 <= i < rs.len() && !has_key(entries_of(#[trigger] rs[i]), key) {
            let i = choose|i: int| 0 <= i < rs.len() && !has_key(entries_of(#[trigger] rs[i]), key);
            if i < rs.len() - 1 {
                assert(rs.drop_last()[i] == rs[i]);
            }
        }
    }
}


/// A `String` column stays `String` whatever it is widened with.
pub proof fn law_widening_string_absorbs(a: ColumnType)
    ensures
        merged_type(ColumnType::String, a) == ColumnType::String,
        merged_type(a, ColumnType::String) == ColumnType::String,
{
}

/// The type of a single value: a boolean is `Bool`, a string `String`, a
/// number that fits `i64` or `u64` `Int64`, any other number `Float64`, and
/// null, arrays and objects `String`.
pub proof fn law_value_types(k: JsonKind)
    ensures
        k is Bool ==> kind_type(k) == ColumnType::Bool,
        k is Str ==> kind_type(k) == ColumnType::String,
        k matches JsonKind::Number { as_i64, as_u64 } && (as_i64 is Some || as_u64 is Some)
            ==> kind_type(k) == ColumnType::Int64,
        k matches JsonKind::Number { as_i64, as_u64 } && (as_i64 is None && as_u64 is None)
            ==> kind_type(k) == ColumnType::Float64,
        (k is Null || k is Array || k is Object) ==> kind_type(k) == ColumnType::String,
{
}

/// Widening two types: agreeing types stay, an integer with a float (in
/// either order) is `Float64`, and any other disagreement is `String`.
pub proof fn law_widening_rule(a: ColumnType, b: ColumnType)
    ensures
        a == b ==> merged_type(a, b) == a,
        merged_type(ColumnType::Int64, ColumnType::Float64) == ColumnType::Float64,
        merged_type(ColumnType::Float64, ColumnType::Int64) == ColumnType::Float64,
        a != b && !(a == ColumnType::Int64 && b == ColumnType::Float64) && !(a
            == ColumnType::Float64 && b == ColumnType::Int64) ==> merged_type(a, b)
            == ColumnType::String,
{
}

/// A key whose values all have one type gets that type.
pub proof fn law_widened_agreeing(es: Seq<(Seq<char>, JsonKind)>, key: Seq<char>, t: ColumnType)
    requires
        forall|i: int| 0 <= i < es.len() && (#[trigger] es[i]).0 == key ==> kind_type(es[i].1) == t,
    ensures
        widened(es, key) == None::<ColumnType> || widened(es, key) == Some(t),
        (exists|i: int| 0 <= i < es.len() && (#[trigger] es[i]).0 == key) ==> widened(es, key)
            == Some(t),
    decreases es.len(),
{
    if es.len() > 0 {
        let d = es.drop_last();
        assert forall|i: int| 0 <= i < d.len() && (#[trigger] d[i]).0 == key implies kind_type(d[i].1) == t by {
            assert(d[i] == es[i]);
        }
        law_widened_agreeing(d, key, t);
        assert(es[es.len() - 1] == es.last());
        if exists|i: int| 0 <= i < es.len() && (#[trigger] es[i]).0 == key {
            let i = choose|i: int| 0 <= i < es.len() && (#[trigger] es[i]).0 == key;
            if i < es.len() - 1 {
                assert(d[i] == es[i]);
            }
        }
    }
}

/// A key whose values are all numbers gets a numeric type: `Float64` as soon
/// as one value is not an integer, `Int64` otherwise.
pub proof fn law_widened_numbers(es: Seq<(Seq<char>, JsonKind)>, key: Seq<char>)
    requires
        forall|i: int|
            0 <= i < es.len() && (#[trigger] es[i]).0 == key ==> (kind_type(es[i].1)
                == ColumnType::Int64 || kind_type(es[i].1) == ColumnType::Float64),
    ensures
        widened(es, key) == None::<ColumnType> || widened(es, key) == Some(ColumnType::Int64)
            || widened(es, key) == Some(ColumnType::Float64),
        (exists|i: int|
            0 <= i < es.len() && (#[trigger] es[i]).0 == key && kind_type(es[i].1)
                == ColumnType::Float64) ==> widened(es, key) == Some(ColumnType::Float64),
    decreases es.len(),
{
    if es.len() > 0 {
        let d = es.drop_last();
        assert forall|i: int| 0 <= i < d.len() && (#[trigger] d[i]).0 == key implies (kind_type(
            d[i].1,
        ) == ColumnType::Int64 || kind_type(d[i].1) == ColumnType::Float64) by {
            assert(d[i] == es[i]);
        }
        law_widened_numbers(d, key);
        assert(es[es.len() - 1] == es.last());
        if exists|i: int|
            0 <= i < es.len() && (#[trigger] es[i]).0 == key && kind_type(es[i].1)
                == ColumnType::Float64 {
            let i = choose|i: int|
                0 <= i < es.len() && (#[trigger] es[i]).0 == key && kind_type(es[i].1)
                    == ColumnType::Float64;
            if i < es.len() - 1 {
                assert(d[i] == es[i]);
            }
        }
    }
}

/// What a schema inferred from records holds, column by column: the columns
/// are the distinct keys in order of first appearance; each column's type is
/// the widening of all the values of its key; and a column is nullable
/// exactly when some record lacks its key.
pub proof fn law_inferred_columns(
    s: InferredSchema,
    rs: Seq<Option<Seq<(Seq<char>, JsonKind)>>>,
    table: Seq<char>,
    k: int,
)
    requires
        schema_of_records(s, rs, table),
        0 <= k < s.columns@.len(),
    ensures
        s.columns@.len() == first_appearances(keys_of(all_entries(rs))).len(),
        s.columns@[k].name@ == first_appearances(keys_of(all_entries(rs)))[k],
        keys_of(all_entries(rs)).contains(s.columns@[k].name@),
        Some(s.columns@[k].ch_type) == widened(all_entries(rs), s.columns@[k].name@),
        s.columns@[k].nullable <==> exists|i: int|
            0 <= i < rs.len() && !has_key(entries_of(#[trigger] rs[i]), s.columns@[k].name@),
{
    let t = tally(rs);
    law_columns_in_first_appearance_order(rs);
    assert(s.columns@[k].name@ == t.0[k]);
    law_columns_are_the_keys(rs, t.0[k]);
    assert(t.0.contains(t.0[k]));
    law_column_type_is_widening(rs, k);
    law_nullable_iff_missing_somewhere(rs, t.0[k]);
}

/// Widening of two partial results (`None`: no value seen).
pub open spec fn join_widened(a: Option<ColumnType>, b: Option<ColumnType>) -> Option<ColumnType> {
    match (a, b) {
        (None, w) => w,
        (w, None) => w,
        (Some(x), Some(y)) => Some(merged_type(x, y)),
    }
}

proof fn lemma_join_swap(a: Option<ColumnType>, b: Option<ColumnType>, c: Option<ColumnType>)
    ensures
        join_widened(join_widened(a, b), c) == join_widened(join_widened(a, c), b),
        join_widened(join_widened(a, b), c) == join_widened(a, join_widened(b, c)),
{
}

proof fn lemma_widened_append(e1: Seq<(Seq<char>, JsonKind)>, e2: Seq<(Seq<char>, JsonKind)>, key: Seq<char>)
    ensures
        widened(e1 + e2, key) == join_widened(widened(e1, key), widened(e2, key)),
    decreases e2.len(),
{
    if e2.len() == 0 {
        assert(e1 + e2 =~= e1);
    } else {
        let e = e2.last();
        lemma_widened_append(e1, e2.drop_last(), key);
        assert((e1 + e2).drop_last() =~= e1 + e2.drop_last());
        assert((e1 + e2).last() == e);
        let single: Option<ColumnType> = if e.0 == key { Some(kind_type(e.1)) } else { None };
        lemma_join_swap(widened(e1, key), widened(e2.drop_last(), key), single);
    }
}

proof fn lemma_all_entries_append(a: Seq<Option<Seq<(Seq<char>, JsonKind)>>>, b: Seq<Option<Seq<(Seq<char>, JsonKind)>>>)
    ensures
        all_entries(a + b) == all_entries(a) + all_entries(b),
    decreases b.len(),
{
    if b.len() == 0 {
        assert(a + b =~= a);
        assert(all_entries(a) + all_entries(b) =~= all_entries(a));
    } else {
        lemma_all_entries_append(a, b.drop_last());
        assert((a + b).drop_last() =~= a + b.drop_last());
        assert((a + b).last() == b.last());
        assert(all_entries(a + b) =~= all_entries(a) + all_entries(b));
    }
}

proof fn lemma_records_with_key_append(a: Seq<Option<Seq<(Seq<char>, JsonKind)>>>, b: Seq<Option<Seq<(Seq<char>, JsonKind)>>>, key: Seq<char>)
    ensures
        records_with_key(a + b, key) == records_with_key(a, key) + records_with_key(b, key),
    decreases b.len(),
{
    if b.len() == 0 {
        assert(a + b =~= a);
    } else {
        lemma_records_with_key_append(a, b.drop_last(), key);
        assert((a + b).drop_last() =~= a + b.drop_last());
        assert((a + b).last() == b.last());
    }
}

proof fn lemma_first_non_object_contains(rs: Seq<Option<Seq<(Seq<char>, JsonKind)>>>)
    ensures
        (first_non_object(rs) >= 0) <==> rs.contains(None),
    decreases rs.len(),
{
    if rs.len() > 0 {
        lemma_first_non_object_contains(rs.drop_last());
        if rs.contains(None) && !rs.drop_last().contains(None) {
            let i = choose|i: int| 0 <= i < rs.len() && rs[i] == None::<Seq<(Seq<char>, JsonKind)>>;
            if i < rs.len() - 1 {
                assert(rs.drop_last()[i] == rs[i]);
            }
        }
        if rs.drop_last().contains(None) {
            let i = choose|i: int| 0 <= i < rs.drop_last().len() && rs.drop_last()[i] == None::<Seq<(Seq<char>, JsonKind)>>;
            assert(rs[i] == rs.drop_last()[i]);
        }
        if rs.last() is None {
            assert(rs[rs.len() - 1] == None::<Seq<(Seq<char>, JsonKind)>>);
        }
    }
}

proof fn lemma_widened_present(es: Seq<(Seq<char>, JsonKind)>, key: Seq<char>)
    ensures
        widened(es, key) is Some <==> keys_of(es).contains(key),
    decreases es.len(),
{
    if !keys_of(es).contains(key) {
        lemma_widened_absent(es, key);
    } else if es.len() > 0 {
        assert(keys_of(es.drop_last()) =~= keys_of(es).drop_last());
        if es.last().0 != key {
            let i = choose|i: int| 0 <= i < keys_of(es).len() && keys_of(es)[i] == key;
            assert(i != es.len() - 1);
            assert(keys_of(es.drop_last())[i] == key);
            lemma_widened_present(es.drop_last(), key);
        }
    }
}

/// The same records in any order: both runs have a non-object record or
/// neither, they are equally long, and for every key they agree on whether
/// it is a column, on its widened type, and on how many records have it.
proof fn lemma_order_free(rs1: Seq<Option<Seq<(Seq<char>, JsonKind)>>>, rs2: Seq<Option<Seq<(Seq<char>, JsonKind)>>>, key: Seq<char>)
    requires
        rs1.to_multiset() == rs2.to_multiset(),
    ensures
        rs1.len() == rs2.len(),
        rs1.contains(None) == rs2.contains(None),
        widened(all_entries(rs1), key) == widened(all_entries(rs2), key),
        records_with_key(rs1, key) == records_with_key(rs2, key),
    decreases rs1.len(),
{
    broadcast use group_to_multiset_ensures;
    assert(rs1.len() == rs1.to_multiset().len());
    assert(rs2.len() == rs2.to_multiset().len());
    assert(rs1.contains(None) == (rs1.to_multiset().count(None) > 0));
    assert(rs2.contains(None) == (rs2.to_multiset().count(None) > 0));
    if rs1.len() > 0 {
        let x = rs1.last();
        let d1 = rs1.drop_last();
        assert(d1.push(x) =~= rs1);
        assert(rs1.to_multiset() =~= d1.to_multiset().insert(x));
        assert(rs1.to_multiset().count(x) > 0);
        assert(rs2.contains(x));
        let j = choose|j: int| 0 <= j < rs2.len() && rs2[j] == x;
        let d2 = rs2.remove(j);
        assert(d2.to_multiset() =~= rs2.to_multiset().remove(x));
        assert(d1.to_multiset() =~= rs1.to_multiset().remove(x));
        lemma_order_free(d1, d2, key);
        let a = rs2.take(j);
        let b = rs2.skip(j + 1);
        let xs = seq![x];
        assert(rs2 =~= a + xs + b);
        assert(d2 =~= a + b);
        assert(rs1 =~= d1 + xs);
        lemma_records_with_key_append(a + xs, b, key);
        lemma_records_with_key_append(a, xs, key);
        lemma_records_with_key_append(a, b, key);
        lemma_records_with_key_append(d1, xs, key);
        lemma_all_entries_append(a + xs, b);
        lemma_all_entries_append(a, xs);
        lemma_all_entries_append(a, b);
        lemma_all_entries_append(d1, xs);
        let wa = widened(all_entries(a), key);
        let wx = widened(all_entries(xs), key);
        let wb = widened(all_entries(b), key);
        lemma_widened_append(all_entries(a + xs), all_entries(b), key);
        lemma_widened_append(all_entries(a), all_entries(xs), key);
        lemma_widened_append(all_entries(a), all_entries(b), key);
        lemma_widened_append(all_entries(d1), all_entries(xs), key);
        lemma_join_swap(wa, wx, wb);
    }
}

/// Inference does not depend on the order of the records: runs with the same
/// records (as a multiset) both fail on a non-object record or neither, are
/// both empty or neither, have the same column names, and give a column of
/// the same name the same type and the same nullability.
pub proof fn law_inference_ignores_record_order(
    rs1: Seq<Option<Seq<(Seq<char>, JsonKind)>>>,
    rs2: Seq<Option<Seq<(Seq<char>, JsonKind)>>>,
)
    requires
        rs1.to_multiset() == rs2.to_multiset(),
    ensures
        (first_non_object(rs1) >= 0) == (first_non_object(rs2) >= 0),
        rs1.len() == rs2.len(),
        forall|key: Seq<char>| #[trigger] tally(rs1).0.contains(key) == tally(rs2).0.contains(key),
        forall|k1: int, k2: int|
            0 <= k1 < tally(rs1).0.len() && 0 <= k2 < tally(rs2).0.len() && tally(rs1).0[k1]
                == tally(rs2).0[k2] ==> {
                &&& tally(rs1).1[k1] == tally(rs2).1[k2]
                &&& (records_with_key(rs1, tally(rs1).0[k1]) < rs1.len()) == (records_with_key(
                    rs2,
                    tally(rs2).0[k2],
                ) < rs2.len())
            },
{
    lemma_first_non_object_contains(rs1);
    lemma_first_non_object_contains(rs2);
    lemma_order_free(rs1, rs2, Seq::empty());
    assert forall|key: Seq<char>| #[trigger] tally(rs1).0.contains(key) == tally(rs2).0.contains(key) by {
        lemma_order_free(rs1, rs2, key);
        law_columns_are_the_keys(rs1, key);
        law_columns_are_the_keys(rs2, key);
        lemma_widened_present(all_entries(rs1), key);
        lemma_widened_present(all_entries(rs2), key);
    }
    assert forall|k1: int, k2: int|
        0 <= k1 < tally(rs1).0.len() && 0 <= k2 < tally(rs2).0.len() && tally(rs1).0[k1]
            == tally(rs2).0[k2] implies {
            &&& tally(rs1).1[k1] == tally(rs2).1[k2]
            &&& (records_with_key(rs1, tally(rs1).0[k1]) < rs1.len()) == (records_with_key(
                rs2,
                tally(rs2).0[k2],
            ) < rs2.len())
        } by {
        let key = tally(rs1).0[k1];
        lemma_order_free(rs1, rs2, key);
        law_column_type_is_widening(rs1, k1);
        law_column_type_is_widening(rs2, k2);
    }
}

} // verus!
