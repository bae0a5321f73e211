//! Additive `ALTER TABLE` migrations between two inferred schemas.
use vstd::prelude::*;
use crate::schema::Column;
use crate::schema::InferredSchema;
use crate::schema::ch_type_name;
use crate::schema::column_sql_type;
use crate::schema::quote_ident;
use crate::schema::quoted_ident;
use crate::text::join;
use crate::text::join_seqs;

verus! {

broadcast use vstd::string::group_string_axioms;

/// The migrations between two schemas, and what was left for a person to
/// review.
pub struct Diff {
    pub up: String,
    pub down: String,
    pub warnings: Vec<String>,
}

/// Position of the last column named `name`, or -1 (a map keyed by name
/// keeps the last of equal keys).
pub open spec fn last_named(cols: Seq<Column>, name: Seq<char>) -> int
    decreases cols.len(),
{
    if cols.len() == 0 {
        -1
    } else if cols.last().name@ == name {
        cols.len() - 1
    } else {
        last_named(cols.drop_last(), name)
    }
}

/// Some column is named `name`.
pub open spec fn has_column(cols: Seq<Column>, name: Seq<char>) -> bool {
    exists|i: int| 0 <= i < cols.len() && (#[trigger] cols[i]).name@ == name
}

/// ` ON CLUSTER `c`` when a cluster is given.
pub open spec fn on_cluster(cluster: Option<Seq<char>>) -> Seq<char> {
    match cluster {
        Some(c) => " ON CLUSTER "@ + quoted_ident(c),
        None => Seq::empty(),
    }
}

/// The statement that adds a column.
pub open spec fn add_column_sql(t: Seq<char>, oc: Seq<char>, col: Column) -> Seq<char> {
    "ALTER TABLE "@ + quoted_ident(t) + oc + " ADD COLUMN IF NOT EXISTS "@ + quoted_ident(col.name@)
        + " "@ + column_sql_type(col) + ";"@
}

/// The statement that drops a column again.
pub open spec fn drop_column_sql(t: Seq<char>, oc: Seq<char>, col: Column) -> Seq<char> {
    "ALTER TABLE "@ + quoted_ident(t) + oc + " DROP COLUMN IF EXISTS "@ + quoted_ident(col.name@)
        + ";"@
}

/// The warning for a column whose type or nullability changed.
pub open spec fn changed_type_warning(old_col: Column, new_col: Column) -> Seq<char> {
    "column `"@ + new_col.name@ + "` changed type "@ + ch_type_name(
        old_col.ch_type,
        old_col.nullable,
    ) + " -> "@ + ch_type_name(new_col.ch_type, new_col.nullable)
        + " (no MODIFY emitted; review manually)"@
}

/// The warning for a column that is gone.
pub open spec fn removed_warning(col: Column) -> Seq<char> {
    "column `"@ + col.name@ + "` exists in old but not new (no DROP emitted; review manually)"@
}

/// The column of `new` at its name in `old` differs in type or nullability.
pub open spec fn changed(old: Seq<Column>, col: Column) -> bool {
    let p = last_named(old, col.name@);
    p >= 0 && (old[p].ch_type != col.ch_type || old[p].nullable != col.nullable)
}

/// For the columns of `new` in order: the `ADD` statements, the matching
/// `DROP` statements (in the same order), and the type-change warnings.
pub open spec fn column_changes(
    old: Seq<Column>,
    new: Seq<Column>,
    t: Seq<char>,
    oc: Seq<char>,
) -> (Seq<Seq<char>>, Seq<Seq<char>>, Seq<Seq<char>>)
    decreases new.len(),
{
    if new.len() == 0 {
        (Seq::empty(), Seq::empty(), Seq::empty())
    } else {
        let r = column_changes(old, new.drop_last(), t, oc);
        let col = new.last();
        let p = last_named(old, col.name@);
        if p < 0 {
            (r.0.push(add_column_sql(t, oc, col)), r.1.push(drop_column_sql(t, oc, col)), r.2)
        } else if changed(old, col) {
            (r.0, r.1, r.2.push(changed_type_warning(old[p], col)))
        } else {
            r
        }
    }
}

/// Warnings for the columns of `old`, in order, that `new` lacks.
pub open spec fn removal_warnings(old: Seq<Column>, new: Seq<Column>) -> Seq<Seq<char>>
    decreases old.len(),
{
    if old.len() == 0 {
        Seq::empty()
    } else {
        let r = removal_warnings(old.drop_last(), new);
        if has_column(new, old.last().name@) {
            r
        } else {
            r.push(removed_warning(old.last()))
        }
    }
}

/// The view of an optional string slice.
pub open spec fn opt_str_view(o: Option<&str>) -> Option<Seq<char>> {
    match o {
        Some(s) => Some(s@),
        None => None,
    }
}

proof fn lemma_last_named_bounds(cols: Seq<Column>, name: Seq<char>)
    ensures
        -1 <= last_named(cols, name) < cols.len(),
        last_named(cols, name) >= 0 ==> cols[last_named(cols, name)].name@ == name,
        last_named(cols, name) < 0 ==> !has_column(cols, name),
        !has_column(cols, name) ==> last_named(cols, name) < 0,
    decreases cols.len(),
{
    if cols.len() > 0 {
        lemma_last_named_bounds(cols.drop_last(), name);
        if has_column(cols, name) && cols.last().name@ != name {
            let i = choose|i: int| 0 <= i < cols.len() && (#[trigger] cols[i]).name@ == name;
            assert(cols.drop_last()[i].name@ == name);
        }
        if last_named(cols, name) < 0 && has_column(cols, name) {
            let i = choose|i: int| 0 <= i < cols.len() && (#[trigger] cols[i]).name@ == name;
            assert(cols.drop_last()[i].name@ == name);
        }
    }
}

/// Position of the last column named `name`.
fn find_last(cols: &Vec<Column>, name: &String) -> (p: Option<usize>)
    ensures
        match p {
            Some(i) => last_named(cols@, name@) == i as int && i < cols.len(),
            None => last_named(cols@, name@) == -1,
        },
{
    let mut i: usize = cols.len();
    assert(cols@.take(i as int) =~= cols@);
    while i > 0
        invariant
            i <= cols.len(),
            last_named(cols@, name@) == last_named(cols@.take(i as int), name@),
        decreases i,
    {
        assert(cols@.take(i as int).drop_last() =~= cols@.take(i - 1));
        if cols[i - 1].name == *name {
            return Some(i - 1);
        }
        i = i - 1;
    }
    None
}

fn contains_column(cols: &Vec<Column>, name: &String) -> (b: bool)
    ensures
        b == has_column(cols@, name@),
{
    proof {
        lemma_last_named_bounds(cols@, name@);
    }
    find_last(cols, name).is_some()
}

/// Compares two inferred schemas and produces additive `ALTER TABLE`
/// migrations.
///
/// Only columns present in `new` but missing from `old` produce `ADD COLUMN`
/// (up) and `DROP COLUMN` (down, in reverse order). Removed columns and type
/// changes are reported as warnings rather than emitting destructive
/// `DROP`/`MODIFY` statements.
pub fn diff_schemas(
    old: &InferredSchema,
    new: &InferredSchema,
    table_name: &str,
    cluster: Option<&str>,
) -> (d: Diff)
    ensures
        ({
            let r = column_changes(
                old.columns@,
                new.columns@,
                table_name@,
                on_cluster(opt_str_view(cluster)),
            );
            &&& d.up@ == join_seqs(r.0, "\n"@)
            &&& d.down@ == join_seqs(r.1.reverse(), "\n"@)
            &&& d.warnings.deep_view() == r.2 + removal_warnings(old.columns@, new.columns@)
        }),
{
    let t = quote_ident(table_name);
    let mut oc = String::new();
    match cluster {
        Some(c) => {
            oc.append(" ON CLUSTER ");
            oc.append(quote_ident(c).as_str());
        },
        None => {},
    }
    let ghost ocv = on_cluster(opt_str_view(cluster));
    assert(oc@ == ocv);
    let oldc = &old.columns;
    let newc = &new.columns;
    let mut ups: Vec<String> = Vec::new();
    let mut downs: Vec<String> = Vec::new();
    let mut warnings: Vec<String> = Vec::new();
    let mut i: usize = 0;
    while i < newc.len()
        invariant
            i <= newc.len(),
            t@ == quoted_ident(table_name@),
            oc@ == ocv,
            ({
                let r = column_changes(oldc@, newc@.take(i as int), table_name@, ocv);
                &&& ups.deep_view() == r.0
                &&& downs.deep_view() == r.1
                &&& warnings.deep_view() == r.2
            }),
        decreases newc.len() - i,
    {
        assert(newc@.take(i + 1).drop_last() =~= newc@.take(i as int));
        let col = &newc[i];
        proof {
            lemma_last_named_bounds(oldc@, col.name@);
        }
        match find_last(oldc, &col.name) {
            None => {
                let qcol = quote_ident(col.name.as_str());
                let mut up = String::from_str("ALTER TABLE ");
                up.append(t.as_str());
                up.append(oc.as_str());
                up.append(" ADD COLUMN IF NOT EXISTS ");
                up.append(qcol.as_str());
                up.append(" ");
                up.append(col.ch_type_str().as_str());
                up.append(";");
                let mut down = String::from_str("ALTER TABLE ");
                down.append(t.as_str());
                down.append(oc.as_str());
                down.append(" DROP COLUMN IF EXISTS ");
                down.append(qcol.as_str());
                down.append(";");
                let ghost u0 = ups.deep_view();
                let ghost d0 = downs.deep_view();
                ups.push(up);
                downs.push(down);
                assert(ups.deep_view() =~= u0.push(add_column_sql(table_name@, ocv, *col)));
                assert(downs.deep_view() =~= d0.push(drop_column_sql(table_name@, ocv, *col)));
            },
            Some(p) => {
                let old_col = &oldc[p];
                if old_col.ch_type != col.ch_type || old_col.nullable != col.nullable {
                    let mut w = String::from_str("column `");
                    w.append(col.name.as_str());
                    w.append("` changed type ");
                    w.append(old_col.ch_type.as_ch_str(old_col.nullable));
                    w.append(" -> ");
                    w.append(col.ch_type.as_ch_str(col.nullable));
                    w.append(" (no MODIFY emitted; review manually)");
                    let ghost w0 = warnings.deep_view();
                    warnings.push(w);
                    assert(warnings.deep_view() =~= w0.push(
                        changed_type_warning(oldc@[p as int], *col),
                    ));
                }
            },
        }
        i = i + 1;
    }
    assert(newc@.take(newc.len() as int) =~= newc@);
    let ghost changes = warnings.deep_view();
    let mut k: usize = 0;
    while k < oldc.len()
        invariant
            k <= oldc.len(),
            warnings.deep_view() == changes + removal_warnings(oldc@.take(k as int), newc@),
        decreases oldc.len() - k,
    {
        assert(oldc@.take(k + 1).drop_last() =~= oldc@.take(k as int));
        if !contains_column(newc, &oldc[k].name) {
            let mut w = String::from_str("column `");
            w.append(oldc[k].name.as_str());
            w.append("` exists in old but not new (no DROP emitted; review manually)");
            let ghost w0 = warnings.deep_view();
            warnings.push(w);
            assert(warnings.deep_view() =~= w0.push(removed_warning(oldc@[k as int])));
        }
        k = k + 1;
    }
    assert(oldc@.take(oldc.len() as int) =~= oldc@);
    let mut rev: Vec<String> = Vec::new();
    let mut j: usize = downs.len();
    let ghost dv = downs.deep_view();
    while j > 0
        invariant
            j <= downs.len(),
            dv == downs.deep_view(),
            rev.deep_view() == dv.subrange(j as int, dv.len() as int).reverse(),
        decreases j,
    {
        let ghost r0 = rev.deep_view();
        rev.push(downs[j - 1].clone());
        assert(rev.deep_view() =~= r0.push(dv[j - 1]));
        assert(dv.subrange(j - 1, dv.len() as int).reverse() =~= dv.subrange(
            j as int,
            dv.len() as int,
        ).reverse().push(dv[j - 1]));
        j = j - 1;
    }
    assert(dv.subrange(0, dv.len() as int) =~= dv);
    Diff { up: join(&ups, "\n"), down: join(&rev, "\n"), warnings }
}


/// No two columns share a name.
pub open spec fn column_names_distinct(cols: Seq<Column>) -> bool {
    forall|i: int, j: int|
        0 <= i < cols.len() && 0 <= j < cols.len() && i != j ==> cols[i].name@ != cols[j].name@
}

proof fn lemma_last_named_distinct(cols: Seq<Column>, i: int)
    requires
        column_names_distinct(cols),
        0 <= i < cols.len(),
    ensures
        last_named(cols, cols[i].name@) == i,
    decreases cols.len(),
{
    if i < cols.len() - 1 {
        assert(cols.last().name@ != cols[i].name@);
        assert(cols.drop_last()[i] == cols[i]);
        lemma_last_named_distinct(cols.drop_last(), i);
    }
}

proof fn lemma_no_changes_prefix(cols: Seq<Column>, n: int, t: Seq<char>, oc: Seq<char>)
    requires
        column_names_distinct(cols),
        0 <= n <= cols.len(),
    ensures
        column_changes(cols, cols.take(n), t, oc) == (
            Seq::<Seq<char>>::empty(),
            Seq::<Seq<char>>::empty(),
            Seq::<Seq<char>>::empty(),
        ),
    decreases n,
{
    if n > 0 {
        assert(cols.take(n).drop_last() =~= cols.take(n - 1));
        lemma_no_changes_prefix(cols, n - 1, t, oc);
        lemma_last_named_distinct(cols, n - 1);
    }
}

proof fn lemma_no_removals(old: Seq<Column>, new: Seq<Column>)
    requires
        forall|i: int| 0 <= i < old.len() ==> has_column(new, (#[trigger] old[i]).name@),
    ensures
        removal_warnings(old, new) == Seq::<Seq<char>>::empty(),
    decreases old.len(),
{
    if old.len() > 0 {
        assert(has_column(new, old[old.len() - 1].name@));
        lemma_no_removals(old.drop_last(), new);
    }
}

/// Comparing a schema (whose column names are distinct, as inferred schemas'
/// are) with itself adds nothing, drops nothing and warns of nothing.
pub proof fn law_diff_with_itself_is_empty(cols: Seq<Column>, t: Seq<char>, oc: Seq<char>)
    requires
        column_names_distinct(cols),
    ensures
        join_seqs(column_changes(cols, cols, t, oc).0, "\n"@).len() == 0,
        join_seqs(column_changes(cols, cols, t, oc).1.reverse(), "\n"@).len() == 0,
        column_changes(cols, cols, t, oc).2 + removal_warnings(cols, cols) == Seq::<
            Seq<char>,
        >::empty(),
{
    lemma_no_changes_prefix(cols, cols.len() as int, t, oc);
    assert(cols.take(cols.len() as int) =~= cols);
    assert forall|i: int| 0 <= i < cols.len() implies has_column(cols, (#[trigger] cols[i]).name@) by {
        assert(cols[i].name@ == cols[i].name@);
    }
    lemma_no_removals(cols, cols);
    assert(Seq::<Seq<char>>::empty().reverse() =~= Seq::<Seq<char>>::empty());
    assert(Seq::<Seq<char>>::empty() + Seq::<Seq<char>>::empty() =~= Seq::<Seq<char>>::empty());
}

/// Every statement of the up migration adds a column that `new` has and
/// `old` lacks, and the down migration has one drop per add.
pub proof fn law_diff_only_adds(old: Seq<Column>, new: Seq<Column>, t: Seq<char>, oc: Seq<char>)
    ensures
        column_changes(old, new, t, oc).0.len() == column_changes(old, new, t, oc).1.len(),
        forall|i: int|
            0 <= i < column_changes(old, new, t, oc).0.len() ==> exists|j: int|
                0 <= j < new.len() && !has_column(old, new[j].name@)
                    && (#[trigger] column_changes(old, new, t, oc).0[i]) == add_column_sql(t, oc, new[j])
                    && column_changes(old, new, t, oc).1[i] == drop_column_sql(t, oc, new[j]),
    decreases new.len(),
{
    if new.len() > 0 {
        law_diff_only_adds(old, new.drop_last(), t, oc);
        lemma_last_named_bounds(old, new.last().name@);
        let r = column_changes(old, new.drop_last(), t, oc);
        let r2 = column_changes(old, new, t, oc);
        assert forall|i: int| 0 <= i < r2.0.len() implies exists|j: int|
            0 <= j < new.len() && !has_column(old, new[j].name@)
                && (#[trigger] r2.0[i]) == add_column_sql(t, oc, new[j])
                && r2.1[i] == drop_column_sql(t, oc, new[j]) by {
            if i < r.0.len() {
                let j = choose|j: int|
                    0 <= j < new.drop_last().len() && !has_column(old, new.drop_last()[j].name@)
                        && (#[trigger] r.0[i]) == add_column_sql(t, oc, new.drop_last()[j])
                        && r.1[i] == drop_column_sql(t, oc, new.drop_last()[j]);
                assert(new[j] == new.drop_last()[j]);
            } else {
                assert(new[new.len() - 1] == new.last());
            }
        }
    }
}


/// The warning for column `col` of `new` whose type changed.
pub open spec fn change_warning_for(old: Seq<Column>, col: Column) -> Seq<char> {
    changed_type_warning(old[last_named(old, col.name@)], col)
}

/// `w` is the type-change warning of some changed column of `new`.
pub open spec fn warns_of_change(old: Seq<Column>, new: Seq<Column>, w: Seq<char>) -> bool {
    exists|j: int|
        #![trigger new[j]]
        0 <= j < new.len() && changed(old, new[j]) && w == change_warning_for(old, new[j])
}

/// `w` is the removal warning of some column of `old` that `new` lacks.
pub open spec fn warns_of_removal(old: Seq<Column>, new: Seq<Column>, w: Seq<char>) -> bool {
    exists|j: int|
        #![trigger old[j]]
        0 <= j < old.len() && !has_column(new, old[j].name@) && w == removed_warning(old[j])
}

proof fn lemma_change_warnings(old: Seq<Column>, new: Seq<Column>, t: Seq<char>, oc: Seq<char>)
    ensures
        forall|i: int|
            0 <= i < column_changes(old, new, t, oc).2.len() ==> warns_of_change(
                old,
                new,
                #[trigger] column_changes(old, new, t, oc).2[i],
            ),
        forall|j: int|
            0 <= j < new.len() && changed(old, #[trigger] new[j]) ==> column_changes(
                old,
                new,
                t,
                oc,
            ).2.contains(change_warning_for(old, new[j])),
    decreases new.len(),
{
    if new.len() > 0 {
        let d = new.drop_last();
        lemma_change_warnings(old, d, t, oc);
        lemma_last_named_bounds(old, new.last().name@);
        let r = column_changes(old, d, t, oc).2;
        let r2 = column_changes(old, new, t, oc).2;
        assert forall|i: int| 0 <= i < r2.len() implies warns_of_change(old, new, #[trigger] r2[i]) by {
            if i < r.len() {
                assert(warns_of_change(old, d, r[i]));
                let j = choose|j: int|
                    #![trigger d[j]]
                    0 <= j < d.len() && changed(old, d[j]) && r[i] == change_warning_for(old, d[j]);
                assert(new[j] == d[j]);
            } else {
                assert(new[new.len() - 1] == new.last());
            }
        }
        assert forall|j: int| 0 <= j < new.len() && changed(old, #[trigger] new[j]) implies r2.contains(
            change_warning_for(old, new[j]),
        ) by {
            if j < new.len() - 1 {
                assert(d[j] == new[j]);
                assert(r.contains(change_warning_for(old, d[j])));
                let i = choose|i: int| 0 <= i < r.len() && r[i] == change_warning_for(old, d[j]);
                assert(r2[i] == r[i]);
            } else {
                assert(r2[r2.len() - 1] == change_warning_for(old, new[j]));
            }
        }
    }
}

proof fn lemma_removal_warnings(old: Seq<Column>, new: Seq<Column>)
    ensures
        forall|i: int|
            0 <= i < removal_warnings(old, new).len() ==> warns_of_removal(
                old,
                new,
                #[trigger] removal_warnings(old, new)[i],
            ),
        forall|j: int|
            0 <= j < old.len() && !has_column(new, (#[trigger] old[j]).name@) ==> removal_warnings(
                old,
                new,
            ).contains(removed_warning(old[j])),
    decreases old.len(),
{
    if old.len() > 0 {
        let d = old.drop_last();
        lemma_removal_warnings(d, new);
        let r = removal_warnings(d, new);
        let r2 = removal_warnings(old, new);
        assert forall|i: int| 0 <= i < r2.len() implies warns_of_removal(old, new, #[trigger] r2[i]) by {
            if i < r.len() {
                assert(warns_of_removal(d, new, r[i]));
                let j = choose|j: int|
                    #![trigger d[j]]
                    0 <= j < d.len() && !has_column(new, d[j].name@) && r[i] == removed_warning(d[j]);
                assert(old[j] == d[j]);
            } else {
                assert(old[old.len() - 1] == old.last());
            }
        }
        assert forall|j: int| 0 <= j < old.len() && !has_column(new, (#[trigger] old[j]).name@) implies r2.contains(
            removed_warning(old[j]),
        ) by {
            if j < old.len() - 1 {
                assert(d[j] == old[j]);
                assert(r.contains(removed_warning(d[j])));
                let i = choose|i: int| 0 <= i < r.len() && r[i] == removed_warning(d[j]);
                assert(r2[i] == r[i]);
            } else {
                assert(r2[r2.len() - 1] == removed_warning(old[j]));
            }
        }
    }
}

/// The warnings of a diff are, first, those for the columns of `new` whose
/// name is in `old` with another type or nullability (in `new`'s order), and
/// then those for the columns of `old` whose name `new` lacks (in `old`'s
/// order): every such column is warned of, and nothing else is.
pub proof fn law_diff_warnings(old: Seq<Column>, new: Seq<Column>, t: Seq<char>, oc: Seq<char>)
    ensures
        forall|i: int|
            0 <= i < column_changes(old, new, t, oc).2.len() ==> warns_of_change(
                old,
                new,
                #[trigger] column_changes(old, new, t, oc).2[i],
            ),
        forall|j: int|
            0 <= j < new.len() && changed(old, #[trigger] new[j]) ==> column_changes(
                old,
                new,
                t,
                oc,
            ).2.contains(change_warning_for(old, new[j])),
        forall|i: int|
            0 <= i < removal_warnings(old, new).len() ==> warns_of_removal(
                old,
                new,
                #[trigger] removal_warnings(old, new)[i],
            ),
        forall|j: int|
            0 <= j < old.len() && !has_column(new, (#[trigger] old[j]).name@) ==> removal_warnings(
                old,
                new,
            ).contains(removed_warning(old[j])),
{
    lemma_change_warnings(old, new, t, oc);
    lemma_removal_warnings(old, new);
}


/// Every column of `new` whose name `old` lacks is added by the up
/// migration and dropped by the down migration, whatever its type or
/// nullability.
pub proof fn law_diff_adds_every_new_column(old: Seq<Column>, new: Seq<Column>, t: Seq<char>, oc: Seq<char>)
    ensures
        forall|j: int|
            0 <= j < new.len() && !has_column(old, (#[trigger] new[j]).name@) ==> {
                &&& column_changes(old, new, t, oc).0.contains(add_column_sql(t, oc, new[j]))
                &&& column_changes(old, new, t, oc).1.contains(drop_column_sql(t, oc, new[j]))
            },
    decreases new.len(),
{
    if new.len() > 0 {
        let d = new.drop_last();
        law_diff_adds_every_new_column(old, d, t, oc);
        lemma_last_named_bounds(old, new.last().name@);
        let r = column_changes(old, d, t, oc);
        let r2 = column_changes(old, new, t, oc);
        assert forall|j: int| 0 <= j < new.len() && !has_column(old, (#[trigger] new[j]).name@) implies {
            &&& r2.0.contains(add_column_sql(t, oc, new[j]))
            &&& r2.1.contains(drop_column_sql(t, oc, new[j]))
        } by {
            if j < new.len() - 1 {
                assert(d[j] == new[j]);
                assert(!has_column(old, d[j].name@));
                let a = choose|i: int| 0 <= i < r.0.len() && r.0[i] == add_column_sql(t, oc, d[j]);
                let b = choose|i: int| 0 <= i < r.1.len() && r.1[i] == drop_column_sql(t, oc, d[j]);
                assert(r2.0[a] == r.0[a]);
                assert(r2.1[b] == r.1[b]);
            } else {
                assert(new[j] == new.last());
                assert(r2.0[r2.0.len() - 1] == add_column_sql(t, oc, new[j]));
                assert(r2.1[r2.1.len() - 1] == drop_column_sql(t, oc, new[j]));
            }
        }
    }
}

/// A column of `new` is warned of as retyped whenever `old` has a column of
/// its name (the last one, as a map by name keeps) whose type or nullability
/// differs.
pub proof fn law_diff_warns_of_every_retyped_column(old: Seq<Column>, new: Seq<Column>, t: Seq<char>, oc: Seq<char>)
    ensures
        forall|j: int|
            0 <= j < new.len() && last_named(old, (#[trigger] new[j]).name@) >= 0 && (
            old[last_named(old, new[j].name@)].ch_type != new[j].ch_type
                || old[last_named(old, new[j].name@)].nullable != new[j].nullable)
                ==> column_changes(old, new, t, oc).2.contains(
                changed_type_warning(old[last_named(old, new[j].name@)], new[j]),
            ),
{
    law_diff_warnings(old, new, t, oc);
}

} // verus!
