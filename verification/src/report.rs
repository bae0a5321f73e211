//! The text of the scan report: a header, one line per field with its type
//! and role, and per suggested engine its key, summed columns, rationale and
//! the command that generates it. Colouring and printing are left to the
//! caller; each piece that is coloured on its own is a separate string.
use vstd::prelude::*;
use vstd::utf8::encode_utf8;
use crate::scanner::FieldRole;
use crate::scanner::EngineSuggestion;
use crate::scanner::ScanResult;
use crate::scanner::SuggestionView;
use crate::scanner::suggestions_view;
use crate::scanner::is_id_name;
use crate::scanner::is_numeric_type;
use crate::scanner::is_timestamp_name;
use crate::scanner::role_of;
use crate::schema::Column;
use crate::schema::engine_name;
use crate::text::decimal;
use crate::text::decimal_string;
use crate::text::join;
use crate::text::join_seqs;

verus! {

broadcast use vstd::string::group_string_axioms;

/// Length of a text in UTF-8 bytes (what `str::len` counts).
pub open spec fn byte_len(s: Seq<char>) -> nat {
    encode_utf8(s).len()
}

/// The widest field name, in bytes.
pub open spec fn name_width(fs: Seq<FieldRole>) -> nat
    decreases fs.len(),
{
    if fs.len() == 0 {
        0
    } else {
        let w = name_width(fs.drop_last());
        let b = byte_len(fs.last().name@);
        if b > w {
            b
        } else {
            w
        }
    }
}

/// The widest type, in bytes.
pub open spec fn type_width(fs: Seq<FieldRole>) -> nat
    decreases fs.len(),
{
    if fs.len() == 0 {
        0
    } else {
        let w = type_width(fs.drop_last());
        let b = byte_len(fs.last().ch_type@);
        if b > w {
            b
        } else {
            w
        }
    }
}

/// `s` left-aligned in a column of `width` characters.
pub open spec fn padded(s: Seq<char>, width: nat) -> Seq<char> {
    if s.len() < width {
        s + Seq::new((width - s.len()) as nat, |i: int| ' ')
    } else {
        s
    }
}

/// The header line.
pub open spec fn header_text(source: Seq<char>, records: nat, fields: nat) -> Seq<char> {
    "Field analysis: "@ + source + "  ("@ + decimal(records) + " records, "@ + decimal(fields)
        + " fields)\n"@
}

/// `nullable ` or `required `.
pub open spec fn requirement_text(f: FieldRole) -> Seq<char> {
    if f.nullable {
        "nullable "@
    } else {
        "required "@
    }
}

/// The role label: timestamp before id before numeric, or nothing.
pub open spec fn role_text(f: FieldRole) -> Seq<char> {
    if f.timestamp {
        "→ Timestamp-like"@
    } else if f.id {
        "→ ID-like"@
    } else if f.numeric {
        "→ Numeric"@
    } else {
        Seq::empty()
    }
}

/// `ORDER BY` line of a suggestion (names as they are, not quoted).
pub open spec fn order_line(s: SuggestionView) -> Seq<char> {
    "     ORDER BY "@ + if s.order_by.len() == 0 {
        "tuple()"@
    } else {
        "("@ + join_seqs(s.order_by, ", "@) + ")"@
    }
}

/// `SUM COLUMNS` line of a suggestion, when it sums anything.
pub open spec fn sum_line(s: SuggestionView) -> Option<Seq<char>> {
    if s.sum_columns.len() == 0 {
        None
    } else {
        Some("     SUM COLUMNS ("@ + join_seqs(s.sum_columns, ", "@) + ")"@)
    }
}

/// Rationale line of a suggestion.
pub open spec fn rationale_line(s: SuggestionView) -> Seq<char> {
    "     → "@ + s.rationale + "\n"@
}

/// The command that generates a table with a suggestion's engine.
pub open spec fn command_line(source: Seq<char>, s: SuggestionView) -> Seq<char> {
    "  schemamaker table "@ + source + " --engine "@ + engine_name(s.engine)
}

/// The pieces of one field line.
pub struct FieldLine {
    pub name: String,
    pub ch_type: String,
    pub requirement: String,
    pub role: String,
}

/// The lines about one suggestion.
pub struct SuggestionLines {
    pub number: String,
    pub engine: String,
    pub order_by: String,
    pub sum_columns: Option<String>,
    pub rationale: String,
    pub command: String,
}

/// The whole scan report.
pub struct ScanReport {
    pub header: String,
    pub fields: Vec<FieldLine>,
    pub suggestions: Vec<SuggestionLines>,
}

/// `l` is the line of field `f` in columns of widths `nw` and `tw`.
pub open spec fn field_line_of(l: FieldLine, f: FieldRole, nw: nat, tw: nat) -> bool {
    &&& l.name@ == padded(f.name@, nw)
    &&& l.ch_type@ == padded(f.ch_type@, tw)
    &&& l.requirement@ == requirement_text(f)
    &&& l.role@ == role_text(f)
}

/// `l` describes suggestion `s`, listed as number `n`.
pub open spec fn suggestion_lines_of(l: SuggestionLines, s: SuggestionView, n: nat, source: Seq<char>) -> bool {
    &&& l.number@ == decimal(n)
    &&& l.engine@ == engine_name(s.engine)
    &&& l.order_by@ == order_line(s)
    &&& match (l.sum_columns, sum_line(s)) {
        (Some(x), Some(y)) => x@ == y,
        (None, None) => true,
        _ => false,
    }
    &&& l.rationale@ == rationale_line(s)
    &&& l.command@ == command_line(source, s)
}

fn pad(s: &String, width: usize) -> (res: String)
    ensures
        res@ == padded(s@, width as nat),
{
    let mut res = s.clone();
    let n = s.as_str().unicode_len();
    if n < width {
        let mut k: usize = n;
        while k < width
            invariant
                n <= k <= width,
                n == s@.len(),
                res@ == s@ + Seq::new((k - n) as nat, |i: int| ' '),
            decreases width - k,
        {
            res.push(' ');
            assert(res@ =~= s@ + Seq::new((k + 1 - n) as nat, |i: int| ' '));
            k = k + 1;
        }
    }
    res
}

fn widths(fields: &Vec<FieldRole>) -> (res: (usize, usize))
    ensures
        res.0 == name_width(fields@),
        res.1 == type_width(fields@),
{
    let mut nw: usize = 0;
    let mut tw: usize = 0;
    let mut i: usize = 0;
    while i < fields.len()
        invariant
            i <= fields.len(),
            nw == name_width(fields@.take(i as int)),
            tw == type_width(fields@.take(i as int)),
        decreases fields.len() - i,
    {
        assert(fields@.take(i + 1).drop_last() =~= fields@.take(i as int));
        let nb = fields[i].name.as_str().as_bytes().len();
        let tb = fields[i].ch_type.as_str().as_bytes().len();
        if nb > nw {
            nw = nb;
        }
        if tb > tw {
            tw = tb;
        }
        i = i + 1;
    }
    assert(fields@.take(fields.len() as int) =~= fields@);
    (nw, tw)
}

fn suggestion_lines(s: &EngineSuggestion, n: usize, source: &str) -> (l: SuggestionLines)
    ensures
        suggestion_lines_of(l, s@, n as nat, source@),
{
    let mut order = String::from_str("     ORDER BY ");
    if s.order_by.len() == 0 {
        order.append("tuple()");
    } else {
        order.append("(");
        order.append(join(&s.order_by, ", ").as_str());
        order.append(")");
    }
    let sums = if s.sum_columns.len() == 0 {
        None
    } else {
        let mut line = String::from_str("     SUM COLUMNS (");
        line.append(join(&s.sum_columns, ", ").as_str());
        line.append(")");
        Some(line)
    };
    let mut rationale = String::from_str("     → ");
    rationale.append(s.rationale.as_str());
    rationale.append("\n");
    let mut command = String::from_str("  schemamaker table ");
    command.append(source);
    command.append(" --engine ");
    command.append(s.engine.as_str());
    let l = SuggestionLines {
        number: decimal_string(n),
        engine: s.engine.to_string(),
        order_by: order,
        sum_columns: sums,
        rationale,
        command,
    };
    assert(l.number@ == decimal(n as nat));
    assert(l.engine@ == engine_name(s@.engine));
    assert(l.order_by@ == order_line(s@));
    assert(l.rationale@ == rationale_line(s@));
    assert(l.command@ == command_line(source@, s@));
    l
}

/// The report for a scan of `source`, which held `record_count` records.
pub fn scan_report(result: &ScanResult, source: &str, record_count: usize) -> (r: ScanReport)
    ensures
        r.header@ == header_text(source@, record_count as nat, result.fields.len() as nat),
        r.fields.len() == result.fields.len(),
        forall|i: int|
            0 <= i < r.fields.len() ==> field_line_of(
                #[trigger] r.fields@[i],
                result.fields@[i],
                name_width(result.fields@),
                type_width(result.fields@),
            ),
        r.suggestions.len() == result.suggestions.len(),
        forall|i: int|
            0 <= i < r.suggestions.len() ==> suggestion_lines_of(
                #[trigger] r.suggestions@[i],
                suggestions_view(result.suggestions@)[i],
                (i + 1) as nat,
                source@,
            ),
{
    let mut header = String::from_str("Field analysis: ");
    header.append(source);
    header.append("  (");
    header.append(decimal_string(record_count).as_str());
    header.append(" records, ");
    header.append(decimal_string(result.fields.len()).as_str());
    header.append(" fields)\n");
    let (nw, tw) = widths(&result.fields);
    let mut fields: Vec<FieldLine> = Vec::new();
    let mut i: usize = 0;
    while i < result.fields.len()
        invariant
            i <= result.fields.len(),
            nw == name_width(result.fields@),
            tw == type_width(result.fields@),
            fields.len() == i,
            forall|k: int|
                0 <= k < i ==> field_line_of(
                    #[trigger] fields@[k],
                    result.fields@[k],
                    nw as nat,
                    tw as nat,
                ),
        decreases result.fields.len() - i,
    {
        let f = &result.fields[i];
        let requirement = if f.nullable {
            String::from_str("nullable ")
        } else {
            String::from_str("required ")
        };
        let role = if f.timestamp {
            String::from_str("→ Timestamp-like")
        } else if f.id {
            String::from_str("→ ID-like")
        } else if f.numeric {
            String::from_str("→ Numeric")
        } else {
            String::new()
        };
        fields.push(
            FieldLine { name: pad(&f.name, nw), ch_type: pad(&f.ch_type, tw), requirement, role },
        );
        i = i + 1;
    }
    let mut suggestions: Vec<SuggestionLines> = Vec::new();
    let mut j: usize = 0;
    while j < result.suggestions.len()
        invariant
            j <= result.suggestions.len(),
            suggestions.len() == j,
            forall|k: int|
                0 <= k < j ==> suggestion_lines_of(
                    #[trigger] suggestions@[k],
                    suggestions_view(result.suggestions@)[k],
                    (k + 1) as nat,
                    source@,
                ),
        decreases result.suggestions.len() - j,
    {
        let l = suggestion_lines(&result.suggestions[j], j + 1, source);
        suggestions.push(l);
        j = j + 1;
    }
    ScanReport { header, fields, suggestions }
}

/// A field gets one role label, by precedence: timestamp-like before
/// id-like before numeric; a field that is none of them gets no label. So a
/// numeric timestamp (epoch seconds) is labelled timestamp-like, and a
/// numeric id id-like.
pub proof fn law_role_precedence(f: FieldRole)
    ensures
        f.timestamp ==> role_text(f) == "→ Timestamp-like"@,
        !f.timestamp && f.id ==> role_text(f) == "→ ID-like"@,
        !f.timestamp && !f.id && f.numeric ==> role_text(f) == "→ Numeric"@,
        !f.timestamp && !f.id && !f.numeric ==> role_text(f) == Seq::<char>::empty(),
{
}

/// The label of a column's field, from the column itself: a timestamp-like
/// name wins whatever the type, then an id-like name, then a numeric type.
pub proof fn law_role_of_column(f: FieldRole, c: Column)
    requires
        role_of(f, c),
    ensures
        is_timestamp_name(c.name@) ==> role_text(f) == "→ Timestamp-like"@,
        !is_timestamp_name(c.name@) && is_id_name(c.name@) ==> role_text(f) == "→ ID-like"@,
        !is_timestamp_name(c.name@) && !is_id_name(c.name@) && is_numeric_type(c.ch_type)
            ==> role_text(f) == "→ Numeric"@,
        !is_timestamp_name(c.name@) && !is_id_name(c.name@) && !is_numeric_type(c.ch_type)
            ==> role_text(f) == Seq::<char>::empty(),
{
}

/// The name column is as wide as the widest name, in bytes: no name is
/// wider, and some name is that wide; likewise the type column.
pub proof fn law_widths_are_maxima(fs: Seq<FieldRole>)
    ensures
        forall|i: int| 0 <= i < fs.len() ==> byte_len((#[trigger] fs[i]).name@) <= name_width(fs),
        forall|i: int| 0 <= i < fs.len() ==> byte_len((#[trigger] fs[i]).ch_type@) <= type_width(fs),
        fs.len() > 0 ==> exists|i: int| 0 <= i < fs.len() && byte_len((#[trigger] fs[i]).name@) == name_width(fs),
        fs.len() > 0 ==> exists|i: int| 0 <= i < fs.len() && byte_len((#[trigger] fs[i]).ch_type@) == type_width(fs),
        fs.len() == 0 ==> name_width(fs) == 0 && type_width(fs) == 0,
    decreases fs.len(),
{
    if fs.len() > 0 {
        let d = fs.drop_last();
        law_widths_are_maxima(d);
        assert(fs[fs.len() - 1] == fs.last());
        assert forall|i: int| 0 <= i < fs.len() implies byte_len((#[trigger] fs[i]).name@) <= name_width(fs) by {
            if i < fs.len() - 1 {
                assert(d[i] == fs[i]);
            }
        }
        assert forall|i: int| 0 <= i < fs.len() implies byte_len((#[trigger] fs[i]).ch_type@) <= type_width(fs) by {
            if i < fs.len() - 1 {
                assert(d[i] == fs[i]);
            }
        }
        if d.len() > 0 {
            let a = choose|i: int| 0 <= i < d.len() && byte_len((#[trigger] d[i]).name@) == name_width(d);
            let b = choose|i: int| 0 <= i < d.len() && byte_len((#[trigger] d[i]).ch_type@) == type_width(d);
            assert(fs[a] == d[a]);
            assert(fs[b] == d[b]);
        }
    }
}

/// Padding keeps the text in front and fills with spaces up to the width;
/// a text already as wide is left alone.
pub proof fn law_padded(s: Seq<char>, width: nat)
    ensures
        padded(s, width).len() == if s.len() < width { width } else { s.len() },
        padded(s, width).subrange(0, s.len() as int) == s,
        forall|i: int| s.len() <= i < padded(s, width).len() ==> #[trigger] padded(s, width)[i] == ' ',
{
    assert(padded(s, width).subrange(0, s.len() as int) =~= s);
}

} // verus!
