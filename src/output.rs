use crate::config::{Config, OutputFormat};
use crate::generate::texts;
use crate::text::push_char;
use vstd::prelude::*;

verus! {

/// The compact JSON text of an array of strings, as the json crate writes it.
pub uninterp spec fn json_of(items: Seq<Seq<char>>) -> Seq<char>;

/// The indented JSON text of an array of strings, as the json crate writes it.
pub uninterp spec fn json_pretty_of(items: Seq<Seq<char>>, spaces: u16) -> Seq<char>;

/// The text of a table with the given rows of cells, as prettytable draws it.
pub uninterp spec fn table_of(rows: Seq<Seq<Seq<char>>>) -> Seq<char>;

/// Relies on json's `stringify`: the array's text depends on its strings alone.
#[verifier::external_body]
fn json_compact(items: &Vec<String>) -> (r: String)
    ensures
        r@ == json_of(texts(items@)),
{
    json::stringify(items.clone())
}

/// Relies on json's `stringify_pretty`: the array's text depends on its
/// strings and the indent alone.
#[verifier::external_body]
fn json_pretty(items: &Vec<String>, spaces: u16) -> (r: String)
    ensures
        r@ == json_pretty_of(texts(items@), spaces),
{
    json::stringify_pretty(items.clone(), spaces)
}

/// The cells of each row.
pub open spec fn row_texts(rows: Seq<Vec<String>>) -> Seq<Seq<Seq<char>>> {
    rows.map_values(|r: Vec<String>| texts(r@))
}

/// Relies on prettytable's `Table::from` and its `Display`: the table's text
/// depends on its cells alone.
#[verifier::external_body]
fn table_text(rows: &Vec<Vec<String>>) -> (r: String)
    ensures
        r@ == table_of(row_texts(rows@)),
{
    prettytable::Table::from(rows.clone()).to_string()
}

/// Each string on a line of its own.
pub open spec fn lines_of(v: Seq<Seq<char>>) -> Seq<char>
    decreases v.len(),
{
    if v.len() == 0 {
        Seq::empty()
    } else {
        lines_of(v.subrange(0, v.len() - 1)) + v[v.len() - 1] + seq!['\n']
    }
}

/// The strings with `sep` between each two.
pub open spec fn joined(v: Seq<Seq<char>>, sep: char) -> Seq<char>
    decreases v.len(),
{
    if v.len() == 0 {
        Seq::empty()
    } else if v.len() == 1 {
        v[0]
    } else {
        joined(v.subrange(0, v.len() - 1), sep) + seq![sep] + v[v.len() - 1]
    }
}

/// The number of cells in a row of the table.
pub const ROW_WIDTH: usize = 4;

/// The strings cut into rows of `ROW_WIDTH`, the last row possibly shorter.
pub open spec fn rows_of(v: Seq<Seq<char>>) -> Seq<Seq<Seq<char>>>
    decreases v.len(),
{
    if v.len() == 0 {
        Seq::empty()
    } else if v.len() <= ROW_WIDTH {
        seq![v]
    } else {
        seq![v.take(ROW_WIDTH as int)] + rows_of(v.skip(ROW_WIDTH as int))
    }
}

/// What is written out for the strings in a format.
pub open spec fn rendered(format: OutputFormat, pretty: bool, v: Seq<Seq<char>>) -> Seq<char> {
    match format {
        OutputFormat::Simple => lines_of(v),
        OutputFormat::Csv => joined(v, ',') + seq!['\n'],
        OutputFormat::Json => if pretty {
            json_pretty_of(v, 2) + seq!['\n']
        } else {
            json_of(v) + seq!['\n']
        },
        OutputFormat::Table => table_of(rows_of(v)),
    }
}

fn simple_text(strings: &Vec<String>) -> (r: String)
    ensures
        r@ == lines_of(texts(strings@)),
{
    let ghost v = texts(strings@);
    let mut out = String::new();
    let mut i: usize = 0;
    assert(v.subrange(0, 0) =~= Seq::<Seq<char>>::empty());
    while i < strings.len()
        invariant
            0 <= i <= strings@.len(),
            v == texts(strings@),
            out@ == lines_of(v.subrange(0, i as int)),
        decreases strings@.len() - i,
    {
        let ghost after = v.subrange(0, i + 1);
        assert(after.subrange(0, after.len() - 1) =~= v.subrange(0, i as int));
        out.append(strings[i].as_str());
        push_char(&mut out, '\n');
        i = i + 1;
    }
    assert(v.subrange(0, i as int) =~= v);
    out
}

fn csv_text(strings: &Vec<String>) -> (r: String)
    ensures
        r@ == joined(texts(strings@), ','),
{
    let ghost v = texts(strings@);
    let mut out = String::new();
    let mut i: usize = 0;
    assert(v.subrange(0, 0) =~= Seq::<Seq<char>>::empty());
    while i < strings.len()
        invariant
            0 <= i <= strings@.len(),
            v == texts(strings@),
            out@ == joined(v.subrange(0, i as int), ','),
        decreases strings@.len() - i,
    {
        let ghost after = v.subrange(0, i + 1);
        assert(after.subrange(0, after.len() - 1) =~= v.subrange(0, i as int));
        if i > 0 {
            push_char(&mut out, ',');
        } else {
            assert(Seq::<char>::empty() + v[0] =~= v[0]);
        }
        out.append(strings[i].as_str());
        i = i + 1;
    }
    assert(v.subrange(0, i as int) =~= v);
    out
}

/// The strings cut into rows of `ROW_WIDTH`.
fn table_rows(strings: &Vec<String>) -> (r: Vec<Vec<String>>)
    ensures
        row_texts(r@) == rows_of(texts(strings@)),
{
    let ghost v = texts(strings@);
    let mut rows: Vec<Vec<String>> = Vec::new();
    let mut i: usize = 0;
    assert(v.skip(0) =~= v);
    while i < strings.len()
        invariant
            0 <= i <= strings@.len(),
            v == texts(strings@),
            row_texts(rows@) + rows_of(v.skip(i as int)) == rows_of(v),
        decreases strings@.len() - i,
    {
        let end = if strings.len() - i <= ROW_WIDTH { strings.len() } else { i + ROW_WIDTH };
        let mut row: Vec<String> = Vec::new();
        let mut j: usize = i;
        while j < end
            invariant
                i <= j <= end <= strings@.len(),
                v == texts(strings@),
                texts(row@) == v.subrange(i as int, j as int),
            decreases end - j,
        {
            let ghost before = row@;
            row.push(strings[j].clone());
            assert(texts(row@) =~= texts(before).push(strings@[j as int]@));
            assert(texts(row@) =~= v.subrange(i as int, j + 1));
            j = j + 1;
        }
        let ghost rest = v.skip(i as int);
        if strings.len() - i <= ROW_WIDTH {
            assert(rest =~= v.subrange(i as int, end as int));
            assert(v.skip(end as int) =~= Seq::<Seq<char>>::empty());
        } else {
            assert(rest.take(ROW_WIDTH as int) =~= v.subrange(i as int, end as int));
            assert(rest.skip(ROW_WIDTH as int) =~= v.skip(end as int));
        }
        let ghost old_rows = rows@;
        rows.push(row);
        assert(row_texts(rows@) =~= row_texts(old_rows).push(texts(row@)));
        assert(row_texts(rows@) + rows_of(v.skip(end as int)) =~= row_texts(old_rows) + rows_of(rest));
        i = end;
    }
    assert(v.skip(i as int) =~= Seq::<Seq<char>>::empty());
    assert(row_texts(rows@) + Seq::<Seq<Seq<char>>>::empty() =~= row_texts(rows@));
    rows
}

/// The text that writes the strings out in the configured format: one per
/// line, comma-separated, a JSON array (indented by 2 where `pretty`), or a
/// table of `ROW_WIDTH` columns.
pub fn output(config: &Config, strings: &Vec<String>) -> (r: Result<String, String>)
    ensures
        r matches Ok(t) && t@ == rendered(config.format, config.pretty, texts(strings@)),
{
    match config.format {
        OutputFormat::Simple => Ok(simple_text(strings)),
        OutputFormat::Csv => {
            let mut t = csv_text(strings);
            push_char(&mut t, '\n');
            Ok(t)
        },
        OutputFormat::Json => {
            let mut t = if config.pretty {
                json_pretty(strings, 2)
            } else {
                json_compact(strings)
            };
            push_char(&mut t, '\n');
            Ok(t)
        },
        OutputFormat::Table => Ok(table_text(&table_rows(strings))),
    }
}

} // verus!
