use vstd::prelude::*;
use vstd::string::*;

verus! {

#[verifier::external_type_specification]
#[verifier::external_body]
pub struct ExTable(prettytable::Table);

/// The rows a table holds, top to bottom; each row's cells left to right;
/// each cell as the sequence of content lines it stores.
pub uninterp spec fn table_rows(t: prettytable::Table) -> Seq<Seq<Seq<Seq<char>>>>;

/// A line split off before a line feed loses one carriage return standing
/// right before it.
pub open spec fn strip_cr(line: Seq<char>) -> Seq<char> {
    if line.len() > 0 && line.last() == '\r' {
        line.drop_last()
    } else {
        line
    }
}

/// Index of the first line feed, or the length when there is none.
pub open spec fn first_nl(s: Seq<char>) -> nat
    decreases s.len(),
{
    if s.len() == 0 {
        0
    } else if s[0] == '\n' {
        0
    } else {
        (1 + first_nl(s.drop_first())) as nat
    }
}

/// The first line feed never lies beyond the end.
pub proof fn lemma_first_nl_le(s: Seq<char>)
    ensures
        first_nl(s) <= s.len(),
    decreases s.len(),
{
    if s.len() > 0 && s[0] != '\n' {
        lemma_first_nl_le(s.drop_first());
    }
}

/// The lines of a text as `str::lines` yields them: split at each line
/// feed, a carriage return right before a line feed going with it; a final
/// segment without a line feed stands as it is; the empty text has no
/// lines.
pub open spec fn lines_of(s: Seq<char>) -> Seq<Seq<char>>
    decreases s.len(),
    via lines_of_decreases
{
    if s.len() == 0 {
        Seq::<Seq<char>>::empty()
    } else {
        let i = first_nl(s) as int;
        if i == s.len() {
            seq![s]
        } else {
            seq![strip_cr(s.take(i))] + lines_of(s.subrange(i + 1, s.len() as int))
        }
    }
}

#[via_fn]
proof fn lines_of_decreases(s: Seq<char>) {
    lemma_first_nl_le(s);
}

/// Relies on prettytable's Table::new: an empty table, holding no rows.
#[verifier::external_body]
fn new_table() -> (t: prettytable::Table)
    ensures
        table_rows(t) == Seq::<Seq<Seq<Seq<char>>>>::empty(),
{
    prettytable::Table::new()
}

/// Relies on prettytable's FormatBuilder and Table::set_format: replacing
/// the rendering style (single-space column separator, no left padding, one
/// space of right padding) changes no row.
#[verifier::external_body]
fn set_compact_format(t: &mut prettytable::Table)
    ensures
        table_rows(*final(t)) == table_rows(*old(t)),
{
    let format = prettytable::format::FormatBuilder::new()
        .column_separator(' ')
        .padding(0, 1)
        .build();
    t.set_format(format);
}

/// Relies on prettytable's Table::add_row (with Cell::new and Row::new
/// converting the texts): appends exactly one row, each of whose cells
/// stores the lines of the corresponding text, leaving every earlier row as
/// it was.
#[verifier::external_body]
fn add_row(t: &mut prettytable::Table, cells: &Vec<String>)
    ensures
        table_rows(*final(t)) == table_rows(*old(t)).push(
            cells@.map_values(|c: String| lines_of(c@)),
        ),
{
    let row = prettytable::Row::new(cells.iter().map(|c| prettytable::Cell::new(c)).collect());
    let _ = t.add_row(row);
}

/// One processed file as the summary table shows it: its name, the change
/// sign recorded for it, and the link produced for it.
#[derive(Debug)]
pub struct ProcessedFile {
    /// Name of the processed file.
    pub name: String,
    /// Change sign: the sign "E" records an error for this file.
    pub change: String,
    /// Link produced for the file.
    pub link: String,
}

/// The row shown for one entry — each cell as its line sequence — with the
/// change sign, or without it.
pub open spec fn row_of(f: ProcessedFile, show_change_sign: bool) -> Seq<Seq<Seq<char>>> {
    if show_change_sign {
        seq![lines_of(f.change@), lines_of(f.name@), lines_of(f.link@)]
    } else {
        seq![lines_of(f.name@), lines_of(f.link@)]
    }
}

/// The table rows for the given entries, in order.
pub open spec fn processed_rows(files: Seq<ProcessedFile>, show_change_sign: bool) -> Seq<
    Seq<Seq<Seq<char>>>,
> {
    files.map_values(|f: ProcessedFile| row_of(f, show_change_sign))
}

/// How many entries carry a change sign other than "E".
pub open spec fn success_count_of(files: Seq<ProcessedFile>) -> int
    decreases files.len(),
{
    if files.len() == 0 {
        0
    } else {
        success_count_of(files.drop_last()) + if files.last().change@ == "E"@ {
            0int
        } else {
            1int
        }
    }
}

/// The success count never exceeds the number of entries.
proof fn lemma_success_count_le(files: Seq<ProcessedFile>)
    ensures
        0 <= success_count_of(files) <= files.len(),
    decreases files.len(),
{
    if files.len() > 0 {
        lemma_success_count_le(files.drop_last());
    }
}

/// Whether a change sign is exactly "E".
fn is_error_sign(change: &String) -> (r: bool)
    ensures
        r == (change@ == "E"@),
{
    proof {
        reveal_strlit("E");
    }
    let s = change.as_str();
    if s.unicode_len() == 1 {
        let c = s.get_char(0);
        proof {
            assert(c == 'E' ==> s@ =~= "E"@);
            assert(s@ == "E"@ ==> c == 'E');
        }
        c == 'E'
    } else {
        false
    }
}

/// Build the compact summary table of processed files — one row for each
/// entry in the given order, with or without the change sign column — and
/// count the entries whose change sign does not record an error.  The
/// caller owns the entry order and any uniqueness of names: it hands the
/// entries over as its name-keyed map yields them, ascending by name.
pub fn gen_processed_files_table(
    processed_files: &Vec<ProcessedFile>,
    show_change_sign: bool,
) -> (r: (prettytable::Table, u64))
    ensures
        table_rows(r.0) == processed_rows(processed_files@, show_change_sign),
        r.1 == success_count_of(processed_files@),
{
    let mut table = new_table();
    set_compact_format(&mut table);
    let mut success_count: u64 = 0;
    let n = processed_files.len();
    let mut i: usize = 0;
    while i < n
        invariant
            n == processed_files@.len(),
            0 <= i <= n,
            table_rows(table) =~= processed_rows(processed_files@.take(i as int), show_change_sign),
            success_count == success_count_of(processed_files@.take(i as int)),
            success_count <= i,
        decreases n - i,
    {
        let f = &processed_files[i];
        if !is_error_sign(&f.change) {
            success_count = success_count + 1;
        }
        let mut cells: Vec<String> = Vec::new();
        if show_change_sign {
            cells.push(f.change.clone());
        }
        cells.push(f.name.clone());
        cells.push(f.link.clone());
        add_row(&mut table, &cells);
        proof {
            let pf = processed_files@;
            assert(pf.take(i + 1).drop_last() =~= pf.take(i as int));
            assert(pf.take(i + 1).last() == pf[i as int]);
            assert(cells@.map_values(|c: String| lines_of(c@)) =~= row_of(
                pf[i as int],
                show_change_sign,
            ));
            assert(table_rows(table) =~= processed_rows(pf.take(i + 1), show_change_sign));
            lemma_success_count_le(pf.take(i + 1));
        }
        i = i + 1;
    }
    proof {
        assert(processed_files@.take(n as int) =~= processed_files@);
    }
    (table, success_count)
}

} // verus!
