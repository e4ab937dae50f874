//! Spreadsheets: turning cells into text, and planning the chunks in which
//! the rows of a sheet are written.
//!
//! A sheet with fewer rows than the threshold is written as one chunk.
//! A larger sheet is cut into runs of exactly that many rows, the last run
//! taking what is left; every run is written by a task of its own.

use vstd::prelude::*;
use vstd::string::*;
use vstd::arithmetic::div_mod::*;
use crate::config::{
    metadata_views, ExcelCell, ExcelCellView, ExcelRow, ExcelRowView, ExcelSheet,
    ExcelSheetMetadata, ExcelSheetMetadataView, ExcelSheetView, TAKE_EXCEL_COUNT,
};
use crate::order::{
    inserted, insert_position, is_ordered, is_rising, lemma_order_is_unique,
    lemma_ordered, ordered,
};
use crate::text::{decimal, i64_to_decimal, signed_decimal, u64_to_decimal};

verus! {

pub struct Excel;

/// What a cell of a sheet holds.
#[derive(Debug, PartialEq, Eq)]
pub enum CellValue {
    /// Nothing.
    Empty,
    /// Text, or a date, time or duration in its written form.
    Text(String),
    /// A number with a fraction, or a date, time or duration counted as
    /// such a number, already written out in decimal.
    Number(String),
    /// A whole number.
    Int(i64),
    /// A truth value.
    Bool(bool),
    /// A cell that could not be read.
    Error,
}

/// `value` as plain values, with the text of its string.
pub enum CellValueView {
    Empty,
    Text(Seq<char>),
    Number(Seq<char>),
    Int(int),
    Bool(bool),
    Error,
}

impl View for CellValue {
    type V = CellValueView;

    open spec fn view(&self) -> CellValueView {
        match self {
            CellValue::Empty => CellValueView::Empty,
            CellValue::Text(text) => CellValueView::Text(text@),
            CellValue::Number(text) => CellValueView::Number(text@),
            CellValue::Int(n) => CellValueView::Int(*n as int),
            CellValue::Bool(b) => CellValueView::Bool(*b),
            CellValue::Error => CellValueView::Error,
        }
    }
}

/// The text shown for a cell. Every cell has one: an empty cell and a
/// cell that could not be read show nothing.
pub open spec fn cell_text(value: CellValueView) -> Seq<char> {
    match value {
        CellValueView::Empty => seq![],
        CellValueView::Text(text) => text,
        CellValueView::Number(text) => text,
        CellValueView::Int(n) => signed_decimal(n),
        CellValueView::Bool(b) => if b {
            "true"@
        } else {
            "false"@
        },
        CellValueView::Error => seq![],
    }
}

/// The cells of row `x` of a chunk, as they are written out.
pub open spec fn cells_of(row: Seq<CellValue>, x: int) -> Seq<ExcelCellView> {
    Seq::new(
        row.len(),
        |y: int| ExcelCellView { value: cell_text(row[y]@), row_index: x, cell_index: y },
    )
}

/// The rows of a chunk, as they are written out: every row and every cell
/// carries its position inside the chunk, counted from 0.
pub open spec fn rows_of(chunk: Seq<Vec<CellValue>>) -> Seq<ExcelRowView> {
    Seq::new(chunk.len(), |x: int| ExcelRowView { index: x, cells: cells_of(chunk[x]@, x) })
}

/// The views of the rows of `v`.
pub open spec fn row_views(v: Seq<ExcelRow>) -> Seq<ExcelRowView> {
    v.map_values(|r: ExcelRow| r@)
}

/// The number of chunks in which a sheet of `rows` rows is written.
pub open spec fn chunk_count(rows: nat) -> nat {
    if rows < TAKE_EXCEL_COUNT {
        1
    } else {
        ((rows + TAKE_EXCEL_COUNT - 1) / (TAKE_EXCEL_COUNT as int)) as nat
    }
}

/// The last row of chunk `k` of a large sheet, chunks being counted from 0.
pub open spec fn chunk_end(rows: nat, k: int) -> int {
    if (k + 1) * TAKE_EXCEL_COUNT < rows {
        (k + 1) * TAKE_EXCEL_COUNT
    } else {
        rows as int
    }
}

/// Chunk `k` of the sheet `name` of `rows` rows, chunks being counted from
/// 0. The one chunk of a small sheet is written under the number 0; the
/// chunks of a large sheet are numbered from 1. Rows are counted from 1.
pub open spec fn chunk_of(name: Seq<char>, rows: nat, k: int) -> ExcelSheetMetadataView {
    if rows < TAKE_EXCEL_COUNT {
        ExcelSheetMetadataView { name, row_start: 1, row_end: rows as int, task_id: 0 }
    } else {
        ExcelSheetMetadataView {
            name,
            row_start: k * TAKE_EXCEL_COUNT + 1,
            row_end: chunk_end(rows, k),
            task_id: k + 1,
        }
    }
}

/// The chunks of the sheet `name` of `rows` rows, in the order of their
/// rows.
pub open spec fn sheet_chunks(name: Seq<char>, rows: nat) -> Seq<ExcelSheetMetadataView> {
    Seq::new(chunk_count(rows), |k: int| chunk_of(name, rows, k))
}

/// The name of the file into which a chunk is written. `index` is the
/// number of the sheet, `prefix` the name of the workbook without suffix.
pub open spec fn chunk_file_name(
    index: nat,
    prefix: Seq<char>,
    chunk: ExcelSheetMetadataView,
) -> Seq<char> {
    if chunk.task_id == 0 {
        decimal(index) + seq!['-'] + chunk.name + seq!['-'] + prefix
    } else {
        decimal(chunk.row_end as nat) + seq!['-'] + decimal(chunk.task_id as nat) + seq!['-']
            + chunk.name + seq!['-'] + prefix + seq!['-'] + decimal(chunk.task_id as nat)
    }
}

/// The chunks `chunks` lie end to end and cover the rows 1 to `rows`:
/// the first begins at row 1, each one begins where the one before it
/// ended, none is empty, and the last ends at row `rows`.
pub open spec fn covers(chunks: Seq<ExcelSheetMetadataView>, rows: nat) -> bool {
    &&& chunks.len() > 0
    &&& chunks[0].row_start == 1
    &&& chunks.last().row_end == rows
    &&& forall|k: int| 0 <= k < chunks.len() ==> (#[trigger] chunks[k]).row_start <= chunks[k].row_end
    &&& forall|k: int|
        0 < k < chunks.len() ==> (#[trigger] chunks[k]).row_start == chunks[k - 1].row_end + 1
}

/// The key by which chunks are put in order: the first row of each.
pub open spec fn first_row() -> spec_fn(ExcelSheetMetadataView) -> int {
    |m: ExcelSheetMetadataView| m.row_start
}

/// The chunks of `list` in the order of their rows.
pub open spec fn in_row_order(list: Seq<ExcelSheetMetadataView>) -> Seq<ExcelSheetMetadataView> {
    ordered(list, first_row())
}

/// The summary of a sheet.
pub open spec fn sheet_summary(
    name: Seq<char>,
    index: u32,
    rows: usize,
    cells: usize,
    metadata: Seq<ExcelSheetMetadataView>,
) -> ExcelSheetView {
    ExcelSheetView {
        name,
        index: index as int,
        rows_count: rows as int,
        cells_count: cells as int,
        metadata,
    }
}

/// The views of the sheets of `v`.
pub open spec fn sheet_views(v: Seq<ExcelSheet>) -> Seq<ExcelSheetView> {
    v.map_values(|s: ExcelSheet| s@)
}

impl Excel {
    /// The text shown for a cell.
    pub fn cell_value(value: &CellValue) -> (out: String)
        ensures
            out@ == cell_text(value@),
    {
        match value {
            CellValue::Empty => String::new(),
            CellValue::Text(text) => text.clone(),
            CellValue::Number(text) => text.clone(),
            CellValue::Int(n) => i64_to_decimal(*n),
            CellValue::Bool(b) => if *b {
                "true".to_owned()
            } else {
                "false".to_owned()
            },
            CellValue::Error => String::new(),
        }
    }

    /// Turns the rows of a chunk into what is written out for them: the
    /// text of every cell, with the place of the row in the chunk and of
    /// the cell in the row.
    pub fn get_row(chunks: &Vec<Vec<CellValue>>) -> (rows: Vec<ExcelRow>)
        ensures
            row_views(rows@) == rows_of(chunks@),
    {
        let mut rows: Vec<ExcelRow> = Vec::new();
        let mut x: usize = 0;
        while x < chunks.len()
            invariant
                x <= chunks@.len(),
                rows@.len() == x,
                forall|i: int| 0 <= i < x ==> (#[trigger] rows@[i])@ == rows_of(chunks@)[i],
            decreases chunks@.len() - x,
        {
            let chunk = &chunks[x];
            let mut cells: Vec<ExcelCell> = Vec::new();
            let mut y: usize = 0;
            while y < chunk.len()
                invariant
                    y <= chunk@.len(),
                    cells@.len() == y,
                    forall|j: int|
                        0 <= j < y ==> (#[trigger] cells@[j])@ == cells_of(chunk@, x as int)[j],
                decreases chunk@.len() - y,
            {
                cells.push(
                    ExcelCell { value: Self::cell_value(&chunk[y]), row_index: x, cell_index: y },
                );
                y += 1;
            }
            let row = ExcelRow { index: x, cells };
            assert(row@.cells =~= cells_of(chunk@, x as int));
            rows.push(row);
            x += 1;
        }
        assert(row_views(rows@) =~= rows_of(chunks@));
        rows
    }

    /// Plans the chunks of the sheet `sheet_name` of `row_size` rows.
    ///
    /// The chunks come in the order of their rows, lie end to end and,
    /// when the sheet has a row at all, cover the rows 1 to `row_size`.
    pub fn handle_sheet(sheet_name: &str, row_size: usize) -> (chunks: Vec<ExcelSheetMetadata>)
        ensures
            metadata_views(chunks@) == sheet_chunks(sheet_name@, row_size as nat),
            row_size > 0 ==> covers(metadata_views(chunks@), row_size as nat),
    {
        let mut chunks: Vec<ExcelSheetMetadata> = Vec::new();
        if row_size < TAKE_EXCEL_COUNT {
            chunks.push(
                ExcelSheetMetadata {
                    name: sheet_name.to_owned(),
                    row_start: 1,
                    row_end: row_size,
                    task_id: 0,
                },
            );
            assert(metadata_views(chunks@) =~= sheet_chunks(sheet_name@, row_size as nat));
            proof {
                if row_size > 0 {
                    lemma_chunks_cover(sheet_name@, row_size as nat);
                }
            }
            return chunks;
        }
        let count = (row_size - 1) / TAKE_EXCEL_COUNT + 1;
        proof {
            lemma_chunk_count(row_size as nat);
            lemma_div_plus_one((row_size - 1) as int, TAKE_EXCEL_COUNT as int);
            assert(count == chunk_count(row_size as nat));
        }
        let mut k: usize = 0;
        while k < count
            invariant
                row_size >= TAKE_EXCEL_COUNT,
                count == chunk_count(row_size as nat),
                (count - 1) * TAKE_EXCEL_COUNT < row_size <= count * TAKE_EXCEL_COUNT,
                k <= count,
                chunks@.len() == k,
                forall|j: int|
                    0 <= j < k ==> (#[trigger] chunks@[j])@ == chunk_of(
                        sheet_name@,
                        row_size as nat,
                        j,
                    ),
            decreases count - k,
        {
            proof {
                assert((k + 1) * TAKE_EXCEL_COUNT == k * TAKE_EXCEL_COUNT + TAKE_EXCEL_COUNT)
                    by (nonlinear_arith);
                assert(k * TAKE_EXCEL_COUNT <= (count - 1) * TAKE_EXCEL_COUNT) by (nonlinear_arith)
                    requires
                        k <= count - 1,
                ;
                if k + 1 < count {
                    assert((k + 1) * TAKE_EXCEL_COUNT <= (count - 1) * TAKE_EXCEL_COUNT)
                        by (nonlinear_arith)
                        requires
                            k + 1 <= count - 1,
                    ;
                }
            }
            let start = k * TAKE_EXCEL_COUNT + 1;
            let end = if k + 1 == count {
                row_size
            } else {
                (k + 1) * TAKE_EXCEL_COUNT
            };
            assert(end == chunk_end(row_size as nat, k as int));
            chunks.push(
                ExcelSheetMetadata {
                    name: sheet_name.to_owned(),
                    row_start: start,
                    row_end: end,
                    task_id: k + 1,
                },
            );
            k += 1;
        }
        proof {
            assert(metadata_views(chunks@) =~= sheet_chunks(sheet_name@, row_size as nat));
            lemma_chunks_cover(sheet_name@, row_size as nat);
        }
        chunks
    }

    /// Puts `entry` into `list` where its first row places it.
    fn insert(list: &mut Vec<ExcelSheetMetadata>, entry: ExcelSheetMetadata)
        ensures
            metadata_views(final(list)@) == inserted(
                metadata_views(old(list)@),
                first_row(),
                entry@,
            ),
    {
        let ghost views = metadata_views(list@);
        let mut p: usize = list.len();
        assert(views.take(p as int) =~= views);
        while p > 0 && list[p - 1].row_start > entry.row_start
            invariant
                p <= list@.len(),
                views == metadata_views(list@),
                insert_position(views, first_row(), entry@.row_start) == insert_position(
                    views.take(p as int),
                    first_row(),
                    entry@.row_start,
                ),
            decreases p,
        {
            proof {
                assert(views.take(p as int).last() == list@[p - 1]@);
                assert(views.take(p as int).drop_last() =~= views.take(p - 1));
            }
            p -= 1;
        }
        proof {
            if p > 0 {
                assert(views.take(p as int).last() == list@[p - 1]@);
            }
        }
        list.insert(p, entry);
        assert(metadata_views(list@) =~= views.insert(p as int, entry@));
    }

    /// Puts the chunks of a sheet in the order of their rows, in whatever
    /// order their tasks have finished. No chunk is added or lost.
    pub fn sort_by_row_start(entries: Vec<ExcelSheetMetadata>) -> (sorted: Vec<ExcelSheetMetadata>)
        ensures
            metadata_views(sorted@) == in_row_order(metadata_views(entries@)),
            is_ordered(metadata_views(sorted@), first_row()),
            metadata_views(sorted@).to_multiset() == metadata_views(entries@).to_multiset(),
    {
        let mut sorted: Vec<ExcelSheetMetadata> = Vec::new();
        let mut i: usize = 0;
        assert(metadata_views(entries@).take(0) =~= Seq::<ExcelSheetMetadataView>::empty());
        assert(metadata_views(sorted@) =~= Seq::<ExcelSheetMetadataView>::empty());
        while i < entries.len()
            invariant
                i <= entries@.len(),
                metadata_views(sorted@) == in_row_order(metadata_views(entries@).take(i as int)),
            decreases entries@.len() - i,
        {
            proof {
                let next = metadata_views(entries@).take(i + 1);
                assert(next.drop_last() =~= metadata_views(entries@).take(i as int));
                assert(next.last() == entries@[i as int]@);
            }
            Self::insert(&mut sorted, entries[i].clone());
            i += 1;
        }
        proof {
            assert(metadata_views(entries@).take(entries@.len() as int) =~= metadata_views(
                entries@,
            ));
            lemma_ordered(metadata_views(entries@), first_row());
        }
        sorted
    }

    /// The name of the file into which a chunk of sheet number `index` of
    /// the workbook called `prefix` is written.
    pub fn chunk_file(index: u32, prefix: &str, chunk: &ExcelSheetMetadata) -> (name: String)
        ensures
            name@ == chunk_file_name(index as nat, prefix@, chunk@),
    {
        proof {
            reveal_strlit("-");
        }
        if chunk.task_id == 0 {
            let mut name = u64_to_decimal(index as u64);
            name.append("-");
            name.append(chunk.name.as_str());
            name.append("-");
            name.append(prefix);
            assert(name@ =~= chunk_file_name(index as nat, prefix@, chunk@));
            name
        } else {
            let task = u64_to_decimal(chunk.task_id as u64);
            let mut name = u64_to_decimal(chunk.row_end as u64);
            name.append("-");
            name.append(task.as_str());
            name.append("-");
            name.append(chunk.name.as_str());
            name.append("-");
            name.append(prefix);
            name.append("-");
            name.append(task.as_str());
            assert(name@ =~= chunk_file_name(index as nat, prefix@, chunk@));
            name
        }
    }

    /// Adds the summary of a sheet to the summaries written so far. What
    /// was there stays, in its order; the new summary comes last.
    pub fn write_result_to_file(
        sheets: Vec<ExcelSheet>,
        sheet_name: String,
        index: u32,
        rows_count: usize,
        cells_count: usize,
        metadata: Vec<ExcelSheetMetadata>,
    ) -> (all: Vec<ExcelSheet>)
        ensures
            sheet_views(all@) == sheet_views(sheets@).push(
                sheet_summary(
                    sheet_name@,
                    index,
                    rows_count,
                    cells_count,
                    metadata_views(metadata@),
                ),
            ),
    {
        let mut all = sheets;
        let sheet = ExcelSheet { name: sheet_name, index, rows_count, cells_count, metadata };
        all.push(sheet);
        assert(sheet_views(all@) =~= sheet_views(sheets@).push(sheet@));
        all
    }
}

/// A sheet at or above the threshold has as many chunks as the threshold
/// goes into its rows, rounded up.
pub proof fn lemma_chunk_count(rows: nat)
    requires
        rows >= TAKE_EXCEL_COUNT,
    ensures
        chunk_count(rows) >= 1,
        (chunk_count(rows) - 1) * TAKE_EXCEL_COUNT < rows <= chunk_count(rows) * TAKE_EXCEL_COUNT,
{
    let t = TAKE_EXCEL_COUNT as int;
    let a = rows + t - 1;
    lemma_fundamental_div_mod(a, t);
    let q = a / t;
    assert(t * q + a % t == a);
    assert(0 <= a % t < t);
    assert(q * t == t * q) by (nonlinear_arith);
    assert((q - 1) * t == q * t - t) by (nonlinear_arith);
    assert(q >= 1) by (nonlinear_arith)
        requires
            t * q + a % t == a,
            a % t < t,
            a >= 2 * t - 1,
            t > 0,
    ;
}

/// The chunks planned for a sheet with at least one row lie end to end
/// and cover the rows 1 to `rows`.
pub proof fn lemma_chunks_cover(name: Seq<char>, rows: nat)
    requires
        rows > 0,
    ensures
        covers(sheet_chunks(name, rows), rows),
{
    let chunks = sheet_chunks(name, rows);
    let t = TAKE_EXCEL_COUNT as int;
    if rows >= TAKE_EXCEL_COUNT {
        lemma_chunk_count(rows);
        let n = chunk_count(rows) as int;
        assert(chunks.last() == chunk_of(name, rows, n - 1));
        assert((n - 1 + 1) * t == n * t);
        assert(0 * t == 0);
        assert forall|k: int| 0 <= k < chunks.len() implies (#[trigger] chunks[k]).row_start
            <= chunks[k].row_end by {
            assert((k + 1) * t == k * t + t) by (nonlinear_arith);
            assert(k * t <= (n - 1) * t) by (nonlinear_arith)
                requires
                    k <= n - 1,
                    t > 0,
            ;
        }
        assert forall|k: int| 0 < k < chunks.len() implies (#[trigger] chunks[k]).row_start
            == chunks[k - 1].row_end + 1 by {
            assert((k - 1 + 1) * t == k * t);
            assert(k * t <= (n - 1) * t) by (nonlinear_arith)
                requires
                    k <= n - 1,
                    t > 0,
            ;
        }
    }
}

/// The chunks planned for a sheet come in the order of their rows, each
/// beginning after the one before it.
pub proof fn lemma_plan_is_rising(name: Seq<char>, rows: nat)
    ensures
        is_rising(sheet_chunks(name, rows), first_row()),
{
    let chunks = sheet_chunks(name, rows);
    let t = TAKE_EXCEL_COUNT as int;
    assert forall|i: int, j: int| 0 <= i < j < chunks.len() implies first_row()(
        #[trigger] chunks[i],
    ) < first_row()(#[trigger] chunks[j]) by {
        assert(i * t < j * t) by (nonlinear_arith)
            requires
                i < j,
                t > 0,
        ;
    }
}

/// However the chunks of a sheet come back from their tasks, putting
/// them in the order of their rows gives the plan again: the chunks lie
/// end to end and cover the sheet without a gap.
pub proof fn lemma_row_order_restores_plan(
    name: Seq<char>,
    rows: nat,
    entries: Seq<ExcelSheetMetadataView>,
)
    requires
        entries.to_multiset() == sheet_chunks(name, rows).to_multiset(),
    ensures
        in_row_order(entries) == sheet_chunks(name, rows),
        rows > 0 ==> covers(in_row_order(entries), rows),
{
    lemma_ordered(entries, first_row());
    lemma_plan_is_rising(name, rows);
    lemma_order_is_unique(in_row_order(entries), sheet_chunks(name, rows), first_row());
    if rows > 0 {
        lemma_chunks_cover(name, rows);
    }
}

/// A sheet of twice the threshold is written in exactly two chunks: the
/// first covers the first half of its rows, the second the other half.
pub proof fn lemma_two_full_chunks(name: Seq<char>)
    ensures
        sheet_chunks(name, (2 * TAKE_EXCEL_COUNT) as nat).len() == 2,
        sheet_chunks(name, (2 * TAKE_EXCEL_COUNT) as nat)[0] == (ExcelSheetMetadataView {
            name,
            row_start: 1,
            row_end: TAKE_EXCEL_COUNT as int,
            task_id: 1,
        }),
        sheet_chunks(name, (2 * TAKE_EXCEL_COUNT) as nat)[1] == (ExcelSheetMetadataView {
            name,
            row_start: TAKE_EXCEL_COUNT + 1,
            row_end: 2 * TAKE_EXCEL_COUNT,
            task_id: 2,
        }),
        covers(sheet_chunks(name, (2 * TAKE_EXCEL_COUNT) as nat), (2 * TAKE_EXCEL_COUNT) as nat),
{
    lemma_chunks_cover(name, (2 * TAKE_EXCEL_COUNT) as nat);
}

} // verus!
