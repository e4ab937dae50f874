use quick_look::config::{ExcelCell, ExcelRow, ExcelSheet, ExcelSheetMetadata, TAKE_EXCEL_COUNT};
use quick_look::excel::{CellValue, Excel};

fn ranges(chunks: &Vec<ExcelSheetMetadata>) -> Vec<(usize, usize, usize)> {
    chunks.iter().map(|c| (c.row_start, c.row_end, c.task_id)).collect()
}

fn lie_end_to_end(chunks: &Vec<ExcelSheetMetadata>, rows: usize) {
    assert_eq!(chunks[0].row_start, 1);
    assert_eq!(chunks[chunks.len() - 1].row_end, rows);
    for pair in chunks.windows(2) {
        assert_eq!(pair[1].row_start, pair[0].row_end + 1);
    }
    for chunk in chunks {
        assert!(chunk.row_start <= chunk.row_end);
    }
}

#[test]
fn every_cell_has_a_text() {
    assert_eq!(Excel::cell_value(&CellValue::Empty), "");
    assert_eq!(Excel::cell_value(&CellValue::Text("héllo".to_string())), "héllo");
    assert_eq!(Excel::cell_value(&CellValue::Text("2024-01-02T03:04:05".to_string())), "2024-01-02T03:04:05");
    assert_eq!(Excel::cell_value(&CellValue::Number(1.5f64.to_string())), "1.5");
    assert_eq!(Excel::cell_value(&CellValue::Int(0)), "0");
    assert_eq!(Excel::cell_value(&CellValue::Int(42)), "42");
    assert_eq!(Excel::cell_value(&CellValue::Int(-17)), "-17");
    assert_eq!(Excel::cell_value(&CellValue::Int(i64::MAX)), i64::MAX.to_string());
    assert_eq!(Excel::cell_value(&CellValue::Int(i64::MIN)), i64::MIN.to_string());
    assert_eq!(Excel::cell_value(&CellValue::Bool(true)), "true");
    assert_eq!(Excel::cell_value(&CellValue::Bool(false)), "false");
    assert_eq!(Excel::cell_value(&CellValue::Error), "");
}

#[test]
fn rows_and_cells_carry_their_positions() {
    let chunk = vec![
        vec![CellValue::Text("a".to_string()), CellValue::Int(1)],
        vec![],
        vec![CellValue::Error, CellValue::Bool(true), CellValue::Empty],
    ];
    let rows = Excel::get_row(&chunk);
    assert_eq!(
        rows,
        vec![
            ExcelRow {
                index: 0,
                cells: vec![
                    ExcelCell { value: "a".to_string(), row_index: 0, cell_index: 0 },
                    ExcelCell { value: "1".to_string(), row_index: 0, cell_index: 1 },
                ],
            },
            ExcelRow { index: 1, cells: vec![] },
            ExcelRow {
                index: 2,
                cells: vec![
                    ExcelCell { value: "".to_string(), row_index: 2, cell_index: 0 },
                    ExcelCell { value: "true".to_string(), row_index: 2, cell_index: 1 },
                    ExcelCell { value: "".to_string(), row_index: 2, cell_index: 2 },
                ],
            },
        ]
    );
    assert!(Excel::get_row(&Vec::new()).is_empty());
}

#[test]
fn small_sheet_is_one_chunk() {
    let chunks = Excel::handle_sheet("Sheet1", 120);
    assert_eq!(
        chunks,
        vec![ExcelSheetMetadata { name: "Sheet1".to_string(), row_start: 1, row_end: 120, task_id: 0 }]
    );
    assert_eq!(ranges(&Excel::handle_sheet("s", TAKE_EXCEL_COUNT - 1)), vec![(1, TAKE_EXCEL_COUNT - 1, 0)]);
    assert_eq!(ranges(&Excel::handle_sheet("s", 0)), vec![(1, 0, 0)]);
}

#[test]
fn sheet_of_twice_the_threshold_has_two_chunks() {
    let rows = 2 * TAKE_EXCEL_COUNT;
    let chunks = Excel::handle_sheet("Big", rows);
    assert_eq!(ranges(&chunks), vec![(1, 100_000, 1), (100_001, 200_000, 2)]);
    assert!(chunks.iter().all(|c| c.name == "Big"));
    lie_end_to_end(&chunks, rows);
}

#[test]
fn chunks_cover_the_sheet_in_any_order_of_completion() {
    let rows = 2 * TAKE_EXCEL_COUNT;
    let plan = Excel::handle_sheet("Big", rows);
    let mut finished = plan.clone();
    finished.reverse();
    let sorted = Excel::sort_by_row_start(finished);
    assert_eq!(sorted, plan);
    lie_end_to_end(&sorted, rows);

    let rows = 7 * TAKE_EXCEL_COUNT + 5;
    let plan = Excel::handle_sheet("Huge", rows);
    assert_eq!(plan.len(), 8);
    let order = [5usize, 0, 7, 2, 6, 1, 4, 3];
    let finished: Vec<ExcelSheetMetadata> = order.iter().map(|&k| plan[k].clone()).collect();
    let sorted = Excel::sort_by_row_start(finished);
    assert_eq!(sorted, plan);
    lie_end_to_end(&sorted, rows);
}

#[test]
fn last_chunk_takes_what_is_left() {
    assert_eq!(ranges(&Excel::handle_sheet("s", TAKE_EXCEL_COUNT)), vec![(1, 100_000, 1)]);
    assert_eq!(
        ranges(&Excel::handle_sheet("s", TAKE_EXCEL_COUNT + 1)),
        vec![(1, 100_000, 1), (100_001, 100_001, 2)]
    );
    assert_eq!(
        ranges(&Excel::handle_sheet("s", 250_000)),
        vec![(1, 100_000, 1), (100_001, 200_000, 2), (200_001, 250_000, 3)]
    );
    for rows in [100_000usize, 100_001, 199_999, 200_000, 200_001, 1_234_567] {
        let chunks = Excel::handle_sheet("s", rows);
        assert_eq!(chunks.len(), (rows + TAKE_EXCEL_COUNT - 1) / TAKE_EXCEL_COUNT);
        lie_end_to_end(&chunks, rows);
    }
}

#[test]
fn sorting_keeps_chunks_of_the_same_first_row_in_order() {
    let make = |start: usize, id: usize| ExcelSheetMetadata {
        name: "s".to_string(),
        row_start: start,
        row_end: start,
        task_id: id,
    };
    let sorted = Excel::sort_by_row_start(vec![make(5, 1), make(1, 2), make(5, 3), make(1, 4)]);
    assert_eq!(ranges(&sorted), vec![(1, 1, 2), (1, 1, 4), (5, 5, 1), (5, 5, 3)]);
    assert!(Excel::sort_by_row_start(Vec::new()).is_empty());
}

#[test]
fn chunk_files_are_named_by_sheet_and_task() {
    let small = Excel::handle_sheet("Sheet1", 10);
    assert_eq!(Excel::chunk_file(1, "book", &small[0]), "1-Sheet1-book");
    let large = Excel::handle_sheet("Data", 150_000);
    assert_eq!(Excel::chunk_file(2, "book", &large[0]), "100000-1-Data-book-1");
    assert_eq!(Excel::chunk_file(2, "book", &large[1]), "150000-2-Data-book-2");
}

#[test]
fn sheet_summaries_are_only_ever_added() {
    let first = Excel::write_result_to_file(
        Vec::new(),
        "Sheet1".to_string(),
        1,
        10,
        30,
        Excel::handle_sheet("Sheet1", 10),
    );
    assert_eq!(first.len(), 1);
    let second = Excel::write_result_to_file(
        first.clone(),
        "Sheet2".to_string(),
        2,
        150_000,
        300_000,
        Excel::handle_sheet("Sheet2", 150_000),
    );
    assert_eq!(second.len(), 2);
    assert_eq!(second[0], first[0]);
    assert_eq!(
        second[1],
        ExcelSheet {
            name: "Sheet2".to_string(),
            index: 2,
            rows_count: 150_000,
            cells_count: 300_000,
            metadata: Excel::handle_sheet("Sheet2", 150_000),
        }
    );
}
