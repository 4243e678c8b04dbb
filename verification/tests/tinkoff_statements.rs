use investments::tinkoff::{
    is_page_footer, Cell, CellClass, SectionParser, SectionTitle, StatementReader,
    StatementSheetParser,
};

fn text(s: &str) -> Cell {
    Cell::String(s.to_string())
}

#[test]
fn statement_files() {
    let reader = StatementReader::new().unwrap();
    assert_eq!(reader.is_statement("broker-report.xlsx"), Ok(true));
    assert_eq!(reader.is_statement(".xlsx"), Ok(true));
    assert_eq!(reader.is_statement("отчёт.xlsx"), Ok(true));
    assert_eq!(reader.is_statement("broker-report.xls"), Ok(false));
    assert_eq!(reader.is_statement("xlsx"), Ok(false));
    assert_eq!(reader.is_statement("report.XLSX"), Ok(false));
    assert_eq!(reader.is_statement(""), Ok(false));
}

#[test]
fn statement_sections() {
    let reader = StatementReader::new().unwrap();
    let sections = reader.sections();
    assert_eq!(sections.len(), 6);
    assert_eq!(sections[0].title, SectionTitle::CalculationDatePrefix);
    assert!(sections[0].by_prefix && sections[0].required);
    assert_eq!(sections[1].title, SectionTitle::PeriodPrefix);
    assert_eq!(sections[1].parser, SectionParser::Period);
    assert_eq!(
        sections[4].title,
        SectionTitle::Named("2. Операции с денежными средствами".to_string())
    );
    assert_eq!(sections[4].parser, SectionParser::CashAssets);
    assert_eq!(sections[5].parser, SectionParser::Assets);
    assert!(!sections[2].by_prefix && sections[2].required);
    assert_eq!(sections[3].parser, SectionParser::Trades);
}

#[test]
fn page_footers_are_skipped() {
    let parser = StatementSheetParser::new();
    assert_eq!(parser.sheet_name(), "broker_rep");
    let row = vec![Cell::Empty, text("1 из"), Cell::Empty, Cell::Int(2)];
    assert_eq!(parser.skip_row(&row), Some(true));
    let row = vec![text("  3 из "), Cell::Float];
    assert_eq!(parser.skip_row(&row), Some(true));
    let row = vec![text("\u{3000}\t2 из\u{a0}\n"), Cell::Int(5)];
    assert_eq!(parser.skip_row(&row), Some(true));
}

#[test]
fn other_rows_are_kept() {
    let parser = StatementSheetParser::new();
    let rows = vec![
        vec![],
        vec![Cell::Empty],
        vec![text("1 из")],
        vec![Cell::Int(2), text("1 из")],
        vec![text("12 из"), Cell::Int(13)],
        vec![text("1 из"), Cell::Int(2), Cell::Int(3)],
        vec![text("1 из"), text("1 из"), Cell::Int(2)],
        vec![text("1 из"), Cell::Bool(true)],
        vec![text("1 из"), Cell::DateTime],
        vec![text("1 of"), Cell::Int(2)],
        vec![text("Итого"), Cell::Int(2)],
        vec![Cell::Error, text("1 из"), Cell::Int(2)],
    ];
    for row in &rows {
        assert_eq!(parser.skip_row(row), Some(false));
    }
}

#[test]
fn page_footer_classes() {
    assert!(is_page_footer(&[CellClass::PageLabel, CellClass::Number]));
    assert!(is_page_footer(&[CellClass::Blank, CellClass::PageLabel, CellClass::Blank, CellClass::Blank, CellClass::Number, CellClass::Blank]));
    assert!(!is_page_footer(&[]));
    assert!(!is_page_footer(&[CellClass::Number, CellClass::PageLabel]));
    assert!(!is_page_footer(&[CellClass::PageLabel, CellClass::Text, CellClass::Number]));
    assert!(!is_page_footer(&[CellClass::PageLabel, CellClass::Number, CellClass::Other]));
    assert!(!is_page_footer(&[CellClass::PageLabel]));
}
