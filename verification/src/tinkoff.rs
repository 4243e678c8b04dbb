//! Tinkoff broker statements: which files are statements, how the statement
//! sheet is laid out, and which rows of it are page footers.
use vstd::prelude::*;
use crate::text::{trim, trimmed};

verus! {

// ---------------------------------------------------------------------------
// Outside calls: regular expressions and whitespace trimming.
// ---------------------------------------------------------------------------

#[verifier::external_type_specification]
#[verifier::external_body]
pub struct ExRegex(regex::Regex);

/// Whether `regex::Regex::new` accepts the pattern (with its default size
/// limit).
pub uninterp spec fn regex_compiles(pattern: Seq<char>) -> bool;

/// Whether the regular expression `pattern` matches somewhere in `haystack`.
pub uninterp spec fn regex_is_match(pattern: Seq<char>, haystack: Seq<char>) -> bool;

/// A compiled regular expression together with the pattern it was compiled
/// from. Values are only made by `compile`, so `regex` always is the
/// compilation of `pattern`.
pub struct CompiledRegex {
    pattern: String,
    regex: regex::Regex,
}

impl CompiledRegex {
    pub closed spec fn pattern(&self) -> Seq<char> {
        self.pattern@
    }

    /// `regex::Regex::new`: succeeds exactly when `regex_compiles` holds of
    /// the pattern, and the result remembers the pattern.
    #[verifier::external_body]
    fn compile(pattern: &str) -> (r: Option<CompiledRegex>)
        ensures
            r is Some <==> regex_compiles(pattern@),
            r matches Some(c) ==> c.pattern() == pattern@,
    {
        match regex::Regex::new(pattern) {
            Ok(regex) => Some(CompiledRegex { pattern: pattern.to_string(), regex }),
            Err(_) => None,
        }
    }

    /// `regex::Regex::is_match`: whether the pattern matches somewhere in
    /// the haystack, as named by `regex_is_match`.
    #[verifier::external_body]
    fn is_match(&self, haystack: &str) -> (r: bool)
        ensures
            r == regex_is_match(self.pattern(), haystack@),
    {
        self.regex.is_match(haystack)
    }
}

// ---------------------------------------------------------------------------
// The statement reader.
// ---------------------------------------------------------------------------

/// Reads Tinkoff broker statements.
pub struct StatementReader {}

/// The reader could not be set up. (Setting it up does not fail.)
#[derive(Debug, Clone, Copy, PartialEq, Eq, Structural)]
pub struct ReaderError;

pub open spec fn has_xlsx_extension(path: Seq<char>) -> bool {
    path.len() >= 5 && path.skip(path.len() - 5) == ".xlsx"@
}

/// The parser that a section of the statement is handed to.
#[derive(Debug, Clone, Copy, PartialEq, Eq, Structural)]
pub enum SectionParser {
    Period,
    Trades,
    CashAssets,
    Assets,
}

/// How a section of the statement is recognised by its title.
#[derive(Debug, Clone, PartialEq, Eq)]
pub enum SectionTitle {
    /// The period parser's prefix of the calculation date line.
    CalculationDatePrefix,
    /// The period parser's prefix of the statement period line.
    PeriodPrefix,
    /// A section title given in full.
    Named(String),
}

/// A section that the statement sheet must contain.
#[derive(Debug, Clone, PartialEq, Eq)]
pub struct SectionSpec {
    pub title: SectionTitle,
    pub by_prefix: bool,
    pub required: bool,
    pub parser: SectionParser,
}

pub open spec fn section_named(title: Seq<char>, parser: SectionParser, s: SectionSpec) -> bool {
    &&& s.title matches SectionTitle::Named(t) && t@ == title
    &&& !s.by_prefix
    &&& s.required
    &&& s.parser == parser
}

/// The sections of a Tinkoff statement, in the order they are looked for.
pub open spec fn statement_sections_spec(sections: Seq<SectionSpec>) -> bool {
    &&& sections.len() == 6
    &&& sections[0] == SectionSpec {
        title: SectionTitle::CalculationDatePrefix,
        by_prefix: true,
        required: true,
        parser: SectionParser::Period,
    }
    &&& sections[1] == SectionSpec {
        title: SectionTitle::PeriodPrefix,
        by_prefix: true,
        required: true,
        parser: SectionParser::Period,
    }
    &&& section_named(
        "1.1 Информация о совершенных и исполненных сделках на конец отчетного периода"@,
        SectionParser::Trades,
        sections[2],
    )
    &&& section_named(
        "1.2 Информация о неисполненных сделках на конец отчетного периода"@,
        SectionParser::Trades,
        sections[3],
    )
    &&& section_named("2. Операции с денежными средствами"@, SectionParser::CashAssets, sections[4])
    &&& section_named(
        "3. Движение финансовых активов инвестора"@,
        SectionParser::Assets,
        sections[5],
    )
}

fn named_section(title: &str, parser: SectionParser) -> (r: SectionSpec)
    ensures
        section_named(title@, parser, r),
{
    SectionSpec {
        title: SectionTitle::Named(String::from_str(title)),
        by_prefix: false,
        required: true,
        parser,
    }
}

impl StatementReader {
    pub fn new() -> (r: Result<StatementReader, ReaderError>)
        ensures
            r is Ok,
    {
        Ok(StatementReader {})
    }

    /// A file is a Tinkoff statement when its name ends in `.xlsx`.
    pub fn is_statement(&self, path: &str) -> (r: Result<bool, ReaderError>)
        ensures
            r == Ok::<bool, ReaderError>(has_xlsx_extension(path@)),
    {
        let ext = ".xlsx";
        proof {
            reveal_strlit(".xlsx");
        }
        let n = path.unicode_len();
        if n < 5 {
            return Ok(false);
        }
        let mut i: usize = 0;
        while i < 5
            invariant
                n == path@.len(),
                n >= 5,
                ext@ == ".xlsx"@,
                ext@.len() == 5,
                i <= 5,
                forall|k: int| 0 <= k < i ==> path@[n - 5 + k] == ext@[k],
            decreases 5 - i,
        {
            if path.get_char(n - 5 + i) != ext.get_char(i) {
                assert(path@.skip(n - 5)[i as int] != ext@[i as int]);
                return Ok(false);
            }
            i = i + 1;
        }
        assert(path@.skip(n - 5) =~= ext@);
        Ok(true)
    }

    /// The sections that the statement sheet is split into.
    pub fn sections(&self) -> (r: Vec<SectionSpec>)
        ensures
            statement_sections_spec(r@),
    {
        let mut sections: Vec<SectionSpec> = Vec::new();
        sections.push(
            SectionSpec {
                title: SectionTitle::CalculationDatePrefix,
                by_prefix: true,
                required: true,
                parser: SectionParser::Period,
            },
        );
        sections.push(
            SectionSpec {
                title: SectionTitle::PeriodPrefix,
                by_prefix: true,
                required: true,
                parser: SectionParser::Period,
            },
        );
        sections.push(
            named_section(
                "1.1 Информация о совершенных и исполненных сделках на конец отчетного периода",
                SectionParser::Trades,
            ),
        );
        sections.push(
            named_section(
                "1.2 Информация о неисполненных сделках на конец отчетного периода",
                SectionParser::Trades,
            ),
        );
        sections.push(named_section("2. Операции с денежными средствами", SectionParser::CashAssets));
        sections.push(
            named_section("3. Движение финансовых активов инвестора", SectionParser::Assets),
        );
        sections
    }
}

// ---------------------------------------------------------------------------
// Page footers.
// ---------------------------------------------------------------------------

/// A spreadsheet cell, holding what the sheet parser reads of it.
#[derive(Debug, Clone, PartialEq)]
pub enum Cell {
    Empty,
    String(String),
    Int(i64),
    /// A floating point number; its value is not read here.
    Float,
    Bool(bool),
    /// A date and time; its value is not read here.
    DateTime,
    /// A cell holding an error value.
    Error,
}

/// What a cell counts as when a row is tested for being a page footer.
#[derive(Debug, Clone, Copy, PartialEq, Eq, Structural)]
pub enum CellClass {
    Blank,
    /// A text of the form `<digit> из` ("<digit> of").
    PageLabel,
    /// Any other text.
    Text,
    Number,
    Other,
}

/// How much of a page footer has been seen.
#[derive(Debug, Clone, Copy, PartialEq, Eq, Structural)]
pub enum FooterState {
    Start,
    CurrentPage,
    TotalPages,
}

/// The pattern of the current page label: a digit followed by " из".
pub open spec fn page_label_pattern() -> Seq<char> {
    "^\\d из$"@
}

/// The page label pattern, character by character: the whole text is one
/// digit (`\\d`, any decimal digit) followed by a space and "из".
pub proof fn lemma_page_label_pattern()
    ensures
        page_label_pattern() == seq!['^', '\\', 'd', ' ', 'и', 'з', '$'],
{
    reveal_strlit("^\\d из$");
    assert(page_label_pattern() =~= seq!['^', '\\', 'd', ' ', 'и', 'з', '$']);
}

pub open spec fn is_page_label(text: Seq<char>) -> bool {
    regex_is_match(page_label_pattern(), trimmed(text))
}

pub open spec fn cell_class(cell: Cell) -> CellClass {
    match cell {
        Cell::Empty => CellClass::Blank,
        Cell::String(v) => if is_page_label(v@) {
            CellClass::PageLabel
        } else {
            CellClass::Text
        },
        Cell::Int(_) => CellClass::Number,
        Cell::Float => CellClass::Number,
        _ => CellClass::Other,
    }
}

pub open spec fn cell_classes(row: Seq<Cell>) -> Seq<CellClass> {
    row.map_values(|c: Cell| cell_class(c))
}

pub open spec fn spec_footer_step(state: FooterState, class: CellClass) -> Option<FooterState> {
    match class {
        CellClass::Blank => Some(state),
        CellClass::PageLabel => if state == FooterState::Start {
            Some(FooterState::CurrentPage)
        } else {
            None
        },
        CellClass::Number => if state == FooterState::CurrentPage {
            Some(FooterState::TotalPages)
        } else {
            None
        },
        _ => None,
    }
}

/// The state after reading `classes` from `Start`, or `None` once a cell
/// rules the row out.
pub open spec fn footer_run(classes: Seq<CellClass>) -> Option<FooterState>
    decreases classes.len(),
{
    if classes.len() == 0 {
        Some(FooterState::Start)
    } else {
        match footer_run(classes.drop_last()) {
            Some(state) => spec_footer_step(state, classes.last()),
            None => None,
        }
    }
}

pub open spec fn spec_is_page_footer(classes: Seq<CellClass>) -> bool {
    footer_run(classes) == Some(FooterState::TotalPages)
}

/// The cells of a row that are not blank, in order.
pub open spec fn non_blank(classes: Seq<CellClass>) -> Seq<CellClass>
    decreases classes.len(),
{
    if classes.len() == 0 {
        Seq::empty()
    } else if classes.last() == CellClass::Blank {
        non_blank(classes.drop_last())
    } else {
        non_blank(classes.drop_last()).push(classes.last())
    }
}

/// A page footer, said directly: apart from blank cells, the row holds a
/// page label and then a number, and nothing else.
pub open spec fn footer_shape(classes: Seq<CellClass>) -> bool {
    non_blank(classes) == seq![CellClass::PageLabel, CellClass::Number]
}

/// What the scan has seen, in each of its states.
proof fn lemma_footer_run_states(c: Seq<CellClass>)
    ensures
        (footer_run(c) == Some(FooterState::Start)) <==> non_blank(c) == Seq::<CellClass>::empty(),
        (footer_run(c) == Some(FooterState::CurrentPage)) <==> non_blank(c) == seq![CellClass::PageLabel],
        (footer_run(c) == Some(FooterState::TotalPages)) <==> non_blank(c) == seq![
            CellClass::PageLabel,
            CellClass::Number,
        ],
    decreases c.len(),
{
    let one = seq![CellClass::PageLabel];
    let two = seq![CellClass::PageLabel, CellClass::Number];
    assert(one.len() == 1 && one[0] == CellClass::PageLabel);
    assert(two.len() == 2 && two[0] == CellClass::PageLabel && two[1] == CellClass::Number);
    if c.len() > 0 {
        let p = c.drop_last();
        lemma_footer_run_states(p);
        let q = non_blank(p);
        let x = c.last();
        if x == CellClass::Blank {
            assert(non_blank(c) == q);
            assert(footer_run(c) == footer_run(p));
        } else {
            let r = q.push(x);
            assert(non_blank(c) == r);
            assert(r.len() == q.len() + 1);
            assert(r[q.len() as int] == x);
            if r == seq![CellClass::PageLabel] {
                assert(q.len() == 0);
                assert(q =~= Seq::<CellClass>::empty());
            }
            if q.len() == 0 {
                assert(r =~= seq![x]);
            }
            if r == seq![CellClass::PageLabel, CellClass::Number] {
                assert(q.len() == 1);
                assert(r[0] == q[0]);
                assert(q =~= seq![CellClass::PageLabel]);
            }
            if q == seq![CellClass::PageLabel] {
                assert(r =~= seq![CellClass::PageLabel, x]);
            }
        }
    }
}

/// A row is a page footer exactly when, apart from blank cells, it holds a
/// page label followed later by a number, and nothing else.
pub proof fn lemma_page_footer_shape(classes: Seq<CellClass>)
    ensures
        spec_is_page_footer(classes) <==> footer_shape(classes),
{
    lemma_footer_run_states(classes);
}

/// One step of the page footer scan: the next state, or `None` when the
/// cell rules the row out.
pub fn footer_step(state: FooterState, class: CellClass) -> (r: Option<FooterState>)
    ensures
        r == spec_footer_step(state, class),
{
    match class {
        CellClass::Blank => Some(state),
        CellClass::PageLabel => {
            if state == FooterState::Start {
                Some(FooterState::CurrentPage)
            } else {
                None
            }
        },
        CellClass::Number => {
            if state == FooterState::CurrentPage {
                Some(FooterState::TotalPages)
            } else {
                None
            }
        },
        _ => None,
    }
}

/// Whether cells of the given classes make up a page footer.
pub fn is_page_footer(classes: &[CellClass]) -> (r: bool)
    ensures
        r == spec_is_page_footer(classes@),
{
    let mut state = FooterState::Start;
    let mut i: usize = 0;
    while i < classes.len()
        invariant
            i <= classes@.len(),
            footer_run(classes@.take(i as int)) == Some(state),
        decreases classes@.len() - i,
    {
        assert(classes@.take(i + 1).drop_last() == classes@.take(i as int));
        match footer_step(state, classes[i]) {
            Some(next) => {
                state = next;
            },
            None => {
                proof {
                    lemma_footer_run_stays_none(classes@, (i + 1) as int);
                }
                assert(classes@.take(classes@.len() as int) == classes@);
                return false;
            },
        }
        i = i + 1;
    }
    assert(classes@.take(classes@.len() as int) == classes@);
    state == FooterState::TotalPages
}

/// Once a row is ruled out, longer prefixes of it stay ruled out.
proof fn lemma_footer_run_stays_none(classes: Seq<CellClass>, n: int)
    requires
        0 <= n <= classes.len(),
        footer_run(classes.take(n)) is None,
    ensures
        footer_run(classes) is None,
    decreases classes.len() - n,
{
    if n < classes.len() {
        assert(classes.take(n + 1).drop_last() == classes.take(n));
        lemma_footer_run_stays_none(classes, n + 1);
    } else {
        assert(classes.take(n) == classes);
    }
}

/// Parses the statement sheet of a Tinkoff statement.
pub struct StatementSheetParser {
    /// The page label pattern, compiled once; `None` when it does not compile.
    current_page: Option<CompiledRegex>,
}

impl StatementSheetParser {
    #[verifier::type_invariant]
    spec fn well_formed(self) -> bool {
        match self.current_page {
            Some(regex) => regex.pattern() == page_label_pattern() && regex_compiles(
                page_label_pattern(),
            ),
            None => !regex_compiles(page_label_pattern()),
        }
    }

    pub fn new() -> (r: StatementSheetParser) {
        let pattern = "^\\d из$";
        StatementSheetParser { current_page: CompiledRegex::compile(pattern) }
    }

    pub fn sheet_name(&self) -> (r: &'static str)
        ensures
            r@ == "broker_rep"@,
    {
        "broker_rep"
    }

    /// Whether `row` is a page footer (a page label such as "1 из" followed
    /// by the number of pages), which is skipped when the sheet is read.
    /// `None` when the page label pattern does not compile.
    pub fn skip_row(&self, row: &[Cell]) -> (r: Option<bool>)
        ensures
            r is Some <==> regex_compiles(page_label_pattern()),
            r matches Some(b) ==> b == spec_is_page_footer(cell_classes(row@)),
    {
        proof {
            use_type_invariant(self);
        }
        let regex = match &self.current_page {
            Some(regex) => regex,
            None => return None,
        };
        let mut classes: Vec<CellClass> = Vec::new();
        let mut i: usize = 0;
        while i < row.len()
            invariant
                i <= row@.len(),
                regex.pattern() == page_label_pattern(),
                classes@ == cell_classes(row@).take(i as int),
            decreases row@.len() - i,
        {
            let class = classify(&row[i], regex);
            classes.push(class);
            assert(cell_classes(row@).take(i + 1) =~= cell_classes(row@).take(i as int).push(
                class,
            ));
            i = i + 1;
        }
        assert(cell_classes(row@).take(row@.len() as int) =~= cell_classes(row@));
        Some(is_page_footer(classes.as_slice()))
    }
}

/// What a cell counts as, with the page label pattern compiled.
fn classify(cell: &Cell, regex: &CompiledRegex) -> (r: CellClass)
    requires
        regex.pattern() == page_label_pattern(),
    ensures
        r == cell_class(*cell),
{
    match cell {
        Cell::Empty => CellClass::Blank,
        Cell::String(value) => {
            if regex.is_match(trim(value.as_str())) {
                CellClass::PageLabel
            } else {
                CellClass::Text
            }
        },
        Cell::Int(_) => CellClass::Number,
        Cell::Float => CellClass::Number,
        _ => CellClass::Other,
    }
}

} // verus!
