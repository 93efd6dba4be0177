//! Export from a rendered Markdown report: Markdown to CSV by parsing the
//! report's tables, and Markdown to a standalone HTML document.

use base64::Engine;
use vstd::prelude::*;
use vstd::string::StrSliceExecFns;
use vstd::string::StringExecFns;

use crate::text::{
    spec_contains_sub, spec_split_char, spec_starts_with, spec_strip_prefix_all, spec_trim,
    spec_trim_ws, split_char, starts_with_lit, strip_prefix_all, to_chars, trim_char, trim_ws,
    contains_lit, chars_eq_lit, string_from_chars, TrimClass,
};

verus! {

/// The lines of a text, the way `str::lines` cuts them: split at every
/// newline, one trailing carriage return stripped from each line, and no
/// empty trailing line for a text ending in a newline.
pub open spec fn spec_lines(s: Seq<char>) -> Seq<Seq<char>> {
    let segs = spec_split_char(s, '\n');
    let kept = if segs.len() > 0 && segs.last().len() == 0 {
        segs.drop_last()
    } else {
        segs
    };
    kept.map_values(|l: Seq<char>| spec_strip_cr(l))
}

/// One trailing carriage return stripped.
pub open spec fn spec_strip_cr(l: Seq<char>) -> Seq<char> {
    if l.len() > 0 && l.last() == '\r' {
        l.drop_last()
    } else {
        l
    }
}

/// Splits a text into lines.
pub fn lines_of(v: &Vec<char>) -> (r: Vec<Vec<char>>)
    ensures
        r.deep_view() == spec_lines(v@),
{
    let mut segs = split_char(v, '\n');
    let ghost raw = segs.deep_view();
    if segs.len() > 0 {
        let last_idx = segs.len() - 1;
        if segs[last_idx].len() == 0 {
            proof {
                assert(raw.last().len() == 0) by {
                    assert(raw[last_idx as int] == segs@[last_idx as int]@);
                }
            }
            segs.pop();
            proof {
                assert(segs.deep_view() =~~= raw.drop_last());
            }
        } else {
            proof {
                assert(raw.last().len() > 0) by {
                    assert(raw[last_idx as int] == segs@[last_idx as int]@);
                }
            }
        }
    }
    let ghost kept = segs.deep_view();
    let mut r: Vec<Vec<char>> = Vec::new();
    let mut i: usize = 0;
    while i < segs.len()
        invariant
            i <= segs@.len(),
            kept == segs.deep_view(),
            kept.len() == segs@.len(),
            r.deep_view() == kept.take(i as int).map_values(|l: Seq<char>| spec_strip_cr(l)),
        decreases segs@.len() - i,
    {
        proof {
            assert(segs@[i as int]@ == kept[i as int]);
        }
        let seg = &segs[i];
        let n = seg.len();
        let stripped = if n > 0 && seg[n - 1] == '\r' {
            crate::text::slice_range(seg, 0, n - 1)
        } else {
            crate::text::slice_range(seg, 0, n)
        };
        proof {
            assert(stripped@ == spec_strip_cr(kept[i as int])) by {
                if kept[i as int].len() > 0 && kept[i as int].last() == '\r' {
                    assert(stripped@ =~= kept[i as int].drop_last());
                } else {
                    assert(stripped@ =~= kept[i as int]);
                }
            }
        }
        let ghost prev = r.deep_view();
        let ghost sv = stripped@;
        r.push(stripped);
        proof {
            assert(r.deep_view() =~~= prev.push(sv));
            assert(r.deep_view() =~= kept.take(i + 1int).map_values(
                |l: Seq<char>| spec_strip_cr(l),
            ));
        }
        i = i + 1;
    }
    proof {
        assert(kept.take(segs@.len() as int) == kept);
    }
    r
}

/// The cells of a table line: the segments between pipes, trimmed, with
/// empty ones dropped.
pub open spec fn spec_cells(line: Seq<char>) -> Seq<Seq<char>> {
    spec_split_char(line, '|').map_values(|c: Seq<char>| spec_trim_ws(c)).filter(
        |c: Seq<char>| c.len() > 0,
    )
}

/// Splits one table line into its non-empty trimmed cells.
pub fn cells_of(line: &Vec<char>) -> (r: Vec<Vec<char>>)
    ensures
        r.deep_view() == spec_cells(line@),
{
    let segs = split_char(line, '|');
    let ghost raw = segs.deep_view();
    let mut r: Vec<Vec<char>> = Vec::new();
    let mut i: usize = 0;
    proof {
        reveal(Seq::filter);
        assert(raw.take(0int).map_values(|c: Seq<char>| spec_trim_ws(c)) =~= Seq::<
            Seq<char>,
        >::empty());
        assert(raw.take(0int).map_values(|c: Seq<char>| spec_trim_ws(c)).filter(
            |c: Seq<char>| c.len() > 0,
        ) =~= Seq::<Seq<char>>::empty());
        assert(r.deep_view() =~= Seq::<Seq<char>>::empty());
    }
    while i < segs.len()
        invariant
            i <= segs@.len(),
            raw == segs.deep_view(),
            raw.len() == segs@.len(),
            r.deep_view() == raw.take(i as int).map_values(|c: Seq<char>| spec_trim_ws(c)).filter(
                |c: Seq<char>| c.len() > 0,
            ),
        decreases segs@.len() - i,
    {
        proof {
            assert(segs@[i as int]@ == raw[i as int]);
            assert(raw.take(i + 1int).map_values(|c: Seq<char>| spec_trim_ws(c)).drop_last()
                == raw.take(i as int).map_values(|c: Seq<char>| spec_trim_ws(c)));
            assert(raw.take(i + 1int).map_values(|c: Seq<char>| spec_trim_ws(c)).last()
                == spec_trim_ws(raw[i as int]));
        }
        let cell = trim_ws(&segs[i]);
        if cell.len() > 0 {
            let ghost prev = r.deep_view();
            let ghost cv = cell@;
            r.push(cell);
            proof {
                assert(r.deep_view() =~~= prev.push(cv));
            }
        }
        proof {
            reveal(Seq::filter);
            let f = |c: Seq<char>| c.len() > 0;
            let x = spec_trim_ws(raw[i as int]);
            let mapped_i = raw.take(i as int).map_values(|c: Seq<char>| spec_trim_ws(c));
            let mapped_i1 = raw.take(i + 1int).map_values(|c: Seq<char>| spec_trim_ws(c));
            assert(mapped_i1 =~= mapped_i.push(x));
            assert(mapped_i.push(x).drop_last() == mapped_i);
            assert(mapped_i.push(x).last() == x);
            assert(mapped_i.push(x).filter(f) == if f(x) {
                mapped_i.filter(f).push(x)
            } else {
                mapped_i.filter(f)
            });
        }
        i = i + 1;
    }
    proof {
        assert(raw.take(segs@.len() as int) == raw);
    }
    r
}

/// Whether every character of the cell is a dash (or, when spaces are
/// allowed, a space): how table separator rows are recognized.
pub open spec fn spec_all_dashes(s: Seq<char>, allow_space: bool) -> bool {
    forall|j: int| 0 <= j < s.len() ==> s[j] == '-' || (allow_space && s[j] == ' ')
}

pub fn all_dashes(v: &Vec<char>, allow_space: bool) -> (r: bool)
    ensures
        r == spec_all_dashes(v@, allow_space),
{
    let mut i: usize = 0;
    while i < v.len()
        invariant
            i <= v@.len(),
            forall|j: int| 0 <= j < i ==> v@[j] == '-' || (allow_space && v@[j] == ' '),
        decreases v@.len() - i,
    {
        let c = v[i];
        if !(c == '-' || (allow_space && c == ' ')) {
            return false;
        }
        i = i + 1;
    }
    true
}

/// The characters of a CSV field with every double quote doubled.
pub open spec fn spec_double_quotes(s: Seq<char>) -> Seq<char>
    decreases s.len(),
{
    if s.len() == 0 {
        Seq::empty()
    } else {
        spec_double_quotes(s.drop_last()) + if s.last() == '"' {
            seq!['"', '"']
        } else {
            seq![s.last()]
        }
    }
}

/// A text as one CSV field: quoted with inner quotes doubled when it
/// holds a comma, a quote or a newline, unchanged otherwise.
pub open spec fn spec_escape_csv(s: Seq<char>) -> Seq<char> {
    if s.contains(',') || s.contains('"') || s.contains('\n') {
        seq!['"'] + spec_double_quotes(s) + seq!['"']
    } else {
        s
    }
}

/// Escapes one CSV field.
pub fn escape_csv(v: &Vec<char>) -> (r: Vec<char>)
    ensures
        r@ == spec_escape_csv(v@),
{
    let mut needs = false;
    let mut i: usize = 0;
    while i < v.len()
        invariant
            i <= v@.len(),
            needs == (exists|j: int|
                0 <= j < i && (v@[j] == ',' || v@[j] == '"' || v@[j] == '\n')),
        decreases v@.len() - i,
    {
        let c = v[i];
        if c == ',' || c == '"' || c == '\n' {
            needs = true;
        }
        i = i + 1;
    }
    proof {
        assert(needs == (v@.contains(',') || v@.contains('"') || v@.contains('\n')));
    }
    if !needs {
        let r = crate::text::slice_range(v, 0, v.len());
        proof {
            assert(r@ =~= v@);
        }
        return r;
    }
    let mut r: Vec<char> = Vec::new();
    r.push('"');
    let mut i: usize = 0;
    while i < v.len()
        invariant
            i <= v@.len(),
            r@ == seq!['"'] + spec_double_quotes(v@.take(i as int)),
        decreases v@.len() - i,
    {
        proof {
            assert(v@.take(i + 1int).drop_last() == v@.take(i as int));
            assert(v@.take(i + 1int).last() == v@[i as int]);
        }
        let c = v[i];
        if c == '"' {
            r.push('"');
            r.push('"');
            proof {
                assert(r@ =~= seq!['"'] + spec_double_quotes(v@.take(i + 1int)));
            }
        } else {
            r.push(c);
            proof {
                assert(r@ =~= seq!['"'] + spec_double_quotes(v@.take(i + 1int)));
            }
        }
        i = i + 1;
    }
    r.push('"');
    proof {
        assert(v@.take(v@.len() as int) == v@);
        assert(r@ =~= seq!['"'] + spec_double_quotes(v@) + seq!['"']);
    }
    r
}

/// The rule code inside a Markdown link like `[CODE](url)`, else the
/// trimmed cell itself.
pub open spec fn spec_extract_rule_id(cell: Seq<char>) -> Seq<char> {
    let t = spec_trim_ws(cell);
    let start = crate::text::spec_find_char(t, '[');
    if start >= 0 {
        let rest = t.skip(start);
        let end = crate::text::spec_find_char(rest, ']');
        if end >= 0 {
            t.subrange(start + 1, start + end)
        } else {
            t
        }
    } else {
        t
    }
}

/// Extracts a rule code from a Markdown-link cell.
pub fn extract_rule_id(cell: &Vec<char>) -> (r: Vec<char>)
    ensures
        r@ == spec_extract_rule_id(cell@),
{
    let t = trim_ws(cell);
    proof {
        assert(t@.skip(0int) == t@);
    }
    match crate::text::find_char_from(&t, '[', 0) {
        Some(start) => {
            match crate::text::find_char_from(&t, ']', start) {
                Some(end_abs) => {
                    proof {
                        let rest = t@.skip(start as int);
                        crate::text::lemma_find_char_hits(t@, '[');
                        assert(t@[start as int] == '[');
                        assert(rest[0] == '[');
                        crate::text::lemma_find_char_hits(rest, ']');
                        assert(crate::text::spec_find_char(rest, ']') == end_abs - start);
                        if end_abs == start {
                            assert(rest[0] == ']');
                            assert(false);
                        }
                    }
                    let r = crate::text::slice_range(&t, start + 1, end_abs);
                    proof {
                        assert(r@ == spec_extract_rule_id(cell@));
                    }
                    r
                },
                None => {
                    proof {
                        assert(crate::text::spec_find_char(t@.skip(start as int), ']') == -1);
                    }
                    t
                },
            }
        },
        None => t,
    }
}

/// How the table scanner stands with respect to a per-resource issue
/// table.
#[derive(Debug, Clone, Copy, PartialEq, Eq, Structural)]
pub enum IssueMode {
    /// Not inside an issue table.
    Off,
    /// Just saw an issue-table header; a separator row may follow.
    ExpectSeparator,
    /// Consuming issue rows.
    InRows,
}

/// One parsed issue row: section, resource, level, rule code, short
/// title.
#[derive(Debug)]
pub struct IssueRow {
    pub section: Vec<char>,
    pub resource: Vec<char>,
    pub level: Vec<char>,
    pub rule_id: Vec<char>,
    pub short_title: Vec<char>,
}

pub struct IssueRowView {
    pub section: Seq<char>,
    pub resource: Seq<char>,
    pub level: Seq<char>,
    pub rule_id: Seq<char>,
    pub short_title: Seq<char>,
}

impl View for IssueRow {
    type V = IssueRowView;

    open spec fn view(&self) -> IssueRowView {
        IssueRowView {
            section: self.section@,
            resource: self.resource@,
            level: self.level@,
            rule_id: self.rule_id@,
            short_title: self.short_title@,
        }
    }
}

impl DeepView for IssueRow {
    type V = IssueRowView;

    open spec fn deep_view(&self) -> IssueRowView {
        self.view()
    }
}

/// Everything the line scanner tracks while walking the report.
pub struct ScanState {
    pub cluster_name: Vec<char>,
    pub report_id: Vec<char>,
    pub cluster_version: Option<Vec<char>>,
    pub node_count: Option<Vec<char>>,
    pub ready_nodes: Option<Vec<char>>,
    pub pod_count: Option<Vec<char>>,
    pub namespace_count: Option<Vec<char>>,
    pub cluster_age: Option<Vec<char>>,
    pub seen_cluster_overview: bool,
    pub in_overview_table: bool,
    pub current_section: Vec<char>,
    pub issue_mode: IssueMode,
    pub rows: Vec<IssueRow>,
}

pub struct ScanStateView {
    pub cluster_name: Seq<char>,
    pub report_id: Seq<char>,
    pub cluster_version: Option<Seq<char>>,
    pub node_count: Option<Seq<char>>,
    pub ready_nodes: Option<Seq<char>>,
    pub pod_count: Option<Seq<char>>,
    pub namespace_count: Option<Seq<char>>,
    pub cluster_age: Option<Seq<char>>,
    pub seen_cluster_overview: bool,
    pub in_overview_table: bool,
    pub current_section: Seq<char>,
    pub issue_mode: IssueMode,
    pub rows: Seq<IssueRowView>,
}

impl View for ScanState {
    type V = ScanStateView;

    open spec fn view(&self) -> ScanStateView {
        ScanStateView {
            cluster_name: self.cluster_name@,
            report_id: self.report_id@,
            cluster_version: self.cluster_version.deep_view(),
            node_count: self.node_count.deep_view(),
            ready_nodes: self.ready_nodes.deep_view(),
            pod_count: self.pod_count.deep_view(),
            namespace_count: self.namespace_count.deep_view(),
            cluster_age: self.cluster_age.deep_view(),
            seen_cluster_overview: self.seen_cluster_overview,
            in_overview_table: self.in_overview_table,
            current_section: self.current_section@,
            issue_mode: self.issue_mode,
            rows: self.rows.deep_view(),
        }
    }
}

/// The scanner's starting state: nothing seen.
pub open spec fn spec_scan_init() -> ScanStateView {
    ScanStateView {
        cluster_name: Seq::empty(),
        report_id: Seq::empty(),
        cluster_version: None,
        node_count: None,
        ready_nodes: None,
        pod_count: None,
        namespace_count: None,
        cluster_age: None,
        seen_cluster_overview: false,
        in_overview_table: false,
        current_section: Seq::empty(),
        issue_mode: IssueMode::Off,
        rows: Seq::empty(),
    }
}

/// The row an issue-table line yields, when it is a data row.
pub open spec fn spec_row_of_cells(
    section: Seq<char>,
    cells: Seq<Seq<char>>,
) -> IssueRowView {
    IssueRowView {
        section: section,
        resource: spec_trim(cells[0], TrimClass::Quote('`')),
        level: cells[1],
        rule_id: spec_extract_rule_id(cells[2]),
        short_title: cells[3],
    }
}

/// A line consumed while inside an issue table: a pipe line may append a
/// row; anything else leaves the table and is handled as an ordinary
/// line.
pub open spec fn spec_scan_rows(st: ScanStateView, line: Seq<char>) -> ScanStateView {
    if spec_starts_with(line, "|"@) {
        let cells = spec_cells(line);
        if cells.len() >= 4 && !spec_all_dashes(cells[0], false) {
            ScanStateView {
                rows: st.rows.push(spec_row_of_cells(st.current_section, cells)),
                ..st
            }
        } else {
            st
        }
    } else {
        spec_scan_normal(ScanStateView { issue_mode: IssueMode::Off, ..st }, line)
    }
}

/// The first checks on an ordinary line: the header fields and the
/// overview table.
pub open spec fn spec_first_pass(st: ScanStateView, line: Seq<char>) -> ScanStateView {
    if spec_starts_with(line, "**Cluster**:"@) {
        ScanStateView {
            cluster_name: spec_trim_ws(spec_strip_prefix_all(line, "**Cluster**:"@)),
            ..st
        }
    } else if spec_starts_with(line, "**Report ID**:"@) {
        ScanStateView {
            report_id: spec_trim_ws(
                spec_trim(
                    spec_trim_ws(spec_strip_prefix_all(line, "**Report ID**:"@)),
                    TrimClass::Quote('`'),
                ),
            ),
            ..st
        }
    } else if spec_contains_sub(line, "Cluster Overview"@) && (spec_starts_with(line, "##"@)
        || spec_contains_sub(line, "🖥️"@)) {
        ScanStateView { seen_cluster_overview: true, ..st }
    } else if (st.seen_cluster_overview || st.in_overview_table) && spec_starts_with(
        line,
        "|"@,
    ) {
        let cells = spec_cells(line);
        if cells.len() >= 2 && cells[0] == "Metric"@ && cells[1] == "Value"@ {
            ScanStateView { in_overview_table: true, seen_cluster_overview: false, ..st }
        } else if st.in_overview_table && cells.len() >= 2 && !spec_all_dashes(cells[0], true) {
            spec_set_overview(st, cells[0], cells[1])
        } else {
            st
        }
    } else if st.in_overview_table && (!spec_starts_with(line, "|"@) || spec_trim_ws(line).len()
        == 0) {
        ScanStateView { in_overview_table: false, ..st }
    } else {
        st
    }
}

/// One ordinary line: the header fields, the overview table, section
/// titles, and the issue-table header, in the order the scanner checks
/// them.
pub open spec fn spec_scan_normal(st: ScanStateView, line: Seq<char>) -> ScanStateView {
    let st1 = spec_first_pass(st, line);
    let st2 = if spec_starts_with(line, "## "@) && !spec_contains_sub(
        line,
        "Cluster Overview"@,
    ) {
        ScanStateView { seen_cluster_overview: false, ..st1 }
    } else {
        st1
    };
    let st3 = if spec_starts_with(line, "### "@) && !spec_starts_with(line, "#### "@) {
        ScanStateView {
            current_section: spec_trim_ws(spec_strip_prefix_all(line, "### "@)),
            ..st2
        }
    } else {
        st2
    };
    if spec_starts_with(line, "|"@) && spec_contains_sub(line, "Resource"@)
        && spec_contains_sub(line, "Level"@) && spec_contains_sub(line, "Issue Code"@)
        && spec_contains_sub(line, "Short Title"@) {
        ScanStateView { issue_mode: IssueMode::ExpectSeparator, ..st3 }
    } else {
        st3
    }
}

/// One overview row: the six metrics the CSV keeps are remembered, the
/// last value written winning; other metrics pass through.
pub open spec fn spec_set_overview(
    st: ScanStateView,
    key: Seq<char>,
    value: Seq<char>,
) -> ScanStateView {
    if key == "Cluster Version"@ {
        ScanStateView { cluster_version: Some(value), ..st }
    } else if key == "Node Count"@ {
        ScanStateView { node_count: Some(value), ..st }
    } else if key == "Ready Nodes"@ {
        ScanStateView { ready_nodes: Some(value), ..st }
    } else if key == "Pod Count"@ {
        ScanStateView { pod_count: Some(value), ..st }
    } else if key == "Namespace Count"@ {
        ScanStateView { namespace_count: Some(value), ..st }
    } else if key == "Cluster Age (days)"@ {
        ScanStateView { cluster_age: Some(value), ..st }
    } else {
        st
    }
}

/// One line fed through the scanner.
pub open spec fn spec_scan_line(st: ScanStateView, line: Seq<char>) -> ScanStateView {
    match st.issue_mode {
        IssueMode::ExpectSeparator => {
            if spec_contains_sub(line, "---"@) {
                ScanStateView { issue_mode: IssueMode::InRows, ..st }
            } else {
                spec_scan_rows(ScanStateView { issue_mode: IssueMode::InRows, ..st }, line)
            }
        },
        IssueMode::InRows => spec_scan_rows(st, line),
        IssueMode::Off => spec_scan_normal(st, line),
    }
}

/// The whole report scanned, line by line.
pub open spec fn spec_scan(lines: Seq<Seq<char>>) -> ScanStateView
    decreases lines.len(),
{
    if lines.len() == 0 {
        spec_scan_init()
    } else {
        spec_scan_line(spec_scan(lines.drop_last()), lines.last())
    }
}

/// An exact copy of a character vector.
fn copy_chars(v: &Vec<char>) -> (r: Vec<char>)
    ensures
        r@ == v@,
{
    let r = crate::text::slice_range(v, 0, v.len());
    proof {
        assert(r@ =~= v@);
    }
    r
}

/// Feeds one line through the scanner.
fn scan_line(st: ScanState, line: &Vec<char>) -> (r: ScanState)
    ensures
        r@ == spec_scan_line(st@, line@),
{
    let ghost st0 = st@;
    let mut st = st;
    let consume_row = match st.issue_mode {
        IssueMode::ExpectSeparator => {
            if contains_lit(line, "---") {
                st.issue_mode = IssueMode::InRows;
                proof {
                    assert(st@ == spec_scan_line(st0, line@));
                }
                return st;
            }
            st.issue_mode = IssueMode::InRows;
            true
        },
        IssueMode::InRows => true,
        IssueMode::Off => false,
    };
    let ghost st_rows = st@;
    if consume_row {
        if starts_with_lit(line, "|") {
            let cells = cells_of(line);
            let ghost cv = cells.deep_view();
            proof {
                if cv.len() >= 4 {
                    assert(cells@[0int]@ == cv[0int]);
                    assert(cells@[1int]@ == cv[1int]);
                    assert(cells@[2int]@ == cv[2int]);
                    assert(cells@[3int]@ == cv[3int]);
                }
            }
            if cells.len() >= 4 && !all_dashes(&cells[0], false) {
                let row = IssueRow {
                    section: copy_chars(&st.current_section),
                    resource: trim_char(&cells[0], '`'),
                    level: copy_chars(&cells[1]),
                    rule_id: extract_rule_id(&cells[2]),
                    short_title: copy_chars(&cells[3]),
                };
                let ghost rv = row@;
                let ghost pre_rows = st.rows.deep_view();
                st.rows.push(row);
                proof {
                    assert(st.rows.deep_view() =~~= pre_rows.push(rv));
                    assert(rv == spec_row_of_cells(st_rows.current_section, cv));
                    assert(st@ == spec_scan_line(st0, line@));
                }
                return st;
            }
            proof {
                assert(st@ == spec_scan_line(st0, line@));
            }
            return st;
        }
        st.issue_mode = IssueMode::Off;
    }
    let ghost stn = st@;
    // ordinary line handling
    if starts_with_lit(line, "**Cluster**:") {
        let stripped = strip_prefix_all(line, "**Cluster**:");
        st.cluster_name = trim_ws(&stripped);
    } else if starts_with_lit(line, "**Report ID**:") {
        let stripped = strip_prefix_all(line, "**Report ID**:");
        let t1 = trim_ws(&stripped);
        let t2 = trim_char(&t1, '`');
        st.report_id = trim_ws(&t2);
    } else if contains_lit(line, "Cluster Overview") && (starts_with_lit(line, "##")
        || contains_lit(line, "🖥️")) {
        st.seen_cluster_overview = true;
    } else if (st.seen_cluster_overview || st.in_overview_table) && starts_with_lit(line, "|") {
        let cells = cells_of(line);
        let ghost cv = cells.deep_view();
        proof {
            if cv.len() >= 2 {
                assert(cells@[0int]@ == cv[0int]);
                assert(cells@[1int]@ == cv[1int]);
            }
        }
        if cells.len() >= 2 && chars_eq_lit(&cells[0], "Metric") && chars_eq_lit(
            &cells[1],
            "Value",
        ) {
            st.in_overview_table = true;
            st.seen_cluster_overview = false;
        } else if st.in_overview_table && cells.len() >= 2 && !all_dashes(&cells[0], true) {
            if chars_eq_lit(&cells[0], "Cluster Version") {
                st.cluster_version = Some(copy_chars(&cells[1]));
            } else if chars_eq_lit(&cells[0], "Node Count") {
                st.node_count = Some(copy_chars(&cells[1]));
            } else if chars_eq_lit(&cells[0], "Ready Nodes") {
                st.ready_nodes = Some(copy_chars(&cells[1]));
            } else if chars_eq_lit(&cells[0], "Pod Count") {
                st.pod_count = Some(copy_chars(&cells[1]));
            } else if chars_eq_lit(&cells[0], "Namespace Count") {
                st.namespace_count = Some(copy_chars(&cells[1]));
            } else if chars_eq_lit(&cells[0], "Cluster Age (days)") {
                st.cluster_age = Some(copy_chars(&cells[1]));
            }
            proof {
                assert(st@ == spec_set_overview(stn, cv[0int], cv[1int]));
            }
        }
    } else {
        let t = trim_ws(line);
        if st.in_overview_table && (!starts_with_lit(line, "|") || t.len() == 0) {
            st.in_overview_table = false;
        }
    }
    proof {
        assert(st@ == spec_first_pass(stn, line@));
    }
    if starts_with_lit(line, "## ") && !contains_lit(line, "Cluster Overview") {
        st.seen_cluster_overview = false;
    }
    if starts_with_lit(line, "### ") && !starts_with_lit(line, "#### ") {
        let stripped = strip_prefix_all(line, "### ");
        st.current_section = trim_ws(&stripped);
    }
    if starts_with_lit(line, "|") && contains_lit(line, "Resource") && contains_lit(line, "Level")
        && contains_lit(line, "Issue Code") && contains_lit(line, "Short Title") {
        st.issue_mode = IssueMode::ExpectSeparator;
    }
    proof {
        assert(st@ == spec_scan_line(st0, line@));
    }
    st
}

/// The escaped form of an overview value, the empty sequence for a metric
/// the report never stated.
pub open spec fn spec_csv_opt(o: Option<Seq<char>>) -> Seq<char> {
    match o {
        Some(v) => spec_escape_csv(v),
        None => Seq::empty(),
    }
}

/// One issue row as a CSV line: section repeated as inspection type and
/// category, an empty recommendation column, the escaped fields in the
/// fixed column order.
pub open spec fn spec_csv_row(row: IssueRowView) -> Seq<char> {
    "issue,"@ + spec_escape_csv(row.section) + ","@ + spec_escape_csv(row.section) + ","@
        + spec_escape_csv(row.level) + ","@ + spec_escape_csv(row.section) + ","@
        + spec_escape_csv(row.short_title) + ","@ + spec_escape_csv(row.resource) + ",,"@
        + spec_escape_csv(row.rule_id) + "\n"@
}

pub open spec fn spec_csv_rows(rows: Seq<IssueRowView>) -> Seq<char>
    decreases rows.len(),
{
    if rows.len() == 0 {
        Seq::empty()
    } else {
        spec_csv_rows(rows.drop_last()) + spec_csv_row(rows.last())
    }
}

/// The whole CSV: the overview header and row from the scanned state,
/// then the issue header and one line per scanned issue row.
pub open spec fn spec_md_to_csv(md: Seq<char>) -> Seq<char> {
    let st = spec_scan(spec_lines(md));
    "section,cluster_name,report_id,cluster_version,node_count,ready_node_count,pod_count,namespace_count,cluster_age_days\n"@
        + "cluster_overview,"@ + spec_escape_csv(st.cluster_name) + ","@ + spec_escape_csv(
        st.report_id,
    ) + ","@ + spec_csv_opt(st.cluster_version) + ","@ + spec_csv_opt(st.node_count) + ","@
        + spec_csv_opt(st.ready_nodes) + ","@ + spec_csv_opt(st.pod_count) + ","@ + spec_csv_opt(
        st.namespace_count,
    ) + ","@ + spec_csv_opt(st.cluster_age) + "\n"@
        + "section,inspection_type,severity,category,description,resource,recommendation,rule_id\n"@
        + spec_csv_rows(st.rows)
}

/// Appends one escaped field.
fn append_escaped(out: &mut String, v: &Vec<char>)
    ensures
        final(out)@ == old(out)@ + spec_escape_csv(v@),
{
    let e = escape_csv(v);
    let s = string_from_chars(&e);
    out.append(s.as_str());
}

/// Appends one escaped optional overview value.
fn append_escaped_opt(out: &mut String, o: &Option<Vec<char>>)
    ensures
        final(out)@ == old(out)@ + spec_csv_opt(o.deep_view()),
{
    match o {
        Some(v) => {
            proof {
                assert(o.deep_view() == Some(v@));
            }
            append_escaped(out, v);
        },
        None => {
            proof {
                assert(old(out)@ + spec_csv_opt(o.deep_view()) =~= old(out)@);
            }
        },
    }
}

/// Parses a rendered Markdown report and renders it as CSV: one
/// cluster-overview row read out of the `Metric | Value` table, then one
/// row per issue read out of the per-resource
/// `Resource | Level | Issue Code | Short Title` tables.
#[verifier::rlimit(100)]
pub fn md_to_csv(md: &str) -> (r: String)
    ensures
        r@ == spec_md_to_csv(md@),
{
    let chars = to_chars(md);
    let all_lines = lines_of(&chars);
    let ghost lv = all_lines.deep_view();
    let mut st = ScanState {
        cluster_name: Vec::new(),
        report_id: Vec::new(),
        cluster_version: None,
        node_count: None,
        ready_nodes: None,
        pod_count: None,
        namespace_count: None,
        cluster_age: None,
        seen_cluster_overview: false,
        in_overview_table: false,
        current_section: Vec::new(),
        issue_mode: IssueMode::Off,
        rows: Vec::new(),
    };
    proof {
        assert(st@.rows =~= spec_scan_init().rows);
        assert(st@.cluster_name =~= spec_scan_init().cluster_name);
        assert(st@.report_id =~= spec_scan_init().report_id);
        assert(st@.current_section =~= spec_scan_init().current_section);
        assert(st@ == spec_scan_init());
        assert(lv.take(0int) =~= Seq::<Seq<char>>::empty());
    }
    let mut i: usize = 0;
    while i < all_lines.len()
        invariant
            i <= all_lines@.len(),
            lv == all_lines.deep_view(),
            lv.len() == all_lines@.len(),
            st@ == spec_scan(lv.take(i as int)),
        decreases all_lines@.len() - i,
    {
        proof {
            assert(lv.take(i + 1int).drop_last() == lv.take(i as int));
            assert(lv.take(i + 1int).last() == lv[i as int]);
            assert(all_lines@[i as int]@ == lv[i as int]);
        }
        st = scan_line(st, &all_lines[i]);
        i = i + 1;
    }
    proof {
        assert(lv.take(all_lines@.len() as int) == lv);
        assert(st@ == spec_scan(spec_lines(md@)));
    }
    let mut out = String::new();
    out.append(
        "section,cluster_name,report_id,cluster_version,node_count,ready_node_count,pod_count,namespace_count,cluster_age_days\n",
    );
    out.append("cluster_overview,");
    append_escaped(&mut out, &st.cluster_name);
    out.append(",");
    append_escaped(&mut out, &st.report_id);
    out.append(",");
    append_escaped_opt(&mut out, &st.cluster_version);
    out.append(",");
    append_escaped_opt(&mut out, &st.node_count);
    out.append(",");
    append_escaped_opt(&mut out, &st.ready_nodes);
    out.append(",");
    append_escaped_opt(&mut out, &st.pod_count);
    out.append(",");
    append_escaped_opt(&mut out, &st.namespace_count);
    out.append(",");
    append_escaped_opt(&mut out, &st.cluster_age);
    out.append("\n");
    out.append(
        "section,inspection_type,severity,category,description,resource,recommendation,rule_id\n",
    );
    let ghost fixed = out@;
    let ghost rowsv = st.rows.deep_view();
    let mut k: usize = 0;
    proof {
        assert(rowsv.take(0int) =~= Seq::<IssueRowView>::empty());
        assert(out@ =~= fixed + spec_csv_rows(rowsv.take(0int)));
    }
    while k < st.rows.len()
        invariant
            k <= st.rows@.len(),
            rowsv == st.rows.deep_view(),
            rowsv.len() == st.rows@.len(),
            out@ == fixed + spec_csv_rows(rowsv.take(k as int)),
        decreases st.rows@.len() - k,
    {
        proof {
            assert(rowsv.take(k + 1int).drop_last() == rowsv.take(k as int));
            assert(rowsv.take(k + 1int).last() == rowsv[k as int]);
            assert(st.rows@[k as int]@ == rowsv[k as int]);
        }
        let row = &st.rows[k];
        out.append("issue,");
        append_escaped(&mut out, &row.section);
        out.append(",");
        append_escaped(&mut out, &row.section);
        out.append(",");
        append_escaped(&mut out, &row.level);
        out.append(",");
        append_escaped(&mut out, &row.section);
        out.append(",");
        append_escaped(&mut out, &row.short_title);
        out.append(",");
        append_escaped(&mut out, &row.resource);
        out.append(",,");
        append_escaped(&mut out, &row.rule_id);
        out.append("\n");
        proof {
            assert(out@ =~= fixed + spec_csv_rows(rowsv.take(k + 1int)));
        }
        k = k + 1;
    }
    proof {
        assert(rowsv.take(st.rows@.len() as int) == rowsv);
        assert(out@ =~= spec_md_to_csv(md@));
    }
    out
}

/// A text with the four HTML-special characters replaced by their
/// entities.
pub open spec fn spec_escape_html_char(c: char) -> Seq<char> {
    if c == '&' {
        "&amp;"@
    } else if c == '<' {
        "&lt;"@
    } else if c == '>' {
        "&gt;"@
    } else if c == '"' {
        "&quot;"@
    } else {
        seq![c]
    }
}

pub open spec fn spec_escape_html(s: Seq<char>) -> Seq<char>
    decreases s.len(),
{
    if s.len() == 0 {
        Seq::empty()
    } else {
        spec_escape_html(s.drop_last()) + spec_escape_html_char(s.last())
    }
}

/// Escapes a text for embedding in HTML.
pub fn escape_html(s: &str) -> (r: String)
    ensures
        r@ == spec_escape_html(s@),
{
    let chars = to_chars(s);
    let mut out = String::new();
    let mut i: usize = 0;
    while i < chars.len()
        invariant
            chars@ == s@,
            i <= chars@.len(),
            out@ == spec_escape_html(s@.take(i as int)),
        decreases chars@.len() - i,
    {
        proof {
            assert(s@.take(i + 1int).drop_last() == s@.take(i as int));
            assert(s@.take(i + 1int).last() == s@[i as int]);
        }
        let c = chars[i];
        if c == '&' {
            out.append("&amp;");
        } else if c == '<' {
            out.append("&lt;");
        } else if c == '>' {
            out.append("&gt;");
        } else if c == '"' {
            out.append("&quot;");
        } else {
            crate::text::push_char(&mut out, c);
            proof {
                assert(out@ =~= spec_escape_html(s@.take(i as int)) + seq![s@[i as int]]);
            }
        }
        i = i + 1;
    }
    proof {
        assert(s@.take(s@.len() as int) == s@);
    }
    out
}

/// Names the HTML body that comrak renders for a Markdown text with the
/// table extension enabled; a pure function of the text.
pub uninterp spec fn html_body_of(md: Seq<char>) -> Seq<char>;

/// Relies on comrak's `markdown_to_html` with `extension.table` switched
/// on: the rendering depends on the Markdown text alone.
#[verifier::external_body]
fn render_markdown_body(md: &str) -> (r: String)
    ensures
        r@ == html_body_of(md@),
{
    let mut opts = comrak::Options::default();
    opts.extension.table = true;
    comrak::markdown_to_html(md, &opts)
}

/// Names the standard base64 text of a byte string; a pure function of
/// the bytes.
pub uninterp spec fn base64_std_of(bytes: Seq<u8>) -> Seq<char>;

/// Relies on base64's STANDARD engine `encode`: a pure function of the
/// bytes, four output characters for every started group of three input
/// bytes, padded. The length bound keeps the engine's buffer-size
/// computation away from its overflow panic.
#[verifier::external_body]
fn encode_base64(bytes: &Vec<u8>) -> (r: String)
    requires
        bytes@.len() <= 0x2000_0000_0000_0000,
    ensures
        r@ == base64_std_of(bytes@),
        r@.len() == 4 * ((bytes@.len() + 2) / 3),
{
    base64::engine::general_purpose::STANDARD.encode(bytes.as_slice())
}

/// The bytes of the built-in logo: a one-pixel PNG.
pub open spec fn spec_logo_png() -> Seq<u8> {
    seq![0x89u8, 0x50u8, 0x4Eu8, 0x47u8, 0x0Du8, 0x0Au8, 0x1Au8, 0x0Au8, 0x00u8, 0x00u8, 0x00u8, 0x0Du8, 0x49u8, 0x48u8, 0x44u8, 0x52u8, 0x00u8, 0x00u8, 0x00u8, 0x01u8, 0x00u8, 0x00u8, 0x00u8, 0x01u8, 0x08u8, 0x06u8, 0x00u8, 0x00u8, 0x00u8, 0x1Fu8, 0x15u8, 0xC4u8, 0x89u8, 0x00u8, 0x00u8, 0x00u8, 0x0Du8, 0x49u8, 0x44u8, 0x41u8, 0x54u8, 0x78u8, 0x9Cu8, 0x62u8, 0x00u8, 0x01u8, 0x00u8, 0x00u8, 0x05u8, 0x00u8, 0x01u8, 0x0Du8, 0x0Au8, 0x2Du8, 0xB4u8, 0x00u8, 0x00u8, 0x00u8, 0x00u8, 0x49u8, 0x45u8, 0x4Eu8, 0x44u8, 0xAEu8, 0x42u8, 0x60u8, 0x82u8]
}

/// The built-in logo, a minimal valid PNG.
#[verifier::rlimit(100)]
fn logo_png_bytes() -> (r: Vec<u8>)
    ensures
        r@ == spec_logo_png(),
{
    let mut v: Vec<u8> = Vec::new();
    v.push(0x89);
    v.push(0x50);
    v.push(0x4E);
    v.push(0x47);
    v.push(0x0D);
    v.push(0x0A);
    v.push(0x1A);
    v.push(0x0A);
    v.push(0x00);
    v.push(0x00);
    v.push(0x00);
    v.push(0x0D);
    v.push(0x49);
    v.push(0x48);
    v.push(0x44);
    v.push(0x52);
    v.push(0x00);
    v.push(0x00);
    v.push(0x00);
    v.push(0x01);
    v.push(0x00);
    v.push(0x00);
    v.push(0x00);
    v.push(0x01);
    v.push(0x08);
    v.push(0x06);
    v.push(0x00);
    v.push(0x00);
    v.push(0x00);
    v.push(0x1F);
    v.push(0x15);
    v.push(0xC4);
    v.push(0x89);
    v.push(0x00);
    v.push(0x00);
    v.push(0x00);
    v.push(0x0D);
    v.push(0x49);
    v.push(0x44);
    v.push(0x41);
    v.push(0x54);
    v.push(0x78);
    v.push(0x9C);
    v.push(0x62);
    v.push(0x00);
    v.push(0x01);
    v.push(0x00);
    v.push(0x00);
    v.push(0x05);
    v.push(0x00);
    v.push(0x01);
    v.push(0x0D);
    v.push(0x0A);
    v.push(0x2D);
    v.push(0xB4);
    v.push(0x00);
    v.push(0x00);
    v.push(0x00);
    v.push(0x00);
    v.push(0x49);
    v.push(0x45);
    v.push(0x4E);
    v.push(0x44);
    v.push(0xAE);
    v.push(0x42);
    v.push(0x60);
    v.push(0x82);
    proof {
        assert(v@ =~= spec_logo_png());
    }
    v
}

/// The data URI the report embeds so the HTML document stands alone.
pub open spec fn spec_logo_data_uri() -> Seq<char> {
    "data:image/png;base64,"@ + base64_std_of(spec_logo_png())
}

fn embedded_logo_data_uri() -> (r: String)
    ensures
        r@ == spec_logo_data_uri(),
{
    let bytes = logo_png_bytes();
    let mut out = String::new();
    out.append("data:image/png;base64,");
    let encoded = encode_base64(&bytes);
    out.append(encoded.as_str());
    out
}

/// The full HTML document around a rendered body and the logo data URI.
pub open spec fn spec_html_document(md: Seq<char>) -> Seq<char> {
    HTML_PREFIX@ + spec_logo_data_uri() + HTML_MIDDLE@ + html_body_of(md) + HTML_SUFFIX@
}

/// Converts a Markdown report to a standalone HTML document: the body
/// rendered with tables enabled, the logo embedded as a data URI.
pub fn md_to_html(md: &str) -> (r: String)
    ensures
        r@ == spec_html_document(md@),
{
    let body = render_markdown_body(md);
    let logo_src = embedded_logo_data_uri();
    let mut out = String::new();
    out.append(HTML_PREFIX);
    out.append(logo_src.as_str());
    out.append(HTML_MIDDLE);
    out.append(body.as_str());
    out.append(HTML_SUFFIX);
    out
}

/// Document shell around the rendered body, up to the logo source.
pub const HTML_PREFIX: &'static str = "<!DOCTYPE html>\n<html lang=\"en\">\n<head>\n<meta charset=\"UTF-8\"/>\n<title>Kubeowler Report</title>\n<style>\n:root {\n  --cell-padding-vertical: 0.25em;\n  --cell-padding-horizontal: 0.25em;\n  --font-family-sans: system-ui, -apple-system, sans-serif;\n}\nbody {\n  max-width: 60em;\n  margin: auto;\n  font-family: var(--font-family-sans);\n}\ntable {\n  width: 100%;\n  border-collapse: collapse;\n  margin: 1em 0;\n  border-top: 0.1em solid #333;\n  border-bottom: 0.1em solid #333;\n}\nthead {\n  border-bottom: 0.1em solid #333;\n}\nth, td {\n  padding-top: var(--cell-padding-vertical);\n  padding-bottom: var(--cell-padding-vertical);\n  padding-left: var(--cell-padding-horizontal);\n  padding-right: var(--cell-padding-horizontal);\n  text-align: left;\n  vertical-align: top;\n}\nth {\n  background: #f5f5f5;\n}\ntd > p {\n  margin: 0;\n  word-break: break-all;\n  hyphens: auto;\n}\ntd {\n  word-break: break-all;\n  hyphens: auto;\n}\n.report-logo {\n  width: 25%;\n  max-width: 200px;\n  float: right;\n}\n</style>\n</head>\n<body>\n<img class=\"report-logo\" src=\"";

/// Between the logo source and the rendered body.
pub const HTML_MIDDLE: &'static str = "\" alt=\"Kubeowler\"/>\n";

/// After the rendered body.
pub const HTML_SUFFIX: &'static str = "\n</body>\n</html>";

} // verus!
