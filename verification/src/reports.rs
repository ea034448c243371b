//! Shaping of usage-report tables.
//!
//! The surrounding service queries its store for referrer counts, visit
//! counts and page views over a report window, and renders the results.
//! The shaping of those plain values into named tables is the part that
//! can be stated and proved; querying and rendering stay outside.

use vstd::prelude::*;
use vstd::string::*;

use crate::digits::{dec_str, dec_str_i64, dec_to_string, i64_to_string};
use crate::scan::str_eq;

verus! {

/// How many days of history a report covers.
#[derive(Clone, Copy, Debug, PartialEq, Eq, Structural)]
pub enum ReportWindow {
    Day,
    Week,
    Month,
}

/// The window named by a request path segment: `day` and `month` select
/// those windows; anything else falls back to a week.
pub open spec fn window_of(s: Seq<char>) -> ReportWindow {
    if s == "day"@ {
        ReportWindow::Day
    } else if s == "month"@ {
        ReportWindow::Month
    } else {
        ReportWindow::Week
    }
}

impl ReportWindow {
    /// The day count handed to the store's procedures.
    pub open spec fn to_sql_spec(self) -> int {
        match self {
            ReportWindow::Day => 1,
            ReportWindow::Week => 7,
            ReportWindow::Month => 30,
        }
    }

    /// Parse a request path segment; never fails, unknown segments mean
    /// a week.
    pub fn from_str(s: &str) -> (r: Result<ReportWindow, ()>)
        ensures
            r matches Ok(w) && w == window_of(s@),
    {
        if str_eq(s, "day") {
            Ok(ReportWindow::Day)
        } else if str_eq(s, "month") {
            Ok(ReportWindow::Month)
        } else {
            Ok(ReportWindow::Week)
        }
    }

    /// The day count handed to the store's procedures.
    pub fn to_sql(&self) -> (r: i32)
        ensures
            r as int == self.to_sql_spec(),
            1 <= r <= 30,
    {
        match self {
            ReportWindow::Day => 1,
            ReportWindow::Week => 7,
            ReportWindow::Month => 30,
        }
    }
}

/// A named table of rows under headers, ready for rendering.
pub struct Table {
    pub headers: Vec<String>,
    pub rows: Vec<Vec<String>>,
    pub name: String,
}

impl Table {
    /// An empty table with the given name and headers.
    pub fn new(name: String, headers: Vec<String>) -> (t: Table)
        ensures
            t.name == name,
            t.headers == headers,
            t.rows@.len() == 0,
    {
        Self { name, headers, rows: Vec::new() }
    }
}

/// A referrer cell: over-long referrers are cut to their first 97
/// characters with a three-dot ellipsis.
pub open spec fn truncated_referrer(s: Seq<char>) -> Seq<char> {
    if s.len() > 100 {
        s.take(97) + seq!['.', '.', '.']
    } else {
        s
    }
}

/// The three tables of a usage report, shaped from the rows the store
/// returns for a window: referrer counts, visit counts and page view
/// counts.  The view-count table lists the count before the page, as the
/// store's rows do.
pub fn build_report_tables(
    window: &ReportWindow,
    referrers: &Vec<(String, i64)>,
    visits: &Vec<i64>,
    views: &Vec<(i64, String)>,
) -> (out: Vec<Table>)
    ensures
        out@.len() == 3,
        out@[0].name@ == dec_str(window.to_sql_spec()) + " Day Referer Counts"@,
        out@[0].headers@.len() == 2,
        out@[0].headers@[0]@ == "Referer"@,
        out@[0].headers@[1]@ == "Count"@,
        out@[0].rows@.len() == referrers@.len(),
        forall|i: int|
            0 <= i < referrers@.len() ==> {
                &&& (#[trigger] out@[0].rows@[i])@.len() == 2
                &&& out@[0].rows@[i]@[0]@ == truncated_referrer(referrers@[i].0@)
                &&& out@[0].rows@[i]@[1]@ == dec_str_i64(referrers@[i].1 as int)
            },
        out@[1].name@ == dec_str(window.to_sql_spec()) + " Day Visits"@,
        out@[1].headers@.len() == 1,
        out@[1].headers@[0]@ == "Visit Count"@,
        out@[1].rows@.len() == visits@.len(),
        forall|i: int|
            0 <= i < visits@.len() ==> {
                &&& (#[trigger] out@[1].rows@[i])@.len() == 1
                &&& out@[1].rows@[i]@[0]@ == dec_str_i64(visits@[i] as int)
            },
        out@[2].name@ == dec_str(window.to_sql_spec()) + "  Day Page Counts"@,
        out@[2].headers@.len() == 2,
        out@[2].headers@[0]@ == "Page"@,
        out@[2].headers@[1]@ == "View Count"@,
        out@[2].rows@.len() == views@.len(),
        forall|i: int|
            0 <= i < views@.len() ==> {
                &&& (#[trigger] out@[2].rows@[i])@.len() == 2
                &&& out@[2].rows@[i]@[0]@ == dec_str_i64(views@[i].0 as int)
                &&& out@[2].rows@[i]@[1]@ == views@[i].1@
            },
{
    let day = window.to_sql();
    let mut rrows: Vec<Vec<String>> = Vec::new();
    let mut i: usize = 0;
    while i < referrers.len()
        invariant
            i <= referrers@.len(),
            rrows@.len() == i,
            forall|j: int|
                0 <= j < i ==> {
                    &&& (#[trigger] rrows@[j])@.len() == 2
                    &&& rrows@[j]@[0]@ == truncated_referrer(referrers@[j].0@)
                    &&& rrows@[j]@[1]@ == dec_str_i64(referrers@[j].1 as int)
                },
        decreases referrers@.len() - i,
    {
        let mut row: Vec<String> = Vec::new();
        row.push(truncate_referrer(referrers[i].0.as_str()));
        row.push(i64_to_string(referrers[i].1));
        rrows.push(row);
        i += 1;
    }
    let mut name0 = dec_to_string(day as u64);
    name0.append(" Day Referer Counts");
    let mut headers0: Vec<String> = Vec::new();
    headers0.push(String::from_str("Referer"));
    headers0.push(String::from_str("Count"));
    let mut ref_table = Table::new(name0, headers0);
    ref_table.rows = rrows;

    let mut vrows: Vec<Vec<String>> = Vec::new();
    let mut i: usize = 0;
    while i < visits.len()
        invariant
            i <= visits@.len(),
            vrows@.len() == i,
            forall|j: int|
                0 <= j < i ==> {
                    &&& (#[trigger] vrows@[j])@.len() == 1
                    &&& vrows@[j]@[0]@ == dec_str_i64(visits@[j] as int)
                },
        decreases visits@.len() - i,
    {
        let mut row: Vec<String> = Vec::new();
        row.push(i64_to_string(visits[i]));
        vrows.push(row);
        i += 1;
    }
    let mut name1 = dec_to_string(day as u64);
    name1.append(" Day Visits");
    let mut headers1: Vec<String> = Vec::new();
    headers1.push(String::from_str("Visit Count"));
    let mut visit_table = Table::new(name1, headers1);
    visit_table.rows = vrows;

    let mut wrows: Vec<Vec<String>> = Vec::new();
    let mut i: usize = 0;
    while i < views.len()
        invariant
            i <= views@.len(),
            wrows@.len() == i,
            forall|j: int|
                0 <= j < i ==> {
                    &&& (#[trigger] wrows@[j])@.len() == 2
                    &&& wrows@[j]@[0]@ == dec_str_i64(views@[j].0 as int)
                    &&& wrows@[j]@[1]@ == views@[j].1@
                },
        decreases views@.len() - i,
    {
        let mut row: Vec<String> = Vec::new();
        row.push(i64_to_string(views[i].0));
        row.push(views[i].1.clone());
        wrows.push(row);
        i += 1;
    }
    let mut name2 = dec_to_string(day as u64);
    name2.append("  Day Page Counts");
    let mut headers2: Vec<String> = Vec::new();
    headers2.push(String::from_str("Page"));
    headers2.push(String::from_str("View Count"));
    let mut view_table = Table::new(name2, headers2);
    view_table.rows = wrows;

    let mut out: Vec<Table> = Vec::new();
    out.push(ref_table);
    out.push(visit_table);
    out.push(view_table);
    out
}

/// Cut an over-long referrer down for display.
pub fn truncate_referrer(r: &str) -> (out: String)
    ensures
        out@ == truncated_referrer(r@),
{
    let n = r.unicode_len();
    if n > 100 {
        let mut s = String::from_str(r.substring_char(0, 97));
        s.append("...");
        proof {
            reveal_strlit("...");
            assert(s@ =~= truncated_referrer(r@));
        }
        s
    } else {
        String::from_str(r)
    }
}

} // verus!
