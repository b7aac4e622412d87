use vstd::prelude::*;
use vstd::multiset::Multiset;
use vstd::seq_lib::group_to_multiset_ensures;
use std::cmp::Ordering;
use itertools::Itertools;
use crate::metadata::{records_view, ReportRecord};

verus! {

/// The view of a report record: tags, path template, parameter summary.
pub type RecordView = (Seq<char>, Seq<char>, Seq<char>);

/// An ordering as -1, 0 or 1.
pub open spec fn ordering_int(o: Ordering) -> int {
    match o {
        Ordering::Less => -1,
        Ordering::Equal => 0,
        Ordering::Greater => 1,
    }
}

/// Lexicographic comparison of two texts by character code: -1, 0 or 1.
pub open spec fn text_cmp(a: Seq<char>, b: Seq<char>) -> int
    decreases a.len(),
{
    if a.len() == 0 {
        if b.len() == 0 {
            0
        } else {
            -1
        }
    } else if b.len() == 0 {
        1
    } else if a[0] < b[0] {
        -1
    } else if a[0] > b[0] {
        1
    } else {
        text_cmp(a.drop_first(), b.drop_first())
    }
}

/// Records are ordered by tags, then by path template, then by parameter
/// summary.
pub open spec fn record_cmp(x: RecordView, y: RecordView) -> int {
    if text_cmp(x.0, y.0) != 0 {
        text_cmp(x.0, y.0)
    } else if text_cmp(x.1, y.1) != 0 {
        text_cmp(x.1, y.1)
    } else {
        text_cmp(x.2, y.2)
    }
}

/// Whether each record comes no later than every record after it.
pub open spec fn in_report_order(rs: Seq<RecordView>) -> bool {
    forall|i: int, j: int| 0 <= i < j < rs.len() ==> record_cmp(#[trigger] rs[i], #[trigger] rs[j]) <= 0
}

/// The records of a multiset in report order.
pub open spec fn arranged(m: Multiset<RecordView>) -> Seq<RecordView> {
    choose|s: Seq<RecordView>| s.to_multiset() == m && in_report_order(s)
}

/// The header line of a report.
pub open spec fn header_text() -> Seq<char> {
    "Tag\tURL\tParameters\n"@
}

/// One line of a report.
pub open spec fn record_line(r: RecordView) -> Seq<char> {
    r.0 + "\t"@ + r.1 + "\t"@ + r.2 + "\n"@
}

/// The lines of a sequence of records, in order.
pub open spec fn lines_text(rs: Seq<RecordView>) -> Seq<char>
    decreases rs.len(),
{
    if rs.len() == 0 {
        Seq::empty()
    } else {
        lines_text(rs.drop_last()) + record_line(rs.last())
    }
}

/// The report on a set of records: the header, then one line per record in
/// report order.
pub open spec fn report_text_of(m: Multiset<RecordView>) -> Seq<char> {
    header_text() + lines_text(arranged(m))
}

proof fn lemma_text_cmp_antisym(a: Seq<char>, b: Seq<char>)
    ensures
        text_cmp(a, b) == -text_cmp(b, a),
        text_cmp(a, b) == 0 ==> a == b,
    decreases a.len(),
{
    if a.len() > 0 && b.len() > 0 {
        lemma_text_cmp_antisym(a.drop_first(), b.drop_first());
        if text_cmp(a, b) == 0 {
            assert(a[0] == b[0]);
            assert(a =~= seq![a[0]] + a.drop_first());
            assert(b =~= seq![b[0]] + b.drop_first());
        }
    } else if a.len() == 0 && b.len() == 0 {
        assert(a =~= b);
    }
}

proof fn lemma_record_cmp_antisym(x: RecordView, y: RecordView)
    ensures
        record_cmp(x, y) == -record_cmp(y, x),
        record_cmp(x, y) == 0 ==> x == y,
{
    lemma_text_cmp_antisym(x.0, y.0);
    lemma_text_cmp_antisym(x.1, y.1);
    lemma_text_cmp_antisym(x.2, y.2);
}

/// Two arrangements in report order of the same records are the same.
pub proof fn lemma_report_order_unique(a: Seq<RecordView>, b: Seq<RecordView>)
    requires
        a.to_multiset() == b.to_multiset(),
        in_report_order(a),
        in_report_order(b),
    ensures
        a == b,
    decreases a.len(),
{
    broadcast use group_to_multiset_ensures;

    a.to_multiset_ensures();
    b.to_multiset_ensures();
    assert(a.len() == b.len());
    if a.len() == 0 {
        assert(a =~= b);
    } else {
        assert(a.contains(a[0]));
        assert(a.to_multiset().count(a[0]) > 0);
        assert(b.to_multiset().count(a[0]) > 0);
        assert(b.contains(a[0]));
        let k = choose|k: int| 0 <= k < b.len() && b[k] == a[0];
        assert(b.contains(b[0]));
        assert(b.to_multiset().count(b[0]) > 0);
        assert(a.to_multiset().count(b[0]) > 0);
        assert(a.contains(b[0]));
        let m = choose|m: int| 0 <= m < a.len() && a[m] == b[0];
        if k > 0 && m > 0 {
            assert(record_cmp(b[0], b[k]) <= 0);
            assert(record_cmp(a[0], a[m]) <= 0);
            lemma_record_cmp_antisym(a[0], b[0]);
        }
        assert(a[0] == b[0]);
        assert(a.remove(0) =~= a.drop_first());
        assert(b.remove(0) =~= b.drop_first());
        assert(a.drop_first().to_multiset() == b.drop_first().to_multiset());
        assert(in_report_order(a.drop_first()));
        assert(in_report_order(b.drop_first()));
        lemma_report_order_unique(a.drop_first(), b.drop_first());
        assert(a =~= seq![a[0]] + a.drop_first());
        assert(b =~= seq![b[0]] + b.drop_first());
    }
}

/// The same records, in whatever order they are given, make the same
/// report: an arrangement in report order of them is the one `arranged`
/// gives.
pub proof fn lemma_report_deterministic(given: Seq<RecordView>, s: Seq<RecordView>)
    requires
        s.to_multiset() == given.to_multiset(),
        in_report_order(s),
    ensures
        arranged(given.to_multiset()) == s,
        header_text() + lines_text(s) == report_text_of(given.to_multiset()),
{
    let m = given.to_multiset();
    assert(exists|t: Seq<RecordView>| t.to_multiset() == m && in_report_order(t));
    let t = arranged(m);
    lemma_report_order_unique(t, s);
}

/// Compares two texts lexicographically by character code.
pub fn compare_text(a: &str, b: &str) -> (r: Ordering)
    ensures
        ordering_int(r) == text_cmp(a@, b@),
{
    let na = a.unicode_len();
    let nb = b.unicode_len();
    let mut i: usize = 0;
    assert(a@.skip(0) =~= a@);
    assert(b@.skip(0) =~= b@);
    loop
        invariant
            na == a@.len(),
            nb == b@.len(),
            i <= na,
            i <= nb,
            text_cmp(a@, b@) == text_cmp(a@.skip(i as int), b@.skip(i as int)),
        decreases na - i,
    {
        if i == na {
            if i == nb {
                return Ordering::Equal;
            } else {
                return Ordering::Less;
            }
        }
        if i == nb {
            return Ordering::Greater;
        }
        let ca = a.get_char(i);
        let cb = b.get_char(i);
        assert(a@.skip(i as int)[0] == ca);
        assert(b@.skip(i as int)[0] == cb);
        if ca < cb {
            return Ordering::Less;
        }
        if ca > cb {
            return Ordering::Greater;
        }
        assert(a@.skip(i as int).drop_first() =~= a@.skip(i + 1));
        assert(b@.skip(i as int).drop_first() =~= b@.skip(i + 1));
        i = i + 1;
    }
}

/// Compares two records in report order.
pub fn compare_records(x: &ReportRecord, y: &ReportRecord) -> (r: Ordering)
    ensures
        ordering_int(r) == record_cmp(x@, y@),
{
    match compare_text(x.0.as_str(), y.0.as_str()) {
        Ordering::Equal => match compare_text(x.1.as_str(), y.1.as_str()) {
            Ordering::Equal => compare_text(x.2.as_str(), y.2.as_str()),
            o => o,
        },
        o => o,
    }
}

/// Relies on itertools::Itertools::sorted_by: it collects the items and sorts
/// them with std's `sort_by` under the given comparison, which here is
/// `compare_records`, a total order.
#[verifier::external_body]
fn sorted_records(records: Vec<ReportRecord>) -> (r: Vec<ReportRecord>)
    ensures
        records_view(r@).to_multiset() == records_view(records@).to_multiset(),
        in_report_order(records_view(r@)),
{
    records.into_iter().sorted_by(|a, b| compare_records(a, b)).collect()
}

/// Appends one line of a report for `rec`.
fn push_line(out: &mut String, rec: &ReportRecord)
    ensures
        final(out)@ == old(out)@ + record_line(rec@),
{
    out.append(rec.0.as_str());
    out.append("\t");
    out.append(rec.1.as_str());
    out.append("\t");
    out.append(rec.2.as_str());
    out.append("\n");
    assert(final(out)@ =~= old(out)@ + record_line(rec@));
}

impl ReportRecord {
    /// The header line of a report.
    pub fn tsv_header() -> (r: String)
        ensures
            r@ == header_text(),
    {
        String::from_str("Tag\tURL\tParameters\n")
    }

    /// The line of a report for this record, with its newline.
    pub fn to_line(&self) -> (r: String)
        ensures
            r@ == record_line(self@),
    {
        let mut r = String::new();
        push_line(&mut r, self);
        assert(r@ =~= record_line(self@));
        r
    }
}

/// The text of a report on `records`: the header, then the records ordered by
/// tags (then by path template and parameter summary), one per line.
pub fn report_text(records: Vec<ReportRecord>) -> (r: String)
    ensures
        r@ == report_text_of(records_view(records@).to_multiset()),
{
    let ghost given = records_view(records@);
    let sorted = sorted_records(records);
    let ghost sv = records_view(sorted@);
    let mut out = ReportRecord::tsv_header();
    let mut i: usize = 0;
    assert(sv.take(0) =~= Seq::<RecordView>::empty());
    while i < sorted.len()
        invariant
            i <= sorted@.len(),
            sv == records_view(sorted@),
            out@ == header_text() + lines_text(sv.take(i as int)),
        decreases sorted@.len() - i,
    {
        push_line(&mut out, &sorted[i]);
        assert(sv.take(i + 1).drop_last() =~= sv.take(i as int));
        i = i + 1;
        assert(out@ =~= header_text() + lines_text(sv.take(i as int)));
    }
    assert(sv.take(i as int) =~= sv);
    proof {
        lemma_report_deterministic(given, sv);
    }
    out
}

/// Where a report is written.
pub struct OutTsvWriter {
    file_name: String,
}

impl OutTsvWriter {
    /// The name of the file that the report goes to.
    pub closed spec fn target(&self) -> Seq<char> {
        self.file_name@
    }

    /// A writer for the file `out_file_name`.
    pub fn new(out_file_name: String) -> (r: Self)
        ensures
            r.target() == out_file_name@,
    {
        OutTsvWriter { file_name: out_file_name }
    }

    /// The name of the file that the report goes to.
    pub fn file_name(&self) -> (r: &String)
        ensures
            r@ == self.target(),
    {
        &self.file_name
    }

    /// What the report file holds for `records`, and how many records it
    /// lists.
    pub fn tsv_contents(&self, records: Vec<ReportRecord>) -> (r: (String, usize))
        ensures
            r.0@ == report_text_of(records_view(records@).to_multiset()),
            r.1 == records@.len(),
    {
        let n = records.len();
        (report_text(records), n)
    }
}

} // verus!
