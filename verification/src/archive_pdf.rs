//! The Werka archive report as a one-font, landscape PDF document.
use vstd::prelude::*;

use crate::decimal::{decimal, push_decimal, push_zero_padded, zero_pad};
use crate::models::{ArchiveTotalByUom, DispatchRecord, WerkaArchiveResponse};
use crate::text::{
    chars_of, owned, push_all, push_str_chars, string_of, trim, trim_chars, utf8_bytes,
    utf8_len, utf8_length,
};

verus! {

/// Lines on one report page.
pub const LINES_PER_PAGE: usize = 46;

/// `s` padded on the right with spaces to at least `w` characters
/// (`{:<w}`).
pub open spec fn pad_right(s: Seq<char>, w: nat) -> Seq<char> {
    if s.len() >= w {
        s
    } else {
        s + Seq::new((w - s.len()) as nat, |i: int| ' ')
    }
}

/// `s` padded on the left with spaces to at least `w` characters (`{:>w}`).
pub open spec fn pad_left(s: Seq<char>, w: nat) -> Seq<char> {
    if s.len() >= w {
        s
    } else {
        Seq::new((w - s.len()) as nat, |i: int| ' ') + s
    }
}

/// The trimmed value, or `-` when it is blank.
pub open spec fn empty_dash_spec(value: Seq<char>) -> Seq<char> {
    if trim(value).len() == 0 {
        "-"@
    } else {
        trim(value)
    }
}

/// One report row: date, type, party, item, sent, accepted and status in
/// fixed-width columns.
pub open spec fn dispatch_line_spec(item: DispatchRecord) -> Seq<char> {
    pad_right(item.created_label@, 19) + "  "@ + pad_right(item.record_type@, 16) + "  "@
        + pad_right(item.supplier_name@, 28) + "  "@ + pad_right(item.item_code@, 20) + "  "@
        + pad_left(item.sent_qty@, 10) + "  "@ + pad_left(item.accepted_qty@, 10) + "  "@
        + item.status@
}

/// `row` holds `s` left-aligned in the `width` characters from `start`,
/// spaces after it.
pub open spec fn left_column(row: Seq<char>, start: int, width: int, s: Seq<char>) -> bool {
    forall|j: int|
        start <= j < start + width ==> #[trigger] row[j] == if j - start < s.len() { s[j - start] } else { ' ' }
}

/// `row` holds `s` right-aligned in the `width` characters from `start`,
/// spaces before it.
pub open spec fn right_column(row: Seq<char>, start: int, width: int, s: Seq<char>) -> bool {
    forall|j: int|
        start <= j < start + width ==> #[trigger] row[j] == if j - start < width - s.len() {
            ' '
        } else {
            s[j - start - (width - s.len())]
        }
}

proof fn lemma_pad_right_column(s: Seq<char>, w: nat)
    requires
        s.len() <= w,
    ensures
        pad_right(s, w).len() == w,
        left_column(pad_right(s, w), 0, w as int, s),
{
    if s.len() < w {
        let p = s + Seq::new((w - s.len()) as nat, |i: int| ' ');
        assert(pad_right(s, w) == p);
        assert forall|j: int| 0 <= j < 0 + w implies #[trigger] p[j] == if j - 0 < s.len() { s[j - 0] } else { ' ' } by {}
    } else {
        assert forall|j: int| 0 <= j < 0 + w implies #[trigger] s[j] == if j - 0 < s.len() { s[j - 0] } else { ' ' } by {}
    }
}

proof fn lemma_pad_left_column(s: Seq<char>, w: nat)
    requires
        s.len() <= w,
    ensures
        pad_left(s, w).len() == w,
        right_column(pad_left(s, w), 0, w as int, s),
{
    if s.len() < w {
        let p = Seq::new((w - s.len()) as nat, |i: int| ' ') + s;
        assert(pad_left(s, w) == p);
        assert forall|j: int| 0 <= j < 0 + w implies #[trigger] p[j] == if j - 0 < w - s.len() { ' ' } else { s[j - 0 - (w
            - s.len())] } by {}
    } else {
        assert forall|j: int| 0 <= j < 0 + w implies #[trigger] s[j] == if j - 0 < w - s.len() { ' ' } else { s[j - 0 - (w
            - s.len())] } by {}
    }
}

/// A report row lines its fields up under the headings: when each field
/// fits its column, the date is left-aligned in characters 0..19, the type
/// in 21..37, the party in 39..67 and the item in 69..89; the sent quantity
/// is right-aligned in 91..101 and the accepted quantity in 103..113, two
/// spaces part the columns, and the status follows from character 115.
pub proof fn law_dispatch_row_columns(item: DispatchRecord)
    requires
        item.created_label@.len() <= 19,
        item.record_type@.len() <= 16,
        item.supplier_name@.len() <= 28,
        item.item_code@.len() <= 20,
        item.sent_qty@.len() <= 10,
        item.accepted_qty@.len() <= 10,
    ensures
        ({
            let row = dispatch_line_spec(item);
            &&& row.len() == 115 + item.status@.len()
            &&& left_column(row, 0, 21, item.created_label@)
            &&& left_column(row, 21, 18, item.record_type@)
            &&& left_column(row, 39, 30, item.supplier_name@)
            &&& left_column(row, 69, 22, item.item_code@)
            &&& right_column(row, 91, 10, item.sent_qty@)
            &&& row[101] == ' ' && row[102] == ' '
            &&& right_column(row, 103, 10, item.accepted_qty@)
            &&& row[113] == ' ' && row[114] == ' '
            &&& row.skip(115) == item.status@
        }),
{
    reveal_strlit("  ");
    let sp = "  "@;
    assert(sp.len() == 2 && sp[0] == ' ' && sp[1] == ' ');
    let a = pad_right(item.created_label@, 19);
    let b = pad_right(item.record_type@, 16);
    let c = pad_right(item.supplier_name@, 28);
    let d = pad_right(item.item_code@, 20);
    let e = pad_left(item.sent_qty@, 10);
    let f = pad_left(item.accepted_qty@, 10);
    lemma_pad_right_column(item.created_label@, 19);
    lemma_pad_right_column(item.record_type@, 16);
    lemma_pad_right_column(item.supplier_name@, 28);
    lemma_pad_right_column(item.item_code@, 20);
    lemma_pad_left_column(item.sent_qty@, 10);
    lemma_pad_left_column(item.accepted_qty@, 10);
    let row = dispatch_line_spec(item);
    let a2 = a + sp;
    let b2 = b + sp;
    let c2 = c + sp;
    let d2 = d + sp;
    let e2 = e + sp;
    let f2 = f + sp;
    assert(row =~= a2 + b2 + c2 + d2 + e2 + f2 + item.status@);
    assert(row.subrange(0, 21) =~= a2);
    assert(row.subrange(21, 39) =~= b2);
    assert(row.subrange(39, 69) =~= c2);
    assert(row.subrange(69, 91) =~= d2);
    assert(row.subrange(91, 103) =~= e2);
    assert(row.subrange(103, 115) =~= f2);
    assert(row.skip(115) =~= item.status@);
    assert forall|j: int| 0 <= j < 0 + 21 implies #[trigger] row[j] == if j - 0 < item.created_label@.len() {
        item.created_label@[j - 0]
    } else {
        ' '
    } by {
        assert(row[j] == row.subrange(0, 21)[j - 0]);
    }
    assert forall|j: int| 21 <= j < 21 + 18 implies #[trigger] row[j] == if j - 21 < item.record_type@.len() {
        item.record_type@[j - 21]
    } else {
        ' '
    } by {
        assert(row[j] == row.subrange(21, 39)[j - 21]);
    }
    assert forall|j: int| 39 <= j < 39 + 30 implies #[trigger] row[j] == if j - 39 < item.supplier_name@.len() {
        item.supplier_name@[j - 39]
    } else {
        ' '
    } by {
        assert(row[j] == row.subrange(39, 69)[j - 39]);
    }
    assert forall|j: int| 69 <= j < 69 + 22 implies #[trigger] row[j] == if j - 69 < item.item_code@.len() {
        item.item_code@[j - 69]
    } else {
        ' '
    } by {
        assert(row[j] == row.subrange(69, 91)[j - 69]);
    }
    assert forall|j: int| 91 <= j < 91 + 10 implies #[trigger] row[j] == if j - 91 < 10 - item.sent_qty@.len() {
        ' '
    } else {
        item.sent_qty@[j - 91 - (10 - item.sent_qty@.len())]
    } by {
        assert(row[j] == row.subrange(91, 103)[j - 91]);
    }
    assert(row[101] == row.subrange(91, 103)[10]);
    assert(row[102] == row.subrange(91, 103)[11]);
    assert forall|j: int| 103 <= j < 103 + 10 implies #[trigger] row[j] == if j - 103 < 10 - item.accepted_qty@.len() {
        ' '
    } else {
        item.accepted_qty@[j - 103 - (10 - item.accepted_qty@.len())]
    } by {
        assert(row[j] == row.subrange(103, 115)[j - 103]);
    }
    assert(row[113] == row.subrange(103, 115)[10]);
    assert(row[114] == row.subrange(103, 115)[11]);
}

/// The column headings of the report rows.
pub open spec fn table_heading() -> Seq<char> {
    "Date                 Type              Party                         Item                 Sent        Accepted    Status"@
}

/// The report's lines: title, kind, period, range, record count, the totals
/// per unit when there are any, a blank line, the headings and one row per
/// record.
pub open spec fn archive_lines_spec(data: WerkaArchiveResponse) -> Seq<Seq<char>> {
    let head = seq![
        "Werka Archive Report"@,
        "Kind: "@ + data.kind@,
        "Period: "@ + data.period@,
        "From: "@ + empty_dash_spec(data.from@),
        "To: "@ + empty_dash_spec(data.to@),
        "Records: "@ + decimal(data.summary.record_count as nat),
    ];
    let totals = data.summary.totals_by_uom@;
    let total_lines = if totals.len() == 0 {
        Seq::<Seq<char>>::empty()
    } else {
        seq!["Totals:"@] + totals.map_values(
            |t: ArchiveTotalByUom| "  "@ + t.uom@ + ": "@ + t.qty@,
        )
    };
    head + total_lines + seq![Seq::<char>::empty(), table_heading()] + data.items@.map_values(
        |r: DispatchRecord| dispatch_line_spec(r),
    )
}

/// How one character is written inside a PDF string: `\`, `(` and `)`
/// escaped, line breaks and tabs as spaces, other printable ASCII as is,
/// anything else as `?`.
pub open spec fn escape_char(c: char) -> Seq<char> {
    if c == '\\' || c == '(' || c == ')' {
        seq!['\\', c]
    } else if c == '\n' || c == '\r' || c == '\t' {
        seq![' ']
    } else if 0x20 <= (c as u32) && (c as u32) < 0x7F {
        seq![c]
    } else {
        seq!['?']
    }
}

/// The escapes of all characters of `s`, in order.
pub open spec fn escape_all(s: Seq<char>) -> Seq<char>
    decreases s.len(),
{
    if s.len() == 0 {
        Seq::empty()
    } else {
        escape_all(s.drop_last()) + escape_char(s.last())
    }
}

/// A line as written into the PDF: trimmed, cut to 132 characters, escaped.
pub open spec fn escape_pdf_spec(value: Seq<char>) -> Seq<char> {
    let t = trim(value);
    escape_all(
        if t.len() > 132 {
            t.take(132)
        } else {
            t
        },
    )
}

/// The views of a sequence of strings.
pub open spec fn string_views(v: Seq<String>) -> Seq<Seq<char>> {
    v.map_values(|s: String| s@)
}

/// The `Tj`/`T*` operators showing `lines`, one per line.
pub open spec fn stream_body(lines: Seq<Seq<char>>) -> Seq<char>
    decreases lines.len(),
{
    if lines.len() == 0 {
        Seq::empty()
    } else {
        stream_body(lines.drop_last()) + "("@ + escape_pdf_spec(lines.last()) + ") Tj\nT*\n"@
    }
}

/// A page's content stream: Courier 8pt from the top left with an 11pt
/// leading, then the lines.
pub open spec fn text_stream(lines: Seq<Seq<char>>) -> Seq<char> {
    "BT\n/F1 8 Tf\n36 555 Td\n11 TL\n"@ + stream_body(lines) + "ET"@
}

/// `value` with the trimmed text, or `-` when blank.
pub fn empty_dash(value: &str) -> (r: String)
    ensures
        r@ == empty_dash_spec(value@),
{
    let t = trim_chars(chars_of(value).as_slice());
    if t.len() == 0 {
        owned("-")
    } else {
        string_of(t.as_slice())
    }
}

fn push_padded_right(out: &mut Vec<char>, s: &str, w: usize)
    ensures
        final(out)@ == old(out)@ + pad_right(s@, w as nat),
{
    let v = chars_of(s);
    push_all(out, v.as_slice());
    let mut k = v.len();
    let ghost mid = out@;
    while k < w
        invariant
            v@.len() <= k <= w || (k == v@.len() && k >= w),
            out@ == mid + Seq::new((k - v@.len()) as nat, |i: int| ' '),
        decreases w - k,
    {
        out.push(' ');
        assert(mid + Seq::new((k + 1 - v@.len()) as nat, |i: int| ' ') =~= (mid + Seq::new(
            (k - v@.len()) as nat,
            |i: int| ' ',
        )).push(' '));
        k = k + 1;
    }
    proof {
        if v@.len() >= w {
            assert(out@ =~= old(out)@ + v@);
        } else {
            assert(out@ =~= old(out)@ + (v@ + Seq::new((w - v@.len()) as nat, |i: int| ' ')));
        }
    }
}

fn push_padded_left(out: &mut Vec<char>, s: &str, w: usize)
    ensures
        final(out)@ == old(out)@ + pad_left(s@, w as nat),
{
    let v = chars_of(s);
    let mut k = v.len();
    let ghost start = out@;
    while k < w
        invariant
            v@.len() <= k <= w || (k == v@.len() && k >= w),
            out@ == start + Seq::new((k - v@.len()) as nat, |i: int| ' '),
        decreases w - k,
    {
        out.push(' ');
        assert(start + Seq::new((k + 1 - v@.len()) as nat, |i: int| ' ') =~= (start + Seq::new(
            (k - v@.len()) as nat,
            |i: int| ' ',
        )).push(' '));
        k = k + 1;
    }
    let ghost pad = out@;
    push_all(out, v.as_slice());
    proof {
        if v@.len() >= w {
            assert(out@ =~= old(out)@ + v@);
        } else {
            assert(out@ =~= old(out)@ + (Seq::new((w - v@.len()) as nat, |i: int| ' ') + v@));
        }
    }
}

/// One report row for `item`.
pub fn format_dispatch_line(item: &DispatchRecord) -> (r: String)
    ensures
        r@ == dispatch_line_spec(*item),
{
    let mut out: Vec<char> = Vec::new();
    push_padded_right(&mut out, item.created_label.as_str(), 19);
    push_str_chars(&mut out, "  ");
    push_padded_right(&mut out, item.record_type.as_str(), 16);
    push_str_chars(&mut out, "  ");
    push_padded_right(&mut out, item.supplier_name.as_str(), 28);
    push_str_chars(&mut out, "  ");
    push_padded_right(&mut out, item.item_code.as_str(), 20);
    push_str_chars(&mut out, "  ");
    push_padded_left(&mut out, item.sent_qty.as_str(), 10);
    push_str_chars(&mut out, "  ");
    push_padded_left(&mut out, item.accepted_qty.as_str(), 10);
    push_str_chars(&mut out, "  ");
    push_str_chars(&mut out, item.status.as_str());
    assert(out@ =~= dispatch_line_spec(*item));
    string_of(out.as_slice())
}

fn prefixed(prefix: &str, rest: &[char]) -> (r: String)
    ensures
        r@ == prefix@ + rest@,
{
    let mut out = chars_of(prefix);
    push_all(&mut out, rest);
    string_of(out.as_slice())
}

/// The report's lines.
pub fn archive_lines(data: &WerkaArchiveResponse) -> (r: Vec<String>)
    ensures
        string_views(r@) == archive_lines_spec(*data),
{
    let mut lines: Vec<String> = Vec::new();
    lines.push(owned("Werka Archive Report"));
    lines.push(prefixed("Kind: ", chars_of(data.kind.as_str()).as_slice()));
    lines.push(prefixed("Period: ", chars_of(data.period.as_str()).as_slice()));
    let from = empty_dash(data.from.as_str());
    lines.push(prefixed("From: ", chars_of(from.as_str()).as_slice()));
    let to = empty_dash(data.to.as_str());
    lines.push(prefixed("To: ", chars_of(to.as_str()).as_slice()));
    let mut count: Vec<char> = Vec::new();
    push_decimal(&mut count, data.summary.record_count as u128);
    lines.push(prefixed("Records: ", count.as_slice()));
    let ghost head = string_views(lines@);
    let ghost spec_head = seq![
        "Werka Archive Report"@,
        "Kind: "@ + data.kind@,
        "Period: "@ + data.period@,
        "From: "@ + empty_dash_spec(data.from@),
        "To: "@ + empty_dash_spec(data.to@),
        "Records: "@ + decimal(data.summary.record_count as nat),
    ];
    assert(head =~= spec_head);
    let totals = &data.summary.totals_by_uom;
    let ghost tv = totals@.map_values(|t: ArchiveTotalByUom| "  "@ + t.uom@ + ": "@ + t.qty@);
    if totals.len() > 0 {
        lines.push(owned("Totals:"));
        let ghost with_title = string_views(lines@);
        assert(with_title =~= head + seq!["Totals:"@]);
        let mut i: usize = 0;
        while i < totals.len()
            invariant
                i <= totals@.len(),
                tv == totals@.map_values(|t: ArchiveTotalByUom| "  "@ + t.uom@ + ": "@ + t.qty@),
                string_views(lines@) == with_title + tv.take(i as int),
            decreases totals@.len() - i,
        {
            let t = &totals[i];
            let mut line = chars_of("  ");
            push_str_chars(&mut line, t.uom.as_str());
            push_str_chars(&mut line, ": ");
            push_str_chars(&mut line, t.qty.as_str());
            let ghost before = string_views(lines@);
            lines.push(string_of(line.as_slice()));
            assert(string_views(lines@) =~= before.push(tv[i as int]));
            assert(tv.take(i + 1) =~= tv.take(i as int).push(tv[i as int]));
            i = i + 1;
        }
        assert(tv.take(totals@.len() as int) =~= tv);
        assert(string_views(lines@) =~= head + (seq!["Totals:"@] + tv));
    } else {
        assert(head =~= head + Seq::<Seq<char>>::empty());
    }
    let ghost before_table = string_views(lines@);
    lines.push(String::new());
    lines.push(
        owned(
            "Date                 Type              Party                         Item                 Sent        Accepted    Status",
        ),
    );
    let ghost with_table = string_views(lines@);
    assert(with_table =~= before_table + seq![Seq::<char>::empty(), table_heading()]);
    let items = &data.items;
    let ghost iv = items@.map_values(|r: DispatchRecord| dispatch_line_spec(r));
    let mut j: usize = 0;
    while j < items.len()
        invariant
            j <= items@.len(),
            iv == items@.map_values(|r: DispatchRecord| dispatch_line_spec(r)),
            string_views(lines@) == with_table + iv.take(j as int),
        decreases items@.len() - j,
    {
        let ghost before = string_views(lines@);
        lines.push(format_dispatch_line(&items[j]));
        assert(string_views(lines@) =~= before.push(iv[j as int]));
        assert(iv.take(j + 1) =~= iv.take(j as int).push(iv[j as int]));
        j = j + 1;
    }
    assert(iv.take(items@.len() as int) =~= iv);
    assert(string_views(lines@) =~= archive_lines_spec(*data));
    lines
}


fn push_escaped(out: &mut Vec<char>, c: char)
    ensures
        final(out)@ == old(out)@ + escape_char(c),
{
    if c == '\\' || c == '(' || c == ')' {
        out.push('\\');
        out.push(c);
    } else if c == '\n' || c == '\r' || c == '\t' {
        out.push(' ');
    } else if 0x20 <= (c as u32) && (c as u32) < 0x7F {
        out.push(c);
    } else {
        out.push('?');
    }
    assert(final(out)@ =~= old(out)@ + escape_char(c));
}

fn escape_pdf_chars(value: &[char], out: &mut Vec<char>)
    ensures
        final(out)@ == old(out)@ + escape_pdf_spec(value@),
{
    let t = trim_chars(value);
    let n = if t.len() > 132 { 132 } else { t.len() };
    let ghost cut = if t@.len() > 132 { t@.take(132) } else { t@ };
    assert(cut =~= t@.take(n as int));
    let mut i: usize = 0;
    while i < n
        invariant
            n <= t@.len(),
            i <= n,
            cut == t@.take(n as int),
            out@ == old(out)@ + escape_all(t@.take(i as int)),
        decreases n - i,
    {
        let ghost before = out@;
        push_escaped(out, t[i]);
        assert(t@.take(i + 1).drop_last() =~= t@.take(i as int));
        assert(escape_all(t@.take(i + 1)) == escape_all(t@.take(i as int)) + escape_char(t@[i as int]));
        assert(out@ =~= old(out)@ + escape_all(t@.take(i + 1)));
        i = i + 1;
    }
}

/// A line as written into a PDF string: trimmed, at most 132 characters,
/// with `\`, `(` and `)` escaped and anything unprintable replaced.
pub fn escape_pdf_text(value: &str) -> (r: String)
    ensures
        r@ == escape_pdf_spec(value@),
{
    let v = chars_of(value);
    let mut out: Vec<char> = Vec::new();
    escape_pdf_chars(v.as_slice(), &mut out);
    assert(out@ =~= escape_pdf_spec(value@));
    string_of(out.as_slice())
}

fn push_text_stream(lines: &[String], out: &mut Vec<char>)
    ensures
        final(out)@ == old(out)@ + text_stream(string_views(lines@)),
{
    push_str_chars(out, "BT\n/F1 8 Tf\n36 555 Td\n11 TL\n");
    let ghost start = out@;
    let mut i: usize = 0;
    while i < lines.len()
        invariant
            i <= lines@.len(),
            out@ == start + stream_body(string_views(lines@).take(i as int)),
        decreases lines@.len() - i,
    {
        let ghost before = out@;
        push_str_chars(out, "(");
        let line = chars_of(lines[i].as_str());
        escape_pdf_chars(line.as_slice(), out);
        push_str_chars(out, ") Tj\nT*\n");
        let ghost sv = string_views(lines@);
        assert(sv.take(i + 1).drop_last() =~= sv.take(i as int));
        assert(sv.take(i + 1).last() == lines@[i as int]@);
        assert(out@ =~= start + stream_body(sv.take(i + 1)));
        i = i + 1;
    }
    assert(string_views(lines@).take(lines@.len() as int) =~= string_views(lines@));
    push_str_chars(out, "ET");
    assert(final(out)@ =~= old(out)@ + text_stream(string_views(lines@)));
}

/// The content stream showing `lines`.
pub fn build_pdf_text_stream(lines: &[String]) -> (r: String)
    ensures
        r@ == text_stream(string_views(lines@)),
{
    let mut out: Vec<char> = Vec::new();
    push_text_stream(lines, &mut out);
    assert(out@ =~= text_stream(string_views(lines@)));
    string_of(out.as_slice())
}


/// The number of pages for `n` lines: `n.div_ceil(46).max(1)`.
pub open spec fn page_count_spec(n: nat) -> nat {
    if n == 0 {
        1
    } else {
        ((n + 45) / 46) as nat
    }
}

/// The lines on page `p`.
pub open spec fn page_lines(lines: Seq<Seq<char>>, p: nat) -> Seq<Seq<char>> {
    let start: int = (p * 46) as int;
    let end: int = if start + 46 < lines.len() {
        start + 46
    } else {
        lines.len() as int
    };
    lines.subrange(start, end)
}

/// The reference to page `p`'s page object.
pub open spec fn kid(p: nat) -> Seq<char> {
    decimal(4 + 2 * p) + " 0 R"@
}

/// The references to the first `k` pages, separated by spaces.
pub open spec fn kids_spec(k: nat) -> Seq<char>
    decreases k,
{
    if k == 0 {
        Seq::empty()
    } else if k == 1 {
        kid(0)
    } else {
        kids_spec((k - 1) as nat) + " "@ + kid((k - 1) as nat)
    }
}

/// The page object with number `id` whose content is object `id + 1`.
pub open spec fn page_object(id: nat) -> Seq<char> {
    "<< /Type /Page /Parent 2 0 R /MediaBox [0 0 842 595] /Resources << /Font << /F1 3 0 R >> >> /Contents "@
        + decimal(id + 1) + " 0 R >>"@
}

/// A content stream object holding `stream`.
pub open spec fn content_object(stream: Seq<char>) -> Seq<char> {
    "<< /Length "@ + decimal(utf8_len(stream)) + " >>\nstream\n"@ + stream + "\nendstream"@
}

/// Object `id` of the document: the catalog, the page tree, the font, then a
/// page object and a content object for each page.
pub open spec fn pdf_object(lines: Seq<Seq<char>>, pc: nat, id: nat) -> Seq<char> {
    if id == 1 {
        "<< /Type /Catalog /Pages 2 0 R >>"@
    } else if id == 2 {
        "<< /Type /Pages /Kids ["@ + kids_spec(pc) + "] /Count "@ + decimal(pc) + " >>"@
    } else if id == 3 {
        "<< /Type /Font /Subtype /Type1 /BaseFont /Courier >>"@
    } else if (id - 4) % 2 == 0 {
        page_object(id)
    } else {
        content_object(text_stream(page_lines(lines, ((id - 5) / 2) as nat)))
    }
}

/// The header and the first `n` objects of the document.
pub open spec fn objects_text(lines: Seq<Seq<char>>, pc: nat, n: nat) -> Seq<char>
    decreases n,
{
    if n == 0 {
        "%PDF-1.4\n"@
    } else {
        objects_text(lines, pc, (n - 1) as nat) + decimal(n) + " 0 obj\n"@ + pdf_object(lines, pc, n)
            + "\nendobj\n"@
    }
}

/// The cross-reference entries of the first `n` objects: each object's byte
/// offset, zero-padded to ten digits.
pub open spec fn xref_entries(lines: Seq<Seq<char>>, pc: nat, n: nat) -> Seq<char>
    decreases n,
{
    if n == 0 {
        Seq::empty()
    } else {
        xref_entries(lines, pc, (n - 1) as nat) + zero_pad(
            decimal(utf8_len(objects_text(lines, pc, (n - 1) as nat))),
            10,
        ) + " 00000 n \n"@
    }
}

/// The text of the PDF document showing `lines`: objects, cross-reference
/// table and trailer.
pub open spec fn pdf_text(lines: Seq<Seq<char>>) -> Seq<char> {
    let pc = page_count_spec(lines.len());
    let oc = 3 + 2 * pc;
    let body = objects_text(lines, pc, oc);
    body + "xref\n0 "@ + decimal(oc + 1) + "\n"@ + "0000000000 65535 f \n"@ + xref_entries(
        lines,
        pc,
        oc,
    ) + "trailer\n<< /Size "@ + decimal(oc + 1) + " /Root 1 0 R >>\nstartxref\n"@ + decimal(
        utf8_len(body),
    ) + "\n%%EOF\n"@
}

fn kids_text(pc: usize) -> (r: Vec<char>)
    requires
        pc >= 1,
    ensures
        r@ == kids_spec(pc as nat),
{
    let mut r: Vec<char> = Vec::new();
    push_decimal(&mut r, 4);
    push_str_chars(&mut r, " 0 R");
    assert(r@ =~= kid(0));
    let mut k: usize = 1;
    while k < pc
        invariant
            1 <= k <= pc,
            r@ == kids_spec(k as nat),
        decreases pc - k,
    {
        push_str_chars(&mut r, " ");
        push_decimal(&mut r, 4u128 + 2u128 * (k as u128));
        push_str_chars(&mut r, " 0 R");
        assert(r@ =~= kids_spec((k + 1) as nat));
        k = k + 1;
    }
    r
}

proof fn lemma_page_bounds(n: nat, pc: nat, p: nat)
    requires
        pc == page_count_spec(n),
        p < pc,
    ensures
        p * 46 < n || (n == 0 && p == 0),
        pc <= n / 46 + 1,
{
    if n > 0 {
        assert(p * 46 < n) by (nonlinear_arith)
            requires p < (n + 45) / 46, n > 0;
        assert((n + 45) / 46 <= n / 46 + 1) by (nonlinear_arith);
    }
}

/// The number of report pages for `n` lines.
fn page_count(n: usize) -> (pc: usize)
    ensures
        pc as nat == page_count_spec(n as nat),
        pc >= 1,
        pc <= n / 46 + 1,
{
    let pc = if n == 0 {
        1
    } else if n % 46 == 0 {
        n / 46
    } else {
        n / 46 + 1
    };
    proof {
        if n > 0 {
            assert(pc == (n + 45) / 46) by (nonlinear_arith)
                requires
                    n > 0,
                    n % 46 == 0 ==> pc == n / 46,
                    n % 46 != 0 ==> pc == n / 46 + 1,
            ;
        }
    }
    pc
}

fn content_for_page(lines: &Vec<String>, p: usize, pc: usize) -> (content: Vec<char>)
    requires
        pc as nat == page_count_spec(lines@.len()),
        p < pc,
    ensures
        content@ == content_object(text_stream(page_lines(string_views(lines@), p as nat))),
{
    let n = lines.len();
    proof {
        lemma_page_bounds(n as nat, pc as nat, p as nat);
    }
    let start = p * 46;
    let end = if n - start > 46 {
        start + 46
    } else {
        n
    };
    let page_slice = &lines[start..end];
    let mut stream: Vec<char> = Vec::new();
    push_text_stream(page_slice, &mut stream);
    assert(string_views(page_slice@) =~= page_lines(string_views(lines@), p as nat));
    let mut content = chars_of("<< /Length ");
    let len = utf8_length(stream.as_slice());
    push_decimal(&mut content, len);
    push_str_chars(&mut content, " >>\nstream\n");
    push_all(&mut content, stream.as_slice());
    push_str_chars(&mut content, "\nendstream");
    assert(content@ =~= content_object(text_stream(page_lines(string_views(lines@), p as nat))));
    content
}

fn build_objects(lines: &Vec<String>, pc: usize) -> (objects: Vec<Vec<char>>)
    requires
        pc as nat == page_count_spec(lines@.len()),
        pc <= lines@.len() / 46 + 1,
        4 + 2 * pc <= usize::MAX,
    ensures
        objects@.len() == 4 + 2 * pc,
        forall|id: int|
            1 <= id < objects@.len() ==> (#[trigger] objects@[id])@ == pdf_object(
                string_views(lines@),
                pc as nat,
                id as nat,
            ),
{
    let ghost lv = string_views(lines@);
    let mut objects: Vec<Vec<char>> = Vec::new();
    objects.push(Vec::new());
    objects.push(chars_of("<< /Type /Catalog /Pages 2 0 R >>"));
    let mut pages = chars_of("<< /Type /Pages /Kids [");
    let kids = kids_text(pc);
    push_all(&mut pages, kids.as_slice());
    push_str_chars(&mut pages, "] /Count ");
    push_decimal(&mut pages, pc as u128);
    push_str_chars(&mut pages, " >>");
    objects.push(pages);
    objects.push(chars_of("<< /Type /Font /Subtype /Type1 /BaseFont /Courier >>"));
    let mut p: usize = 0;
    while p < pc
        invariant
            lv == string_views(lines@),
            pc as nat == page_count_spec(lines@.len()),
            pc <= lines@.len() / 46 + 1,
            4 + 2 * pc <= usize::MAX,
            p <= pc,
            objects@.len() == 4 + 2 * p,
            forall|id: int|
                1 <= id < objects@.len() ==> (#[trigger] objects@[id])@ == pdf_object(
                    lv,
                    pc as nat,
                    id as nat,
                ),
        decreases pc - p,
    {
        let page_id = 4 + p * 2;
        let content_id = page_id + 1;
        let mut page = chars_of(
            "<< /Type /Page /Parent 2 0 R /MediaBox [0 0 842 595] /Resources << /Font << /F1 3 0 R >> >> /Contents ",
        );
        push_decimal(&mut page, content_id as u128);
        push_str_chars(&mut page, " 0 R >>");
        assert(page@ =~= page_object(page_id as nat));
        let content = content_for_page(lines, p, pc);
        let ghost before = objects@;
        objects.push(page);
        objects.push(content);
        proof {
            assert((page_id - 4) % 2 == 0);
            assert((content_id as int - 4) % 2 == 1);
            assert((content_id as int - 5) / 2 == p);
            assert forall|id: int| 1 <= id < objects@.len() implies (#[trigger] objects@[id])@
                == pdf_object(lv, pc as nat, id as nat) by {
                if id < before.len() {
                    assert(objects@[id] == before[id]);
                }
            }
        }
        p = p + 1;
    }
    objects
}

fn write_objects(objects: &Vec<Vec<char>>, Ghost(lv): Ghost<Seq<Seq<char>>>, pc: usize) -> (r: (
    Vec<char>,
    Vec<u128>,
))
    requires
        objects@.len() == 4 + 2 * pc,
        forall|id: int|
            1 <= id < objects@.len() ==> (#[trigger] objects@[id])@ == pdf_object(
                lv,
                pc as nat,
                id as nat,
            ),
    ensures
        r.0@ == objects_text(lv, pc as nat, (3 + 2 * pc) as nat),
        r.1@.len() == 4 + 2 * pc,
        forall|k: int|
            1 <= k < r.1@.len() ==> #[trigger] r.1@[k] == utf8_len(
                objects_text(lv, pc as nat, (k - 1) as nat),
            ),
{
    let ol = objects.len();
    let oc = ol - 1;
    let mut out = chars_of("%PDF-1.4\n");
    let mut offsets: Vec<u128> = Vec::new();
    offsets.push(0);
    let mut id: usize = 1;
    while id <= oc
        invariant
            oc + 1 == objects@.len(),
            ol == objects@.len(),
            oc + 1 == ol,
            oc == 3 + 2 * pc,
            forall|k: int|
                1 <= k < objects@.len() ==> (#[trigger] objects@[k])@ == pdf_object(
                    lv,
                    pc as nat,
                    k as nat,
                ),
            1 <= id <= oc + 1,
            out@ == objects_text(lv, pc as nat, (id - 1) as nat),
            offsets@.len() == id,
            forall|k: int|
                1 <= k < id ==> #[trigger] offsets@[k] == utf8_len(
                    objects_text(lv, pc as nat, (k - 1) as nat),
                ),
        decreases oc + 1 - id,
    {
        let off = utf8_length(out.as_slice());
        let ghost before = offsets@;
        offsets.push(off);
        push_decimal(&mut out, id as u128);
        push_str_chars(&mut out, " 0 obj\n");
        push_all(&mut out, objects[id].as_slice());
        push_str_chars(&mut out, "\nendobj\n");
        proof {
            assert(objects@[id as int]@ == pdf_object(lv, pc as nat, id as nat));
            assert(out@ =~= objects_text(lv, pc as nat, id as nat));
            assert forall|k: int| 1 <= k < id + 1 implies #[trigger] offsets@[k] == utf8_len(
                objects_text(lv, pc as nat, (k - 1) as nat),
            ) by {
                if k < id {
                    assert(offsets@[k] == before[k]);
                }
            }
        }
        id = id + 1;
    }
    (out, offsets)
}

fn write_xref(out: &mut Vec<char>, offsets: &Vec<u128>, Ghost(lv): Ghost<Seq<Seq<char>>>, pc: usize)
    requires
        offsets@.len() == 4 + 2 * pc,
        forall|k: int|
            1 <= k < offsets@.len() ==> #[trigger] offsets@[k] == utf8_len(
                objects_text(lv, pc as nat, (k - 1) as nat),
            ),
    ensures
        final(out)@ == old(out)@ + xref_entries(lv, pc as nat, (3 + 2 * pc) as nat),
{
    let ol = offsets.len();
    let oc = ol - 1;
    let mut k: usize = 1;
    while k <= oc
        invariant
            oc + 1 == offsets@.len(),
            oc + 1 == ol,
            oc == 3 + 2 * pc,
            forall|j: int|
                1 <= j < offsets@.len() ==> #[trigger] offsets@[j] == utf8_len(
                    objects_text(lv, pc as nat, (j - 1) as nat),
                ),
            1 <= k <= oc + 1,
            out@ == old(out)@ + xref_entries(lv, pc as nat, (k - 1) as nat),
        decreases oc + 1 - k,
    {
        push_zero_padded(out, offsets[k], 10);
        push_str_chars(out, " 00000 n \n");
        assert(out@ =~= old(out)@ + xref_entries(lv, pc as nat, k as nat));
        k = k + 1;
    }
}

/// The archive report as PDF bytes.
pub fn build_archive_pdf(data: &WerkaArchiveResponse) -> (r: Vec<u8>)
    ensures
        r@ == vstd::utf8::encode_utf8(pdf_text(archive_lines_spec(*data))),
{
    let lines = archive_lines(data);
    let ghost lv = string_views(lines@);
    let n = lines.len();
    let pc = page_count(n);
    assert(4 + 2 * pc <= usize::MAX) by (nonlinear_arith)
        requires pc <= n / 46 + 1, n <= usize::MAX;
    let oc: usize = 3 + pc * 2;
    let objects = build_objects(&lines, pc);
    let (mut out, offsets) = write_objects(&objects, Ghost(lv), pc);
    let ghost body = out@;
    let xref_offset = utf8_length(out.as_slice());
    push_str_chars(&mut out, "xref\n0 ");
    push_decimal(&mut out, (oc + 1) as u128);
    push_str_chars(&mut out, "\n");
    push_str_chars(&mut out, "0000000000 65535 f \n");
    write_xref(&mut out, &offsets, Ghost(lv), pc);
    push_str_chars(&mut out, "trailer\n<< /Size ");
    push_decimal(&mut out, (oc + 1) as u128);
    push_str_chars(&mut out, " /Root 1 0 R >>\nstartxref\n");
    push_decimal(&mut out, xref_offset);
    push_str_chars(&mut out, "\n%%EOF\n");
    assert(out@ =~= pdf_text(lv));
    utf8_bytes(out.as_slice())
}

/// A decimal rendering without the zeros that end its fraction, without a
/// dot left bare, and with `-0` written `0`.
pub open spec fn trim_float_spec(s: Seq<char>) -> Seq<char> {
    let t = match crate::text::find_first(s, seq!['.']) {
        Some(d) => {
            let u = crate::text::drop_trail(s, '0');
            if u.len() == d + 1 {
                u.drop_last()
            } else {
                u
            }
        },
        None => s,
    };
    if t == "-0"@ {
        "0"@
    } else {
        t
    }
}

/// `value` (a decimal rendering) with its fraction's trailing zeros, a bare
/// dot, and the sign of `-0` removed.
pub fn trim_float(value: String) -> (r: String)
    ensures
        r@ == trim_float_spec(value@),
{
    let v = chars_of(value.as_str());
    let dot = vec!['.'];
    let f = crate::text::find_chars(v.as_slice(), dot.as_slice());
    proof {
        assert(dot@ =~= seq!['.']);
        crate::text::lemma_find_first(v@, dot@, f);
    }
    let t = match f {
        Some(d) => {
            let mut u = crate::text::trim_end_matches_char(v.as_slice(), '0');
            if u.len() > d && u.len() - d == 1 {
                let ghost before = u@;
                u.pop();
                assert(u@ =~= before.drop_last());
            }
            u
        },
        None => v,
    };
    let minus_zero = chars_of("-0");
    if crate::text::chars_eq(t.as_slice(), minus_zero.as_slice()) {
        owned("0")
    } else {
        string_of(t.as_slice())
    }
}

/// The lines of the first `k` pages, in order.
pub open spec fn pages_concat(lines: Seq<Seq<char>>, k: nat) -> Seq<Seq<char>>
    decreases k,
{
    if k == 0 {
        Seq::empty()
    } else {
        pages_concat(lines, (k - 1) as nat) + page_lines(lines, (k - 1) as nat)
    }
}

proof fn lemma_pages_concat(lines: Seq<Seq<char>>, k: nat)
    requires
        k == 0 || 46 * (k - 1) <= lines.len(),
    ensures
        pages_concat(lines, k) == lines.subrange(
            0,
            if 46 * k < lines.len() {
                (46 * k) as int
            } else {
                lines.len() as int
            },
        ),
    decreases k,
{
    if k == 0 {
        assert(lines.subrange(0, 0) =~= Seq::<Seq<char>>::empty());
    } else {
        let j = (k - 1) as nat;
        lemma_pages_concat(lines, j);
        let prev = if 46 * j < lines.len() {
            (46 * j) as int
        } else {
            lines.len() as int
        };
        assert((j * 46) as int == 46 * j);
        let start: int = (j * 46) as int;
        let end: int = if start + 46 < lines.len() {
            start + 46
        } else {
            lines.len() as int
        };
        if 46 * j < lines.len() {
            assert(page_lines(lines, j) == lines.subrange(start, end));
            assert(lines.subrange(0, prev) + lines.subrange(start, end) =~= lines.subrange(0, end));
        } else {
            assert(lines.subrange(start, end) =~= Seq::<Seq<char>>::empty());
            assert(lines.subrange(0, prev) + Seq::<Seq<char>>::empty() =~= lines.subrange(0, prev));
        }
    }
}

/// The pages of an archive report hold its lines exactly once each, in
/// order: putting the pages' lines together gives back the lines.
pub proof fn law_pages_hold_every_line_once(lines: Seq<Seq<char>>)
    ensures
        pages_concat(lines, page_count_spec(lines.len())) == lines,
{
    let n = lines.len();
    let pc = page_count_spec(n);
    if n > 0 {
        assert(46 * ((n + 45) / 46) >= n && 46 * ((n + 45) / 46 - 1) <= n) by (nonlinear_arith)
            requires
                n > 0,
        ;
    }
    lemma_pages_concat(lines, pc);
    assert(lines.subrange(0, n as int) =~= lines);
}

proof fn lemma_objects_start(lines: Seq<Seq<char>>, pc: nat, n: nat)
    ensures
        crate::text::has_prefix(objects_text(lines, pc, n), "%PDF-1.4\n"@),
    decreases n,
{
    if n > 0 {
        lemma_objects_start(lines, pc, (n - 1) as nat);
        let prev = objects_text(lines, pc, (n - 1) as nat);
        let h = "%PDF-1.4\n"@;
        let whole = objects_text(lines, pc, n);
        assert(whole.subrange(0, h.len() as int) =~= prev.subrange(0, h.len() as int));
    } else {
        assert("%PDF-1.4\n"@.subrange(0, "%PDF-1.4\n"@.len() as int) =~= "%PDF-1.4\n"@);
    }
}

/// Every archive document starts with the PDF 1.4 header line.
pub proof fn law_pdf_starts_with_header(lines: Seq<Seq<char>>)
    ensures
        crate::text::has_prefix(pdf_text(lines), "%PDF-1.4\n"@),
{
    let pc = page_count_spec(lines.len());
    let oc = 3 + 2 * pc;
    lemma_objects_start(lines, pc, oc);
    let body = objects_text(lines, pc, oc);
    let h = "%PDF-1.4\n"@;
    assert(pdf_text(lines).subrange(0, h.len() as int) =~= body.subrange(0, h.len() as int));
}

} // verus!
