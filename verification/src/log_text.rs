//! Splitting of a tab-separated telemetry log into its header names and the
//! trimmed text cells of each data row.

use vstd::prelude::*;
use vstd::string::StrSliceExecFns;

verus! {

/// Column separator.
pub const TAB: char = '\t';

/// Line feed and carriage return.
pub const LF: char = '\n';

pub const CR: char = '\r';

/// Whether `c` has the Unicode `White_Space` property (what `char::is_whitespace` tests).
pub open spec fn is_white_space(c: char) -> bool {
    let u = c as u32;
    ||| 0x09 <= u <= 0x0d
    ||| u == 0x20
    ||| u == 0x85
    ||| u == 0xa0
    ||| u == 0x1680
    ||| 0x2000 <= u <= 0x200a
    ||| u == 0x2028
    ||| u == 0x2029
    ||| u == 0x202f
    ||| u == 0x205f
    ||| u == 0x3000
}

pub open spec fn trim_start(s: Seq<char>) -> Seq<char>
    decreases s.len(),
{
    if s.len() > 0 && is_white_space(s[0]) {
        trim_start(s.drop_first())
    } else {
        s
    }
}

pub open spec fn trim_end(s: Seq<char>) -> Seq<char>
    decreases s.len(),
{
    if s.len() > 0 && is_white_space(s.last()) {
        trim_end(s.drop_last())
    } else {
        s
    }
}

/// `s` without leading and trailing white space.
pub open spec fn trimmed(s: Seq<char>) -> Seq<char> {
    trim_end(trim_start(s))
}

/// The pieces of `s` between occurrences of `sep` (one piece more than there are
/// separators; empty pieces included).
pub open spec fn split_on(s: Seq<char>, sep: char) -> Seq<Seq<char>>
    decreases s.len(),
{
    if s.len() == 0 {
        seq![Seq::<char>::empty()]
    } else {
        let rest = split_on(s.drop_first(), sep);
        if s[0] == sep {
            seq![Seq::<char>::empty()] + rest
        } else {
            rest.update(0, seq![s[0]] + rest[0])
        }
    }
}

/// A line ended by `"\r\n"` loses the carriage return too.
pub open spec fn strip_cr(line: Seq<char>) -> Seq<char> {
    if line.len() > 0 && line.last() == CR {
        line.drop_last()
    } else {
        line
    }
}

/// The lines of `text`: split at each line feed, a carriage return right before a line
/// feed dropped with it; a final line ending adds no empty line, and empty text has
/// no line.
pub open spec fn text_lines(text: Seq<char>) -> Seq<Seq<char>> {
    let pieces = split_on(text, LF);
    let ended = Seq::new((pieces.len() - 1) as nat, |i: int| strip_cr(pieces[i]));
    if text.len() == 0 {
        seq![]
    } else if text.last() == LF {
        ended
    } else {
        ended.push(pieces.last())
    }
}

/// The `width` cells of a data row: the trimmed tab-separated fields of `line`, empty
/// where the line has fewer fields.
pub open spec fn row_cells(line: Seq<char>, width: nat) -> Seq<Seq<char>> {
    let fields = split_on(line, TAB);
    Seq::new(width, |i: int| if i < fields.len() { trimmed(fields[i]) } else { seq![] })
}

/// The rows of `lines` that are not blank, as cells.
pub open spec fn data_rows(lines: Seq<Seq<char>>, width: nat) -> Seq<Seq<Seq<char>>>
    decreases lines.len(),
{
    if lines.len() == 0 {
        seq![]
    } else {
        let rest = data_rows(lines.drop_last(), width);
        if trimmed(lines.last()).len() == 0 {
            rest
        } else {
            rest.push(row_cells(lines.last(), width))
        }
    }
}

pub open spec fn strings_view(v: Seq<String>) -> Seq<Seq<char>> {
    v.map_values(|s: String| s@)
}

pub open spec fn rows_view(v: Seq<Vec<String>>) -> Seq<Seq<Seq<char>>> {
    v.map_values(|r: Vec<String>| strings_view(r@))
}

/// A log split into text: the header's column names and, for each non-blank data line,
/// one trimmed cell per column.
pub struct LogText {
    pub names: Vec<String>,
    pub rows: Vec<Vec<String>>,
}

/// Calls `str::lines` and collects the lines. Trusted: the lines are the pieces of
/// `text` between line feeds, each without its terminating `"\n"` or `"\r\n"`, with no
/// empty line after a final line ending and none at all for empty text (`text_lines`).
#[verifier::external_body]
fn lines_of<'a>(text: &'a str) -> (r: Vec<&'a str>)
    ensures
        r@.map_values(|l: &str| l@) == text_lines(text@),
{
    text.lines().collect()
}

/// Calls `str::split` with the tab character and collects the pieces. Trusted: the
/// pieces are the text between tabs, empty ones included, one more than there are
/// tabs (`split_on`).
#[verifier::external_body]
fn split_tabs<'a>(line: &'a str) -> (r: Vec<&'a str>)
    ensures
        r@.map_values(|f: &str| f@) == split_on(line@, TAB),
{
    line.split('\t').collect()
}

/// Calls `str::trim`. Trusted: the result is `s` with leading and trailing characters of
/// the Unicode `White_Space` property removed (`trimmed`).
#[verifier::external_body]
fn trim<'a>(s: &'a str) -> (r: &'a str)
    ensures
        r@ == trimmed(s@),
{
    s.trim()
}

/// Splits a tab-separated log: the first line names the columns; every later line
/// that is not blank is a data row, cut at tabs into trimmed cells, one per column
/// (empty where the row is short, extra fields ignored). `None` for text without any
/// line.
pub fn parse_log_text(text: &str) -> (r: Option<LogText>)
    ensures
        r is None <==> text_lines(text@).len() == 0,
        r matches Some(log) ==> {
            &&& strings_view(log.names@) == split_on(text_lines(text@)[0], TAB)
            &&& rows_view(log.rows@) == data_rows(
                text_lines(text@).drop_first(),
                log.names@.len() as nat,
            )
        },
{
    let lines = lines_of(text);
    let ghost lv = lines@.map_values(|l: &str| l@);
    if lines.len() == 0 {
        return None;
    }
    let header = split_tabs(lines[0]);
    let mut names: Vec<String> = Vec::new();
    let mut j: usize = 0;
    while j < header.len()
        invariant
            j <= header@.len(),
            strings_view(names@) == header@.map_values(|f: &str| f@).take(j as int),
        decreases header@.len() - j,
    {
        let ghost before = names@;
        let name = header[j].to_owned();
        names.push(name);
        proof {
            let hv = header@.map_values(|f: &str| f@);
            assert(hv.take(j + 1) =~= hv.take(j as int).push(hv[j as int]));
            assert(strings_view(names@) =~= strings_view(before).push(name@));
        }
        j += 1;
    }
    proof {
        assert(header@.map_values(|f: &str| f@).take(header@.len() as int) == header@.map_values(
            |f: &str| f@,
        ));
    }
    let width = names.len();
    let ghost body = lv.drop_first();
    let mut rows: Vec<Vec<String>> = Vec::new();
    let mut k: usize = 1;
    while k < lines.len()
        invariant
            1 <= k <= lines@.len(),
            lv == lines@.map_values(|l: &str| l@),
            body == lv.drop_first(),
            width == names@.len(),
            rows_view(rows@) == data_rows(body.take(k - 1), width as nat),
        decreases lines@.len() - k,
    {
        let line = lines[k];
        proof {
            assert(body.take(k as int).drop_last() == body.take(k - 1));
            assert(body.take(k as int).last() == line@);
        }
        if trim(line).unicode_len() != 0 {
            let fields = split_tabs(line);
            let ghost fv = fields@.map_values(|f: &str| f@);
            let mut row: Vec<String> = Vec::new();
            let mut i: usize = 0;
            while i < width
                invariant
                    i <= width,
                    fv == fields@.map_values(|f: &str| f@),
                    fv == split_on(line@, TAB),
                    strings_view(row@) == row_cells(line@, width as nat).take(i as int),
                decreases width - i,
            {
                let ghost before = row@;
                let cell = if i < fields.len() {
                    trim(fields[i]).to_owned()
                } else {
                    String::new()
                };
                row.push(cell);
                proof {
                    let rc = row_cells(line@, width as nat);
                    assert(cell@ == rc[i as int]);
                    assert(rc.take(i + 1) =~= rc.take(i as int).push(rc[i as int]));
                    assert(strings_view(row@) =~= strings_view(before).push(cell@));
                }
                i += 1;
            }
            proof {
                assert(row_cells(line@, width as nat).take(width as int) == row_cells(
                    line@,
                    width as nat,
                ));
            }
            rows.push(row);
            proof {
                assert(rows_view(rows@) == data_rows(body.take(k - 1), width as nat).push(
                    row_cells(line@, width as nat),
                ));
            }
        }
        k += 1;
    }
    proof {
        assert(body.take(lines@.len() - 1) == body);
    }
    Some(LogText { names, rows })
}

} // verus!
