//! Turning a tool's report into rows of whitespace-separated fields.
use vstd::prelude::*;
use vstd::string::*;

verus! {

/// Lines of banner and column headings that open every report.
pub const HEADER_LINES: usize = 3;

/// The characters that Unicode gives the White_Space property.
pub open spec fn is_space(c: char) -> bool {
    let u = c as u32;
    ||| 0x9 <= u <= 0xD
    ||| u == 0x20
    ||| u == 0x85
    ||| u == 0xA0
    ||| u == 0x1680
    ||| 0x2000 <= u <= 0x200A
    ||| u == 0x2028
    ||| u == 0x2029
    ||| u == 0x202F
    ||| u == 0x205F
    ||| u == 0x3000
}

pub open spec fn space() -> spec_fn(char) -> bool {
    |c: char| is_space(c)
}

pub open spec fn newline() -> spec_fn(char) -> bool {
    |c: char| c == '\n'
}

pub open spec fn non_empty() -> spec_fn(Seq<char>) -> bool {
    |p: Seq<char>| p.len() > 0
}

pub open spec fn non_empty_row() -> spec_fn(Seq<Seq<char>>) -> bool {
    |r: Seq<Seq<char>>| r.len() > 0
}

/// The pieces of `s` between the characters that `sep` holds of. The
/// separators are dropped; n separators give n + 1 pieces, some maybe empty.
pub open spec fn split_by(s: Seq<char>, sep: spec_fn(char) -> bool) -> Seq<Seq<char>>
    decreases s.len(),
{
    if s.len() == 0 {
        seq![Seq::empty()]
    } else {
        let prev = split_by(s.drop_last(), sep);
        if sep(s.last()) {
            prev.push(Seq::empty())
        } else {
            prev.update(prev.len() - 1, prev.last().push(s.last()))
        }
    }
}

/// The lines of a text. A carriage return before a line feed is kept: it is
/// white space, so no field and no blank test sees it.
pub open spec fn lines_of(text: Seq<char>) -> Seq<Seq<char>> {
    split_by(text, newline())
}

/// The fields of a line: the non-empty runs of non-space characters.
pub open spec fn fields_of(line: Seq<char>) -> Seq<Seq<char>> {
    split_by(line, space()).filter(non_empty())
}

pub open spec fn is_blank(line: Seq<char>) -> bool {
    forall|i: int| 0 <= i < line.len() ==> is_space(#[trigger] line[i])
}

/// The rows of a report: the lines after the first `skip`, split into fields,
/// with the blank lines left out, in the order of the text.
pub open spec fn table_of(text: Seq<char>, skip: nat) -> Seq<Seq<Seq<char>>> {
    let ls = lines_of(text);
    let start = if skip <= ls.len() { skip as int } else { ls.len() as int };
    ls.subrange(start, ls.len() as int).map_values(|l: Seq<char>| fields_of(l)).filter(
        non_empty_row(),
    )
}

proof fn lemma_split_len(s: Seq<char>, sep: spec_fn(char) -> bool)
    ensures
        split_by(s, sep).len() >= 1,
    decreases s.len(),
{
    if s.len() > 0 {
        lemma_split_len(s.drop_last(), sep);
    }
}

/// One step of a left-to-right scan: the pieces of a prefix that ends in the
/// open piece `s[start..i]`.
proof fn lemma_split_step(s: Seq<char>, sep: spec_fn(char) -> bool, done: Seq<Seq<char>>, start: int, i: int)
    requires
        0 <= start <= i < s.len(),
        split_by(s.subrange(0, i), sep) == done.push(s.subrange(start, i)),
    ensures
        sep(s[i]) ==> split_by(s.subrange(0, i + 1), sep) == done.push(s.subrange(start, i)).push(
            s.subrange(i + 1, i + 1),
        ),
        !sep(s[i]) ==> split_by(s.subrange(0, i + 1), sep) == done.push(s.subrange(start, i + 1)),
{
    let p = s.subrange(0, i + 1);
    assert(p.drop_last() =~= s.subrange(0, i));
    assert(s.subrange(i + 1, i + 1) =~= Seq::<char>::empty());
    assert(s.subrange(start, i).push(s[i]) =~= s.subrange(start, i + 1));
    if sep(s[i]) {
    } else {
        let prev = done.push(s.subrange(start, i));
        assert(prev.update(prev.len() - 1, prev.last().push(p.last())) =~= done.push(
            s.subrange(start, i + 1),
        ));
    }
}

/// Every row of a table has at least one field.
pub proof fn lemma_rows_non_empty(text: Seq<char>, skip: nat)
    ensures
        forall|i: int|
            0 <= i < table_of(text, skip).len() ==> (#[trigger] table_of(text, skip)[i]).len() > 0,
{
    let ls = lines_of(text);
    let start = if skip <= ls.len() { skip as int } else { ls.len() as int };
    let m = ls.subrange(start, ls.len() as int).map_values(|l: Seq<char>| fields_of(l));
    assert forall|i: int| 0 <= i < m.filter(non_empty_row()).len() implies (
    #[trigger] m.filter(non_empty_row())[i]).len() > 0 by {
        m.lemma_filter_pred(non_empty_row(), i);
    }
}

/// A line that is not blank has a field.
pub proof fn lemma_fields_of_non_blank(line: Seq<char>)
    requires
        !is_blank(line),
    ensures
        fields_of(line).len() > 0,
    decreases line.len(),
{
    let c = line.last();
    let prev = split_by(line.drop_last(), space());
    lemma_split_len(line.drop_last(), space());
    if is_space(c) {
        prev.lemma_filter_push(Seq::empty(), non_empty());
        let i = choose|i: int| 0 <= i < line.len() && !is_space(line[i]);
        assert(line.drop_last()[i] == line[i]);
        lemma_fields_of_non_blank(line.drop_last());
    } else {
        let p = prev.last().push(c);
        assert(prev.update(prev.len() - 1, p) =~= prev.drop_last().push(p));
        prev.drop_last().lemma_filter_push(p, non_empty());
    }
}

pub fn is_space_char(c: char) -> (r: bool)
    ensures
        r == is_space(c),
{
    let u = c as u32;
    (0x9 <= u && u <= 0xD) || u == 0x20 || u == 0x85 || u == 0xA0 || u == 0x1680 || (0x2000
        <= u && u <= 0x200A) || u == 0x2028 || u == 0x2029 || u == 0x202F || u == 0x205F || u
        == 0x3000
}

pub fn is_blank_line(line: &str) -> (r: bool)
    ensures
        r == is_blank(line@),
{
    let n = line.unicode_len();
    let mut i: usize = 0;
    while i < n
        invariant
            n == line@.len(),
            i <= n,
            forall|j: int| 0 <= j < i ==> is_space(#[trigger] line@[j]),
        decreases n - i,
    {
        if !is_space_char(line.get_char(i)) {
            return false;
        }
        i = i + 1;
    }
    true
}

/// Cuts a text into its lines.
pub fn split_lines(text: &str) -> (r: Vec<String>)
    ensures
        r.deep_view() == lines_of(text@),
{
    let n = text.unicode_len();
    let mut out: Vec<String> = Vec::new();
    let mut start: usize = 0;
    let mut i: usize = 0;
    proof {
        assert(text@.subrange(0, 0) =~= Seq::<char>::empty());
        assert(out.deep_view().push(text@.subrange(0, 0)) =~= seq![Seq::<char>::empty()]);
    }
    while i < n
        invariant
            n == text@.len(),
            start <= i <= n,
            split_by(text@.subrange(0, i as int), newline()) == out.deep_view().push(
                text@.subrange(start as int, i as int),
            ),
        decreases n - i,
    {
        let c = text.get_char(i);
        proof {
            lemma_split_step(text@, newline(), out.deep_view(), start as int, i as int);
        }
        if c == '\n' {
            let piece = text.substring_char(start, i).to_owned();
            let ghost before = out.deep_view();
            out.push(piece);
            assert(out.deep_view() =~= before.push(text@.subrange(start as int, i as int)));
            start = i + 1;
        }
        i = i + 1;
    }
    let piece = text.substring_char(start, n).to_owned();
    let ghost before = out.deep_view();
    out.push(piece);
    assert(out.deep_view() =~= before.push(text@.subrange(start as int, n as int)));
    assert(text@.subrange(0, n as int) =~= text@);
    out
}

/// Splits a line into its fields.
pub fn split_fields(line: &str) -> (r: Vec<String>)
    ensures
        r.deep_view() == fields_of(line@),
{
    let n = line.unicode_len();
    let mut out: Vec<String> = Vec::new();
    let mut start: usize = 0;
    let mut i: usize = 0;
    let ghost done: Seq<Seq<char>> = Seq::empty();
    proof {
        assert(line@.subrange(0, 0) =~= Seq::<char>::empty());
        assert(done.push(line@.subrange(0, 0)) =~= seq![Seq::<char>::empty()]);
        assert(done.filter(non_empty()) =~= Seq::<Seq<char>>::empty()) by {
            done.lemma_filter_len(non_empty());
        }
    }
    while i < n
        invariant
            n == line@.len(),
            start <= i <= n,
            split_by(line@.subrange(0, i as int), space()) == done.push(
                line@.subrange(start as int, i as int),
            ),
            out.deep_view() == done.filter(non_empty()),
        decreases n - i,
    {
        let c = line.get_char(i);
        proof {
            lemma_split_step(line@, space(), done, start as int, i as int);
        }
        if is_space_char(c) {
            let ghost piece = line@.subrange(start as int, i as int);
            proof {
                done.lemma_filter_push(piece, non_empty());
            }
            if start < i {
                let s = line.substring_char(start, i).to_owned();
                let ghost before = out.deep_view();
                out.push(s);
                assert(out.deep_view() =~= before.push(piece));
            }
            proof {
                done = done.push(piece);
            }
            start = i + 1;
        }
        i = i + 1;
    }
    let ghost piece = line@.subrange(start as int, n as int);
    proof {
        done.lemma_filter_push(piece, non_empty());
        assert(line@.subrange(0, n as int) =~= line@);
    }
    if start < n {
        let s = line.substring_char(start, n).to_owned();
        let ghost before = out.deep_view();
        out.push(s);
        assert(out.deep_view() =~= before.push(piece));
    }
    out
}

/// The rows of a report: every line after the first `skip`, split into its
/// fields, blank lines left out, in the order in which the tool printed them.
pub fn parse_table(text: &str, skip: usize) -> (r: Vec<Vec<String>>)
    ensures
        r.deep_view() == table_of(text@, skip as nat),
{
    let lines = split_lines(text);
    let ghost ls = lines_of(text@);
    let n = lines.len();
    let start = if skip <= n { skip } else { n };
    let mut rows: Vec<Vec<String>> = Vec::new();
    let mut i: usize = start;
    proof {
        let e = ls.subrange(start as int, start as int).map_values(|l: Seq<char>| fields_of(l));
        assert(e =~= Seq::<Seq<Seq<char>>>::empty());
        e.lemma_filter_len(non_empty_row());
        assert(e.filter(non_empty_row()) =~= Seq::<Seq<Seq<char>>>::empty());
    }
    while i < n
        invariant
            lines.deep_view() == ls,
            n == ls.len(),
            start <= i <= n,
            rows.deep_view() == ls.subrange(start as int, i as int).map_values(
                |l: Seq<char>| fields_of(l),
            ).filter(non_empty_row()),
        decreases n - i,
    {
        let fields = split_fields(lines[i].as_str());
        let ghost prev = ls.subrange(start as int, i as int).map_values(|l: Seq<char>| fields_of(l));
        proof {
            assert(lines.deep_view()[i as int] == lines@[i as int]@);
            assert(ls.subrange(start as int, i as int + 1).map_values(|l: Seq<char>| fields_of(l))
                =~= prev.push(fields_of(ls[i as int])));
            prev.lemma_filter_push(fields_of(ls[i as int]), non_empty_row());
        }
        if fields.len() > 0 {
            let ghost before = rows.deep_view();
            rows.push(fields);
            assert(rows.deep_view() =~= before.push(fields_of(ls[i as int])));
        }
        i = i + 1;
    }
    rows
}

/// The rows of a route report (`show route`): its column headings skipped.
pub fn get_ip_route_entries(out: &str) -> (r: Vec<Vec<String>>)
    ensures
        r.deep_view() == table_of(out@, HEADER_LINES as nat),
{
    parse_table(out, HEADER_LINES)
}

/// The rows of an interface report (`show interface`): its column headings
/// skipped.
pub fn get_interface_entries(out: &str) -> (r: Vec<Vec<String>>)
    ensures
        r.deep_view() == table_of(out@, HEADER_LINES as nat),
{
    parse_table(out, HEADER_LINES)
}

} // verus!
