//! Lookups in the route and interface reports: the default route and its
//! gateway, an interface's index by name, the name behind an index.
use vstd::prelude::*;
use crate::table::{parse_table, table_of, HEADER_LINES};

verus! {

/// An IP address family.
#[derive(Clone, Copy, Debug, PartialEq, Eq, Structural)]
pub enum Family {
    V4,
    V6,
}

/// Why a lookup or an operation gave no result.
#[derive(Clone, Copy, Debug, PartialEq, Eq, Structural)]
pub enum NetError {
    /// No row of the report matches what was asked for.
    NotFound,
    /// A row that was found does not have the shape that the report has.
    MalformedOutput,
    /// The operation is not available on this platform.
    Unsupported,
}

/// Column of a route row that holds the destination prefix.
pub const DEST_COL: usize = 3;

/// Column of a route row that holds the interface index.
pub const ROUTE_IFACE_COL: usize = 4;

/// Column of a route row that holds the gateway.
pub const GATEWAY_COL: usize = 5;

/// Number of fields of a well-formed route row.
pub const ROUTE_FIELDS: usize = 6;

/// Column of an interface row that holds the index.
pub const INDEX_COL: usize = 0;

/// Column of an interface row that holds the name, in the report's five
/// columns (index, metric, MTU, state, name).
pub const NAME_COL: usize = 4;

/// Number of fields of an interface row without the metric column (index,
/// MTU, state, name), whose name is its last field.
pub const SHORT_INTERFACE_FIELDS: usize = 4;

/// Number of fields of a well-formed row of the per-family interface report.
pub const INTERFACE_FIELDS: usize = 5;

/// The destination prefix that matches every address of the family.
pub open spec fn wildcard(fam: Family) -> Seq<char> {
    match fam {
        Family::V4 => "0.0.0.0/0"@,
        Family::V6 => "::/0"@,
    }
}

pub fn wildcard_text(fam: Family) -> (r: &'static str)
    ensures
        r@ == wildcard(fam),
{
    match fam {
        Family::V4 => "0.0.0.0/0",
        Family::V6 => "::/0",
    }
}

/// Rows that have a column `col` holding `key`.
pub open spec fn key_pred(col: nat, key: Seq<char>) -> spec_fn(Seq<Seq<char>>) -> bool {
    |row: Seq<Seq<char>>| row.len() > col && row[col as int] == key
}

/// The position of the last of the first `i` rows that `pred` holds of.
pub open spec fn last_below(
    rows: Seq<Seq<Seq<char>>>,
    pred: spec_fn(Seq<Seq<char>>) -> bool,
    i: int,
) -> Option<int>
    decreases i,
{
    if i <= 0 {
        None
    } else if pred(rows[i - 1]) {
        Some(i - 1)
    } else {
        last_below(rows, pred, i - 1)
    }
}

/// The position of the last row that `pred` holds of.
pub open spec fn last_where(rows: Seq<Seq<Seq<char>>>, pred: spec_fn(Seq<Seq<char>>) -> bool) -> Option<int> {
    last_below(rows, pred, rows.len() as int)
}

proof fn lemma_last_below(rows: Seq<Seq<Seq<char>>>, pred: spec_fn(Seq<Seq<char>>) -> bool, i: int)
    ensures
        last_below(rows, pred, i) matches Some(j) ==> 0 <= j < i && pred(rows[j]),
    decreases i,
{
    if i > 0 && !pred(rows[i - 1]) {
        lemma_last_below(rows, pred, i - 1);
    }
}

proof fn lemma_last_below_at(rows: Seq<Seq<Seq<char>>>, pred: spec_fn(Seq<Seq<char>>) -> bool, j: int, i: int)
    requires
        0 <= j < i <= rows.len(),
        pred(rows[j]),
        forall|k: int| j < k < i ==> !#[trigger] pred(rows[k]),
    ensures
        last_below(rows, pred, i) == Some(j),
    decreases i,
{
    if i - 1 > j {
        lemma_last_below_at(rows, pred, j, i - 1);
    }
}

proof fn lemma_last_below_none(rows: Seq<Seq<Seq<char>>>, pred: spec_fn(Seq<Seq<char>>) -> bool, i: int)
    requires
        0 <= i <= rows.len(),
        forall|k: int| 0 <= k < i ==> !#[trigger] pred(rows[k]),
    ensures
        last_below(rows, pred, i) is None,
    decreases i,
{
    if i > 0 {
        lemma_last_below_none(rows, pred, i - 1);
    }
}

/// The destination-prefix test that picks default routes.
pub open spec fn is_default_row(row: Seq<Seq<char>>, fam: Family) -> bool {
    key_pred(DEST_COL as nat, wildcard(fam))(row)
}

/// Where exactly one row of a route report has the family's wildcard as its
/// destination, that row, field for field, is the default route.
pub proof fn lemma_single_default_route(out: Seq<char>, fam: Family, i: int)
    requires
        0 <= i < report(out).len(),
        is_default_row(report(out)[i], fam),
        forall|k: int| 0 <= k < report(out).len() && k != i ==> !is_default_row(#[trigger] report(out)[k], fam),
    ensures
        default_route_of(report(out), fam) == Ok::<Seq<Seq<char>>, NetError>(report(out)[i]),
{
    let rows = report(out);
    lemma_last_below_at(rows, key_pred(DEST_COL as nat, wildcard(fam)), i, rows.len() as int);
}

/// Where two rows of a route report, at positions i < j, have the family's
/// wildcard as their destination and no other row has, the default route is
/// the later one: the last match wins.
pub proof fn lemma_last_default_route_wins(out: Seq<char>, fam: Family, i: int, j: int)
    requires
        0 <= i < j < report(out).len(),
        is_default_row(report(out)[i], fam),
        is_default_row(report(out)[j], fam),
        forall|k: int|
            0 <= k < report(out).len() && k != i && k != j ==> !is_default_row(#[trigger] report(out)[k], fam),
    ensures
        default_route_of(report(out), fam) == Ok::<Seq<Seq<char>>, NetError>(report(out)[j]),
{
    let rows = report(out);
    lemma_last_below_at(rows, key_pred(DEST_COL as nat, wildcard(fam)), j, rows.len() as int);
}

/// Where no row of a route report has the family's wildcard as its
/// destination, the lookup of the default route reports `NotFound`.
pub proof fn lemma_no_default_route(out: Seq<char>, fam: Family)
    requires
        forall|k: int| 0 <= k < report(out).len() ==> !is_default_row(#[trigger] report(out)[k], fam),
    ensures
        default_route_of(report(out), fam) == Err::<Seq<Seq<char>>, NetError>(NetError::NotFound),
{
    let rows = report(out);
    lemma_last_below_none(rows, key_pred(DEST_COL as nat, wildcard(fam)), rows.len() as int);
}

/// The name field of an interface row: the fifth field of a row of five or
/// more, the last field of a row of four; a shorter row has none.
pub open spec fn name_field(row: Seq<Seq<char>>) -> Option<Seq<char>> {
    if row.len() > NAME_COL {
        Some(row[NAME_COL as int])
    } else if row.len() == SHORT_INTERFACE_FIELDS {
        Some(row[SHORT_INTERFACE_FIELDS - 1])
    } else {
        None
    }
}

/// The name test that picks an interface row: its name field equals `name`
/// exactly.
pub open spec fn is_named(row: Seq<Seq<char>>, name: Seq<char>) -> bool {
    name_field(row) == Some(name)
}

pub open spec fn named_pred(name: Seq<char>) -> spec_fn(Seq<Seq<char>>) -> bool {
    |row: Seq<Seq<char>>| is_named(row, name)
}

/// Where exactly one row of an interface report carries the name `name`,
/// the index of `name` is that row's index field.
pub proof fn lemma_unique_interface_index(out: Seq<char>, name: Seq<char>, i: int)
    requires
        0 <= i < report(out).len(),
        is_named(report(out)[i], name),
        forall|k: int| 0 <= k < report(out).len() && k != i ==> !is_named(#[trigger] report(out)[k], name),
    ensures
        interface_index_of(out, name) == Ok::<Seq<char>, NetError>(report(out)[i][INDEX_COL as int]),
{
    let rows = report(out);
    lemma_last_below_at(rows, named_pred(name), i, rows.len() as int);
}

/// Names match exactly: where no row's name field is `name` (another case,
/// or other white space, makes another name), the lookup reports `NotFound`.
pub proof fn lemma_interface_name_exact(out: Seq<char>, name: Seq<char>)
    requires
        forall|k: int| 0 <= k < report(out).len() ==> !is_named(#[trigger] report(out)[k], name),
    ensures
        interface_index_of(out, name) == Err::<Seq<char>, NetError>(NetError::NotFound),
{
    let rows = report(out);
    lemma_last_below_none(rows, named_pred(name), rows.len() as int);
}

/// The position of the first row from `i` on that `pred` holds of.
pub open spec fn first_from(
    rows: Seq<Seq<Seq<char>>>,
    pred: spec_fn(Seq<Seq<char>>) -> bool,
    i: int,
) -> Option<int>
    decreases rows.len() - i,
{
    if i < 0 || i >= rows.len() {
        None
    } else if pred(rows[i]) {
        Some(i)
    } else {
        first_from(rows, pred, i + 1)
    }
}

/// The position of the first row that `pred` holds of.
pub open spec fn first_where(rows: Seq<Seq<Seq<char>>>, pred: spec_fn(Seq<Seq<char>>) -> bool) -> Option<int> {
    first_from(rows, pred, 0)
}

/// The row at a position, or `NotFound` where there is none.
pub open spec fn pick(rows: Seq<Seq<Seq<char>>>, at: Option<int>) -> Result<Seq<Seq<char>>, NetError> {
    match at {
        Some(i) => Ok(rows[i]),
        None => Err(NetError::NotFound),
    }
}

pub open spec fn row_result(r: Result<Vec<String>, NetError>) -> Result<Seq<Seq<char>>, NetError> {
    match r {
        Ok(row) => Ok(row.deep_view()),
        Err(e) => Err(e),
    }
}

pub open spec fn text_result(r: Result<String, NetError>) -> Result<Seq<char>, NetError> {
    match r {
        Ok(s) => Ok(s@),
        Err(e) => Err(e),
    }
}

/// The rows of a report as the tool prints it, headings skipped.
pub open spec fn report(out: Seq<char>) -> Seq<Seq<Seq<char>>> {
    table_of(out, HEADER_LINES as nat)
}

/// The default route among route rows: the last whose destination is the
/// family's wildcard. Rows too short to hold a destination are no candidates.
pub open spec fn default_route_of(rows: Seq<Seq<Seq<char>>>, fam: Family) -> Result<Seq<Seq<char>>, NetError> {
    pick(rows, last_where(rows, key_pred(DEST_COL as nat, wildcard(fam))))
}

/// A column of the default route of a route report; the row must have
/// exactly the six fields of the report.
pub open spec fn default_route_field(out: Seq<char>, fam: Family, col: int) -> Result<Seq<char>, NetError> {
    match default_route_of(report(out), fam) {
        Ok(row) => if row.len() == ROUTE_FIELDS {
            Ok(row[col])
        } else {
            Err(NetError::MalformedOutput)
        },
        Err(e) => Err(e),
    }
}

/// The row of the interface named `name` (exact match of its name field):
/// the last such row.
pub open spec fn interface_entry_of(out: Seq<char>, name: Seq<char>) -> Result<Seq<Seq<char>>, NetError> {
    pick(report(out), last_where(report(out), named_pred(name)))
}

pub open spec fn interface_index_of(out: Seq<char>, name: Seq<char>) -> Result<Seq<char>, NetError> {
    match interface_entry_of(out, name) {
        Ok(row) => Ok(row[INDEX_COL as int]),
        Err(e) => Err(e),
    }
}

/// The name of the interface whose index the default IPv4 route goes through,
/// read from the first row of the per-family interface report with that
/// index.
pub open spec fn default_interface_of(route_out: Seq<char>, iface_out: Seq<char>) -> Result<Seq<char>, NetError> {
    match default_route_field(route_out, Family::V4, ROUTE_IFACE_COL as int) {
        Ok(idx) => match first_where(report(iface_out), key_pred(INDEX_COL as nat, idx)) {
            Some(i) => if report(iface_out)[i].len() == INTERFACE_FIELDS {
                Ok(report(iface_out)[i][NAME_COL as int])
            } else {
                Err(NetError::MalformedOutput)
            },
            None => Err(NetError::NotFound),
        },
        Err(e) => Err(e),
    }
}

/// Position of the last row whose column `col` holds `key`.
fn last_with_key(rows: &Vec<Vec<String>>, col: usize, key: &String) -> (r: Option<usize>)
    ensures
        r matches Some(i) ==> i < rows.len(),
        match r {
            Some(i) => last_where(rows.deep_view(), key_pred(col as nat, key@)) == Some(i as int),
            None => last_where(rows.deep_view(), key_pred(col as nat, key@)) is None,
        },
{
    let ghost rs = rows.deep_view();
    let ghost pred = key_pred(col as nat, key@);
    let mut i: usize = rows.len();
    while i > 0
        invariant
            i <= rows.len(),
            rs == rows.deep_view(),
            pred == key_pred(col as nat, key@),
            last_where(rs, pred) == last_below(rs, pred, i as int),
        decreases i,
    {
        let row = &rows[i - 1];
        assert(rs[i - 1] == row.deep_view());
        assert(col < row.len() ==> row.deep_view()[col as int] == row@[col as int]@);
        assert(pred(rs[i - 1]) == (col < row.len() && row@[col as int]@ == key@));
        if col < row.len() && row[col] == *key {
            return Some(i - 1);
        }
        i = i - 1;
    }
    None
}

/// Position of the last row whose name field is `name`.
fn last_named(rows: &Vec<Vec<String>>, name: &String) -> (r: Option<usize>)
    ensures
        r matches Some(i) ==> i < rows.len(),
        match r {
            Some(i) => last_where(rows.deep_view(), named_pred(name@)) == Some(i as int),
            None => last_where(rows.deep_view(), named_pred(name@)) is None,
        },
{
    let ghost rs = rows.deep_view();
    let ghost pred = named_pred(name@);
    let mut i: usize = rows.len();
    while i > 0
        invariant
            i <= rows.len(),
            rs == rows.deep_view(),
            pred == named_pred(name@),
            last_where(rs, pred) == last_below(rs, pred, i as int),
        decreases i,
    {
        let row = &rows[i - 1];
        assert(rs[i - 1] == row.deep_view());
        assert(forall|c: int| 0 <= c < row.len() ==> row.deep_view()[c] == #[trigger] row@[c]@);
        let found = if row.len() > NAME_COL {
            row[NAME_COL] == *name
        } else if row.len() == SHORT_INTERFACE_FIELDS {
            row[SHORT_INTERFACE_FIELDS - 1] == *name
        } else {
            false
        };
        assert(found == pred(rs[i - 1]));
        if found {
            return Some(i - 1);
        }
        i = i - 1;
    }
    None
}

/// Position of the first row whose column `col` holds `key`.
fn first_with_key(rows: &Vec<Vec<String>>, col: usize, key: &String) -> (r: Option<usize>)
    ensures
        r matches Some(i) ==> i < rows.len(),
        match r {
            Some(i) => first_where(rows.deep_view(), key_pred(col as nat, key@)) == Some(i as int),
            None => first_where(rows.deep_view(), key_pred(col as nat, key@)) is None,
        },
{
    let ghost rs = rows.deep_view();
    let ghost pred = key_pred(col as nat, key@);
    let mut i: usize = 0;
    while i < rows.len()
        invariant
            i <= rows.len(),
            rs == rows.deep_view(),
            pred == key_pred(col as nat, key@),
            first_where(rs, pred) == first_from(rs, pred, i as int),
        decreases rows.len() - i,
    {
        let row = &rows[i];
        assert(rs[i as int] == row.deep_view());
        assert(col < row.len() ==> row.deep_view()[col as int] == row@[col as int]@);
        assert(pred(rs[i as int]) == (col < row.len() && row@[col as int]@ == key@));
        if col < row.len() && row[col] == *key {
            return Some(i);
        }
        i = i + 1;
    }
    None
}

/// The default route of a route report: the last row whose destination is
/// the wildcard prefix of `fam`, or `NotFound` where none is.
pub fn default_route_entry(route_out: &str, fam: Family) -> (r: Result<Vec<String>, NetError>)
    ensures
        row_result(r) == default_route_of(report(route_out@), fam),
{
    let mut rows = parse_table(route_out, HEADER_LINES);
    let key = wildcard_text(fam).to_owned();
    match last_with_key(&rows, DEST_COL, &key) {
        Some(i) => {
            let ghost rs = rows.deep_view();
            let row = rows.remove(i);
            assert(row.deep_view() == rs[i as int]);
            Ok(row)
        },
        None => Err(NetError::NotFound),
    }
}

/// The default IPv4 route of an IPv4 route report.
pub fn get_default_ipv4_route_entry(route_out: &str) -> (r: Result<Vec<String>, NetError>)
    ensures
        row_result(r) == default_route_of(report(route_out@), Family::V4),
{
    default_route_entry(route_out, Family::V4)
}

/// The default IPv6 route of an IPv6 route report.
pub fn get_default_ipv6_route_entry(route_out: &str) -> (r: Result<Vec<String>, NetError>)
    ensures
        row_result(r) == default_route_of(report(route_out@), Family::V6),
{
    default_route_entry(route_out, Family::V6)
}

/// A column of the default route; `MalformedOutput` where the row does not
/// have the report's six fields.
fn default_route_column(route_out: &str, fam: Family, col: usize) -> (r: Result<String, NetError>)
    requires
        col < ROUTE_FIELDS,
    ensures
        text_result(r) == default_route_field(route_out@, fam, col as int),
{
    match default_route_entry(route_out, fam) {
        Ok(mut row) => {
            if row.len() == ROUTE_FIELDS {
                let ghost rv = row.deep_view();
                let f = row.remove(col);
                assert(f@ == rv[col as int]);
                Ok(f)
            } else {
                Err(NetError::MalformedOutput)
            }
        },
        Err(e) => Err(e),
    }
}

/// The gateway of the default IPv4 route.
pub fn get_default_ipv4_gateway(route_out: &str) -> (r: Result<String, NetError>)
    ensures
        text_result(r) == default_route_field(route_out@, Family::V4, GATEWAY_COL as int),
{
    default_route_column(route_out, Family::V4, GATEWAY_COL)
}

/// The gateway of the default IPv6 route.
pub fn get_default_ipv6_gateway(route_out: &str) -> (r: Result<String, NetError>)
    ensures
        text_result(r) == default_route_field(route_out@, Family::V6, GATEWAY_COL as int),
{
    default_route_column(route_out, Family::V6, GATEWAY_COL)
}

/// The index of the interface that the default IPv4 route goes through.
pub fn get_default_ipv4_interface_index(route_out: &str) -> (r: Result<String, NetError>)
    ensures
        text_result(r) == default_route_field(route_out@, Family::V4, ROUTE_IFACE_COL as int),
{
    default_route_column(route_out, Family::V4, ROUTE_IFACE_COL)
}

/// The row of the interface called `interface` (exact, case-sensitive
/// match); where several rows carry the name, the last.
pub fn get_interface_entry(iface_out: &str, interface: &str) -> (r: Result<Vec<String>, NetError>)
    ensures
        row_result(r) == interface_entry_of(iface_out@, interface@),
{
    let mut rows = parse_table(iface_out, HEADER_LINES);
    let key = interface.to_owned();
    match last_named(&rows, &key) {
        Some(i) => {
            let ghost rs = rows.deep_view();
            let row = rows.remove(i);
            assert(row.deep_view() == rs[i as int]);
            Ok(row)
        },
        None => Err(NetError::NotFound),
    }
}

/// The index of the interface called `interface`.
pub fn get_interface_index(iface_out: &str, interface: &str) -> (r: Result<String, NetError>)
    ensures
        text_result(r) == interface_index_of(iface_out@, interface@),
{
    match get_interface_entry(iface_out, interface) {
        Ok(mut row) => {
            proof {
                let rs = report(iface_out@);
                lemma_last_below(rs, named_pred(interface@), rs.len() as int);
            }
            let ghost rv = row.deep_view();
            let f = row.remove(INDEX_COL);
            assert(f@ == rv[INDEX_COL as int]);
            Ok(f)
        },
        Err(e) => Err(e),
    }
}

/// The name of the interface that the default IPv4 route goes through:
/// its index is read from the IPv4 route report, its name from the first row
/// of the per-family interface report with that index.
pub fn get_default_interface(route_out: &str, iface_out: &str) -> (r: Result<String, NetError>)
    ensures
        text_result(r) == default_interface_of(route_out@, iface_out@),
{
    let idx = match get_default_ipv4_interface_index(route_out) {
        Ok(idx) => idx,
        Err(e) => {
            return Err(e);
        },
    };
    let mut rows = parse_table(iface_out, HEADER_LINES);
    match first_with_key(&rows, INDEX_COL, &idx) {
        Some(i) => {
            let ghost rs = rows.deep_view();
            let mut row = rows.remove(i);
            assert(row.deep_view() == rs[i as int]);
            if row.len() == INTERFACE_FIELDS {
                let ghost rv = row.deep_view();
                let name = row.remove(NAME_COL);
                assert(name@ == rv[NAME_COL as int]);
                Ok(name)
            } else {
                Err(NetError::MalformedOutput)
            }
        },
        None => Err(NetError::NotFound),
    }
}

/// The index field of every row of an interface report, in order.
pub fn get_interface_indices(iface_out: &str) -> (r: Vec<String>)
    ensures
        r.deep_view() == report(iface_out@).map_values(|row: Seq<Seq<char>>| row[INDEX_COL as int]),
{
    let rows = parse_table(iface_out, HEADER_LINES);
    let ghost rs = report(iface_out@);
    proof {
        crate::table::lemma_rows_non_empty(iface_out@, HEADER_LINES as nat);
    }
    let mut out: Vec<String> = Vec::new();
    let mut i: usize = 0;
    while i < rows.len()
        invariant
            rows.deep_view() == rs,
            rs == report(iface_out@),
            forall|j: int| 0 <= j < rs.len() ==> (#[trigger] rs[j]).len() > 0,
            i <= rows.len(),
            out.deep_view() == rs.subrange(0, i as int).map_values(
                |row: Seq<Seq<char>>| row[INDEX_COL as int],
            ),
        decreases rows.len() - i,
    {
        assert(rows.deep_view()[i as int] == rows@[i as int].deep_view());
        assert(rs[i as int].len() > 0);
        let f = rows[i][INDEX_COL].clone();
        assert(rows@[i as int].deep_view()[0] == rows@[i as int]@[0]@);
        let ghost before = out.deep_view();
        out.push(f);
        assert(out.deep_view() =~= before.push(rs[i as int][INDEX_COL as int]));
        i = i + 1;
        assert(rs.subrange(0, i as int).map_values(|row: Seq<Seq<char>>| row[INDEX_COL as int])
            =~= before.push(rs[i - 1][INDEX_COL as int]));
    }
    assert(rs.subrange(0, rows.len() as int) =~= rs);
    out
}

} // verus!
