//! Reading an interface's address out of the `show ipaddress` report.
use vstd::prelude::*;
use vstd::string::*;
use crate::table::{
    fields_of, is_blank, is_blank_line, lemma_fields_of_non_blank, lines_of, split_fields,
    split_lines,
};

verus! {

/// Non-blank lines from the one that names an interface to the one that
/// holds its address, in the report's fixed layout.
pub const ADDRESS_LINE_OFFSET: usize = 3;

pub open spec fn not_blank() -> spec_fn(Seq<char>) -> bool {
    |l: Seq<char>| !is_blank(l)
}

/// `needle` occurs in `hay` as a run of consecutive characters.
pub open spec fn contains(hay: Seq<char>, needle: Seq<char>) -> bool {
    exists|j: int|
        0 <= j && j + needle.len() <= hay.len() && #[trigger] hay.subrange(j, j + needle.len())
            == needle
}

/// The position of the first line from `i` on that contains `needle`.
pub open spec fn first_containing(ls: Seq<Seq<char>>, needle: Seq<char>, i: int) -> Option<int>
    decreases ls.len() - i,
{
    if i < 0 || i >= ls.len() {
        None
    } else if contains(ls[i], needle) {
        Some(i)
    } else {
        first_containing(ls, needle, i + 1)
    }
}

/// The address of `interface` in an address report: among the non-blank
/// lines, find the first that contains the name; the last field of the
/// non-blank line three further down is the address. None where the name
/// does not occur or that line does not exist.
pub open spec fn ip_address_of(interface: Seq<char>, out: Seq<char>) -> Option<Seq<char>> {
    let ls = lines_of(out).filter(not_blank());
    match first_containing(ls, interface, 0) {
        Some(k) => if k + ADDRESS_LINE_OFFSET < ls.len() {
            Some(fields_of(ls[k + ADDRESS_LINE_OFFSET]).last())
        } else {
            None
        },
        None => None,
    }
}

fn chars_of(s: &str) -> (r: Vec<char>)
    ensures
        r@ == s@,
{
    let n = s.unicode_len();
    let mut out: Vec<char> = Vec::new();
    let mut i: usize = 0;
    while i < n
        invariant
            n == s@.len(),
            i <= n,
            out@ == s@.subrange(0, i as int),
        decreases n - i,
    {
        out.push(s.get_char(i));
        i = i + 1;
        assert(out@ =~= s@.subrange(0, i as int));
    }
    assert(s@.subrange(0, n as int) =~= s@);
    out
}

fn occurs_at(hay: &Vec<char>, needle: &Vec<char>, j: usize) -> (r: bool)
    requires
        j + needle.len() <= hay.len(),
    ensures
        r == (hay@.subrange(j as int, j + needle.len()) == needle@),
{
    let m = needle.len();
    let mut k: usize = 0;
    while k < m
        invariant
            m == needle.len(),
            j + m <= hay.len(),
            k <= m,
            forall|t: int| 0 <= t < k ==> hay@[j + t] == needle@[t],
        decreases m - k,
    {
        if hay[j + k] != needle[k] {
            assert(hay@.subrange(j as int, j + m)[k as int] != needle@[k as int]);
            return false;
        }
        k = k + 1;
    }
    assert(hay@.subrange(j as int, j + m) =~= needle@);
    true
}

fn contains_chars(hay: &Vec<char>, needle: &Vec<char>) -> (r: bool)
    ensures
        r == contains(hay@, needle@),
{
    let m = needle.len();
    if m > hay.len() {
        return false;
    }
    let last = hay.len() - m;
    let mut j: usize = 0;
    while j <= last
        invariant
            m == needle.len(),
            last + m == hay.len(),
            j <= last,
            forall|t: int|
                0 <= t < j && t + m <= hay.len() ==> #[trigger] hay@.subrange(t, t + m) != needle@,
        decreases last - j,
    {
        if occurs_at(hay, needle, j) {
            return true;
        }
        if j == last {
            return false;
        }
        j = j + 1;
    }
    false
}

/// The address that the report `output` gives for `interface` (see
/// `ip_address_of`); `None` where it gives none.
pub fn find_ip_address(interface: &str, output: &str) -> (r: Option<String>)
    ensures
        match r {
            Some(a) => ip_address_of(interface@, output@) == Some(a@),
            None => ip_address_of(interface@, output@) is None,
        },
{
    let lines = split_lines(output);
    let ghost all = lines_of(output@);
    let mut kept: Vec<String> = Vec::new();
    let mut i: usize = 0;
    proof {
        let e = all.subrange(0, 0);
        e.lemma_filter_len(not_blank());
        assert(e.filter(not_blank()) =~= Seq::<Seq<char>>::empty());
    }
    while i < lines.len()
        invariant
            lines.deep_view() == all,
            i <= lines.len(),
            kept.deep_view() == all.subrange(0, i as int).filter(not_blank()),
        decreases lines.len() - i,
    {
        let ghost l = all[i as int];
        proof {
            assert(lines.deep_view()[i as int] == lines@[i as int]@);
            assert(all.subrange(0, i as int + 1) =~= all.subrange(0, i as int).push(l));
            all.subrange(0, i as int).lemma_filter_push(l, not_blank());
        }
        if !is_blank_line(lines[i].as_str()) {
            let ghost before = kept.deep_view();
            kept.push(lines[i].clone());
            assert(kept.deep_view() =~= before.push(l));
        }
        i = i + 1;
    }
    assert(all.subrange(0, lines.len() as int) =~= all);
    let ghost ls = all.filter(not_blank());
    let needle = chars_of(interface);
    let mut k: usize = 0;
    while k < kept.len()
        invariant
            kept.deep_view() == ls,
            ls == all.filter(not_blank()),
            all == lines_of(output@),
            needle@ == interface@,
            k <= kept.len(),
            first_containing(ls, interface@, 0) == first_containing(ls, interface@, k as int),
        decreases kept.len() - k,
    {
        let hay = chars_of(kept[k].as_str());
        assert(kept.deep_view()[k as int] == kept@[k as int]@);
        if contains_chars(&hay, &needle) {
            if kept.len() - k <= ADDRESS_LINE_OFFSET {
                return None;
            }
            let at = k + ADDRESS_LINE_OFFSET;
            assert(kept.deep_view()[at as int] == kept@[at as int]@);
            proof {
                all.lemma_filter_pred(not_blank(), at as int);
                lemma_fields_of_non_blank(ls[at as int]);
            }
            let mut fields = split_fields(kept[at].as_str());
            let last = fields.pop();
            return last;
        }
        k = k + 1;
    }
    None
}

} // verus!
