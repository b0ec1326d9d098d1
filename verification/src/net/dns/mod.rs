//! Name resolution from the system files.
use vstd::prelude::*;

use crate::net::utils::{
    bytes_eq, comment_free, is_utf8, remove_comment, split, split_by, Sep,
};

pub mod exchange;
pub mod lookup_name;
pub mod lookup_serv;
pub mod query;
pub mod resolv;
pub mod search;

verus! {

/// The address a line of the hosts file gives for `name`: the line's first column, when
/// one of the other columns is the name and the first is valid UTF-8. Columns are split
/// at every whitespace byte, so runs of whitespace make empty columns; `#` starts a
/// comment.
pub open spec fn host_address(name: Seq<u8>, line: Seq<u8>) -> Option<Seq<u8>> {
    let cols = split(comment_free(line), Sep::Whitespace);
    if cols.skip(1).contains(name) && vstd::utf8::valid_utf8(cols[0]) {
        Some(cols[0])
    } else {
        None
    }
}

/// The address of the first line of the hosts file that gives one for `name`.
pub open spec fn hosts_lookup(name: Seq<u8>, lines: Seq<Seq<u8>>) -> Option<Seq<u8>>
    decreases lines.len(),
{
    if lines.len() == 0 {
        None
    } else {
        match host_address(name, lines[0]) {
            Some(a) => Some(a),
            None => hosts_lookup(name, lines.drop_first()),
        }
    }
}

/// Looks `name` up in the lines of the hosts file; returns the text of the address, which
/// is valid UTF-8.
pub fn from_hosts(name: &[u8], lines: &Vec<Vec<u8>>) -> (r: Option<Vec<u8>>)
    ensures
        match hosts_lookup(name@, lines@.map_values(|l: Vec<u8>| l@)) {
            Some(a) => r is Some && r->0@ == a,
            None => r is None,
        },
{
    let ghost ls = lines@.map_values(|l: Vec<u8>| l@);
    let mut i: usize = 0;
    proof {
        assert(ls.skip(0) =~= ls);
    }
    while i < lines.len()
        invariant
            i <= lines@.len(),
            ls == lines@.map_values(|l: Vec<u8>| l@),
            hosts_lookup(name@, ls) == hosts_lookup(name@, ls.skip(i as int)),
        decreases lines@.len() - i,
    {
        let line = remove_comment(lines[i].as_slice());
        let columns = split_by(line, Sep::Whitespace);
        let ghost cols = columns@.map_values(|p: &[u8]| p@);
        proof {
            assert(ls[i as int] == lines@[i as int]@);
            assert(line@ == comment_free(ls[i as int]));
            assert(cols.len() >= 1) by {
                lemma_split_nonempty(line@, Sep::Whitespace);
            }
            assert(ls.skip(i as int).drop_first() =~= ls.skip(i as int + 1));
            assert(ls.skip(i as int)[0] == ls[i as int]);
        }
        let addr = columns[0];
        let mut j: usize = 1;
        while j < columns.len()
            invariant
                1 <= j <= columns@.len(),
                i < lines@.len(),
                ls == lines@.map_values(|l: Vec<u8>| l@),
                hosts_lookup(name@, ls) == hosts_lookup(name@, ls.skip(i as int)),
                ls.skip(i as int)[0] == ls[i as int],
                line@ == comment_free(ls[i as int]),
                cols == split(line@, Sep::Whitespace),
                cols == columns@.map_values(|p: &[u8]| p@),
                addr@ == cols[0],
                !vstd::utf8::valid_utf8(cols[0]) || forall|k: int| 1 <= k < j ==> cols[k] != name@,
            decreases columns@.len() - j,
        {
            if bytes_eq(name, columns[j]) {
                if is_utf8(addr) {
                    proof {
                        assert(cols.skip(1)[j - 1] == cols[j as int]);
                        assert(cols.skip(1).contains(name@));
                        assert(host_address(name@, ls[i as int]) == Some(cols[0]));
                    }
                    return Some(vstd::slice::slice_to_vec(addr));
                }
            }
            j = j + 1;
        }
        proof {
            if vstd::utf8::valid_utf8(cols[0]) {
                assert forall|k: int| 0 <= k < cols.skip(1).len() implies cols.skip(1)[k]
                    != name@ by {
                    assert(cols.skip(1)[k] == cols[k + 1]);
                }
            }
            assert(host_address(name@, ls[i as int]) is None);
        }
        i = i + 1;
    }
    proof {
        assert(ls.skip(i as int) =~= Seq::<Seq<u8>>::empty());
    }
    None
}

/// Looking a name up in two files one after the other: the first file's address when it
/// has one, else the second's.
pub proof fn lemma_hosts_lookup_concat(name: Seq<u8>, a: Seq<Seq<u8>>, b: Seq<Seq<u8>>)
    ensures
        hosts_lookup(name, a + b) == match hosts_lookup(name, a) {
            Some(x) => Some(x),
            None => hosts_lookup(name, b),
        },
    decreases a.len(),
{
    if a.len() > 0 {
        assert((a + b)[0] == a[0]);
        assert((a + b).drop_first() =~= a.drop_first() + b);
        lemma_hosts_lookup_concat(name, a.drop_first(), b);
    } else {
        assert(a + b =~= b);
    }
}

/// A blank line gives no address.
pub proof fn lemma_blank_line_gives_nothing(name: Seq<u8>)
    ensures
        hosts_lookup(name, seq![Seq::<u8>::empty()]) is None,
{
    let e = Seq::<u8>::empty();
    assert(comment_free(e) =~= e);
    assert(split(e, Sep::Whitespace) =~= seq![e]);
    assert(seq![e].skip(1) =~= Seq::<Seq<u8>>::empty());
    assert(!seq![e].skip(1).contains(name));
    assert(host_address(name, e) is None);
    let ls = seq![e];
    assert(ls[0] == e);
    assert(ls.drop_first() =~= Seq::<Seq<u8>>::empty());
    assert(hosts_lookup(name, Seq::<Seq<u8>>::empty()) is None);
}

/// Blank lines do not change a lookup: one inserted anywhere in the file leaves the
/// answer as it was, so lines after a blank one are still searched.
pub proof fn lemma_blank_lines_are_skipped(name: Seq<u8>, lines: Seq<Seq<u8>>, k: int)
    requires
        0 <= k <= lines.len(),
    ensures
        hosts_lookup(name, lines.insert(k, Seq::<u8>::empty())) == hosts_lookup(name, lines),
{
    let blank = seq![Seq::<u8>::empty()];
    let pre = lines.take(k);
    let post = lines.skip(k);
    assert(lines.insert(k, Seq::<u8>::empty()) =~= pre + (blank + post));
    assert(lines =~= pre + post);
    lemma_hosts_lookup_concat(name, pre, blank + post);
    lemma_hosts_lookup_concat(name, blank, post);
    lemma_hosts_lookup_concat(name, pre, post);
    lemma_blank_line_gives_nothing(name);
}

/// A line whose first column is text and one of whose other columns is the name gives that
/// first column as the address, unless an earlier line already gave one; what follows
/// does not matter.
pub proof fn lemma_host_line_found(
    name: Seq<u8>,
    line: Seq<u8>,
    cols: Seq<Seq<u8>>,
    k: int,
    before: Seq<Seq<u8>>,
    after: Seq<Seq<u8>>,
)
    requires
        split(comment_free(line), Sep::Whitespace) == cols,
        1 <= k < cols.len(),
        cols[k] == name,
        vstd::utf8::valid_utf8(cols[0]),
        hosts_lookup(name, before) is None,
    ensures
        hosts_lookup(name, before + seq![line] + after) == Some(cols[0]),
{
    assert(cols.skip(1)[k - 1] == cols[k]);
    assert(host_address(name, line) == Some(cols[0]));
    assert(before + seq![line] + after =~= before + (seq![line] + after));
    lemma_hosts_lookup_concat(name, before, seq![line] + after);
    assert((seq![line] + after)[0] == line);
}

/// Splitting always gives at least one piece.
pub proof fn lemma_split_nonempty(s: Seq<u8>, sep: Sep)
    ensures
        split(s, sep).len() >= 1,
    decreases s.len(),
{
    let k = crate::net::utils::sep_index(s, sep);
    if 0 <= k < s.len() {
        lemma_split_nonempty(s.skip(k + 1), sep);
    }
}

} // verus!
