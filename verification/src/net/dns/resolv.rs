//! The structure of `/etc/resolv.conf`.
use vstd::prelude::*;

use crate::net::utils::{
    bytes_eq, comment_free, fields, fields_of, joined, lemma_joined_columns, plain_column,
    spec_is_whitespace, parse_decimal, parse_decimal_exec, remove_comment,
    spec_strip_prefix, split, split_by, strip_prefix, Sep,
};

verus! {

/// The resolver configuration. Name servers are kept as the text the file gives; the
/// caller turns them into addresses and drops those that are not.
pub struct ResolvConf {
    /// The list of name servers.
    pub name_servers: Vec<Vec<u8>>,
    /// The number of dots from which a name is looked up as it is first.
    pub ndots: u8,
    /// Maximum timeout in seconds.
    pub timeout: u8,
    /// Maximum number of retries.
    pub attempts: u8,
    /// The search domain to use.
    pub search: Option<Vec<u8>>,
}

/// The configuration as plain values.
pub struct ResolvView {
    pub name_servers: Seq<Seq<u8>>,
    pub ndots: u8,
    pub timeout: u8,
    pub attempts: u8,
    pub search: Option<Seq<u8>>,
}

impl View for ResolvConf {
    type V = ResolvView;

    open spec fn view(&self) -> ResolvView {
        ResolvView {
            name_servers: self.name_servers@.map_values(|n: Vec<u8>| n@),
            ndots: self.ndots,
            timeout: self.timeout,
            attempts: self.attempts,
            search: match self.search {
                Some(s) => Some(s@),
                None => None,
            },
        }
    }
}

pub open spec fn word_search() -> Seq<u8> {
    seq![115u8, 101u8, 97u8, 114u8, 99u8, 104u8]
}

pub open spec fn word_nameserver() -> Seq<u8> {
    seq![110u8, 97u8, 109u8, 101u8, 115u8, 101u8, 114u8, 118u8, 101u8, 114u8]
}

pub open spec fn word_options() -> Seq<u8> {
    seq![111u8, 112u8, 116u8, 105u8, 111u8, 110u8, 115u8]
}

pub open spec fn word_ndots() -> Seq<u8> {
    seq![110u8, 100u8, 111u8, 116u8, 115u8, 58u8]
}

pub open spec fn word_timeout() -> Seq<u8> {
    seq![116u8, 105u8, 109u8, 101u8, 111u8, 117u8, 116u8, 58u8]
}

pub open spec fn word_attempts() -> Seq<u8> {
    seq![97u8, 116u8, 116u8, 101u8, 109u8, 112u8, 116u8, 115u8, 58u8]
}

/// What one line of the file does to the configuration. A line is `key value ...`, `#`
/// starting a comment; only the first value counts:
/// - `search d` sets the search domain to `d`;
/// - `nameserver a` adds `a` to the name servers;
/// - `options ndots:n`, `options timeout:n`, `options attempts:n` set that number, when
///   `n` is a decimal number no larger than 255;
/// - anything else changes nothing.
pub open spec fn apply_line(c: ResolvView, line: Seq<u8>) -> ResolvView {
    let cols = fields(comment_free(line));
    if cols.len() < 2 {
        c
    } else {
        let key = cols[0];
        let value = cols[1];
        if key == word_search() {
            ResolvView { search: Some(value), ..c }
        } else if key == word_nameserver() {
            ResolvView { name_servers: c.name_servers.push(value), ..c }
        } else if key == word_options() {
            if spec_strip_prefix(value, word_ndots()) is Some {
                match parse_decimal(spec_strip_prefix(value, word_ndots())->0, 255) {
                    Some(n) => ResolvView { ndots: n as u8, ..c },
                    None => c,
                }
            } else if spec_strip_prefix(value, word_timeout()) is Some {
                match parse_decimal(spec_strip_prefix(value, word_timeout())->0, 255) {
                    Some(n) => ResolvView { timeout: n as u8, ..c },
                    None => c,
                }
            } else if spec_strip_prefix(value, word_attempts()) is Some {
                match parse_decimal(spec_strip_prefix(value, word_attempts())->0, 255) {
                    Some(n) => ResolvView { attempts: n as u8, ..c },
                    None => c,
                }
            } else {
                c
            }
        } else {
            c
        }
    }
}

/// What the lines do to the configuration, in order.
pub open spec fn apply_lines(c: ResolvView, lines: Seq<Seq<u8>>) -> ResolvView
    decreases lines.len(),
{
    if lines.len() == 0 {
        c
    } else {
        apply_line(apply_lines(c, lines.drop_last()), lines.last())
    }
}

/// The line `nameserver v`.
pub open spec fn nameserver_line(v: Seq<u8>) -> Seq<u8> {
    joined(seq![word_nameserver(), v])
}

/// A `nameserver v` line adds `v` after the name servers already known, however many there
/// are, and changes nothing else.
pub proof fn lemma_nameserver_line_appends(c: ResolvView, v: Seq<u8>)
    requires
        v.len() > 0,
        plain_column(v),
    ensures
        apply_line(c, nameserver_line(v)) == (ResolvView {
            name_servers: c.name_servers.push(v),
            ..c
        }),
{
    let cols = seq![word_nameserver(), v];
    assert(plain_column(word_nameserver()));
    assert forall|k: int| 0 <= k < cols.len() implies plain_column(#[trigger] cols[k]) by {
        if k == 0 {
            assert(cols[k] == word_nameserver());
        } else {
            assert(cols[k] == v);
        }
    }
    lemma_joined_columns(cols);
    assert(fields(comment_free(nameserver_line(v))) == cols);
    assert(cols[0] != word_search());
}

proof fn lemma_plain_concat(a: Seq<u8>, b: Seq<u8>)
    requires
        plain_column(a),
        plain_column(b),
    ensures
        plain_column(a + b),
{
    assert forall|i: int| 0 <= i < (a + b).len() implies !spec_is_whitespace(#[trigger] (a + b)[i])
        && (a + b)[i] != 35u8 by {
        if i < a.len() {
            assert((a + b)[i] == a[i]);
        } else {
            assert((a + b)[i] == b[i - a.len()]);
        }
    }
}

proof fn lemma_two_columns(key: Seq<u8>, value: Seq<u8>)
    requires
        key.len() > 0,
        value.len() > 0,
        plain_column(key),
        plain_column(value),
    ensures
        fields(comment_free(joined(seq![key, value]))) == seq![key, value],
{
    let cols = seq![key, value];
    assert forall|k: int| 0 <= k < cols.len() implies plain_column(#[trigger] cols[k]) by {
        if k == 0 {
            assert(cols[k] == key);
        } else {
            assert(cols[k] == value);
        }
    }
    lemma_joined_columns(cols);
}

/// `search d` sets the search domain to `d`; `options ndots:n`, `options timeout:n` and
/// `options attempts:n` set that number to `n` when `n` reads as a number up to 255, and
/// leave the configuration as it was otherwise. Nothing else changes.
pub proof fn lemma_settings_lines(c: ResolvView, d: Seq<u8>, digits: Seq<u8>)
    requires
        d.len() > 0,
        plain_column(d),
        plain_column(digits),
    ensures
        apply_line(c, joined(seq![word_search(), d])) == (ResolvView { search: Some(d), ..c }),
        apply_line(c, joined(seq![word_options(), word_ndots() + digits])) == match parse_decimal(
            digits,
            255,
        ) {
            Some(n) => ResolvView { ndots: n as u8, ..c },
            None => c,
        },
        apply_line(c, joined(seq![word_options(), word_timeout() + digits])) == match parse_decimal(
            digits,
            255,
        ) {
            Some(n) => ResolvView { timeout: n as u8, ..c },
            None => c,
        },
        apply_line(c, joined(seq![word_options(), word_attempts() + digits])) == match parse_decimal(
            digits,
            255,
        ) {
            Some(n) => ResolvView { attempts: n as u8, ..c },
            None => c,
        },
{
    assert(plain_column(word_search()));
    assert(plain_column(word_options()));
    assert(plain_column(word_ndots()));
    assert(plain_column(word_timeout()));
    assert(plain_column(word_attempts()));
    lemma_two_columns(word_search(), d);
    lemma_plain_concat(word_ndots(), digits);
    lemma_plain_concat(word_timeout(), digits);
    lemma_plain_concat(word_attempts(), digits);
    lemma_two_columns(word_options(), word_ndots() + digits);
    lemma_two_columns(word_options(), word_timeout() + digits);
    lemma_two_columns(word_options(), word_attempts() + digits);
    assert((word_ndots() + digits).take(6) =~= word_ndots());
    assert((word_ndots() + digits).skip(6) =~= digits);
    assert((word_timeout() + digits).take(8) =~= word_timeout());
    assert((word_timeout() + digits).skip(8) =~= digits);
    assert((word_attempts() + digits).take(9) =~= word_attempts());
    assert((word_attempts() + digits).skip(9) =~= digits);
    assert((word_timeout() + digits).take(6) != word_ndots()) by {
        assert((word_timeout() + digits).take(6)[0] != word_ndots()[0]);
    }
    assert((word_attempts() + digits).take(6) != word_ndots()) by {
        assert((word_attempts() + digits).take(6)[0] != word_ndots()[0]);
    }
    assert((word_attempts() + digits).take(8) != word_timeout()) by {
        assert((word_attempts() + digits).take(8)[0] != word_timeout()[0]);
    }
    assert(word_options() != word_search()) by {
        assert(word_options()[0] != word_search()[0]);
    }
    assert(word_options() != word_nameserver()) by {
        assert(word_options()[0] != word_nameserver()[0]);
    }
}

/// The name servers of a file of `nameserver` lines are the values of those lines, in
/// order, after the ones already known; nothing else changes.
pub proof fn lemma_nameservers_in_order(c: ResolvView, values: Seq<Seq<u8>>)
    requires
        forall|i: int| 0 <= i < values.len() ==> (#[trigger] values[i]).len() > 0 && plain_column(
            values[i],
        ),
    ensures
        apply_lines(c, values.map_values(|v: Seq<u8>| nameserver_line(v))) == (ResolvView {
            name_servers: c.name_servers + values,
            ..c
        }),
    decreases values.len(),
{
    let lines = values.map_values(|v: Seq<u8>| nameserver_line(v));
    if values.len() == 0 {
        assert(c.name_servers + values =~= c.name_servers);
    } else {
        let before = values.drop_last();
        assert forall|i: int| 0 <= i < before.len() implies (#[trigger] before[i]).len() > 0
            && plain_column(before[i]) by {
            assert(before[i] == values[i]);
        }
        lemma_nameservers_in_order(c, before);
        assert(lines.drop_last() =~= before.map_values(|v: Seq<u8>| nameserver_line(v)));
        let last = values[values.len() - 1];
        assert(last.len() > 0 && plain_column(last));
        let mid = apply_lines(c, lines.drop_last());
        lemma_nameserver_line_appends(mid, last);
        assert(c.name_servers + before.push(last) =~= (c.name_servers + before).push(last));
        assert(before.push(last) =~= values);
    }
}

impl Default for ResolvConf {
    /// No name server; one dot, five seconds, two attempts; no search domain.
    fn default() -> (c: Self)
        ensures
            c@.name_servers == Seq::<Seq<u8>>::empty(),
            c@.ndots == 1,
            c@.timeout == 5,
            c@.attempts == 2,
            c@.search is None,
    {
        let c = ResolvConf {
            name_servers: Vec::new(),
            ndots: 1,
            timeout: 5,
            attempts: 2,
            search: None,
        };
        proof {
            assert(c@.name_servers =~= Seq::<Seq<u8>>::empty());
        }
        c
    }
}

impl ResolvConf {
    /// Applies one line of the file.
    fn load_line(&mut self, line: &[u8])
        ensures
            final(self)@ == apply_line(old(self)@, line@),
    {
        let line = remove_comment(line);
        let columns = fields_of(line);
        if columns.len() < 2 {
            return;
        }
        let key = columns[0];
        let value = columns[1];
        let search = [115u8, 101u8, 97u8, 114u8, 99u8, 104u8];
        let nameserver = [110u8, 97u8, 109u8, 101u8, 115u8, 101u8, 114u8, 118u8, 101u8, 114u8];
        let options = [111u8, 112u8, 116u8, 105u8, 111u8, 110u8, 115u8];
        let ndots = [110u8, 100u8, 111u8, 116u8, 115u8, 58u8];
        let timeout = [116u8, 105u8, 109u8, 101u8, 111u8, 117u8, 116u8, 58u8];
        let attempts = [97u8, 116u8, 116u8, 101u8, 109u8, 112u8, 116u8, 115u8, 58u8];
        proof {
            assert(search@ =~= word_search());
            assert(nameserver@ =~= word_nameserver());
            assert(options@ =~= word_options());
            assert(ndots@ =~= word_ndots());
            assert(timeout@ =~= word_timeout());
            assert(attempts@ =~= word_attempts());
        }
        if bytes_eq(key, &search) {
            self.search = Some(vstd::slice::slice_to_vec(value));
        } else if bytes_eq(key, &nameserver) {
            self.name_servers.push(vstd::slice::slice_to_vec(value));
            proof {
                assert(self@.name_servers =~= old(self)@.name_servers.push(value@));
            }
        } else if bytes_eq(key, &options) {
            if let Some(n) = strip_prefix(value, &ndots) {
                if let Some(n) = parse_decimal_exec(n, 255) {
                    self.ndots = n as u8;
                }
            } else if let Some(t) = strip_prefix(value, &timeout) {
                if let Some(t) = parse_decimal_exec(t, 255) {
                    self.timeout = t as u8;
                }
            } else if let Some(a) = strip_prefix(value, &attempts) {
                if let Some(a) = parse_decimal_exec(a, 255) {
                    self.attempts = a as u8;
                }
            }
        }
    }

    /// Applies the text of the file, line by line.
    pub fn load_from_text(&mut self, conf: &[u8])
        ensures
            final(self)@ == apply_lines(old(self)@, split(conf@, Sep::Byte(10u8))),
    {
        let lines = split_by(conf, Sep::Byte(10u8));
        let ghost ls = lines@.map_values(|p: &[u8]| p@);
        let mut i: usize = 0;
        while i < lines.len()
            invariant
                i <= lines@.len(),
                ls == lines@.map_values(|p: &[u8]| p@),
                ls == split(conf@, Sep::Byte(10u8)),
                self@ == apply_lines(old(self)@, ls.take(i as int)),
            decreases lines@.len() - i,
        {
            proof {
                assert(ls.take(i as int + 1).drop_last() =~= ls.take(i as int));
                assert(ls[i as int] == lines@[i as int]@);
            }
            self.load_line(lines[i]);
            i = i + 1;
        }
        proof {
            assert(ls.take(i as int) =~= ls);
        }
    }
}

} // verus!
