//! The names a DNS search tries, given the resolver's search domains.
use vstd::prelude::*;

use crate::error::{ErrorKind, IoError};

verus! {

/// The message of the error for a name that ends with two dots.
pub const NAME_ENDS_WITH_DOT: &'static str = "name ends with a dot";

/// How many times `b` occurs in `s`.
pub open spec fn count_byte(s: Seq<u8>, b: u8) -> nat {
    s.filter(|c: u8| c == b).len()
}

/// `memchr::Memchr::count`: trusted to count the positions of `haystack` that hold
/// `needle`.
#[verifier::external_body]
fn memchr_count(needle: u8, haystack: &[u8]) -> (n: usize)
    ensures
        n == count_byte(haystack@, needle),
{
    memchr::Memchr::new(needle, haystack).count()
}

pub open spec fn ends_with_dot(s: Seq<u8>) -> bool {
    s.len() > 0 && s.last() == 46u8
}

/// The names to try, in order: when the name has fewer than `ndots` dots and does not end
/// with a dot, the name joined by a dot with each search domain; last, the name itself. A
/// name with enough dots, or a trailing dot, is global and looked up only as it is. One
/// trailing dot is dropped from the name; a name that still ends with a dot is refused.
pub open spec fn spec_search_candidates(
    name: Seq<u8>,
    ndots: u8,
    search: Seq<Seq<u8>>,
) -> Result<Seq<Seq<u8>>, IoError> {
    let global_scope = count_byte(name, 46u8) >= ndots || ends_with_dot(name);
    let trimmed = if ends_with_dot(name) { name.drop_last() } else { name };
    if ends_with_dot(name) && ends_with_dot(trimmed) {
        Err(IoError::Simple { kind: ErrorKind::InvalidInput, message: NAME_ENDS_WITH_DOT })
    } else {
        let qualified = if !global_scope {
            search.map_values(|d: Seq<u8>| trimmed + seq![46u8] + d)
        } else {
            Seq::empty()
        };
        Ok(qualified.push(trimmed))
    }
}

/// The names a search for `name` tries (see [`spec_search_candidates`]); `search` holds
/// the search domains of the resolver configuration, split at whitespace.
pub fn search_candidates(name: &[u8], ndots: u8, search: &Vec<Vec<u8>>) -> (r: Result<
    Vec<Vec<u8>>,
    IoError,
>)
    ensures
        match spec_search_candidates(name@, ndots, search@.map_values(|d: Vec<u8>| d@)) {
            Ok(names) => r is Ok && r->Ok_0@.map_values(|n: Vec<u8>| n@) == names,
            Err(e) => r == Err::<Vec<Vec<u8>>, IoError>(e),
        },
{
    let ghost ds = search@.map_values(|d: Vec<u8>| d@);
    let num_dots = memchr_count(46u8, name);
    let ends = name.len() > 0 && name[name.len() - 1] == 46u8;
    let global_scope = num_dots >= ndots as usize || ends;
    let mut len = name.len();
    if ends {
        len = len - 1;
        if len > 0 && name[len - 1] == 46u8 {
            return Err(
                IoError::Simple { kind: ErrorKind::InvalidInput, message: NAME_ENDS_WITH_DOT },
            );
        }
    }
    let trimmed = &name[0..len];
    let ghost t = trimmed@;
    proof {
        assert(ends ==> t =~= name@.drop_last());
        assert(!ends ==> t =~= name@);
    }
    let mut names: Vec<Vec<u8>> = Vec::new();
    if !global_scope {
        let mut i: usize = 0;
        while i < search.len()
            invariant
                i <= search@.len(),
                ds == search@.map_values(|d: Vec<u8>| d@),
                trimmed@ == t,
                names@.map_values(|n: Vec<u8>| n@) == ds.take(i as int).map_values(
                    |d: Seq<u8>| t + seq![46u8] + d,
                ),
            decreases search@.len() - i,
        {
            let mut candidate: Vec<u8> = vstd::slice::slice_to_vec(trimmed);
            candidate.push(46u8);
            let domain = &search[i];
            let mut j: usize = 0;
            while j < domain.len()
                invariant
                    j <= domain@.len(),
                    candidate@ == t + seq![46u8] + domain@.take(j as int),
                decreases domain@.len() - j,
            {
                candidate.push(domain[j]);
                j = j + 1;
                proof {
                    assert(candidate@ =~= t + seq![46u8] + domain@.take(j as int));
                }
            }
            proof {
                assert(domain@.take(j as int) =~= domain@);
                assert(ds[i as int] == domain@);
                assert(ds.take(i as int + 1) =~= ds.take(i as int).push(ds[i as int]));
            }
            let ghost prev = names@.map_values(|n: Vec<u8>| n@);
            let ghost c = candidate@;
            names.push(candidate);
            proof {
                assert(c == t + seq![46u8] + ds[i as int]);
                assert(names@.map_values(|n: Vec<u8>| n@) =~= prev.push(c));
                assert(ds.take(i as int + 1).map_values(|d: Seq<u8>| t + seq![46u8] + d)
                    =~= ds.take(i as int).map_values(|d: Seq<u8>| t + seq![46u8] + d).push(c));
            }
            i = i + 1;
        }
        proof {
            assert(ds.take(i as int) =~= ds);
        }
    }
    let ghost before = names@.map_values(|n: Vec<u8>| n@);
    names.push(vstd::slice::slice_to_vec(trimmed));
    proof {
        assert(names@.map_values(|n: Vec<u8>| n@) =~= before.push(t));
        if global_scope {
            assert(before =~= Seq::<Seq<u8>>::empty());
        }
    }
    Ok(names)
}

/// A search always tries the name itself last, after the search domains, and tries the
/// domains only for a name with fewer than `ndots` dots and no trailing dot.
pub proof fn lemma_search_ends_with_name(name: Seq<u8>, ndots: u8, search: Seq<Seq<u8>>)
    ensures
        spec_search_candidates(name, ndots, search) matches Ok(names) ==> ({
            &&& names.len() >= 1
            &&& names.last() == (if ends_with_dot(name) { name.drop_last() } else { name })
            &&& names.len() == 1 + (if count_byte(name, 46u8) >= ndots || ends_with_dot(name) {
                0
            } else {
                search.len()
            })
        }),
{
}

} // verus!
