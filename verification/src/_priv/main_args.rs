//! The arguments of the `main` attribute: `scale = ..` and `restart = ..`, each at most once.
use vstd::prelude::*;

use crate::net::utils::bytes_eq;

verus! {

pub open spec fn word_scale() -> Seq<u8> {
    seq![115u8, 99u8, 97u8, 108u8, 101u8]
}

pub open spec fn word_restart() -> Seq<u8> {
    seq![114u8, 101u8, 115u8, 116u8, 97u8, 114u8, 116u8]
}

/// Where the value of each argument stands in the argument list; `None` for an argument
/// that was not given, which then takes its default (`scale = 1`, `restart = false`).
#[derive(PartialEq, Eq, Structural, Debug, Clone, Copy)]
pub struct MainArgs {
    pub scale: Option<usize>,
    pub restart: Option<usize>,
}

/// Why an argument list is refused, with the position of the offending argument.
#[derive(PartialEq, Eq, Structural, Debug, Clone, Copy)]
pub enum ArgError {
    /// An argument other than `scale` and `restart`.
    Unsupported(usize),
    /// An argument given a second time.
    Repeated(usize),
}

/// The outcome of reading the first `n` argument names.
pub open spec fn read_args(names: Seq<Seq<u8>>, n: nat) -> Result<MainArgs, ArgError>
    decreases n,
{
    if n == 0 {
        Ok(MainArgs { scale: None, restart: None })
    } else {
        let k = (n - 1) as nat;
        match read_args(names, k) {
            Err(e) => Err(e),
            Ok(a) => {
                let name = names[k as int];
                if name == word_scale() && a.scale is None {
                    Ok(MainArgs { scale: Some(k as usize), ..a })
                } else if name == word_restart() && a.restart is None {
                    Ok(MainArgs { restart: Some(k as usize), ..a })
                } else if name != word_scale() && name != word_restart() {
                    Err(ArgError::Unsupported(k as usize))
                } else {
                    Err(ArgError::Repeated(k as usize))
                }
            },
        }
    }
}

/// Once an argument is refused, the list is refused for it, whatever follows.
proof fn lemma_refusal_sticks(names: Seq<Seq<u8>>, k: nat, n: nat)
    requires
        k <= n,
        read_args(names, k) is Err,
    ensures
        read_args(names, n) == read_args(names, k),
    decreases n - k,
{
    if k < n {
        lemma_refusal_sticks(names, k, (n - 1) as nat);
    }
}

/// An accepted argument list holds each argument at most once, at the position recorded
/// for it.
pub proof fn lemma_accepted_positions(names: Seq<Seq<u8>>, n: nat)
    requires
        n <= names.len() <= usize::MAX,
        read_args(names, n) is Ok,
    ensures
        ({
            let a = read_args(names, n)->Ok_0;
            &&& a.scale matches Some(k) ==> k < n && names[k as int] == word_scale()
            &&& a.restart matches Some(k) ==> k < n && names[k as int] == word_restart()
            &&& forall|i: int|
                0 <= i < n ==> (names[i] == word_scale() && a.scale == Some(i as usize)) || (
                names[i] == word_restart() && a.restart == Some(i as usize))
        }),
    decreases n,
{
    if n > 0 {
        lemma_accepted_positions(names, (n - 1) as nat);
    }
}

/// Reads the names of the arguments `name = value, ...`, in order.
pub fn parse_main_args(names: &Vec<Vec<u8>>) -> (r: Result<MainArgs, ArgError>)
    ensures
        r == read_args(names@.map_values(|v: Vec<u8>| v@), names@.len()),
{
    let ghost ns = names@.map_values(|v: Vec<u8>| v@);
    let scale = [115u8, 99u8, 97u8, 108u8, 101u8];
    let restart = [114u8, 101u8, 115u8, 116u8, 97u8, 114u8, 116u8];
    proof {
        assert(scale@ =~= word_scale());
        assert(restart@ =~= word_restart());
    }
    let mut args = MainArgs { scale: None, restart: None };
    let mut i: usize = 0;
    while i < names.len()
        invariant
            i <= names@.len(),
            ns == names@.map_values(|v: Vec<u8>| v@),
            scale@ == word_scale(),
            restart@ == word_restart(),
            read_args(ns, i as nat) == Ok::<MainArgs, ArgError>(args),
        decreases names@.len() - i,
    {
        let name = names[i].as_slice();
        proof {
            assert(ns[i as int] == name@);
        }
        let is_scale = bytes_eq(name, &scale);
        let is_restart = bytes_eq(name, &restart);
        if is_scale && args.scale.is_none() {
            args = MainArgs { scale: Some(i), ..args };
        } else if is_restart && args.restart.is_none() {
            args = MainArgs { restart: Some(i), ..args };
        } else {
            let e = if !is_scale && !is_restart {
                ArgError::Unsupported(i)
            } else {
                ArgError::Repeated(i)
            };
            proof {
                assert(read_args(ns, (i + 1) as nat) == Err::<MainArgs, ArgError>(e));
                lemma_refusal_sticks(ns, (i + 1) as nat, names@.len());
            }
            return Err(e);
        }
        i = i + 1;
    }
    Ok(args)
}

} // verus!
