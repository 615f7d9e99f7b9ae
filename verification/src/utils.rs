//! Naming a client.

use vstd::prelude::*;

verus! {

/// Whether a name has to be made up: the lookup went through and found no
/// interface. Only then is the fallback of `get_unique_name` looked at.
pub fn wants_fallback<E>(lookup: &Result<Option<String>, E>) -> (r: bool)
    ensures
        r == (*lookup matches Ok(None)),
{
    match lookup {
        Ok(None) => true,
        _ => false,
    }
}

/// The name a client goes by: the address of its network interface where
/// the lookup found one, the fallback where it found none; a lookup that
/// failed is handed on.
pub fn get_unique_name<E>(lookup: Result<Option<String>, E>, fallback: String) -> (r: Result<
    String,
    E,
>)
    ensures
        match lookup {
            Ok(Some(address)) => r is Ok && r->Ok_0@ == address@,
            Ok(None) => r is Ok && r->Ok_0@ == fallback@,
            Err(e) => r is Err && r->Err_0 == e,
        },
{
    match lookup {
        Ok(Some(address)) => Ok(address),
        Ok(None) => Ok(fallback),
        Err(e) => Err(e),
    }
}

} // verus!
