use vstd::prelude::*;
use vstd::string::*;
use crate::errors::HandlerError;
use crate::params::{params_debug, Params};
use crate::pending::{PendingReqs, SharedAuthReqs};
use crate::types::AuthReq;

verus! {

/// Error text returned when the listing method is called with a parameter
/// that is not the absence-of-value marker.
pub open spec fn unexpected_param_text(p: Params) -> Seq<char> {
    "Unexpected param for 'auth-reqs' method: "@ + params_debug(p)
}

/// Build the error text for a parameter that is not the absence-of-value
/// marker.
pub fn unexpected_param_message(params: &Params) -> (m: String)
    ensures
        m@ == unexpected_param_text(*params),
{
    let mut m = String::from_str("Unexpected param for 'auth-reqs' method: ");
    let d = params.debug_text();
    m.append(d.as_str());
    m
}

/// The listing transformation on a registry value: with the
/// absence-of-value marker it returns a snapshot of every pending request's
/// client-facing descriptor in insertion order; any other parameter is a
/// shape violation and the registry is not read at all.
pub fn handle_auth_reqs(params: &Params, auth_reqs_list: &PendingReqs) -> (r: Result<
    Vec<AuthReq>,
    HandlerError,
>)
    ensures
        *params is Null ==> (r matches Ok(list) && list@ == auth_reqs_list.descriptors()),
        !(*params is Null) ==> (r matches Err(HandlerError::InvalidParams(m)) && m@
            == unexpected_param_text(*params)),
{
    match params {
        Params::Null => Ok(auth_reqs_list.list()),
        _ => Err(HandlerError::InvalidParams(unexpected_param_message(params))),
    }
}

/// The list-pending-requests handler: validates the parameter, then takes a
/// snapshot of the shared pending-request registry under scoped exclusive
/// access.  Every returned listing is the full descriptor sequence of a
/// well-formed registry state that was held at some instant during the call;
/// nothing present at that instant is lost or duplicated.
pub fn process_req(params: &Params, auth_reqs_handle: &SharedAuthReqs) -> (r: Result<
    Vec<AuthReq>,
    HandlerError,
>)
    ensures
        *params is Null ==> r is Ok && exists|snap: PendingReqs|
            #[trigger] snap.wf() && r->Ok_0@ == snap.descriptors(),
        !(*params is Null) ==> (r matches Err(HandlerError::InvalidParams(m)) && m@
            == unexpected_param_text(*params)),
{
    match params {
        Params::Null => {
            let f = |auth_reqs_list: PendingReqs| -> (out: (
                PendingReqs,
                Result<Vec<AuthReq>, String>,
            ))
                requires
                    auth_reqs_list.wf(),
                ensures
                    out.0 == auth_reqs_list,
                    out.1 matches Ok(list) && list@ == auth_reqs_list.descriptors(),
                {
                    let snapshot = auth_reqs_list.list();
                    (auth_reqs_list, Ok(snapshot))
                };
            proof {
                use_type_invariant(auth_reqs_handle);
            }
            let out = auth_reqs_handle.registry.with_exclusive(f);
            match out {
                Ok(list) => {
                    proof {
                        let (v, o) = choose|v: PendingReqs, o: (
                            PendingReqs,
                            Result<Vec<AuthReq>, String>,
                        )|
                            auth_reqs_handle.registry.inv(v) && #[trigger] call_ensures(
                                f,
                                (v,),
                                o,
                            ) && Ok::<Vec<AuthReq>, String>(list) == o.1;
                        assert(v.wf() && list@ == v.descriptors());
                    }
                    Ok(list)
                },
                Err(e) => {
                    proof {
                        assert(false);
                    }
                    Err(HandlerError::Internal(e))
                },
            }
        },
        _ => Err(HandlerError::InvalidParams(unexpected_param_message(params))),
    }
}

} // verus!
