use vstd::prelude::*;
use vstd::string::*;
use crate::errors::HandlerError;
use crate::params::{params_debug, Params};
use crate::subscribers::{spec_lookup, spec_remove, SharedSubscribers, Subscribers};
use crate::types::NotificationSubscription;

verus! {

/// Confirmation text returned after an endpoint was removed.
pub open spec fn success_text(addr: Seq<char>) -> Seq<char> {
    "Unsubscription successful. Endpoint '"@ + addr
        + "' will no longer receive authorisation requests notifications"@
}

/// Error text returned when no subscription was stored under the address.
pub open spec fn not_found_text(addr: Seq<char>) -> Seq<char> {
    "Unsubscription request ignored, no such the endpoint URL ('"@ + addr
        + "') was found to be subscribed"@
}

/// Error text returned when the parameter is not a text value.
pub open spec fn incorrect_params_text(p: Params) -> Seq<char> {
    "Incorrect params for 'unsubscribe' method: "@ + params_debug(p)
}

/// Build the confirmation text naming the removed endpoint.
pub fn success_message(addr: &String) -> (m: String)
    ensures
        m@ == success_text(addr@),
{
    let mut m = String::from_str("Unsubscription successful. Endpoint '");
    m.append(addr.as_str());
    m.append("' will no longer receive authorisation requests notifications");
    m
}

/// Build the error text for an address that was not subscribed.
pub fn not_found_message(addr: &String) -> (m: String)
    ensures
        m@ == not_found_text(addr@),
{
    let mut m = String::from_str("Unsubscription request ignored, no such the endpoint URL ('");
    m.append(addr.as_str());
    m.append("') was found to be subscribed");
    m
}

/// Build the error text for a parameter that is not a text value.
pub fn incorrect_params_message(params: &Params) -> (m: String)
    ensures
        m@ == incorrect_params_text(*params),
{
    let mut m = String::from_str("Incorrect params for 'unsubscribe' method: ");
    let d = params.debug_text();
    m.append(d.as_str());
    m
}

/// The unsubscribe transformation on a registry value: with a text
/// parameter it removes the entry stored under exactly that address and
/// confirms, or fails with a not-found error naming the address; any other
/// parameter shape is a violation that leaves the registry untouched.
pub fn handle_unsubscribe(params: &Params, notif_endpoints_list: &mut Subscribers) -> (r: Result<
    String,
    HandlerError,
>)
    requires
        old(notif_endpoints_list).wf(),
    ensures
        final(notif_endpoints_list).wf(),
        params matches Params::Text(addr) ==> (if spec_lookup(
            old(notif_endpoints_list).entries_seq(),
            addr@,
        ) is Some {
            final(notif_endpoints_list).entries_seq() == spec_remove(
                old(notif_endpoints_list).entries_seq(),
                addr@,
            ) && (r matches Ok(m) && m@ == success_text(addr@))
        } else {
            final(notif_endpoints_list).entries_seq() == old(notif_endpoints_list).entries_seq()
                && (r matches Err(HandlerError::NotFound(m)) && m@ == not_found_text(addr@))
        }),
        !(*params is Text) ==> final(notif_endpoints_list).entries_seq() == old(
            notif_endpoints_list,
        ).entries_seq() && (r matches Err(HandlerError::InvalidParams(m)) && m@
            == incorrect_params_text(*params)),
{
    match params {
        Params::Text(addr) => {
            match notif_endpoints_list.remove(addr) {
                Some(_) => Ok(success_message(addr)),
                None => {
                    proof {
                        crate::subscribers::lemma_remove_not_found(
                            old(notif_endpoints_list).entries_seq(),
                            addr@,
                        );
                    }
                    Err(HandlerError::NotFound(not_found_message(addr)))
                },
            }
        },
        _ => Err(HandlerError::InvalidParams(incorrect_params_message(params))),
    }
}

/// The unsubscribe-endpoint handler: validates the parameter, then removes
/// the addressed entry from the shared subscriber registry under scoped
/// exclusive access.  The confirmation or not-found outcome reports exactly
/// whether the address was subscribed in the well-formed registry state held
/// at some instant during the call; a shape violation never touches the
/// registry.
pub fn process_req(params: &Params, notif_endpoints_handle: &SharedSubscribers) -> (r: Result<
    String,
    HandlerError,
>)
    ensures
        params matches Params::Text(addr) ==> exists|snap: Subscribers|
            #[trigger] snap.wf() && (if spec_lookup(snap.entries_seq(), addr@) is Some {
                r matches Ok(m) && m@ == success_text(addr@)
            } else {
                r matches Err(HandlerError::NotFound(m)) && m@ == not_found_text(addr@)
            }),
        !(*params is Text) ==> (r matches Err(HandlerError::InvalidParams(m)) && m@
            == incorrect_params_text(*params)),
{
    match params {
        Params::Text(addr) => {
            let f = |notif_endpoints_list: Subscribers| -> (out: (
                Subscribers,
                Result<Option<NotificationSubscription>, String>,
            ))
                requires
                    notif_endpoints_list.wf(),
                ensures
                    out.0.wf(),
                    out.0.entries_seq() == spec_remove(notif_endpoints_list.entries_seq(), addr@),
                    out.1 matches Ok(found) && found == spec_lookup(
                        notif_endpoints_list.entries_seq(),
                        addr@,
                    ),
                {
                    let mut list = notif_endpoints_list;
                    let removed = list.remove(addr);
                    (list, Ok(removed))
                };
            proof {
                use_type_invariant(notif_endpoints_handle);
            }
            let out = notif_endpoints_handle.registry.with_exclusive(f);
            proof {
                let (v, o) = choose|v: Subscribers, o: (
                    Subscribers,
                    Result<Option<NotificationSubscription>, String>,
                )|
                    notif_endpoints_handle.registry.inv(v) && #[trigger] call_ensures(f, (v,), o)
                        && out == o.1;
                assert(v.wf());
            }
            match out {
                Ok(Some(_)) => Ok(success_message(addr)),
                Ok(None) => Err(HandlerError::NotFound(not_found_message(addr))),
                Err(e) => {
                    proof {
                        assert(false);
                    }
                    Err(HandlerError::Internal(e))
                },
            }
        },
        _ => Err(HandlerError::InvalidParams(incorrect_params_message(params))),
    }
}

} // verus!
