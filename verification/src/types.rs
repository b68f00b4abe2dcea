use vstd::prelude::*;

verus! {

/// Client-facing descriptor of one pending authorisation request: the
/// identifier assigned to the ask and the metadata the requesting
/// application supplied.
#[derive(Debug)]
pub struct AuthReq {
    /// Identifier of the request, unique among pending requests.
    pub req_id: u32,
    /// Identifier of the requesting application.
    pub app_id: String,
    /// Human-readable name of the requesting application.
    pub app_name: String,
    /// Vendor of the requesting application.
    pub app_vendor: String,
}

impl AuthReq {
    /// Deep copy whose value equals the original.
    pub fn clone_req(&self) -> (r: AuthReq)
        ensures
            r == *self,
    {
        AuthReq {
            req_id: self.req_id,
            app_id: self.app_id.clone(),
            app_name: self.app_name.clone(),
            app_vendor: self.app_vendor.clone(),
        }
    }
}

/// One outstanding authorisation ask as the registry stores it: the
/// client-facing descriptor plus originator-owned bookkeeping that listing
/// must not leak.
#[derive(Debug)]
pub struct PendingAuthRequest {
    /// The client-facing descriptor handed back by the list handler.
    pub auth_req: AuthReq,
    /// When the originator recorded the ask (originator-owned payload).
    pub timestamp: u64,
}

impl PendingAuthRequest {
    /// Deep copy whose value equals the original.
    pub fn clone_req(&self) -> (r: PendingAuthRequest)
        ensures
            r == *self,
    {
        PendingAuthRequest { auth_req: self.auth_req.clone_req(), timestamp: self.timestamp }
    }
}

/// A notification subscription as the subscriber registry stores it.  The
/// delivery handle itself (an open connection or similar) is owned by the
/// subscription's creator; the registry keeps only a token naming it.
#[derive(Debug, Clone, Copy, PartialEq, Eq, Structural)]
pub struct NotificationSubscription {
    /// Token standing for the creator-owned delivery handle.
    pub delivery_handle: u64,
}

} // verus!
