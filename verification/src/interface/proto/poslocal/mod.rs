use vstd::prelude::*;

verus! {

// Request
/// Every request of the local point of sale service.
#[derive(Clone, Debug)]
pub enum PosLocalRequest {
    NfcGetId,
    GetIdentity,
}

// Response
pub type RespNfcGetId = Option<String>;

pub type RespGetIdentity = String;

} // verus!
