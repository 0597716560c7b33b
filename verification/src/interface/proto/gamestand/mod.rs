use vstd::prelude::*;

pub mod v1;

pub use v1 as latest;

verus! {

/// Where the stand listens for games.
pub const STAND_GAME_SOCKET: &'static str = "127.0.0.1:42243";

/// The error text that a stand reply carried.
#[derive(Clone, Debug)]
pub struct ResponseErr(pub String);

impl ResponseErr {
    /// The text shown for the error: the error text itself.
    pub fn to_string(&self) -> (s: String)
        ensures
            s@ == self.0@,
    {
        self.0.clone()
    }
}

impl<T> Response<T> {
    /// The reply as a `Result`: a success keeps the value, a failure wraps the text in
    /// a [`ResponseErr`].
    pub fn into_res(self) -> (r: Result<T, ResponseErr>)
        ensures
            r == (match self {
                Response::Success(s) => Ok(s),
                Response::Failure(e) => Err(ResponseErr(e)),
            }),
    {
        match self {
            Response::Success(s) => Ok(s),
            Response::Failure(e) => Err(ResponseErr(e)),
        }
    }
}

/// A stand reply: the value, or an error text. (On the wire the two variants
/// are named `ok` and `err`.)
pub enum Response<T> {
    Success(T),
    Failure(String),
}

/// A request to the stand, by protocol version.
pub enum GameStandReq {
    V1(v1::Request),
}

impl From<v1::Request> for GameStandReq {
    fn from(value: v1::Request) -> (r: GameStandReq) {
        GameStandReq::V1(value)
    }
}

impl vstd::std_specs::convert::FromSpecImpl<v1::Request> for GameStandReq {
    open spec fn obeys_from_spec() -> bool {
        true
    }

    open spec fn from_spec(v: v1::Request) -> GameStandReq {
        GameStandReq::V1(v)
    }
}

/// An error body of the stand.
pub struct ResError {
    error: String,
}

} // verus!
