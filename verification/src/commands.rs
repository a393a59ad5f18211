use vstd::prelude::*;

verus! {

/// The status a reply carries in its `error` member.
#[derive(PartialEq, Eq, Structural, Clone, Copy, Debug)]
pub enum MpvCommandStatus {
    Success,
    Error,
    InvalidParameter,
}

/// A reply correlated to one previously sent command. `data` holds the raw
/// bytes of the reply's payload member, when one is present and not `null`.
#[derive(Debug, PartialEq, Eq)]
pub struct MpvCommandResponse {
    pub error: MpvCommandStatus,
    pub data: Option<Vec<u8>>,
    pub request_id: u64,
}

/// The mathematical image of [`MpvCommandResponse`].
pub struct RespV {
    pub error: MpvCommandStatus,
    pub data: Option<Seq<u8>>,
    pub request_id: u64,
}

impl View for MpvCommandResponse {
    type V = RespV;

    open spec fn view(&self) -> RespV {
        RespV {
            error: self.error,
            data: match self.data {
                Some(d) => Some(d@),
                None => None,
            },
            request_id: self.request_id,
        }
    }
}

/// One argument of an outgoing command: the protocol sends strings and
/// unsigned numbers.
#[derive(Debug, PartialEq, Eq)]
pub enum CmdArg {
    Str(Vec<u8>),
    Int(u64),
}

/// The mathematical image of [`CmdArg`].
pub enum ArgV {
    Str(Seq<u8>),
    Int(u64),
}

impl View for CmdArg {
    type V = ArgV;

    open spec fn view(&self) -> ArgV {
        match self {
            CmdArg::Str(s) => ArgV::Str(s@),
            CmdArg::Int(n) => ArgV::Int(*n),
        }
    }
}

/// The members of an argument vector, as the contracts see them.
pub open spec fn args_view(s: Seq<CmdArg>) -> Seq<ArgV> {
    s.map_values(|a: CmdArg| a@)
}

/// One outgoing command: its argument vector and the request identifier it
/// was registered under.
#[derive(Debug, PartialEq, Eq)]
pub struct MpvCommand {
    pub command: Vec<CmdArg>,
    pub request_id: u64,
}

} // verus!
