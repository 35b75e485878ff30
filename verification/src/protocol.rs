//! What the command line and the daemon say to each other.
use vstd::prelude::*;
use crate::error::{rendered, Chain, Error};
use crate::text;

verus! {

/// Socket path used when no runtime directory is available.
pub const FALLBACK_SOCKET_PATH: &'static str = "/tmp/niri_sticky_cli.sock";

/// The socket path under a given runtime directory.
pub open spec fn socket_path(runtime_dir: Option<Seq<char>>) -> Seq<char> {
    match runtime_dir {
        Some(dir) => if dir.len() == 0 {
            FALLBACK_SOCKET_PATH@
        } else {
            text::path_join(text::path_join(dir, "nsticky"@), "cli.sock"@)
        },
        None => FALLBACK_SOCKET_PATH@,
    }
}

/// Where the socket lives under a given `XDG_RUNTIME_DIR`: a per-user directory
/// other users cannot pre-create, or a fixed path when there is none.
pub fn socket_path_in(runtime_dir: Option<&str>) -> (r: String)
    ensures
        r@ == socket_path(runtime_dir.deep_view()),
{
    match runtime_dir {
        Some(dir) => {
            if dir.is_empty() {
                FALLBACK_SOCKET_PATH.to_owned()
            } else {
                text::join_path(text::join_path(dir, "nsticky").as_str(), "cli.sock")
            }
        },
        None => FALLBACK_SOCKET_PATH.to_owned(),
    }
}

/// A command for the daemon.
#[derive(Debug, Clone, PartialEq, Eq)]
pub enum Request {
    Add { window_id: u64 },
    Remove { window_id: u64 },
    List,
    ToggleActive,
    ToggleAppid { appid: String },
    ToggleTitle { title: String },
    StageList,
    Stage { window_id: u64 },
    Unstage { window_id: u64 },
    StageToggleActive,
    StageToggleAppid { appid: String },
    StageToggleTitle { title: String },
    StageAll,
    UnstageAll,
    Windows,
    /// Re-read the configuration and apply it without restarting the daemon.
    Reload,
    /// Toggle a scratchpad: hide it, show it, or start it. Without a name it
    /// toggles the focused window.
    Scratchpad { name: Option<String> },
}

/// [`Request`] as a mathematical value.
pub enum RequestModel {
    Add { window_id: u64 },
    Remove { window_id: u64 },
    List,
    ToggleActive,
    ToggleAppid { appid: Seq<char> },
    ToggleTitle { title: Seq<char> },
    StageList,
    Stage { window_id: u64 },
    Unstage { window_id: u64 },
    StageToggleActive,
    StageToggleAppid { appid: Seq<char> },
    StageToggleTitle { title: Seq<char> },
    StageAll,
    UnstageAll,
    Windows,
    Reload,
    Scratchpad { name: Option<Seq<char>> },
}

impl DeepView for Request {
    type V = RequestModel;

    open spec fn deep_view(&self) -> RequestModel {
        match self {
            Request::Add { window_id } => RequestModel::Add { window_id: *window_id },
            Request::Remove { window_id } => RequestModel::Remove { window_id: *window_id },
            Request::List => RequestModel::List,
            Request::ToggleActive => RequestModel::ToggleActive,
            Request::ToggleAppid { appid } => RequestModel::ToggleAppid { appid: appid@ },
            Request::ToggleTitle { title } => RequestModel::ToggleTitle { title: title@ },
            Request::StageList => RequestModel::StageList,
            Request::Stage { window_id } => RequestModel::Stage { window_id: *window_id },
            Request::Unstage { window_id } => RequestModel::Unstage { window_id: *window_id },
            Request::StageToggleActive => RequestModel::StageToggleActive,
            Request::StageToggleAppid { appid } => RequestModel::StageToggleAppid { appid: appid@ },
            Request::StageToggleTitle { title } => RequestModel::StageToggleTitle { title: title@ },
            Request::StageAll => RequestModel::StageAll,
            Request::UnstageAll => RequestModel::UnstageAll,
            Request::Windows => RequestModel::Windows,
            Request::Reload => RequestModel::Reload,
            Request::Scratchpad { name } => RequestModel::Scratchpad { name: name.deep_view() },
        }
    }
}

/// The daemon's answer.
#[derive(Debug, Clone, PartialEq, Eq)]
pub enum Response {
    Success { message: String },
    Error { message: String },
    Data { data: String },
}

/// [`Response`] as a mathematical value.
pub enum ResponseModel {
    Success { message: Seq<char> },
    Error { message: Seq<char> },
    Data { data: Seq<char> },
}

impl DeepView for Response {
    type V = ResponseModel;

    open spec fn deep_view(&self) -> ResponseModel {
        match self {
            Response::Success { message } => ResponseModel::Success { message: message@ },
            Response::Error { message } => ResponseModel::Error { message: message@ },
            Response::Data { data } => ResponseModel::Data { data: data@ },
        }
    }
}

/// The answer that reports an error with all its context.
pub open spec fn error_response(chain: Chain) -> ResponseModel {
    ResponseModel::Error { message: rendered(chain) }
}

impl Response {
    pub fn success(message: &str) -> (r: Self)
        ensures
            r.deep_view() == (ResponseModel::Success { message: message@ }),
    {
        Response::Success { message: message.to_owned() }
    }

    /// Renders the full error chain, so the context an error gathered is
    /// visible to the user.
    pub fn error(error: &Error) -> (r: Self)
        ensures
            r.deep_view() == error_response(error.deep_view()),
    {
        Response::Error { message: error.render() }
    }

    pub fn data(data: &str) -> (r: Self)
        ensures
            r.deep_view() == (ResponseModel::Data { data: data@ }),
    {
        Response::Data { data: data.to_owned() }
    }
}

} // verus!
