//! What commands keep to.
use vstd::prelude::*;
use super::{command_said, daemon_status, status, CommandModel, DataView, EndpointsModel};
use super::report::{status_shown, StatusModel};
use super::table::Filters;
use super::task::{exchange, Sess, TaskModel};
use crate::error::{failure, Outcome};
use crate::protocol::{RequestModel, ResponseModel};

verus! {

/// A command whose request the daemon refuses fails with the daemon's message,
/// and prints nothing: scripts and keybindings rely on it.
pub proof fn refused_requests_fail_the_command(
    talk: Sess,
    request: RequestModel,
    view: DataView,
    filters: Filters,
    json: bool,
    endpoints: EndpointsModel,
    message: Seq<char>,
)
    requires
        exchange(talk, request).out == Some(Outcome::Ok(ResponseModel::Error { message })),
    ensures
        ({
            let command = CommandModel::Request(request, view, filters);
            let said = command_said(talk, command, json, endpoints);
            &&& said.out == Some(Outcome::<()>::Err(failure(message)))
            &&& said.talk.asked == talk.asked.push(TaskModel::Exchange(request))
        }),
{
}

/// Without a daemon the report is printed all the same (it names the socket that
/// was tried), and the command fails.
pub proof fn a_missing_daemon_is_reported(talk: Sess, endpoints: EndpointsModel)
    requires
        daemon_status(talk).out matches Some(None),
        status(talk, endpoints).out is Some,
    ensures
        status(talk, endpoints).out matches Some(Err(_)),
        status(talk, endpoints).talk.asked.last() == TaskModel::Print(
            status_shown(
                StatusModel {
                    socket: endpoints.socket,
                    config: endpoints.config,
                    state: endpoints.state,
                    daemon: None,
                },
            ) + "\n"@,
        ),
{
}

} // verus!
