//! Starting a command again does not change what it did.
//!
//! A command is started over with one more outturn each time it waits for one,
//! so what holds of the daemon's operations has to hold of it: each task uses up
//! one outturn, and more of them never change what happened before.
use vstd::prelude::*;
use super::{
    command_said, config_check, daemon_status, one_request, show_data, status, CommandModel,
    DataView, EndpointsModel,
};
use super::restore::{
    fetch_windows, menu_restore, prompted_restore, stage_restore, staged_ids, terminal_restore,
    unstage, unstage_each,
};
use super::table::Filters;
use super::task::{
    ask_text, choose_selector, do_task, exchange, read_windows, select, OutturnModel, Said, Sess,
    TaskModel,
};
use crate::dialogue::{
    asking_is_steady, asking_is_tidy, further, goes_on, longer, longer_from_start, passes,
    staying_is_tidy, tidy, tidy_from_start, Talk,
};
use crate::menu::{self, SpecModel};
use crate::niri::WindowModel;
use crate::protocol::RequestModel;

verus! {

/// More outturns do not change what came of a step that is over, nor what was
/// asked until one was missing.
pub open spec fn steady<T>(short: Said<T>, long: Said<T>, more: Seq<OutturnModel>) -> bool {
    if short.out is Some {
        &&& long.out == short.out
        &&& long.talk == longer(short.talk, more)
    } else {
        goes_on(short.talk, long.talk)
    }
}

broadcast proof fn do_task_is_tidy(talk: Sess, task: TaskModel)
    ensures
        tidy(talk, (#[trigger] do_task(talk, task)).talk, do_task(talk, task).out is Some),
{
    broadcast use {
        passes, asking_is_tidy, staying_is_tidy,
    };
}

broadcast proof fn do_task_is_steady(talk: Sess, more: Seq<OutturnModel>, task: TaskModel)
    ensures
        steady(do_task(talk, task), #[trigger] do_task(longer(talk, more), task), more),
{
    broadcast use {
        passes, asking_is_tidy, staying_is_tidy, asking_is_steady, further,
    };
}

broadcast proof fn exchange_is_tidy(talk: Sess, request: RequestModel)
    ensures
        tidy(talk, (#[trigger] exchange(talk, request)).talk, exchange(talk, request).out is Some),
{
    broadcast use {
        passes, asking_is_tidy, staying_is_tidy,
    };
}

broadcast proof fn exchange_is_steady(talk: Sess, more: Seq<OutturnModel>, request: RequestModel)
    ensures
        steady(exchange(talk, request), #[trigger] exchange(longer(talk, more), request), more),
{
    broadcast use {
        passes, asking_is_tidy, staying_is_tidy, asking_is_steady, further,
    };
}

broadcast proof fn ask_text_is_tidy(talk: Sess, task: TaskModel)
    ensures
        tidy(talk, (#[trigger] ask_text(talk, task)).talk, ask_text(talk, task).out is Some),
{
    broadcast use {
        passes, asking_is_tidy, staying_is_tidy,
    };
}

broadcast proof fn ask_text_is_steady(talk: Sess, more: Seq<OutturnModel>, task: TaskModel)
    ensures
        steady(ask_text(talk, task), #[trigger] ask_text(longer(talk, more), task), more),
{
    broadcast use {
        passes, asking_is_tidy, staying_is_tidy, asking_is_steady, further,
    };
}

broadcast proof fn read_windows_is_tidy(talk: Sess, data: Seq<char>)
    ensures
        tidy(
            talk,
            (#[trigger] read_windows(talk, data)).talk,
            read_windows(talk, data).out is Some,
        ),
{
    broadcast use {
        passes, asking_is_tidy, staying_is_tidy,
    };
}

broadcast proof fn read_windows_is_steady(talk: Sess, more: Seq<OutturnModel>, data: Seq<char>)
    ensures
        steady(read_windows(talk, data), #[trigger] read_windows(longer(talk, more), data), more),
{
    broadcast use {
        passes, asking_is_tidy, staying_is_tidy, asking_is_steady, further,
    };
}

broadcast proof fn choose_selector_is_tidy(talk: Sess)
    ensures
        tidy(talk, (#[trigger] choose_selector(talk)).talk, choose_selector(talk).out is Some),
{
    broadcast use {
        passes, asking_is_tidy, staying_is_tidy,
    };
}

broadcast proof fn choose_selector_is_steady(talk: Sess, more: Seq<OutturnModel>)
    ensures
        steady(choose_selector(talk), #[trigger] choose_selector(longer(talk, more)), more),
{
    broadcast use {
        passes, asking_is_tidy, staying_is_tidy, asking_is_steady, further,
    };
}

broadcast proof fn select_is_tidy(talk: Sess, command: menu::CommandModel, input: Seq<char>)
    ensures
        tidy(
            talk,
            (#[trigger] select(talk, command, input)).talk,
            select(talk, command, input).out is Some,
        ),
{
    broadcast use {
        passes, asking_is_tidy, staying_is_tidy,
    };
}

broadcast proof fn select_is_steady(
    talk: Sess,
    more: Seq<OutturnModel>,
    command: menu::CommandModel,
    input: Seq<char>,
)
    ensures
        steady(
            select(talk, command, input),
            #[trigger] select(longer(talk, more), command, input),
            more,
        ),
{
    broadcast use {
        passes, asking_is_tidy, staying_is_tidy, asking_is_steady, further,
    };
}

broadcast proof fn staged_ids_is_tidy(talk: Sess)
    ensures
        tidy(talk, (#[trigger] staged_ids(talk)).talk, staged_ids(talk).out is Some),
{
    broadcast use {
        exchange_is_tidy, passes, staying_is_tidy,
    };
}

broadcast proof fn staged_ids_is_steady(talk: Sess, more: Seq<OutturnModel>)
    ensures
        steady(staged_ids(talk), #[trigger] staged_ids(longer(talk, more)), more),
{
    broadcast use {
        exchange_is_tidy, passes, staying_is_tidy, exchange_is_steady, further,
    };
}

broadcast proof fn fetch_windows_is_tidy(talk: Sess, ids: Seq<u64>)
    ensures
        tidy(
            talk,
            (#[trigger] fetch_windows(talk, ids)).talk,
            fetch_windows(talk, ids).out is Some,
        ),
{
    broadcast use {
        exchange_is_tidy, read_windows_is_tidy, passes, staying_is_tidy,
    };
}

broadcast proof fn fetch_windows_is_steady(talk: Sess, more: Seq<OutturnModel>, ids: Seq<u64>)
    ensures
        steady(fetch_windows(talk, ids), #[trigger] fetch_windows(longer(talk, more), ids), more),
{
    broadcast use {
        exchange_is_tidy, read_windows_is_tidy, passes, staying_is_tidy, exchange_is_steady,
        read_windows_is_steady, further,
    };
}

broadcast proof fn unstage_is_tidy(talk: Sess, id: u64)
    ensures
        tidy(talk, (#[trigger] unstage(talk, id)).talk, unstage(talk, id).out is Some),
{
    broadcast use {
        exchange_is_tidy, do_task_is_tidy, passes, staying_is_tidy,
    };
}

broadcast proof fn unstage_is_steady(talk: Sess, more: Seq<OutturnModel>, id: u64)
    ensures
        steady(unstage(talk, id), #[trigger] unstage(longer(talk, more), id), more),
{
    broadcast use {
        exchange_is_tidy, do_task_is_tidy, passes, staying_is_tidy, exchange_is_steady,
        do_task_is_steady, further,
    };
}

broadcast proof fn unstage_each_is_tidy(talk: Sess, ids: Seq<u64>)
    ensures
        tidy(talk, (#[trigger] unstage_each(talk, ids)).talk, unstage_each(talk, ids).out is Some),
    decreases ids.len(),
{
    broadcast use {
        unstage_is_tidy, passes, staying_is_tidy,
    };

    if ids.len() > 0 {
        let one = unstage(talk, ids[0]);
        unstage_each_is_tidy(one.talk, ids.drop_first());
    }
}

broadcast proof fn unstage_each_is_steady(talk: Sess, more: Seq<OutturnModel>, ids: Seq<u64>)
    ensures
        steady(unstage_each(talk, ids), #[trigger] unstage_each(longer(talk, more), ids), more),
    decreases ids.len(),
{
    broadcast use {
        unstage_is_tidy, passes, staying_is_tidy, unstage_each_is_tidy, unstage_is_steady,
        further,
    };

    if ids.len() > 0 {
        let one = unstage(talk, ids[0]);
        unstage_each_is_steady(one.talk, more, ids.drop_first());
        let far_one = unstage(longer(talk, more), ids[0]);
        unstage_each_is_tidy(far_one.talk, ids.drop_first());
    }
}

broadcast proof fn terminal_restore_is_tidy(talk: Sess, staged: Seq<WindowModel>)
    ensures
        tidy(
            talk,
            (#[trigger] terminal_restore(talk, staged)).talk,
            terminal_restore(talk, staged).out is Some,
        ),
{
    broadcast use {
        ask_text_is_tidy, unstage_each_is_tidy, passes, staying_is_tidy,
    };
}

broadcast proof fn terminal_restore_is_steady(
    talk: Sess,
    more: Seq<OutturnModel>,
    staged: Seq<WindowModel>,
)
    ensures
        steady(
            terminal_restore(talk, staged),
            #[trigger] terminal_restore(longer(talk, more), staged),
            more,
        ),
{
    broadcast use {
        ask_text_is_tidy, unstage_each_is_tidy, passes, staying_is_tidy, ask_text_is_steady,
        unstage_each_is_steady, further,
    };
}

broadcast proof fn menu_restore_is_tidy(talk: Sess, spec: SpecModel, staged: Seq<WindowModel>)
    ensures
        tidy(
            talk,
            (#[trigger] menu_restore(talk, spec, staged)).talk,
            menu_restore(talk, spec, staged).out is Some,
        ),
{
    broadcast use {
        select_is_tidy, do_task_is_tidy, unstage_each_is_tidy, passes, staying_is_tidy,
    };
}

broadcast proof fn menu_restore_is_steady(
    talk: Sess,
    more: Seq<OutturnModel>,
    spec: SpecModel,
    staged: Seq<WindowModel>,
)
    ensures
        steady(
            menu_restore(talk, spec, staged),
            #[trigger] menu_restore(longer(talk, more), spec, staged),
            more,
        ),
{
    broadcast use {
        select_is_tidy, do_task_is_tidy, unstage_each_is_tidy, passes, staying_is_tidy,
        select_is_steady, do_task_is_steady, unstage_each_is_steady, further,
    };
}

broadcast proof fn prompted_restore_is_tidy(talk: Sess, ids: Seq<u64>)
    ensures
        tidy(
            talk,
            (#[trigger] prompted_restore(talk, ids)).talk,
            prompted_restore(talk, ids).out is Some,
        ),
{
    broadcast use {
        do_task_is_tidy, fetch_windows_is_tidy, terminal_restore_is_tidy, passes, staying_is_tidy,
    };
}

broadcast proof fn prompted_restore_is_steady(talk: Sess, more: Seq<OutturnModel>, ids: Seq<u64>)
    ensures
        steady(
            prompted_restore(talk, ids),
            #[trigger] prompted_restore(longer(talk, more), ids),
            more,
        ),
{
    broadcast use {
        do_task_is_tidy, fetch_windows_is_tidy, terminal_restore_is_tidy, passes, staying_is_tidy,
        do_task_is_steady, fetch_windows_is_steady, terminal_restore_is_steady, further,
    };
}

broadcast proof fn stage_restore_is_tidy(talk: Sess)
    ensures
        tidy(talk, (#[trigger] stage_restore(talk)).talk, stage_restore(talk).out is Some),
{
    broadcast use {
        staged_ids_is_tidy, choose_selector_is_tidy, prompted_restore_is_tidy,
        fetch_windows_is_tidy, menu_restore_is_tidy, passes, staying_is_tidy,
    };
}

broadcast proof fn stage_restore_is_steady(talk: Sess, more: Seq<OutturnModel>)
    ensures
        steady(stage_restore(talk), #[trigger] stage_restore(longer(talk, more)), more),
{
    broadcast use {
        staged_ids_is_tidy, choose_selector_is_tidy, prompted_restore_is_tidy,
        fetch_windows_is_tidy, menu_restore_is_tidy, passes, staying_is_tidy,
        staged_ids_is_steady, choose_selector_is_steady, prompted_restore_is_steady,
        fetch_windows_is_steady, menu_restore_is_steady, further,
    };
}

broadcast proof fn config_check_is_tidy(talk: Sess, endpoints: EndpointsModel, json: bool)
    ensures
        tidy(
            talk,
            (#[trigger] config_check(talk, endpoints, json)).talk,
            config_check(talk, endpoints, json).out is Some,
        ),
{
    broadcast use {
        ask_text_is_tidy, do_task_is_tidy, passes, staying_is_tidy,
    };
}

broadcast proof fn config_check_is_steady(
    talk: Sess,
    more: Seq<OutturnModel>,
    endpoints: EndpointsModel,
    json: bool,
)
    ensures
        steady(
            config_check(talk, endpoints, json),
            #[trigger] config_check(longer(talk, more), endpoints, json),
            more,
        ),
{
    broadcast use {
        ask_text_is_tidy, do_task_is_tidy, passes, staying_is_tidy, ask_text_is_steady,
        do_task_is_steady, further,
    };
}

broadcast proof fn daemon_status_is_tidy(talk: Sess)
    ensures
        tidy(talk, (#[trigger] daemon_status(talk)).talk, daemon_status(talk).out is Some),
{
    broadcast use {
        exchange_is_tidy, passes, staying_is_tidy,
    };
}

broadcast proof fn daemon_status_is_steady(talk: Sess, more: Seq<OutturnModel>)
    ensures
        steady(daemon_status(talk), #[trigger] daemon_status(longer(talk, more)), more),
{
    broadcast use {
        exchange_is_tidy, passes, staying_is_tidy, exchange_is_steady, further,
    };
}

broadcast proof fn status_is_tidy(talk: Sess, endpoints: EndpointsModel)
    ensures
        tidy(talk, (#[trigger] status(talk, endpoints)).talk, status(talk, endpoints).out is Some),
{
    broadcast use {
        daemon_status_is_tidy, do_task_is_tidy, passes, staying_is_tidy,
    };
}

broadcast proof fn status_is_steady(talk: Sess, more: Seq<OutturnModel>, endpoints: EndpointsModel)
    ensures
        steady(status(talk, endpoints), #[trigger] status(longer(talk, more), endpoints), more),
{
    broadcast use {
        daemon_status_is_tidy, do_task_is_tidy, passes, staying_is_tidy, daemon_status_is_steady,
        do_task_is_steady, further,
    };
}

broadcast proof fn show_data_is_tidy(
    talk: Sess,
    view: DataView,
    data: Seq<char>,
    json: bool,
    filters: Filters,
)
    ensures
        tidy(
            talk,
            (#[trigger] show_data(talk, view, data, json, filters)).talk,
            show_data(talk, view, data, json, filters).out is Some,
        ),
{
    broadcast use {
        read_windows_is_tidy, do_task_is_tidy, fetch_windows_is_tidy, passes, staying_is_tidy,
    };
}

broadcast proof fn show_data_is_steady(
    talk: Sess,
    more: Seq<OutturnModel>,
    view: DataView,
    data: Seq<char>,
    json: bool,
    filters: Filters,
)
    ensures
        steady(
            show_data(talk, view, data, json, filters),
            #[trigger] show_data(longer(talk, more), view, data, json, filters),
            more,
        ),
{
    broadcast use {
        read_windows_is_tidy, do_task_is_tidy, fetch_windows_is_tidy, passes, staying_is_tidy,
        read_windows_is_steady, do_task_is_steady, fetch_windows_is_steady, further,
    };
}

broadcast proof fn one_request_is_tidy(
    talk: Sess,
    request: RequestModel,
    view: DataView,
    json: bool,
    filters: Filters,
)
    ensures
        tidy(
            talk,
            (#[trigger] one_request(talk, request, view, json, filters)).talk,
            one_request(talk, request, view, json, filters).out is Some,
        ),
{
    broadcast use {
        exchange_is_tidy, do_task_is_tidy, show_data_is_tidy, passes, staying_is_tidy,
    };
}

broadcast proof fn one_request_is_steady(
    talk: Sess,
    more: Seq<OutturnModel>,
    request: RequestModel,
    view: DataView,
    json: bool,
    filters: Filters,
)
    ensures
        steady(
            one_request(talk, request, view, json, filters),
            #[trigger] one_request(longer(talk, more), request, view, json, filters),
            more,
        ),
{
    broadcast use {
        exchange_is_tidy, do_task_is_tidy, show_data_is_tidy, passes, staying_is_tidy,
        exchange_is_steady, do_task_is_steady, show_data_is_steady, further,
    };
}

broadcast proof fn command_said_is_tidy(
    talk: Sess,
    command: CommandModel,
    json: bool,
    endpoints: EndpointsModel,
)
    ensures
        tidy(
            talk,
            (#[trigger] command_said(talk, command, json, endpoints)).talk,
            command_said(talk, command, json, endpoints).out is Some,
        ),
{
    broadcast use {
        stage_restore_is_tidy, status_is_tidy, config_check_is_tidy, one_request_is_tidy, passes,
        staying_is_tidy,
    };
}

broadcast proof fn command_said_is_steady(
    talk: Sess,
    more: Seq<OutturnModel>,
    command: CommandModel,
    json: bool,
    endpoints: EndpointsModel,
)
    ensures
        steady(
            command_said(talk, command, json, endpoints),
            #[trigger] command_said(longer(talk, more), command, json, endpoints),
            more,
        ),
{
    broadcast use {
        stage_restore_is_tidy, status_is_tidy, config_check_is_tidy, one_request_is_tidy, passes,
        staying_is_tidy, stage_restore_is_steady, status_is_steady, config_check_is_steady,
        one_request_is_steady, further,
    };
}

/// Starting a command again with more outturns repeats what it did: each task
/// uses up one outturn, a command waits only for the outturn of its last task,
/// and with more of them it asks for the same tasks first and, once it is over,
/// comes to the same end.
pub proof fn replay_is_stable(
    command: CommandModel,
    json: bool,
    endpoints: EndpointsModel,
    outturns: Seq<OutturnModel>,
    more: Seq<OutturnModel>,
)
    ensures
        ({
            let short = command_said(Talk::start(outturns), command, json, endpoints);
            let long = command_said(Talk::start(outturns + more), command, json, endpoints);
            &&& short.out is Some ==> {
                &&& short.talk.asked.len() + short.talk.answers.len() == outturns.len()
                &&& long.out == short.out
                &&& long.talk.asked == short.talk.asked
            }
            &&& short.out is None ==> {
                &&& short.talk.asked.len() == outturns.len() + 1
                &&& short.talk.asked == long.talk.asked.take(outturns.len() as int + 1)
            }
        }),
{
    let talk: Sess = Talk::start(outturns);
    longer_from_start::<TaskModel, OutturnModel>(outturns, more);
    command_said_is_tidy(talk, command, json, endpoints);
    command_said_is_steady(talk, more, command, json, endpoints);
    let short = command_said(talk, command, json, endpoints);
    tidy_from_start(outturns, short.talk, short.out is Some);
}

} // verus!
