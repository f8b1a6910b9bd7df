//! Status tracking of the managed services (DSH, MCA, browser gateway).
use vstd::prelude::*;
use crate::text::{decimal, push_decimal, str_eq};

verus! {

broadcast use vstd::string::group_string_axioms;

/// The state of a managed service.
#[derive(PartialEq, Eq, Structural, Clone, Copy, Debug)]
pub enum ServiceState {
    Stopped,
    Starting,
    Running,
    Error,
}

/// What polling the service's child process found.
#[derive(Clone, Debug, PartialEq, Eq)]
pub enum ChildPoll {
    /// No child process is held.
    NoChild,
    /// The child is still running.
    Alive,
    /// The child exited; its exit status as text.
    Exited(String),
    /// Polling failed; the error as text.
    Failed(String),
}

/// Whether refreshing needs to know if the service port is listening.
pub open spec fn probe_needed(poll: ChildPoll, state: ServiceState) -> bool {
    match poll {
        ChildPoll::NoChild => state == ServiceState::Running,
        ChildPoll::Alive => true,
        ChildPoll::Exited(_) => true,
        ChildPoll::Failed(_) => false,
    }
}

/// Whether refreshing needs to know if the service port is listening.
pub fn needs_port_probe(poll: &ChildPoll, state: ServiceState) -> (r: bool)
    ensures
        r == probe_needed(*poll, state),
{
    match poll {
        ChildPoll::NoChild => state == ServiceState::Running,
        ChildPoll::Alive => true,
        ChildPoll::Exited(_) => true,
        ChildPoll::Failed(_) => false,
    }
}

/// A service after a refresh: its state, its message, and whether the child
/// process is released.
pub open spec fn refreshed(
    state: ServiceState,
    message: Seq<char>,
    poll: ChildPoll,
    listening: bool,
    host: Seq<char>,
    port: u16,
) -> (ServiceState, Seq<char>, bool) {
    match poll {
        ChildPoll::Exited(status) => if listening {
            (ServiceState::Running, "已连接到正在监听的服务（启动进程退出："@ + status@ + "）"@, true)
        } else {
            (ServiceState::Error, "进程已退出（"@ + status@ + "）"@, true)
        },
        ChildPoll::Alive => if listening {
            (ServiceState::Running, "正在监听 "@ + host + ":"@ + decimal(port as nat), false)
        } else if state != ServiceState::Error {
            (ServiceState::Starting, "进程已创建，等待服务就绪"@, false)
        } else {
            (state, message, false)
        },
        ChildPoll::Failed(e) => (ServiceState::Error, e@, false),
        ChildPoll::NoChild => if state == ServiceState::Running {
            if !listening {
                (ServiceState::Stopped, "服务连接已断开"@, false)
            } else {
                (state, message, false)
            }
        } else if state != ServiceState::Starting && state != ServiceState::Error {
            (ServiceState::Stopped, message, false)
        } else {
            (state, message, false)
        },
    }
}

/// Refreshes a service's state from what polling its child found and, where
/// `needs_port_probe` asked for it, whether its port at `host:port` listens.
pub fn refresh_service(
    state: ServiceState,
    message: String,
    poll: ChildPoll,
    listening: bool,
    host: &str,
    port: u16,
) -> (r: (ServiceState, String, bool))
    ensures
        (r.0, r.1@, r.2) == refreshed(state, message@, poll, listening, host@, port),
{
    match poll {
        ChildPoll::Exited(status) => if listening {
            let mut m = String::from_str("已连接到正在监听的服务（启动进程退出：");
            m.append(status.as_str());
            m.append("）");
            (ServiceState::Running, m, true)
        } else {
            let mut m = String::from_str("进程已退出（");
            m.append(status.as_str());
            m.append("）");
            (ServiceState::Error, m, true)
        },
        ChildPoll::Alive => if listening {
            let mut m = String::from_str("正在监听 ");
            m.append(host);
            m.append(":");
            push_decimal(&mut m, port as u64);
            (ServiceState::Running, m, false)
        } else if state != ServiceState::Error {
            (ServiceState::Starting, String::from_str("进程已创建，等待服务就绪"), false)
        } else {
            (state, message, false)
        },
        ChildPoll::Failed(e) => (ServiceState::Error, e, false),
        ChildPoll::NoChild => if state == ServiceState::Running {
            if !listening {
                (ServiceState::Stopped, String::from_str("服务连接已断开"), false)
            } else {
                (state, message, false)
            }
        } else if state != ServiceState::Starting && state != ServiceState::Error {
            (ServiceState::Stopped, message, false)
        } else {
            (state, message, false)
        },
    }
}

/// The state and message of a service that was just stopped.
pub fn stopped_status() -> (r: (ServiceState, String))
    ensures
        r.0 == ServiceState::Stopped,
        r.1@ == "已停止"@,
{
    (ServiceState::Stopped, String::from_str("已停止"))
}

/// A service is up or on its way up.
pub fn is_active(state: ServiceState) -> (r: bool)
    ensures
        r == (state == ServiceState::Running || state == ServiceState::Starting),
{
    state == ServiceState::Running || state == ServiceState::Starting
}

/// The embedded DSH window is hidden once DSH is stopped or failed.
pub fn should_hide_dsh_window(state: ServiceState) -> (r: bool)
    ensures
        r == (state == ServiceState::Stopped || state == ServiceState::Error),
{
    state == ServiceState::Stopped || state == ServiceState::Error
}

/// The message shown for the MCA service: its own, unless MCA is switched off.
pub fn mca_status_message(enable_mca: bool, message: String) -> (r: String)
    ensures
        r@ == (if enable_mca { message@ } else { "已在配置中关闭"@ }),
{
    if enable_mca { message } else { String::from_str("已在配置中关闭") }
}

/// The message shown for the browser gateway: its own, unless both browser
/// capabilities are switched off.
pub fn browser_status_message(enable_browser: bool, enable_chrome_use: bool, message: String) -> (r:
    String)
    ensures
        r@ == (if enable_browser || enable_chrome_use { message@ } else { "已在配置中关闭"@ }),
{
    if enable_browser || enable_chrome_use { message } else { String::from_str("已在配置中关闭") }
}

/// What to do with the browser gateway after the configuration changed.
#[derive(PartialEq, Eq, Structural, Clone, Copy, Debug)]
pub enum GatewayChange {
    Start,
    Stop,
    Keep,
}

/// Start the gateway when a browser capability is on and it is not up; stop it
/// when both are off and it is up.
pub fn gateway_change(should_run: bool, running: bool) -> (r: GatewayChange)
    ensures
        r == (if should_run && !running {
            GatewayChange::Start
        } else if !should_run && running {
            GatewayChange::Stop
        } else {
            GatewayChange::Keep
        }),
{
    if should_run && !running {
        GatewayChange::Start
    } else if !should_run && running {
        GatewayChange::Stop
    } else {
        GatewayChange::Keep
    }
}


/// Why the embedded DSH window cannot open: DSH is still starting, or it does not
/// run.
pub fn dsh_window_error(state: ServiceState) -> (r: String)
    ensures
        r@ == (if state == ServiceState::Starting {
            "DSH 正在启动，请稍候再打开"@
        } else {
            "DSH 未运行，请先点击“启动 DSH”"@
        }),
{
    if state == ServiceState::Starting {
        String::from_str("DSH 正在启动，请稍候再打开")
    } else {
        String::from_str("DSH 未运行，请先点击“启动 DSH”")
    }
}


/// The diagnostic log view: the tails of the DSH and MCA logs under headings.
pub fn logs_report(dsh_log: &str, mca_log: &str) -> (r: String)
    ensures
        r@ == "=== DSH ===\n"@ + dsh_log@ + "\n\n=== MCA ===\n"@ + mca_log@,
{
    let mut r = String::from_str("=== DSH ===\n");
    r.append(dsh_log);
    r.append("\n\n=== MCA ===\n");
    r.append(mca_log);
    r
}


/// What starting DSH does, given what answers on its port.
#[derive(PartialEq, Eq, Structural, Clone, Copy, Debug)]
pub enum StartPlan {
    /// A DSH already answers there: it is taken over.
    Reuse,
    /// Something that is not DSH holds the port: the start fails.
    PortTaken,
    /// The port is free: DSH is launched.
    Launch,
}

/// What starting DSH does: launch it on a free port, take over a DSH that
/// already answers, and refuse a port that something else holds.
pub fn start_plan(port_open: bool, answers_as_dsh: bool) -> (r: StartPlan)
    ensures
        r == (if !port_open {
            StartPlan::Launch
        } else if answers_as_dsh {
            StartPlan::Reuse
        } else {
            StartPlan::PortTaken
        }),
{
    if !port_open {
        StartPlan::Launch
    } else if answers_as_dsh {
        StartPlan::Reuse
    } else {
        StartPlan::PortTaken
    }
}

/// After DSH did not come up in time: whether the service is marked failed with
/// the timeout message. It is, unless nothing listens and the service already
/// failed by itself, whose own message then stands.
pub fn timeout_marks_error(port_listening: bool, state: ServiceState) -> (r: bool)
    ensures
        r == (port_listening || state != ServiceState::Error),
{
    port_listening || state != ServiceState::Error
}


/// The embedded DSH window only follows links to the local machine: `http` or
/// `https` to `127.0.0.1` or `localhost`.
pub open spec fn local_navigation(scheme: Seq<char>, host: Option<Seq<char>>) -> bool {
    &&& (scheme == "http"@ || scheme == "https"@)
    &&& (host matches Some(h) && (h == "127.0.0.1"@ || h == "localhost"@))
}

/// Whether the embedded DSH window may navigate to a URL with this scheme and
/// host.
pub fn dsh_navigation_allowed(scheme: &str, host: Option<&str>) -> (r: bool)
    ensures
        r == local_navigation(scheme@, match host {
            Some(h) => Some(h@),
            None => None,
        }),
{
    let web = str_eq(scheme, "http") || str_eq(scheme, "https");
    let local = match host {
        Some(h) => str_eq(h, "127.0.0.1") || str_eq(h, "localhost"),
        None => false,
    };
    web && local
}


/// Law: a failed service stays failed until its port answers: while its port
/// does not listen, no refresh moves a service out of the Error state; and when
/// a refresh learns nothing new (no child is held, or the child is still alive
/// and the port does not listen) the failure and its message stand unchanged.
pub proof fn law_failure_stays_visible(
    message: Seq<char>,
    poll: ChildPoll,
    listening: bool,
    host: Seq<char>,
    port: u16,
)
    ensures
        !listening ==> refreshed(ServiceState::Error, message, poll, listening, host, port).0 == ServiceState::Error,
        poll is NoChild ==> refreshed(ServiceState::Error, message, poll, listening, host, port) == (
            ServiceState::Error,
            message,
            false,
        ),
        poll is Alive && !listening ==> refreshed(ServiceState::Error, message, poll, listening, host, port) == (
            ServiceState::Error,
            message,
            false,
        ),
{
}

} // verus!
