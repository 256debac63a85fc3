//! Supervising the local model server: which program to start, whether it
//! came up, and what to do while waiting for it to answer.

use vstd::prelude::*;

verus! {

/// Where the model server's program lives unless the environment says
/// otherwise.
pub const LLAMA_SERVER_BIN: &'static str = "/opt/llama.cpp/build/bin/llama-server";
/// The model the server loads.
pub const HF_MODEL: &'static str = "LiquidAI/LFM2.5-VL-450M-GGUF";
/// Port the server listens on.
pub const LLAMA_PORT: usize = 8080;
/// Address the server listens on.
pub const LLAMA_HOST: &'static str = "127.0.0.1";
/// Seconds the server gets to become healthy.
pub const LLAMA_TTL: u64 = 120;

/// The server's program: the one named by the environment when it names
/// one, the default one otherwise.
pub fn server_program(configured: Option<String>) -> (program: String)
    ensures
        program@ == match configured {
            Some(p) => p@,
            None => LLAMA_SERVER_BIN@,
        },
{
    match configured {
        Some(p) => p,
        None => String::from_str(LLAMA_SERVER_BIN),
    }
}

/// How the server's process looked after the first wait for it.
#[derive(Debug, Clone, Copy, PartialEq, Eq, Structural)]
pub enum LaunchWait {
    /// Waiting for the process failed.
    WaitFailed,
    /// The process had already exited.
    Exited,
    /// The process was still running when the wait timed out.
    StillRunning,
}

/// The server started well only when its process was still running after
/// the first wait.
pub fn launch_succeeded(wait: LaunchWait) -> (ok: bool)
    ensures
        ok == (wait == LaunchWait::StillRunning),
{
    match wait {
        LaunchWait::StillRunning => true,
        _ => false,
    }
}

/// What to do after one look at the starting server.
#[derive(Debug, Clone, Copy, PartialEq, Eq, Structural)]
pub enum ServerPoll {
    /// The server answers as healthy: it is ready.
    Ready,
    /// The thread that launched it has finished: collect its outcome.
    Exited,
    /// The server took too long: give up.
    TimedOut,
    /// Wait a second and look again.
    Retry,
}

/// One look at the starting server: whether it answered as healthy, whether
/// the thread that launched it has finished, and how many whole seconds have
/// passed since it was launched.
pub fn poll_server(healthy: bool, launcher_finished: bool, elapsed_secs: u64) -> (p: ServerPoll)
    ensures
        p == (if healthy {
            ServerPoll::Ready
        } else if launcher_finished {
            ServerPoll::Exited
        } else if elapsed_secs >= LLAMA_TTL {
            ServerPoll::TimedOut
        } else {
            ServerPoll::Retry
        }),
{
    if healthy {
        ServerPoll::Ready
    } else if launcher_finished {
        ServerPoll::Exited
    } else if elapsed_secs >= LLAMA_TTL {
        ServerPoll::TimedOut
    } else {
        ServerPoll::Retry
    }
}

/// Whether the server's health report says it is healthy: its `status`
/// field is the text "ok".  `status` is the field when it is a text, `None`
/// when it is missing or not a text.
pub fn status_is_ok(status: Option<&str>) -> (ok: bool)
    ensures
        ok == (status matches Some(s) && s@ == "ok"@),
{
    match status {
        Some(s) => {
            let n = s.unicode_len();
            proof {
                reveal_strlit("ok");
            }
            if n != 2 {
                return false;
            }
            let same = s.get_char(0) == 'o' && s.get_char(1) == 'k';
            proof {
                if same {
                    assert(s@ =~= "ok"@);
                }
            }
            same
        },
        None => false,
    }
}

} // verus!
