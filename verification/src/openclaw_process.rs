//! Running OpenClaw inside the app: one process at a time, started with the
//! system `node` and the entry script named by `OPENCLAW_ENTRY`.

use vstd::prelude::*;
use crate::text::owned;

verus! {

pub open spec fn already_running_error() -> Seq<char> {
    "OpenClaw 已在运行"@
}

pub open spec fn missing_entry_error() -> Seq<char> {
    "请设置 OPENCLAW_ENTRY 环境变量指向 OpenClaw 入口脚本"@
}

/// Whether OpenClaw may start: not while it runs, and only with an entry
/// script (the value of `OPENCLAW_ENTRY`); gives the entry script to run
/// with `node`.
pub fn start_openclaw(running: bool, entry: Option<String>) -> (r: Result<String, String>)
    ensures
        running ==> (r matches Err(e) && e@ == already_running_error()),
        !running ==> match entry {
            Some(x) => r == Ok::<String, String>(x),
            None => r matches Err(e) && e@ == missing_entry_error(),
        },
{
    if running {
        return Err(owned("OpenClaw 已在运行"));
    }
    match entry {
        Some(x) => Ok(x),
        None => Err(owned("请设置 OPENCLAW_ENTRY 环境变量指向 OpenClaw 入口脚本")),
    }
}

} // verus!
