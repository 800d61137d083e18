mod common;
mod list;
mod pull;
mod sync;

pub use self::common::{
    banner, count_holding, count_running, count_where, holds_permit, spec_failures, summarize,
    Dispatcher, Summary, TaskState,
};
pub use self::list::{is_unknown, list_mark, spec_list_mark};
pub use self::pull::{pull_check, PullCheck};
pub use self::sync::{should_sync, sync_one};
