//! Options of the underlying RPC client.

use vstd::prelude::*;

verus! {

/// Config for the underlying RPC client. Durations are in milliseconds.
#[derive(Debug, Clone)]
pub struct RpcConfig {
    /// Threads used by the client; the number of CPU cores when not set.
    pub thread_num: Option<usize>,
    /// The largest message sent to the server; -1 means unlimited.
    pub max_send_msg_len: i32,
    /// The largest message received from the server; -1 means unlimited.
    pub max_recv_msg_len: i32,
    /// The interval between keep-alive ping frames.
    pub keep_alive_interval: u64,
    /// How long a ping may go unacknowledged before the connection is closed.
    pub keep_alive_timeout: u64,
    /// Whether keep-alive pings are sent while the connection is idle.
    pub keep_alive_while_idle: bool,
    /// Timeout of a write.
    pub default_write_timeout: u64,
    /// Timeout of an SQL query.
    pub default_sql_query_timeout: u64,
    /// Timeout of connecting.
    pub connect_timeout: u64,
}

impl Default for RpcConfig {
    /// 20 MiB out, 1 GiB in, pings every ten minutes that must be answered in
    /// three seconds, writes bounded by five seconds, queries by a minute, and
    /// connecting by three seconds.
    fn default() -> (r: RpcConfig)
        ensures
            r.thread_num is None,
            r.max_send_msg_len == 20 * 1024 * 1024,
            r.max_recv_msg_len == 1024 * 1024 * 1024,
            r.keep_alive_interval == 600_000,
            r.keep_alive_timeout == 3_000,
            r.keep_alive_while_idle,
            r.default_write_timeout == 5_000,
            r.default_sql_query_timeout == 60_000,
            r.connect_timeout == 3_000,
    {
        RpcConfig {
            thread_num: None,
            max_send_msg_len: 20 * 1024 * 1024,
            max_recv_msg_len: 1024 * 1024 * 1024,
            keep_alive_interval: 60 * 10 * 1000,
            keep_alive_timeout: 3 * 1000,
            keep_alive_while_idle: true,
            default_write_timeout: 5 * 1000,
            default_sql_query_timeout: 60 * 1000,
            connect_timeout: 3 * 1000,
        }
    }
}

} // verus!
