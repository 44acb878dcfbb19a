//! Per-endpoint byte accounting: one `Connection` record per tunnel side,
//! with three rolling windows (1, 5 and 30 minutes) of read/write counters.

use vstd::prelude::*;

verus! {

/// Accounting record for one side of a tunnel.
///
/// `start_time_*` are nanosecond timestamps marking the start of each
/// rolling window; `create_time` is the wall-clock instant (milliseconds)
/// at which the record was made.
#[derive(Debug)]
pub struct Connection {
    pub connect_id: String,
    pub local_endpoint: String,
    pub remote_endpoint: String,
    pub create_time: i64,
    pub start_time_1m: i64,
    pub start_time_5m: i64,
    pub start_time_30m: i64,
    pub read_bytes_1m: u64,
    pub read_bytes_5m: u64,
    pub read_bytes_30m: u64,
    pub write_bytes_1m: u64,
    pub write_bytes_5m: u64,
    pub write_bytes_30m: u64,
}

/// `c` with `n` added to the read counter of every window.
pub open spec fn spec_add_read(c: Connection, n: u64) -> Connection {
    Connection {
        read_bytes_1m: (c.read_bytes_1m + n) as u64,
        read_bytes_5m: (c.read_bytes_5m + n) as u64,
        read_bytes_30m: (c.read_bytes_30m + n) as u64,
        ..c
    }
}

/// `c` with `n` added to the write counter of every window.
pub open spec fn spec_add_write(c: Connection, n: u64) -> Connection {
    Connection {
        write_bytes_1m: (c.write_bytes_1m + n) as u64,
        write_bytes_5m: (c.write_bytes_5m + n) as u64,
        write_bytes_30m: (c.write_bytes_30m + n) as u64,
        ..c
    }
}

/// True when the read counters of `c` can take `n` more bytes without
/// exceeding the 64-bit range.
pub open spec fn read_fits(c: Connection, n: u64) -> bool {
    &&& c.read_bytes_1m + n <= u64::MAX
    &&& c.read_bytes_5m + n <= u64::MAX
    &&& c.read_bytes_30m + n <= u64::MAX
}

/// True when the write counters of `c` can take `n` more bytes without
/// exceeding the 64-bit range.
pub open spec fn write_fits(c: Connection, n: u64) -> bool {
    &&& c.write_bytes_1m + n <= u64::MAX
    &&& c.write_bytes_5m + n <= u64::MAX
    &&& c.write_bytes_30m + n <= u64::MAX
}

/// `c` with the 1-minute window restarted at `now_ns`.
pub open spec fn spec_reset_1m(c: Connection, now_ns: i64) -> Connection {
    Connection { start_time_1m: now_ns, read_bytes_1m: 0, write_bytes_1m: 0, ..c }
}

/// `c` with the 5-minute window restarted at `now_ns`.
pub open spec fn spec_reset_5m(c: Connection, now_ns: i64) -> Connection {
    Connection { start_time_5m: now_ns, read_bytes_5m: 0, write_bytes_5m: 0, ..c }
}

/// `c` with the 30-minute window restarted at `now_ns`.
pub open spec fn spec_reset_30m(c: Connection, now_ns: i64) -> Connection {
    Connection { start_time_30m: now_ns, read_bytes_30m: 0, write_bytes_30m: 0, ..c }
}

impl Connection {
    /// Builds a record from explicit parts: all byte counters start at zero
    /// and every window starts at `start_time_ns`.
    pub fn from_parts(
        connect_id: String,
        local_endpoint: String,
        remote_endpoint: String,
        create_time: i64,
        start_time_ns: i64,
    ) -> (c: Connection)
        ensures
            c == (Connection {
                connect_id,
                local_endpoint,
                remote_endpoint,
                create_time,
                start_time_1m: start_time_ns,
                start_time_5m: start_time_ns,
                start_time_30m: start_time_ns,
                read_bytes_1m: 0,
                read_bytes_5m: 0,
                read_bytes_30m: 0,
                write_bytes_1m: 0,
                write_bytes_5m: 0,
                write_bytes_30m: 0,
            }),
    {
        Connection {
            connect_id,
            local_endpoint,
            remote_endpoint,
            create_time,
            start_time_1m: start_time_ns,
            start_time_5m: start_time_ns,
            start_time_30m: start_time_ns,
            read_bytes_1m: 0,
            read_bytes_5m: 0,
            read_bytes_30m: 0,
            write_bytes_1m: 0,
            write_bytes_5m: 0,
            write_bytes_30m: 0,
        }
    }

    /// Builds a record with a fresh random identifier and the clock's
    /// current time; counters start at zero.
    pub fn new(local_endpoint: String, remote_endpoint: String) -> (c: Connection)
        ensures
            c.local_endpoint == local_endpoint,
            c.remote_endpoint == remote_endpoint,
            c.connect_id@.len() == 36,
            c.read_bytes_1m == 0 && c.read_bytes_5m == 0 && c.read_bytes_30m == 0,
            c.write_bytes_1m == 0 && c.write_bytes_5m == 0 && c.write_bytes_30m == 0,
            c.start_time_1m == c.start_time_5m && c.start_time_5m == c.start_time_30m,
    {
        let connect_id = new_connection_id();
        let create_time = now_unix_millis();
        let start_time_ns = current_unix_nanos();
        Connection::from_parts(connect_id, local_endpoint, remote_endpoint, create_time, start_time_ns)
    }

    /// Credits a successful read of `read_n` bytes to every window.
    pub fn add_read_n(&mut self, read_n: u64)
        requires
            read_fits(*old(self), read_n),
        ensures
            *final(self) == spec_add_read(*old(self), read_n),
    {
        self.read_bytes_1m = self.read_bytes_1m + read_n;
        self.read_bytes_5m = self.read_bytes_5m + read_n;
        self.read_bytes_30m = self.read_bytes_30m + read_n;
    }

    /// Credits a successful write of `write_n` bytes to every window.
    pub fn add_write_n(&mut self, write_n: u64)
        requires
            write_fits(*old(self), write_n),
        ensures
            *final(self) == spec_add_write(*old(self), write_n),
    {
        self.write_bytes_1m = self.write_bytes_1m + write_n;
        self.write_bytes_5m = self.write_bytes_5m + write_n;
        self.write_bytes_30m = self.write_bytes_30m + write_n;
    }

    /// Restarts the 1-minute window at `now_ns` with zeroed counters.
    pub fn reset_read_write_bytes_1m(&mut self, now_ns: i64)
        ensures
            *final(self) == spec_reset_1m(*old(self), now_ns),
    {
        self.start_time_1m = now_ns;
        self.read_bytes_1m = 0;
        self.write_bytes_1m = 0;
    }

    /// Restarts the 5-minute window at `now_ns` with zeroed counters.
    pub fn reset_read_write_bytes_5m(&mut self, now_ns: i64)
        ensures
            *final(self) == spec_reset_5m(*old(self), now_ns),
    {
        self.start_time_5m = now_ns;
        self.read_bytes_5m = 0;
        self.write_bytes_5m = 0;
    }

    /// Restarts the 30-minute window at `now_ns` with zeroed counters.
    pub fn reset_read_write_bytes_30m(&mut self, now_ns: i64)
        ensures
            *final(self) == spec_reset_30m(*old(self), now_ns),
    {
        self.start_time_30m = now_ns;
        self.read_bytes_30m = 0;
        self.write_bytes_30m = 0;
    }
}

/// The node-facing side of a tunnel (the accepted inbound connection).
#[derive(Debug)]
pub struct NodeConnection {
    pub connection: Connection,
}

impl NodeConnection {
    /// Fresh node-side record with zeroed counters.
    pub fn new(local_endpoint: String, remote_endpoint: String) -> (c: NodeConnection)
        ensures
            c.connection.local_endpoint == local_endpoint,
            c.connection.remote_endpoint == remote_endpoint,
            c.connection.connect_id@.len() == 36,
            c.connection.read_bytes_1m == 0 && c.connection.read_bytes_5m == 0
                && c.connection.read_bytes_30m == 0,
            c.connection.write_bytes_1m == 0 && c.connection.write_bytes_5m == 0
                && c.connection.write_bytes_30m == 0,
    {
        NodeConnection { connection: Connection::new(local_endpoint, remote_endpoint) }
    }

    /// Credits a successful read of `read_n` bytes to every window.
    pub fn add_read_n(&mut self, read_n: u64)
        requires
            read_fits(old(self).connection, read_n),
        ensures
            final(self).connection == spec_add_read(old(self).connection, read_n),
    {
        self.connection.add_read_n(read_n);
    }

    /// Credits a successful write of `write_n` bytes to every window.
    pub fn add_write_n(&mut self, write_n: u64)
        requires
            write_fits(old(self).connection, write_n),
        ensures
            final(self).connection == spec_add_write(old(self).connection, write_n),
    {
        self.connection.add_write_n(write_n);
    }
}

/// The target-facing side of a tunnel (the outbound connection), which
/// also carries the identifier of the routed target.
#[derive(Debug)]
pub struct TargetConnection {
    pub connection: Connection,
    pub target_id: String,
}

impl TargetConnection {
    /// Fresh target-side record with zeroed counters.
    pub fn new(local_endpoint: String, remote_endpoint: String, target_id: String) -> (c:
        TargetConnection)
        ensures
            c.connection.local_endpoint == local_endpoint,
            c.connection.remote_endpoint == remote_endpoint,
            c.target_id == target_id,
            c.connection.connect_id@.len() == 36,
            c.connection.read_bytes_1m == 0 && c.connection.read_bytes_5m == 0
                && c.connection.read_bytes_30m == 0,
            c.connection.write_bytes_1m == 0 && c.connection.write_bytes_5m == 0
                && c.connection.write_bytes_30m == 0,
    {
        TargetConnection { connection: Connection::new(local_endpoint, remote_endpoint), target_id }
    }

    /// Credits a successful read of `read_n` bytes to every window.
    pub fn add_read_n(&mut self, read_n: u64)
        requires
            read_fits(old(self).connection, read_n),
        ensures
            final(self).connection == spec_add_read(old(self).connection, read_n),
            final(self).target_id == old(self).target_id,
    {
        self.connection.add_read_n(read_n);
    }

    /// Credits a successful write of `write_n` bytes to every window.
    pub fn add_write_n(&mut self, write_n: u64)
        requires
            write_fits(old(self).connection, write_n),
        ensures
            final(self).connection == spec_add_write(old(self).connection, write_n),
            final(self).target_id == old(self).target_id,
    {
        self.connection.add_write_n(write_n);
    }
}

impl Clone for Connection {
    /// An exact copy.
    fn clone(&self) -> (r: Self)
        ensures
            r == *self,
    {
        Connection {
            connect_id: self.connect_id.clone(),
            local_endpoint: self.local_endpoint.clone(),
            remote_endpoint: self.remote_endpoint.clone(),
            create_time: self.create_time,
            start_time_1m: self.start_time_1m,
            start_time_5m: self.start_time_5m,
            start_time_30m: self.start_time_30m,
            read_bytes_1m: self.read_bytes_1m,
            read_bytes_5m: self.read_bytes_5m,
            read_bytes_30m: self.read_bytes_30m,
            write_bytes_1m: self.write_bytes_1m,
            write_bytes_5m: self.write_bytes_5m,
            write_bytes_30m: self.write_bytes_30m,
        }
    }
}

impl Clone for NodeConnection {
    /// An exact copy.
    fn clone(&self) -> (r: Self)
        ensures
            r == *self,
    {
        NodeConnection { connection: self.connection.clone() }
    }
}

impl Clone for TargetConnection {
    /// An exact copy.
    fn clone(&self) -> (r: Self)
        ensures
            r == *self,
    {
        TargetConnection {
            connection: self.connection.clone(),
            target_id: self.target_id.clone(),
        }
    }
}

/// Relies on `uuid::Uuid::new_v4` and uuid's `LowerHex` rendering, which
/// writes the lowercase hyphenated form, always 36 characters. The value
/// is random: nothing else can be said of it.
#[verifier::external_body]
fn random_hex_id() -> (r: String)
    ensures
        r@.len() == 36,
{
    let id = uuid::Uuid::new_v4();
    format!("{:x}", id)
}

/// Fresh identifier for one side of a tunnel.
pub fn new_connection_id() -> (r: String)
    ensures
        r@.len() == 36,
{
    random_hex_id()
}

/// Fresh identifier for a tunnel.
pub fn new_tunnel_id() -> (r: String)
    ensures
        r@.len() == 36,
{
    random_hex_id()
}

/// Relies on `chrono::Utc::now` and `DateTime::timestamp_nanos_opt`:
/// nanoseconds since the Unix epoch, `None` for instants outside the
/// 64-bit nanosecond range. The clock decides the value.
#[verifier::external_body]
fn now_unix_nanos_opt() -> (r: Option<i64>) {
    chrono::Utc::now().timestamp_nanos_opt()
}

/// Relies on `chrono::Utc::now` and `DateTime::timestamp_millis`:
/// milliseconds since the Unix epoch. The clock decides the value.
#[verifier::external_body]
fn now_unix_millis() -> (r: i64) {
    chrono::Utc::now().timestamp_millis()
}

/// The clock's nanoseconds since the Unix epoch, or 0 when the instant
/// cannot be represented in 64 bits.
pub fn current_unix_nanos() -> i64 {
    match now_unix_nanos_opt() {
        Some(v) => v,
        None => 0,
    }
}

} // verus!
