//! Engine options and the builder that assembles and normalises them.

use crate::pow2::{
    is_next_power_of_two, is_power_of_two, lemma_next_power_of_two_of_power,
    lemma_next_power_of_two_unique, lemma_powers_of_two_apart, next_power_of_two, pow2_arg_limit,
};
use crate::gfd::decimal;
use crate::socket_addr::{parse_network_address, protocol_of, resolved_as, NetworkAddress, Protocol};
use std::time::Duration;
use vstd::prelude::*;

verus! {

/// Stream buffer capacity below which a requested capacity is raised.
pub const DEFAULT_BUFFER_SIZE: usize = 1024;

/// Stream buffer capacity used when none (zero) is requested.
pub const MAX_STREAM_BUFFER_CAP: usize = 64 * 1024;

/// Edge-triggered read chunk used when none (zero) is requested.
pub const DEFAULT_EDGE_TRIGGERED_IO_CHUNK: usize = 1024 * 1024;

/// How accepted connections are spread over the event loops.
#[derive(Debug, Clone, Copy, PartialEq, Eq, Structural)]
pub enum LoadBalancing {
    RoundRobin,
    LeastConnections,
    SourceAddrHash,
}

/// Logging verbosity.
#[derive(Clone, Copy, Debug, PartialEq, Eq, Structural)]
pub enum Level {
    Debug,
    Info,
    Warn,
    Error,
    Fatal,
}

impl Default for Level {
    fn default() -> (r: Self)
        ensures
            r == Level::Info,
    {
        Level::Info
    }
}

/// Whether Nagle's algorithm is switched off on accepted TCP sockets.
#[derive(Debug, Clone, Copy, PartialEq, Eq, Structural)]
pub enum TcpSocketOpt {
    NoDelay,
    Delay,
}

/// The settings of an engine.
#[derive(Debug, Clone)]
pub struct Options {
    pub lb: LoadBalancing,
    pub reuse_addr: bool,
    pub reuse_port: bool,
    pub bind_to_device: String,
    pub num_event_loop: usize,
    pub read_buffer_cap: usize,
    pub write_buffer_cap: usize,
    pub lock_os_thread: bool,
    pub ticker: bool,
    pub tcp_keepalive: Option<Duration>,
    pub tcp_keep_interval: Option<Duration>,
    pub tcp_keep_count: Option<u32>,
    pub tcp_no_delay: TcpSocketOpt,
    pub socket_recv_buffer: usize,
    pub socket_send_buffer: usize,
    pub edge_triggered_io_chunk: usize,
    pub log_path: Option<String>,
    pub log_level: Level,
}

/// `o` holds the default settings.
pub open spec fn is_default_options(o: Options) -> bool {
    &&& o.lb == LoadBalancing::RoundRobin
    &&& !o.reuse_addr
    &&& !o.reuse_port
    &&& o.bind_to_device@ == Seq::<char>::empty()
    &&& o.num_event_loop == 0
    &&& o.read_buffer_cap == MAX_STREAM_BUFFER_CAP
    &&& o.write_buffer_cap == MAX_STREAM_BUFFER_CAP
    &&& !o.lock_os_thread
    &&& !o.ticker
    &&& o.tcp_keepalive is None
    &&& o.tcp_keep_interval is None
    &&& o.tcp_keep_count is None
    &&& o.tcp_no_delay == TcpSocketOpt::NoDelay
    &&& o.socket_recv_buffer == 0
    &&& o.socket_send_buffer == 0
    &&& o.edge_triggered_io_chunk == 0
    &&& o.log_path is None
    &&& o.log_level == Level::Info
}

impl Default for Options {
    fn default() -> (o: Self)
        ensures
            is_default_options(o),
    {
        Options {
            lb: LoadBalancing::RoundRobin,
            reuse_addr: false,
            reuse_port: false,
            bind_to_device: String::new(),
            num_event_loop: 0,
            read_buffer_cap: MAX_STREAM_BUFFER_CAP,
            write_buffer_cap: MAX_STREAM_BUFFER_CAP,
            lock_os_thread: false,
            ticker: false,
            tcp_keepalive: None,
            tcp_keep_interval: None,
            tcp_keep_count: None,
            tcp_no_delay: TcpSocketOpt::NoDelay,
            socket_recv_buffer: 0,
            socket_send_buffer: 0,
            edge_triggered_io_chunk: 0,
            log_path: None,
            log_level: Level::Info,
        }
    }
}

/// Whether any of the protocols is a Unix domain socket.
pub open spec fn has_unix(protocols: Seq<Protocol>) -> bool {
    exists|i: int| 0 <= i < protocols.len() && protocols[i] == Protocol::Unix
}

/// Whether any of the protocols is UDP.
pub open spec fn has_udp(protocols: Seq<Protocol>) -> bool {
    exists|i: int| 0 <= i < protocols.len() && protocols[i] == Protocol::Udp
}

/// Port reuse for listening on addresses of the given protocols, from the
/// setting `reuse`: always on for UDP, otherwise off for Unix domain sockets.
pub open spec fn reuse_port_for(reuse: bool, protocols: Seq<Protocol>) -> bool {
    if has_udp(protocols) {
        true
    } else {
        reuse && !has_unix(protocols)
    }
}

/// Port reuse for a set of listen addresses: any UDP address turns it on,
/// whatever it was before; otherwise any Unix socket turns it off; and
/// addresses of neither kind leave it as it was.
pub proof fn law_reuse_port_for_protocols(reuse: bool, protocols: Seq<Protocol>)
    ensures
        (exists|i: int| 0 <= i < protocols.len() && protocols[i] == Protocol::Udp) ==> reuse_port_for(reuse, protocols),
        !(exists|i: int| 0 <= i < protocols.len() && protocols[i] == Protocol::Udp) && (exists|i: int|
            0 <= i < protocols.len() && protocols[i] == Protocol::Unix) ==> !reuse_port_for(reuse, protocols),
        !(exists|i: int| 0 <= i < protocols.len() && (protocols[i] == Protocol::Udp || protocols[i] == Protocol::Unix))
            ==> reuse_port_for(reuse, protocols) == reuse,
{
}

/// `o` with its port reuse setting replaced by `reuse`.
pub open spec fn with_reuse_port(o: Options, reuse: bool) -> Options {
    Options { reuse_port: reuse, ..o }
}

/// `s` parses into some endpoint.
pub open spec fn resolves<A, F: Fn(&str) -> Result<A, String>>(s: Seq<char>, parse_inet: F) -> bool {
    exists|a: NetworkAddress<A>| resolved_as(s, parse_inet, Ok(a))
}

impl Options {
    /// A builder with no setting overridden.
    pub fn builder() -> (b: OptionsBuilder)
        ensures
            is_empty_builder(b),
    {
        OptionsBuilder::new()
    }

    /// Adjusts the settings to the protocols of the addresses that will be
    /// listened on: port reuse is switched on when any of them is UDP, and
    /// otherwise off when any of them is a Unix domain socket.
    pub fn normalize_for(&mut self, protocols: &[Protocol])
        ensures
            final(self).reuse_port == reuse_port_for(old(self).reuse_port, protocols@),
            (exists|i: int| 0 <= i < protocols@.len() && protocols@[i] == Protocol::Udp) ==> final(self).reuse_port,
            !(exists|i: int| 0 <= i < protocols@.len() && protocols@[i] == Protocol::Udp) && (exists|i: int|
                0 <= i < protocols@.len() && protocols@[i] == Protocol::Unix) ==> !final(self).reuse_port,
            !(exists|i: int| 0 <= i < protocols@.len() && (protocols@[i] == Protocol::Udp || protocols@[i] == Protocol::Unix))
                ==> final(self).reuse_port == old(self).reuse_port,
            final(self).lb == old(self).lb,
            final(self).reuse_addr == old(self).reuse_addr,
            final(self).bind_to_device == old(self).bind_to_device,
            final(self).num_event_loop == old(self).num_event_loop,
            final(self).read_buffer_cap == old(self).read_buffer_cap,
            final(self).write_buffer_cap == old(self).write_buffer_cap,
            final(self).lock_os_thread == old(self).lock_os_thread,
            final(self).ticker == old(self).ticker,
            final(self).tcp_keepalive == old(self).tcp_keepalive,
            final(self).tcp_keep_interval == old(self).tcp_keep_interval,
            final(self).tcp_keep_count == old(self).tcp_keep_count,
            final(self).tcp_no_delay == old(self).tcp_no_delay,
            final(self).socket_recv_buffer == old(self).socket_recv_buffer,
            final(self).socket_send_buffer == old(self).socket_send_buffer,
            final(self).edge_triggered_io_chunk == old(self).edge_triggered_io_chunk,
            final(self).log_path == old(self).log_path,
            final(self).log_level == old(self).log_level,
    {
        let mut unix = false;
        let mut udp = false;
        let mut i: usize = 0;
        while i < protocols.len()
            invariant
                i <= protocols@.len(),
                unix == (exists|j: int| 0 <= j < i && protocols@[j] == Protocol::Unix),
                udp == (exists|j: int| 0 <= j < i && protocols@[j] == Protocol::Udp),
            decreases protocols@.len() - i,
        {
            if protocols[i] == Protocol::Unix {
                unix = true;
            }
            if protocols[i] == Protocol::Udp {
                udp = true;
            }
            i = i + 1;
        }
        if self.reuse_port && unix {
            self.reuse_port = false;
        }
        if udp {
            self.reuse_port = true;
        }
    }

    /// Parses the addresses to listen on (the socket address of a TCP or UDP
    /// address by `parse_inet`) and, when all of them parse, adjusts the
    /// settings to their protocols (see `normalize_for`); the first address
    /// that does not parse is reported and leaves the settings as they were.
    pub fn normalize<A, F: Fn(&str) -> Result<A, String>>(&mut self, addrs: &[&str], parse_inet: F) -> (r: Result<
        Vec<NetworkAddress<A>>,
        crate::socket_addr::AddressError,
    >)
        requires
            forall|t: &str| parse_inet.requires((t,)),
        ensures
            match r {
                Ok(v) => {
                    &&& v@.len() == addrs@.len()
                    &&& forall|i: int| 0 <= i < addrs@.len() ==> resolved_as(addrs@[i]@, parse_inet, Ok(#[trigger] v@[i]))
                    &&& *final(self) == with_reuse_port(
                        *old(self),
                        reuse_port_for(old(self).reuse_port, v@.map_values(|a: NetworkAddress<A>| protocol_of(a))),
                    )
                },
                Err(e) => {
                    &&& *final(self) == *old(self)
                    &&& exists|i: int|
                        0 <= i < addrs@.len() && resolved_as(#[trigger] addrs@[i]@, parse_inet, Err(e)) && forall|j: int|
                            0 <= j < i ==> resolves(#[trigger] addrs@[j]@, parse_inet)
                },
            },
    {
        let mut parsed: Vec<NetworkAddress<A>> = Vec::new();
        let mut protocols: Vec<Protocol> = Vec::new();
        let mut i: usize = 0;
        while i < addrs.len()
            invariant
                i <= addrs@.len(),
                parsed@.len() == i,
                protocols@ == parsed@.map_values(|a: NetworkAddress<A>| protocol_of(a)),
                forall|t: &str| parse_inet.requires((t,)),
                forall|j: int| 0 <= j < i ==> resolved_as(addrs@[j]@, parse_inet, Ok(#[trigger] parsed@[j])),
            decreases addrs@.len() - i,
        {
            match parse_network_address(addrs[i], &parse_inet) {
                Ok(a) => {
                    let p = a.protocol();
                    parsed.push(a);
                    protocols.push(p);
                    assert(protocols@ =~= parsed@.map_values(|a: NetworkAddress<A>| protocol_of(a)));
                },
                Err(e) => {
                    proof {
                        assert forall|j: int| 0 <= j < i implies resolves(#[trigger] addrs@[j]@, parse_inet) by {
                            assert(resolved_as(addrs@[j]@, parse_inet, Ok(parsed@[j])));
                        }
                    }
                    return Err(e);
                },
            }
            i = i + 1;
        }
        self.normalize_for(protocols.as_slice());
        Ok(parsed)
    }
}

/// Collects overrides of individual settings on top of base options (or the
/// defaults) and builds normalised [`Options`] from them.
#[derive(Debug)]
pub struct OptionsBuilder {
    pub base_options: Option<Options>,
    pub lb: Option<LoadBalancing>,
    pub reuse_addr: Option<bool>,
    pub reuse_port: Option<bool>,
    pub bind_to_device: Option<String>,
    pub num_event_loop: Option<usize>,
    pub read_buffer_cap: Option<usize>,
    pub write_buffer_cap: Option<usize>,
    pub lock_os_thread: Option<bool>,
    pub ticker: Option<bool>,
    pub tcp_keepalive: Option<Duration>,
    pub tcp_keep_interval: Option<Duration>,
    pub tcp_keep_count: Option<u32>,
    pub tcp_no_delay: Option<TcpSocketOpt>,
    pub socket_recv_buffer: Option<usize>,
    pub socket_send_buffer: Option<usize>,
    pub edge_triggered_io_chunk: Option<usize>,
    pub log_path: Option<String>,
    pub log_level: Option<Level>,
}

/// No base options and no override.
pub open spec fn is_empty_builder(b: OptionsBuilder) -> bool {
    &&& b.base_options is None
    &&& b.lb is None
    &&& b.reuse_addr is None
    &&& b.reuse_port is None
    &&& b.bind_to_device is None
    &&& b.num_event_loop is None
    &&& b.read_buffer_cap is None
    &&& b.write_buffer_cap is None
    &&& b.lock_os_thread is None
    &&& b.ticker is None
    &&& b.tcp_keepalive is None
    &&& b.tcp_keep_interval is None
    &&& b.tcp_keep_count is None
    &&& b.tcp_no_delay is None
    &&& b.socket_recv_buffer is None
    &&& b.socket_send_buffer is None
    &&& b.edge_triggered_io_chunk is None
    &&& b.log_path is None
    &&& b.log_level is None
}

/// The override if there is one, else the value taken from the base options,
/// else the default.
pub open spec fn pick<T>(over: Option<T>, base: Option<Options>, field: spec_fn(Options) -> T, default: T) -> T {
    match over {
        Some(v) => v,
        None => match base {
            Some(o) => field(o),
            None => default,
        },
    }
}

/// The read buffer capacity a builder asks for before normalisation.
pub open spec fn requested_read_cap(b: OptionsBuilder) -> usize {
    pick(b.read_buffer_cap, b.base_options, |o: Options| o.read_buffer_cap, MAX_STREAM_BUFFER_CAP)
}

/// The write buffer capacity a builder asks for before normalisation.
pub open spec fn requested_write_cap(b: OptionsBuilder) -> usize {
    pick(b.write_buffer_cap, b.base_options, |o: Options| o.write_buffer_cap, MAX_STREAM_BUFFER_CAP)
}

/// The edge-triggered read chunk a builder asks for before normalisation.
pub open spec fn requested_io_chunk(b: OptionsBuilder) -> usize {
    pick(b.edge_triggered_io_chunk, b.base_options, |o: Options| o.edge_triggered_io_chunk, 0usize)
}

/// `r` is what `ceil_to_power_of_two` gives for `n`: 2 for `n <= 2`, else the
/// smallest power of two that is at least `n`.
pub open spec fn is_ceil_power_of_two(n: nat, r: nat) -> bool {
    if n <= 2 {
        r == 2
    } else {
        is_next_power_of_two(n, r)
    }
}

/// `r` is the normalised stream buffer capacity for a requested `size`.
pub open spec fn is_normalized_buffer_size(size: nat, r: nat) -> bool {
    if size == 0 {
        r == MAX_STREAM_BUFFER_CAP
    } else if size <= DEFAULT_BUFFER_SIZE {
        r == DEFAULT_BUFFER_SIZE
    } else {
        is_ceil_power_of_two(size, r)
    }
}

/// `r` is the normalised edge-triggered read chunk for a requested `chunk`.
pub open spec fn is_normalized_io_chunk(chunk: nat, r: nat) -> bool {
    if chunk > 0 {
        is_ceil_power_of_two(chunk, r)
    } else {
        r == DEFAULT_EDGE_TRIGGERED_IO_CHUNK
    }
}

/// The builder's sizes can be rounded up to powers of two without overflow.
pub open spec fn builder_sizes_fit(b: OptionsBuilder) -> bool {
    &&& requested_read_cap(b) <= pow2_arg_limit()
    &&& requested_write_cap(b) <= pow2_arg_limit()
    &&& requested_io_chunk(b) <= pow2_arg_limit()
}

/// `o` holds what `b` builds: every setting is the override, else the base
/// options' value, else the default; the buffer capacities and the read chunk
/// are normalised.
pub open spec fn built_from(o: Options, b: OptionsBuilder) -> bool {
    &&& o.lb == pick(b.lb, b.base_options, |x: Options| x.lb, LoadBalancing::RoundRobin)
    &&& o.reuse_addr == pick(b.reuse_addr, b.base_options, |x: Options| x.reuse_addr, false)
    &&& o.reuse_port == pick(b.reuse_port, b.base_options, |x: Options| x.reuse_port, false)
    &&& o.bind_to_device@ == pick(
        match b.bind_to_device {
            Some(s) => Some(s@),
            None => None,
        },
        b.base_options,
        |x: Options| x.bind_to_device@,
        Seq::<char>::empty(),
    )
    &&& o.num_event_loop == pick(b.num_event_loop, b.base_options, |x: Options| x.num_event_loop, 0usize)
    &&& is_normalized_buffer_size(requested_read_cap(b) as nat, o.read_buffer_cap as nat)
    &&& is_normalized_buffer_size(requested_write_cap(b) as nat, o.write_buffer_cap as nat)
    &&& o.lock_os_thread == pick(b.lock_os_thread, b.base_options, |x: Options| x.lock_os_thread, false)
    &&& o.ticker == pick(b.ticker, b.base_options, |x: Options| x.ticker, false)
    &&& o.tcp_keepalive == pick(
        match b.tcp_keepalive {
            Some(d) => Some(Some(d)),
            None => None,
        },
        b.base_options,
        |x: Options| x.tcp_keepalive,
        None,
    )
    &&& o.tcp_keep_interval == pick(
        match b.tcp_keep_interval {
            Some(d) => Some(Some(d)),
            None => None,
        },
        b.base_options,
        |x: Options| x.tcp_keep_interval,
        None,
    )
    &&& o.tcp_keep_count == pick(
        match b.tcp_keep_count {
            Some(d) => Some(Some(d)),
            None => None,
        },
        b.base_options,
        |x: Options| x.tcp_keep_count,
        None,
    )
    &&& o.tcp_no_delay == pick(b.tcp_no_delay, b.base_options, |x: Options| x.tcp_no_delay, TcpSocketOpt::NoDelay)
    &&& o.socket_recv_buffer == pick(b.socket_recv_buffer, b.base_options, |x: Options| x.socket_recv_buffer, 0usize)
    &&& o.socket_send_buffer == pick(b.socket_send_buffer, b.base_options, |x: Options| x.socket_send_buffer, 0usize)
    &&& is_normalized_io_chunk(requested_io_chunk(b) as nat, o.edge_triggered_io_chunk as nat)
    &&& o.log_path == pick(
        match b.log_path {
            Some(p) => Some(Some(p)),
            None => None,
        },
        b.base_options,
        |x: Options| x.log_path,
        None,
    )
    &&& o.log_level == pick(b.log_level, b.base_options, |x: Options| x.log_level, Level::Info)
}

/// The value of an override, else `base`.
pub open spec fn or_base<T>(over: Option<T>, base: T) -> T {
    match over {
        Some(v) => v,
        None => base,
    }
}

/// `o` is `base` with every override of `b` applied (the base options of `b` aside).
pub open spec fn overrides_applied(o: Options, b: OptionsBuilder, base: Options) -> bool {
    &&& o.lb == or_base(b.lb, base.lb)
    &&& o.reuse_addr == or_base(b.reuse_addr, base.reuse_addr)
    &&& o.reuse_port == or_base(b.reuse_port, base.reuse_port)
    &&& o.bind_to_device == or_base(b.bind_to_device, base.bind_to_device)
    &&& o.num_event_loop == or_base(b.num_event_loop, base.num_event_loop)
    &&& o.read_buffer_cap == or_base(b.read_buffer_cap, base.read_buffer_cap)
    &&& o.write_buffer_cap == or_base(b.write_buffer_cap, base.write_buffer_cap)
    &&& o.lock_os_thread == or_base(b.lock_os_thread, base.lock_os_thread)
    &&& o.ticker == or_base(b.ticker, base.ticker)
    &&& o.tcp_keepalive == (if b.tcp_keepalive is Some { b.tcp_keepalive } else { base.tcp_keepalive })
    &&& o.tcp_keep_interval == (if b.tcp_keep_interval is Some { b.tcp_keep_interval } else { base.tcp_keep_interval })
    &&& o.tcp_keep_count == (if b.tcp_keep_count is Some { b.tcp_keep_count } else { base.tcp_keep_count })
    &&& o.tcp_no_delay == or_base(b.tcp_no_delay, base.tcp_no_delay)
    &&& o.socket_recv_buffer == or_base(b.socket_recv_buffer, base.socket_recv_buffer)
    &&& o.socket_send_buffer == or_base(b.socket_send_buffer, base.socket_send_buffer)
    &&& o.edge_triggered_io_chunk == or_base(b.edge_triggered_io_chunk, base.edge_triggered_io_chunk)
    &&& o.log_path == (if b.log_path is Some { b.log_path } else { base.log_path })
    &&& o.log_level == or_base(b.log_level, base.log_level)
}

impl Default for OptionsBuilder {
    fn default() -> (b: Self)
        ensures
            is_empty_builder(b),
    {
        OptionsBuilder {
            base_options: None,
            lb: None,
            reuse_addr: None,
            reuse_port: None,
            bind_to_device: None,
            num_event_loop: None,
            read_buffer_cap: None,
            write_buffer_cap: None,
            lock_os_thread: None,
            ticker: None,
            tcp_keepalive: None,
            tcp_keep_interval: None,
            tcp_keep_count: None,
            tcp_no_delay: None,
            socket_recv_buffer: None,
            socket_send_buffer: None,
            edge_triggered_io_chunk: None,
            log_path: None,
            log_level: None,
        }
    }
}

impl OptionsBuilder {
    /// A builder with no setting overridden.
    pub fn new() -> (b: Self)
        ensures
            is_empty_builder(b),
    {
        Self::default()
    }

    /// The options: base options (or the defaults) with every override applied,
    /// the edge-triggered read chunk rounded up to a power of two (a zero chunk
    /// becomes 1 MiB) and the buffer capacities normalised.
    pub fn build(self) -> (o: Options)
        requires
            builder_sizes_fit(self),
        ensures
            built_from(o, self),
    {
        let ghost b = self;
        let mut this = self;
        let base = match this.base_options.take() {
            Some(o) => o,
            None => Options::default(),
        };
        let merged = this.apply_overrides(base);
        let ghost m = merged;
        let o = normalize_sizes(merged);
        proof {
            assert(requested_read_cap(b) == m.read_buffer_cap);
            assert(requested_write_cap(b) == m.write_buffer_cap);
            assert(requested_io_chunk(b) == m.edge_triggered_io_chunk);
        }
        o
    }

    /// `base` with every override of this builder applied (its own base options aside).
    fn apply_overrides(self, base: Options) -> (o: Options)
        ensures
            overrides_applied(o, self, base),
    {
        Options {
            lb: self.lb.unwrap_or(base.lb),
            reuse_addr: self.reuse_addr.unwrap_or(base.reuse_addr),
            reuse_port: self.reuse_port.unwrap_or(base.reuse_port),
            bind_to_device: self.bind_to_device.unwrap_or(base.bind_to_device),
            num_event_loop: self.num_event_loop.unwrap_or(base.num_event_loop),
            read_buffer_cap: self.read_buffer_cap.unwrap_or(base.read_buffer_cap),
            write_buffer_cap: self.write_buffer_cap.unwrap_or(base.write_buffer_cap),
            lock_os_thread: self.lock_os_thread.unwrap_or(base.lock_os_thread),
            ticker: self.ticker.unwrap_or(base.ticker),
            tcp_keepalive: or_else(self.tcp_keepalive, base.tcp_keepalive),
            tcp_keep_interval: or_else(self.tcp_keep_interval, base.tcp_keep_interval),
            tcp_keep_count: or_else(self.tcp_keep_count, base.tcp_keep_count),
            tcp_no_delay: self.tcp_no_delay.unwrap_or(base.tcp_no_delay),
            socket_recv_buffer: self.socket_recv_buffer.unwrap_or(base.socket_recv_buffer),
            socket_send_buffer: self.socket_send_buffer.unwrap_or(base.socket_send_buffer),
            edge_triggered_io_chunk: self.edge_triggered_io_chunk.unwrap_or(base.edge_triggered_io_chunk),
            log_path: or_else(self.log_path, base.log_path),
            log_level: self.log_level.unwrap_or(base.log_level),
        }
    }

    /// Takes `options` as the base that overrides are applied to.
    pub fn with_options(self, options: Options) -> (r: Self)
        ensures
            r == (OptionsBuilder { base_options: Some(options), ..self }),
    {
        OptionsBuilder { base_options: Some(options), ..self }
    }

    pub fn lb(self, val: LoadBalancing) -> (r: Self)
        ensures
            r == (OptionsBuilder { lb: Some(val), ..self }),
    {
        OptionsBuilder { lb: Some(val), ..self }
    }

    pub fn reuse_addr(self, val: bool) -> (r: Self)
        ensures
            r == (OptionsBuilder { reuse_addr: Some(val), ..self }),
    {
        OptionsBuilder { reuse_addr: Some(val), ..self }
    }

    pub fn reuse_port(self, val: bool) -> (r: Self)
        ensures
            r == (OptionsBuilder { reuse_port: Some(val), ..self }),
    {
        OptionsBuilder { reuse_port: Some(val), ..self }
    }

    pub fn bind_to_device(self, val: String) -> (r: Self)
        ensures
            r == (OptionsBuilder { bind_to_device: Some(val), ..self }),
    {
        OptionsBuilder { bind_to_device: Some(val), ..self }
    }

    pub fn num_event_loop(self, val: usize) -> (r: Self)
        ensures
            r == (OptionsBuilder { num_event_loop: Some(val), ..self }),
    {
        OptionsBuilder { num_event_loop: Some(val), ..self }
    }

    pub fn read_buffer_cap(self, val: usize) -> (r: Self)
        ensures
            r == (OptionsBuilder { read_buffer_cap: Some(val), ..self }),
    {
        OptionsBuilder { read_buffer_cap: Some(val), ..self }
    }

    pub fn write_buffer_cap(self, val: usize) -> (r: Self)
        ensures
            r == (OptionsBuilder { write_buffer_cap: Some(val), ..self }),
    {
        OptionsBuilder { write_buffer_cap: Some(val), ..self }
    }

    pub fn lock_os_thread(self, val: bool) -> (r: Self)
        ensures
            r == (OptionsBuilder { lock_os_thread: Some(val), ..self }),
    {
        OptionsBuilder { lock_os_thread: Some(val), ..self }
    }

    pub fn ticker(self, val: bool) -> (r: Self)
        ensures
            r == (OptionsBuilder { ticker: Some(val), ..self }),
    {
        OptionsBuilder { ticker: Some(val), ..self }
    }

    pub fn tcp_keepalive(self, val: Duration) -> (r: Self)
        ensures
            r == (OptionsBuilder { tcp_keepalive: Some(val), ..self }),
    {
        OptionsBuilder { tcp_keepalive: Some(val), ..self }
    }

    pub fn tcp_keepinterval(self, val: Duration) -> (r: Self)
        ensures
            r == (OptionsBuilder { tcp_keep_interval: Some(val), ..self }),
    {
        OptionsBuilder { tcp_keep_interval: Some(val), ..self }
    }

    pub fn tcp_keepcount(self, val: u32) -> (r: Self)
        ensures
            r == (OptionsBuilder { tcp_keep_count: Some(val), ..self }),
    {
        OptionsBuilder { tcp_keep_count: Some(val), ..self }
    }

    pub fn tcp_no_delay(self, val: TcpSocketOpt) -> (r: Self)
        ensures
            r == (OptionsBuilder { tcp_no_delay: Some(val), ..self }),
    {
        OptionsBuilder { tcp_no_delay: Some(val), ..self }
    }

    pub fn socket_recv_buffer(self, val: usize) -> (r: Self)
        ensures
            r == (OptionsBuilder { socket_recv_buffer: Some(val), ..self }),
    {
        OptionsBuilder { socket_recv_buffer: Some(val), ..self }
    }

    pub fn socket_send_buffer(self, val: usize) -> (r: Self)
        ensures
            r == (OptionsBuilder { socket_send_buffer: Some(val), ..self }),
    {
        OptionsBuilder { socket_send_buffer: Some(val), ..self }
    }

    pub fn edge_triggered_io_chunk(self, val: usize) -> (r: Self)
        ensures
            r == (OptionsBuilder { edge_triggered_io_chunk: Some(val), ..self }),
    {
        OptionsBuilder { edge_triggered_io_chunk: Some(val), ..self }
    }

    pub fn log_path(self, val: String) -> (r: Self)
        ensures
            r == (OptionsBuilder { log_path: Some(val), ..self }),
    {
        OptionsBuilder { log_path: Some(val), ..self }
    }

    pub fn log_level(self, val: Level) -> (r: Self)
        ensures
            r == (OptionsBuilder { log_level: Some(val), ..self }),
    {
        OptionsBuilder { log_level: Some(val), ..self }
    }
}

/// `over` if it holds a value, else `base`.
fn or_else<T>(over: Option<T>, base: Option<T>) -> (r: Option<T>)
    ensures
        r == (if over is Some { over } else { base }),
{
    match over {
        Some(v) => Some(v),
        None => base,
    }
}

/// `o` with the edge-triggered read chunk rounded up to a power of two (1 MiB
/// when zero) and both stream buffer capacities normalised.
fn normalize_sizes(o: Options) -> (r: Options)
    requires
        o.read_buffer_cap <= pow2_arg_limit(),
        o.write_buffer_cap <= pow2_arg_limit(),
        o.edge_triggered_io_chunk <= pow2_arg_limit(),
    ensures
        r == (Options {
            read_buffer_cap: r.read_buffer_cap,
            write_buffer_cap: r.write_buffer_cap,
            edge_triggered_io_chunk: r.edge_triggered_io_chunk,
            ..o
        }),
        is_normalized_buffer_size(o.read_buffer_cap as nat, r.read_buffer_cap as nat),
        is_normalized_buffer_size(o.write_buffer_cap as nat, r.write_buffer_cap as nat),
        is_normalized_io_chunk(o.edge_triggered_io_chunk as nat, r.edge_triggered_io_chunk as nat),
{
    let mut opts = o;
    if opts.edge_triggered_io_chunk > 0 {
        opts.edge_triggered_io_chunk = ceil_to_power_of_two(opts.edge_triggered_io_chunk);
    } else {
        opts.edge_triggered_io_chunk = DEFAULT_EDGE_TRIGGERED_IO_CHUNK;
    }
    opts.read_buffer_cap = normalize_buffer_size(opts.read_buffer_cap);
    opts.write_buffer_cap = normalize_buffer_size(opts.write_buffer_cap);
    opts
}

/// The stream buffer capacity used for a requested `size`: the default
/// maximum for zero, at least 1 KiB, and otherwise rounded up to a power of two.
pub fn normalize_buffer_size(size: usize) -> (r: usize)
    requires
        size <= pow2_arg_limit(),
    ensures
        is_normalized_buffer_size(size as nat, r as nat),
{
    if size == 0 {
        MAX_STREAM_BUFFER_CAP
    } else if size <= DEFAULT_BUFFER_SIZE {
        DEFAULT_BUFFER_SIZE
    } else {
        ceil_to_power_of_two(size)
    }
}

/// 2 for `n <= 2`, else the smallest power of two that is at least `n`.
pub fn ceil_to_power_of_two(n: usize) -> (r: usize)
    requires
        n <= pow2_arg_limit(),
    ensures
        is_ceil_power_of_two(n as nat, r as nat),
{
    if n <= 2 {
        2
    } else {
        next_power_of_two(n)
    }
}

/// A normalised stream buffer capacity is a power of two of at least 1 KiB.
pub proof fn law_normalized_buffer_size_is_power_of_two(size: nat, r: nat)
    requires
        is_normalized_buffer_size(size, r),
    ensures
        is_power_of_two(r),
        r >= DEFAULT_BUFFER_SIZE,
{
    reveal_with_fuel(is_power_of_two, 18);
    assert(is_power_of_two(1024));
    assert(is_power_of_two(65536));
}

/// Normalising a normalised stream buffer capacity leaves it unchanged.
pub proof fn law_normalized_buffer_size_is_stable(size: nat, r: nat, r2: nat)
    requires
        is_normalized_buffer_size(size, r),
        is_normalized_buffer_size(r, r2),
    ensures
        r2 == r,
{
    law_normalized_buffer_size_is_power_of_two(size, r);
    if r > DEFAULT_BUFFER_SIZE {
        lemma_next_power_of_two_of_power(r);
        lemma_next_power_of_two_unique(r, r, r2);
    }
}

/// A normalised edge-triggered read chunk is a power of two of at least 2.
pub proof fn law_normalized_io_chunk_is_power_of_two(chunk: nat, r: nat)
    requires
        is_normalized_io_chunk(chunk, r),
    ensures
        is_power_of_two(r),
        r >= 2,
{
    reveal_with_fuel(is_power_of_two, 22);
    assert(is_power_of_two(2));
    assert(is_power_of_two(DEFAULT_EDGE_TRIGGERED_IO_CHUNK as nat));
}

/// Building from an empty builder gives the default settings with the
/// default capacities kept and a 1 MiB edge-triggered read chunk.
pub proof fn law_empty_builder_builds_defaults(o: Options, b: OptionsBuilder)
    requires
        is_empty_builder(b),
        built_from(o, b),
    ensures
        o.read_buffer_cap == MAX_STREAM_BUFFER_CAP,
        o.write_buffer_cap == MAX_STREAM_BUFFER_CAP,
        o.edge_triggered_io_chunk == DEFAULT_EDGE_TRIGGERED_IO_CHUNK,
        o.lb == LoadBalancing::RoundRobin,
        !o.reuse_port,
        o.tcp_no_delay == TcpSocketOpt::NoDelay,
        o.log_level == Level::Info,
{
    reveal_with_fuel(is_power_of_two, 18);
    assert(is_power_of_two(65536));
    lemma_next_power_of_two_of_power(65536);
    lemma_next_power_of_two_unique(65536, 65536, o.read_buffer_cap as nat);
    lemma_next_power_of_two_unique(65536, 65536, o.write_buffer_cap as nat);
}

/// Two builders carry the same overrides (their base options aside).
pub open spec fn same_overrides(a: OptionsBuilder, b: OptionsBuilder) -> bool {
    (OptionsBuilder { base_options: None, ..a }) == (OptionsBuilder { base_options: None, ..b })
}

/// Two options hold the same settings (the device name by its text).
pub open spec fn same_settings(a: Options, b: Options) -> bool {
    &&& a.lb == b.lb
    &&& a.reuse_addr == b.reuse_addr
    &&& a.reuse_port == b.reuse_port
    &&& a.bind_to_device@ == b.bind_to_device@
    &&& a.num_event_loop == b.num_event_loop
    &&& a.read_buffer_cap == b.read_buffer_cap
    &&& a.write_buffer_cap == b.write_buffer_cap
    &&& a.lock_os_thread == b.lock_os_thread
    &&& a.ticker == b.ticker
    &&& a.tcp_keepalive == b.tcp_keepalive
    &&& a.tcp_keep_interval == b.tcp_keep_interval
    &&& a.tcp_keep_count == b.tcp_keep_count
    &&& a.tcp_no_delay == b.tcp_no_delay
    &&& a.socket_recv_buffer == b.socket_recv_buffer
    &&& a.socket_send_buffer == b.socket_send_buffer
    &&& a.edge_triggered_io_chunk == b.edge_triggered_io_chunk
    &&& a.log_path == b.log_path
    &&& a.log_level == b.log_level
}

/// A requested stream buffer capacity is kept exactly when it is a power of
/// two of at least 1 KiB.
pub proof fn law_normalized_buffer_size_keeps_valid_sizes(size: nat, r: nat)
    requires
        is_normalized_buffer_size(size, r),
    ensures
        r == size <==> (is_power_of_two(size) && size >= DEFAULT_BUFFER_SIZE),
{
    law_normalized_buffer_size_is_power_of_two(size, r);
    if is_power_of_two(size) && size > DEFAULT_BUFFER_SIZE {
        lemma_next_power_of_two_of_power(size);
        lemma_next_power_of_two_unique(size, size, r);
    }
}

/// The normalised read chunk is kept when it is normalised again.
proof fn lemma_normalized_io_chunk_is_stable(chunk: nat, r: nat, r2: nat)
    requires
        is_normalized_io_chunk(chunk, r),
        is_normalized_io_chunk(r, r2),
    ensures
        r2 == r,
{
    law_normalized_io_chunk_is_power_of_two(chunk, r);
    if r > 2 {
        lemma_next_power_of_two_of_power(r);
        lemma_next_power_of_two_unique(r, r, r2);
    }
}

/// Every `2^k` is a power of two.
proof fn lemma_pow2_is_power_of_two(k: nat)
    ensures
        is_power_of_two(vstd::arithmetic::power2::pow2(k)),
    decreases k,
{
    if k == 0 {
        vstd::arithmetic::power2::lemma2_to64();
    } else {
        lemma_pow2_is_power_of_two((k - 1) as nat);
        vstd::arithmetic::power2::lemma_pow2_unfold(k);
        crate::pow2::lemma_double_is_power_of_two(vstd::arithmetic::power2::pow2((k - 1) as nat));
    }
}

/// The largest argument that sizes may be rounded up from is a power of two.
proof fn lemma_arg_limit_is_power_of_two()
    ensures
        is_power_of_two(pow2_arg_limit()),
        pow2_arg_limit() >= DEFAULT_EDGE_TRIGGERED_IO_CHUNK,
{
    assert(usize::MAX == 0xffff_ffff || usize::MAX == 0xffff_ffff_ffff_ffff);
    vstd::arithmetic::power2::lemma2_to64();
    vstd::arithmetic::power2::lemma2_to64_rest();
    lemma_pow2_is_power_of_two(31);
    lemma_pow2_is_power_of_two(63);
}

/// A size rounded up to a power of two from at most the limit stays within it.
proof fn lemma_next_power_of_two_within_limit(n: nat, p: nat)
    requires
        is_next_power_of_two(n, p),
        n <= pow2_arg_limit(),
    ensures
        p <= pow2_arg_limit(),
{
    lemma_arg_limit_is_power_of_two();
    if p > pow2_arg_limit() {
        lemma_powers_of_two_apart(pow2_arg_limit(), p);
    }
}

/// Normalised sizes stay within the limit they may be rounded up from.
proof fn lemma_normalized_sizes_within_limit(o: Options, b: OptionsBuilder)
    requires
        builder_sizes_fit(b),
        built_from(o, b),
    ensures
        o.read_buffer_cap <= pow2_arg_limit(),
        o.write_buffer_cap <= pow2_arg_limit(),
        o.edge_triggered_io_chunk <= pow2_arg_limit(),
{
    lemma_arg_limit_is_power_of_two();
    if requested_read_cap(b) > DEFAULT_BUFFER_SIZE {
        lemma_next_power_of_two_within_limit(requested_read_cap(b) as nat, o.read_buffer_cap as nat);
    }
    if requested_write_cap(b) > DEFAULT_BUFFER_SIZE {
        lemma_next_power_of_two_within_limit(requested_write_cap(b) as nat, o.write_buffer_cap as nat);
    }
    if requested_io_chunk(b) > 2 {
        lemma_next_power_of_two_within_limit(requested_io_chunk(b) as nat, o.edge_triggered_io_chunk as nat);
    }
}

/// Building again from built options changes nothing: a builder whose only
/// content is those options can be built, and gives the same settings.
pub proof fn law_rebuild_changes_nothing(b: OptionsBuilder, o: Options, r: OptionsBuilder)
    requires
        builder_sizes_fit(b),
        built_from(o, b),
        r.base_options == Some(o),
        is_empty_builder(OptionsBuilder { base_options: None, ..r }),
    ensures
        builder_sizes_fit(r),
        forall|o2: Options| #[trigger] built_from(o2, r) ==> same_settings(o2, o),
{
    lemma_normalized_sizes_within_limit(o, b);
    assert forall|o2: Options| #[trigger] built_from(o2, r) implies same_settings(o2, o) by {
        law_normalized_buffer_size_is_stable(requested_read_cap(b) as nat, o.read_buffer_cap as nat, o2.read_buffer_cap as nat);
        law_normalized_buffer_size_is_stable(requested_write_cap(b) as nat, o.write_buffer_cap as nat, o2.write_buffer_cap as nat);
        lemma_normalized_io_chunk_is_stable(
            requested_io_chunk(b) as nat,
            o.edge_triggered_io_chunk as nat,
            o2.edge_triggered_io_chunk as nat,
        );
    }
}

/// Taking base options keeps every override set before or after, and base
/// options taken later replace those taken before.
pub proof fn law_with_options_keeps_overrides(b: OptionsBuilder, o: Options, o2: Options)
    ensures
        same_overrides(OptionsBuilder { base_options: Some(o), ..b }, b),
        (OptionsBuilder { base_options: Some(o2), ..OptionsBuilder { base_options: Some(o), ..b } }) == (
        OptionsBuilder { base_options: Some(o2), ..b }),
{
    assert((OptionsBuilder { base_options: None, ..OptionsBuilder { base_options: Some(o), ..b } }) == (
    OptionsBuilder { base_options: None, ..b }));
}

/// What a builder builds depends only on its overrides and base options: the
/// order in which overrides and base options were given does not matter.
pub proof fn law_build_depends_on_overrides_and_base(b1: OptionsBuilder, b2: OptionsBuilder, o1: Options, o2: Options)
    requires
        same_overrides(b1, b2),
        b1.base_options == b2.base_options,
        built_from(o1, b1),
        built_from(o2, b2),
    ensures
        same_settings(o1, o2),
{
    let n1 = OptionsBuilder { base_options: None, ..b1 };
    let n2 = OptionsBuilder { base_options: None, ..b2 };
    assert(n1.lb == b1.lb && n2.lb == b2.lb);
    assert(b1 == b2);
    if requested_read_cap(b1) > DEFAULT_BUFFER_SIZE {
        lemma_next_power_of_two_unique(requested_read_cap(b1) as nat, o1.read_buffer_cap as nat, o2.read_buffer_cap as nat);
    }
    if requested_write_cap(b1) > DEFAULT_BUFFER_SIZE {
        lemma_next_power_of_two_unique(requested_write_cap(b1) as nat, o1.write_buffer_cap as nat, o2.write_buffer_cap as nat);
    }
    if requested_io_chunk(b1) > 2 {
        lemma_next_power_of_two_unique(
            requested_io_chunk(b1) as nat,
            o1.edge_triggered_io_chunk as nat,
            o2.edge_triggered_io_chunk as nat,
        );
    }
}

/// A set override decides its setting whatever base options are given (the
/// sizes through normalisation); an unset one is taken from the base options.
pub proof fn law_override_decides(b: OptionsBuilder, o: Options)
    requires
        built_from(o, b),
    ensures
        b.lb matches Some(v) ==> o.lb == v,
        b.reuse_addr matches Some(v) ==> o.reuse_addr == v,
        b.reuse_port matches Some(v) ==> o.reuse_port == v,
        b.bind_to_device matches Some(v) ==> o.bind_to_device@ == v@,
        b.num_event_loop matches Some(v) ==> o.num_event_loop == v,
        b.read_buffer_cap matches Some(v) ==> is_normalized_buffer_size(v as nat, o.read_buffer_cap as nat),
        b.write_buffer_cap matches Some(v) ==> is_normalized_buffer_size(v as nat, o.write_buffer_cap as nat),
        b.lock_os_thread matches Some(v) ==> o.lock_os_thread == v,
        b.ticker matches Some(v) ==> o.ticker == v,
        b.tcp_keepalive matches Some(v) ==> o.tcp_keepalive == Some(v),
        b.tcp_keep_interval matches Some(v) ==> o.tcp_keep_interval == Some(v),
        b.tcp_keep_count matches Some(v) ==> o.tcp_keep_count == Some(v),
        b.tcp_no_delay matches Some(v) ==> o.tcp_no_delay == v,
        b.socket_recv_buffer matches Some(v) ==> o.socket_recv_buffer == v,
        b.socket_send_buffer matches Some(v) ==> o.socket_send_buffer == v,
        b.edge_triggered_io_chunk matches Some(v) ==> is_normalized_io_chunk(v as nat, o.edge_triggered_io_chunk as nat),
        b.log_path matches Some(v) ==> o.log_path == Some(v),
        b.log_level matches Some(v) ==> o.log_level == v,
        b.base_options matches Some(base) ==> {
            &&& b.lb is None ==> o.lb == base.lb
            &&& b.reuse_addr is None ==> o.reuse_addr == base.reuse_addr
            &&& b.reuse_port is None ==> o.reuse_port == base.reuse_port
            &&& b.bind_to_device is None ==> o.bind_to_device@ == base.bind_to_device@
            &&& b.num_event_loop is None ==> o.num_event_loop == base.num_event_loop
            &&& b.read_buffer_cap is None ==> is_normalized_buffer_size(
                base.read_buffer_cap as nat,
                o.read_buffer_cap as nat,
            )
            &&& b.write_buffer_cap is None ==> is_normalized_buffer_size(
                base.write_buffer_cap as nat,
                o.write_buffer_cap as nat,
            )
            &&& b.lock_os_thread is None ==> o.lock_os_thread == base.lock_os_thread
            &&& b.ticker is None ==> o.ticker == base.ticker
            &&& b.tcp_keepalive is None ==> o.tcp_keepalive == base.tcp_keepalive
            &&& b.tcp_keep_interval is None ==> o.tcp_keep_interval == base.tcp_keep_interval
            &&& b.tcp_keep_count is None ==> o.tcp_keep_count == base.tcp_keep_count
            &&& b.tcp_no_delay is None ==> o.tcp_no_delay == base.tcp_no_delay
            &&& b.socket_recv_buffer is None ==> o.socket_recv_buffer == base.socket_recv_buffer
            &&& b.socket_send_buffer is None ==> o.socket_send_buffer == base.socket_send_buffer
            &&& b.edge_triggered_io_chunk is None ==> is_normalized_io_chunk(
                base.edge_triggered_io_chunk as nat,
                o.edge_triggered_io_chunk as nat,
            )
            &&& b.log_path is None ==> o.log_path == base.log_path
            &&& b.log_level is None ==> o.log_level == base.log_level
        },
{
}

/// Setting the load-balancing policy decides it, whatever base options were
/// given before or after.
pub proof fn law_lb_setter_decides(b: OptionsBuilder, val: LoadBalancing, o: Options)
    requires
        built_from(o, OptionsBuilder { lb: Some(val), ..b }),
    ensures
        o.lb == val,
{
}

/// Setting port reuse decides it, whatever base options were given.
pub proof fn law_reuse_port_setter_decides(b: OptionsBuilder, val: bool, o: Options)
    requires
        built_from(o, OptionsBuilder { reuse_port: Some(val), ..b }),
    ensures
        o.reuse_port == val,
{
}

/// Setting TCP keep-alive decides it, even when the base options carry another value.
pub proof fn law_tcp_keepalive_setter_decides(b: OptionsBuilder, val: Duration, o: Options)
    requires
        built_from(o, OptionsBuilder { tcp_keepalive: Some(val), ..b }),
    ensures
        o.tcp_keepalive == Some(val),
{
}

/// Setting the read buffer capacity gives its normalised value, which is the
/// value set exactly when that is a power of two of at least 1 KiB.
pub proof fn law_read_buffer_cap_setter_decides(b: OptionsBuilder, val: usize, o: Options)
    requires
        built_from(o, OptionsBuilder { read_buffer_cap: Some(val), ..b }),
    ensures
        is_normalized_buffer_size(val as nat, o.read_buffer_cap as nat),
        o.read_buffer_cap == val <==> (is_power_of_two(val as nat) && val >= DEFAULT_BUFFER_SIZE),
{
    law_normalized_buffer_size_keeps_valid_sizes(val as nat, o.read_buffer_cap as nat);
}

/// Setting the edge-triggered read chunk gives 1 MiB for zero and otherwise
/// the value rounded up to a power of two (at least 2).
pub proof fn law_io_chunk_setter_decides(b: OptionsBuilder, val: usize, o: Options)
    requires
        built_from(o, OptionsBuilder { edge_triggered_io_chunk: Some(val), ..b }),
    ensures
        val == 0 ==> o.edge_triggered_io_chunk == DEFAULT_EDGE_TRIGGERED_IO_CHUNK,
        val > 0 ==> is_ceil_power_of_two(val as nat, o.edge_triggered_io_chunk as nat),
{
}

/// An override set before taking base options and one set after give the
/// same builder, and so the same options: the override wins either way.
pub proof fn law_override_order_with_options(b: OptionsBuilder, o: Options, val: LoadBalancing, x: Options)
    requires
        built_from(x, OptionsBuilder { base_options: Some(o), ..OptionsBuilder { lb: Some(val), ..b } }),
    ensures
        (OptionsBuilder { base_options: Some(o), ..OptionsBuilder { lb: Some(val), ..b } }) == (OptionsBuilder {
            lb: Some(val),
            ..OptionsBuilder { base_options: Some(o), ..b }
        }),
        x.lb == val,
{
}

/// Where a core sits physically: its socket (package) and core number, as
/// the operating system reports them.
#[derive(Debug)]
pub struct TopoKey {
    pub socket: String,
    pub core: String,
}

/// The text of a topology key.
pub open spec fn key_view(k: TopoKey) -> (Seq<char>, Seq<char>) {
    (k.socket@, k.core@)
}

/// `c` is white space in the sense of Unicode's `White_Space` property, which
/// is what `str::trim` removes.
pub open spec fn is_white_space(c: char) -> bool {
    ||| ('\u{9}' <= c && c <= '\u{d}')
    ||| c == ' '
    ||| c == '\u{85}'
    ||| c == '\u{a0}'
    ||| c == '\u{1680}'
    ||| ('\u{2000}' <= c && c <= '\u{200a}')
    ||| c == '\u{2028}'
    ||| c == '\u{2029}'
    ||| c == '\u{202f}'
    ||| c == '\u{205f}'
    ||| c == '\u{3000}'
}

/// `s` without its leading white space.
pub open spec fn trim_start(s: Seq<char>) -> Seq<char>
    decreases s.len(),
{
    if s.len() > 0 && is_white_space(s[0]) {
        trim_start(s.skip(1))
    } else {
        s
    }
}

/// `s` without its trailing white space.
pub open spec fn trim_end(s: Seq<char>) -> Seq<char>
    decreases s.len(),
{
    if s.len() > 0 && is_white_space(s.last()) {
        trim_end(s.drop_last())
    } else {
        s
    }
}

/// `s` without leading and trailing white space.
pub open spec fn trimmed(s: Seq<char>) -> Seq<char> {
    trim_end(trim_start(s))
}

/// Whether `c` is white space.
fn white_space(c: char) -> (r: bool)
    ensures
        r == is_white_space(c),
{
    ('\u{9}' <= c && c <= '\u{d}') || c == ' ' || c == '\u{85}' || c == '\u{a0}' || c == '\u{1680}' || (
    '\u{2000}' <= c && c <= '\u{200a}') || c == '\u{2028}' || c == '\u{2029}' || c == '\u{202f}' || c
        == '\u{205f}' || c == '\u{3000}'
}

/// `s` without leading and trailing white space.
pub fn trim_text(s: &str) -> (r: String)
    ensures
        r@ == trimmed(s@),
{
    let n = s.unicode_len();
    let mut i: usize = 0;
    assert(s@.skip(0) =~= s@);
    while i < n && white_space(s.get_char(i))
        invariant
            i <= n,
            n == s@.len(),
            trim_start(s@) == trim_start(s@.skip(i as int)),
        decreases n - i,
    {
        assert(s@.skip(i as int).skip(1) =~= s@.skip(i + 1));
        i = i + 1;
    }
    assert(trim_start(s@) == s@.skip(i as int));
    let mut j: usize = n;
    assert(s@.subrange(i as int, n as int) =~= s@.skip(i as int));
    while j > i && white_space(s.get_char(j - 1))
        invariant
            i <= j <= n,
            n == s@.len(),
            trim_end(s@.skip(i as int)) == trim_end(s@.subrange(i as int, j as int)),
        decreases j,
    {
        assert(s@.subrange(i as int, j as int).drop_last() =~= s@.subrange(i as int, j - 1));
        j = j - 1;
    }
    let part = s.substring_char(i, j);
    String::from_str(part)
}

/// `std`'s `ToString` of a `usize`: its decimal digits.
#[verifier::external_body]
fn usize_text(n: usize) -> (s: String)
    ensures
        s@ == decimal(n as nat),
{
    n.to_string()
}

/// The topology key of cpu `cpu_id` from the texts the operating system
/// gives for its package and core ids, each trimmed; a package id that could
/// not be read counts as package 0 and a core id that could not be read as
/// the cpu's own number.
pub fn topology_key_from(cpu_id: usize, package_id: Option<&str>, core_id: Option<&str>) -> (k: TopoKey)
    ensures
        k.socket@ == (match package_id {
            Some(t) => trimmed(t@),
            None => seq!['0'],
        }),
        k.core@ == (match core_id {
            Some(t) => trimmed(t@),
            None => decimal(cpu_id as nat),
        }),
{
    let socket = match package_id {
        Some(t) => trim_text(t),
        None => {
            proof {
                reveal_strlit("0");
            }
            String::from_str("0")
        },
    };
    let core = match core_id {
        Some(t) => trim_text(t),
        None => usize_text(cpu_id),
    };
    TopoKey { socket, core }
}

/// The positions, among the first `n` keys, that a greedy pass picks when it
/// takes each core whose key it has not picked yet, up to `target` cores.
pub open spec fn distinct_picks(keys: Seq<(Seq<char>, Seq<char>)>, target: nat, n: nat) -> Seq<int>
    decreases n,
{
    if n == 0 {
        Seq::<int>::empty()
    } else {
        let s = distinct_picks(keys, target, (n - 1) as nat);
        if s.len() < target && !(exists|j: int| 0 <= j < s.len() && keys[s[j]] == keys[n - 1]) {
            s.push(n - 1)
        } else {
            s
        }
    }
}

/// Position `t` holds the first occurrence of its key.
pub open spec fn first_occurrence(keys: Seq<(Seq<char>, Seq<char>)>, t: int) -> bool {
    forall|u: int| 0 <= u < t ==> keys[u] != keys[t]
}

/// `s` takes one position per key: increasing positions below `n`, no two
/// with the same key, each the first position that has its key; while fewer
/// than `target` are taken every key among the first `n` is represented, and
/// no first occurrence of a key before the last taken position is left out.
pub open spec fn one_per_key(keys: Seq<(Seq<char>, Seq<char>)>, target: nat, n: nat, s: Seq<int>) -> bool {
    &&& s.len() <= target
    &&& forall|i: int| 0 <= i < s.len() ==> 0 <= #[trigger] s[i] < n
    &&& forall|i: int, j: int| 0 <= i < j < s.len() ==> #[trigger] s[i] < #[trigger] s[j]
    &&& forall|i: int, j: int|
        0 <= i < s.len() && 0 <= j < s.len() && i != j ==> keys[#[trigger] s[i]] != keys[#[trigger] s[j]]
    &&& forall|i: int| 0 <= i < s.len() ==> first_occurrence(keys, #[trigger] s[i])
    &&& s.len() < target ==> forall|t: int|
        #![trigger keys[t]]
        0 <= t < n ==> exists|j: int| 0 <= j < s.len() && keys[#[trigger] s[j]] == keys[t]
    &&& forall|t: int|
        0 <= t < n && #[trigger] first_occurrence(keys, t) && (s.len() < target || (s.len() > 0 && t <= s.last()))
            ==> exists|j: int|
            0 <= j < s.len() && s[j] == t
}

/// The cores picked from the first `n` take one hardware thread per physical
/// core: no two picked cores share a topology key, each is the first core
/// with its key, and while fewer than `target` are picked every key is
/// represented (see `one_per_key`).
pub proof fn law_distinct_picks_one_per_key(keys: Seq<(Seq<char>, Seq<char>)>, target: nat, n: nat)
    ensures
        one_per_key(keys, target, n, distinct_picks(keys, target, n)),
    decreases n,
{
    if n > 0 {
        let m = (n - 1) as nat;
        law_distinct_picks_one_per_key(keys, target, m);
        let s = distinct_picks(keys, target, m);
        let p = n - 1;
        let r = distinct_picks(keys, target, n);
        if s.len() < target && !(exists|j: int| 0 <= j < s.len() && keys[s[j]] == keys[p]) {
            assert(r == s.push(p));
            assert(first_occurrence(keys, p)) by {
                assert forall|u: int| 0 <= u < p implies keys[u] != keys[p] by {
                    let j = choose|j: int| 0 <= j < s.len() && keys[s[j]] == keys[u];
                }
            }
            assert forall|i: int| 0 <= i < r.len() implies first_occurrence(keys, #[trigger] r[i]) by {
                if i < s.len() {
                    assert(r[i] == s[i]);
                }
            }
            assert forall|i: int, j: int|
                0 <= i < r.len() && 0 <= j < r.len() && i != j implies keys[#[trigger] r[i]] != keys[#[trigger] r[j]] by {
                if i < s.len() && j < s.len() {
                    assert(r[i] == s[i] && r[j] == s[j]);
                } else if i < s.len() {
                    assert(r[i] == s[i]);
                } else {
                    assert(r[j] == s[j]);
                }
            }
            assert forall|i: int, j: int| 0 <= i < j < r.len() implies #[trigger] r[i] < #[trigger] r[j] by {
                if j < s.len() {
                    assert(r[i] == s[i] && r[j] == s[j]);
                } else {
                    assert(r[i] == s[i]);
                }
            }
            if r.len() < target {
                assert forall|t: int| #![trigger keys[t]] 0 <= t < n implies exists|j: int|
                    0 <= j < r.len() && keys[#[trigger] r[j]] == keys[t] by {
                    if t < p {
                        let j = choose|j: int| 0 <= j < s.len() && keys[s[j]] == keys[t];
                        assert(r[j] == s[j]);
                    } else {
                        assert(r[s.len() as int] == p);
                    }
                }
            }
            assert forall|t: int|
                0 <= t < n && #[trigger] first_occurrence(keys, t) && (r.len() < target || (r.len() > 0 && t <= r.last()))
                implies exists|j: int|
                0 <= j < r.len() && r[j] == t by {
                if t < p {
                    let j = choose|j: int| 0 <= j < s.len() && s[j] == t;
                    assert(r[j] == s[j]);
                } else {
                    assert(r[s.len() as int] == p);
                }
            }
        } else {
            assert(r == s);
            if s.len() < target {
                let j0 = choose|j: int| 0 <= j < s.len() && keys[s[j]] == keys[p];
                assert forall|t: int| #![trigger keys[t]] 0 <= t < n implies exists|j: int|
                    0 <= j < s.len() && keys[#[trigger] s[j]] == keys[t] by {
                    if t == p {
                        assert(keys[s[j0]] == keys[t]);
                    }
                }
                assert(!first_occurrence(keys, p)) by {
                    assert(0 <= s[j0] < p);
                    assert(keys[s[j0]] == keys[p]);
                }
            } else {
                if s.len() > 0 {
                    assert(s.last() < p);
                }
            }
        }
    }
}

/// Every pick is an earlier position, in increasing order, and the picks number at most `target`.
pub proof fn lemma_distinct_picks_bounds(keys: Seq<(Seq<char>, Seq<char>)>, target: nat, n: nat)
    ensures
        distinct_picks(keys, target, n).len() <= target,
        forall|j: int|
            0 <= j < distinct_picks(keys, target, n).len() ==> 0 <= #[trigger] distinct_picks(keys, target, n)[j] < n,
    decreases n,
{
    if n > 0 {
        lemma_distinct_picks_bounds(keys, target, (n - 1) as nat);
    }
}

/// The cores (given by `ids`, with their topology `keys`) that a greedy pass
/// picks: each core on a physical core not picked yet, up to `target` cores.
pub fn select_cores(ids: &Vec<usize>, keys: &Vec<TopoKey>, target: usize) -> (r: Vec<usize>)
    requires
        ids@.len() == keys@.len(),
    ensures
        r@ == distinct_picks(keys@.map_values(|k: TopoKey| key_view(k)), target as nat, ids@.len()).map_values(
            |j: int| ids@[j],
        ),
{
    let ghost kv = keys@.map_values(|k: TopoKey| key_view(k));
    let mut picked: Vec<usize> = Vec::new();
    let mut out: Vec<usize> = Vec::new();
    let n = ids.len();
    let mut i: usize = 0;
    while i < n
        invariant
            n == ids@.len(),
            n == keys@.len(),
            kv == keys@.map_values(|k: TopoKey| key_view(k)),
            i <= n,
            picked@.len() == out@.len(),
            picked@.map_values(|j: usize| j as int) == distinct_picks(kv, target as nat, i as nat),
            forall|j: int| 0 <= j < picked@.len() ==> #[trigger] picked@[j] < i,
            forall|j: int| 0 <= j < out@.len() ==> #[trigger] out@[j] == ids@[picked@[j] as int],
        decreases n - i,
    {
        let ghost s = distinct_picks(kv, target as nat, i as nat);
        proof {
            lemma_distinct_picks_bounds(kv, target as nat, i as nat);
        }
        if picked.len() < target {
            let mut seen = false;
            let mut j: usize = 0;
            while j < picked.len()
                invariant
                    j <= picked@.len(),
                    i < n,
                    n == keys@.len(),
                    kv == keys@.map_values(|k: TopoKey| key_view(k)),
                    forall|t: int| 0 <= t < picked@.len() ==> #[trigger] picked@[t] < i,
                    seen == (exists|t: int| 0 <= t < j && kv[picked@[t] as int] == kv[i as int]),
                decreases picked@.len() - j,
            {
                let p = picked[j];
                if keys[p].socket == keys[i].socket && keys[p].core == keys[i].core {
                    seen = true;
                }
                proof {
                    assert(kv[p as int] == key_view(keys@[p as int]));
                    assert(kv[i as int] == key_view(keys@[i as int]));
                }
                j = j + 1;
            }
            proof {
                assert(seen == (exists|t: int| 0 <= t < s.len() && kv[s[t]] == kv[i as int])) by {
                    if seen {
                        let t = choose|t: int| 0 <= t < picked@.len() && kv[picked@[t] as int] == kv[i as int];
                        assert(s[t] == picked@[t] as int);
                    }
                    if exists|t: int| 0 <= t < s.len() && kv[s[t]] == kv[i as int] {
                        let t = choose|t: int| 0 <= t < s.len() && kv[s[t]] == kv[i as int];
                        assert(s[t] == picked@[t] as int);
                    }
                }
            }
            if !seen {
                picked.push(i);
                out.push(ids[i]);
                assert(picked@.map_values(|j: usize| j as int) =~= s.push(i as int));
            }
        }
        i = i + 1;
    }
    assert(out@ =~= distinct_picks(kv, target as nat, n as nat).map_values(|j: int| ids@[j]));
    out
}

/// `core_affinity::get_core_ids`: the ids of the cores the current thread may
/// run on, or `None` when they cannot be read. What comes back depends on the
/// machine; nothing is stated of it.
#[verifier::external_body]
fn available_core_ids() -> Option<Vec<usize>> {
    core_affinity::get_core_ids().map(|cores| cores.into_iter().map(|c| c.id).collect())
}

/// `r` is the choice of cores to run event loops on from the available cores
/// `all`: all of them when no (or a zero) limit is given; otherwise, without a
/// topology lookup, the first `limit` of them; with one, the cores a greedy pass
/// picks by the keys the lookup gave, one per physical core, up to `limit`.
pub open spec fn chosen_from<F: Fn(usize) -> TopoKey>(
    all: Seq<usize>,
    limit: Option<usize>,
    topology_key: Option<F>,
    r: Seq<usize>,
) -> bool {
    match limit {
        None => r == all,
        Some(t) => if t == 0 {
            r == all
        } else {
            match topology_key {
                None => r == all.take(if t < all.len() { t as int } else { all.len() as int }),
                Some(f) => exists|keys: Seq<TopoKey>|
                    #![trigger keys.len()]
                    {
                        &&& keys.len() == all.len()
                        &&& forall|i: int| 0 <= i < all.len() ==> f.ensures((all[i],), #[trigger] keys[i])
                        &&& r == distinct_picks(keys.map_values(|k: TopoKey| key_view(k)), t as nat, all.len()).map_values(
                            |j: int| all[j],
                        )
                    },
            }
        },
    }
}

/// The cores to run event loops on, chosen from the available cores `all`
/// (see `chosen_from`); the topology of each core is looked up with `topology_key`.
pub fn choose_cores<F: Fn(usize) -> TopoKey>(all: Vec<usize>, limit: Option<usize>, topology_key: Option<F>) -> (r: Vec<usize>)
    requires
        topology_key matches Some(f) ==> forall|id: usize| f.requires((id,)),
    ensures
        chosen_from(all@, limit, topology_key, r@),
        limit matches Some(t) ==> (t > 0 ==> r@.len() <= t),
{
    let target = match limit {
        None => {
            return all;
        },
        Some(t) => t,
    };
    if target == 0 {
        return all;
    }
    match topology_key {
        None => {
            let mut out: Vec<usize> = Vec::new();
            let mut i: usize = 0;
            while i < all.len() && i < target
                invariant
                    out@ == all@.take(i as int),
                    i <= target,
                    i <= all@.len(),
                decreases all@.len() - i,
            {
                out.push(all[i]);
                i = i + 1;
                assert(out@ =~= all@.take(i as int));
            }
            out
        },
        Some(f) => {
            let mut keys: Vec<TopoKey> = Vec::new();
            let mut i: usize = 0;
            while i < all.len()
                invariant
                    keys@.len() == i,
                    i <= all@.len(),
                    forall|id: usize| f.requires((id,)),
                    forall|j: int| 0 <= j < i ==> f.ensures((all@[j],), #[trigger] keys@[j]),
                decreases all@.len() - i,
            {
                let k = f(all[i]);
                keys.push(k);
                i = i + 1;
            }
            let r = select_cores(&all, &keys, target);
            proof {
                lemma_distinct_picks_bounds(keys@.map_values(|k: TopoKey| key_view(k)), target as nat, all@.len());
                assert(keys@.len() == all@.len());
            }
            r
        },
    }
}

/// The cores to run event loops on, chosen (see `chosen_from`) from the cores
/// the machine reports as available to the current thread (none when they
/// cannot be read); the topology of each core is looked up with `topology_key`.
pub fn get_core_ids<F: Fn(usize) -> TopoKey>(limit: Option<usize>, topology_key: Option<F>) -> (r: Vec<usize>)
    requires
        topology_key matches Some(f) ==> forall|id: usize| f.requires((id,)),
    ensures
        exists|all: Seq<usize>| #[trigger] chosen_from(all, limit, topology_key, r@),
        limit matches Some(t) ==> (t > 0 ==> r@.len() <= t),
{
    let all = match available_core_ids() {
        Some(v) => v,
        None => Vec::new(),
    };
    let ghost av = all@;
    let r = choose_cores(all, limit, topology_key);
    assert(chosen_from(av, limit, topology_key, r@));
    r
}

} // verus!
