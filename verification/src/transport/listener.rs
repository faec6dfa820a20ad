//! Where a daemon's connections come from.

use crate::text::join;
use crate::transport::Transport;
use crate::types::McpError;
use vstd::prelude::*;

verus! {

/// A source of connections.
pub trait Listener: Send + Sync {
    /// Waits for a client, and hands back a transport that speaks to it.
    /// Whatever a connection needs before it can carry messages is done here.
    fn accept(&self) -> Result<Box<dyn Transport>, McpError>;

    /// Makes a thread that waits in `accept` return.
    fn wake(&self) -> Result<(), McpError>;

    /// How the listener is called.
    fn describe(&self) -> String;
}

/// Wakes every listener, whatever becomes of the others, and says what became
/// of each.
pub fn wake_all<L: Listener>(listeners: &Vec<L>) -> (r: Vec<Result<(), McpError>>)
    ensures
        r@.len() == listeners@.len(),
        forall|k: int|
            0 <= k < r@.len() ==> call_ensures(
                L::wake,
                (&listeners@[k],),
                #[trigger] r@[k],
            ),
{
    let mut out: Vec<Result<(), McpError>> = Vec::new();
    let mut i: usize = 0;
    while i < listeners.len()
        invariant
            i <= listeners@.len(),
            out@.len() == i,
            forall|k: int|
                0 <= k < i ==> call_ensures(
                    L::wake,
                    (&listeners@[k],),
                    #[trigger] out@[k],
                ),
        decreases listeners@.len() - i,
    {
        out.push(listeners[i].wake());
        i = i + 1;
    }
    out
}

/// The number of an interface.
#[derive(Debug, Clone, Copy, PartialEq, Eq, Structural)]
pub enum Ip {
    V4(u32),
    V6(u128),
}

/// The address of a socket.
#[derive(Debug, Clone, Copy, PartialEq, Eq, Structural)]
pub struct Address {
    pub ip: Ip,
    pub port: u16,
}

/// An address that was bound, as one to connect to. Every interface is
/// somewhere to listen and nowhere to go; what listens there is reached on the
/// loopback interface of the same family.
pub fn connectable(addr: Address) -> (r: Address)
    ensures
        r.port == addr.port,
        r.ip == (match addr.ip {
            Ip::V4(n) => Ip::V4(
                if n == 0 {
                    0x7f00_0001
                } else {
                    n
                },
            ),
            Ip::V6(n) => Ip::V6(
                if n == 0 {
                    1
                } else {
                    n
                },
            ),
        }),
{
    let ip = match addr.ip {
        Ip::V4(n) => Ip::V4(
            if n == 0 {
                0x7f00_0001
            } else {
                n
            },
        ),
        Ip::V6(n) => Ip::V6(
            if n == 0 {
                1
            } else {
                n
            },
        ),
    };
    Address { ip, port: addr.port }
}

/// How a listener on a TCP address is called.
pub fn tcp_name(address: &str) -> (r: String)
    ensures
        r@ == "tcp://"@ + address@,
{
    join("tcp://", address)
}

/// How a listener on a Unix socket is called.
pub fn unix_name(path: &str) -> (r: String)
    ensures
        r@ == "unix:"@ + path@,
{
    join("unix:", path)
}

/// Waking always goes somewhere: an address to connect to never names every
/// interface, and one that does not already is left alone.
pub proof fn law_there_is_somewhere_to_connect_to(addr: Address, r: Address)
    requires
        call_ensures(connectable, (addr,), r),
    ensures
        r.ip != Ip::V4(0),
        r.ip != Ip::V6(0),
        addr.ip != Ip::V4(0) && addr.ip != Ip::V6(0) ==> r == addr,
{
}

} // verus!
