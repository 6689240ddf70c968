//! The commands of the program: which example to run.

use vstd::prelude::*;

verus! {

/// An example of the chapter on system calls.
#[derive(Clone, Debug, PartialEq, Eq)]
pub enum SyscallCommand {
    /// Resolve a host name.
    Getaddrinfo { host: String },
    /// Create a socket.
    Socket,
    /// Bind a socket, with address reuse switched on where `reuse_port` is set.
    Bind { reuse_port: bool },
    /// Connect to a host.
    Connect,
    /// Listen for connections.
    Listen,
    /// Accept a connection.
    Accept,
    /// Send a message over an accepted connection.
    Send,
    /// Receive a message from an accepted connection.
    Recv,
    /// Send a datagram.
    Sendto,
    /// Receive a datagram.
    Recvfrom,
    /// Close a connection.
    Close,
    /// Shut one direction of a connection down.
    Shutdown,
    /// Ask who the peer is.
    Getpeername,
    /// Ask for the name of this host.
    Gethostname,
}

/// An example with stream sockets.
#[derive(Clone, Copy, Debug, PartialEq, Eq, Structural)]
pub enum StreamCommand {
    /// A simple stream server.
    Server,
    /// A simple stream client.
    Client,
}

/// An example with datagram sockets.
#[derive(Clone, Copy, Debug, PartialEq, Eq, Structural)]
pub enum DgramCommand {
    /// A datagram server.
    Server,
    /// A datagram client.
    Client,
}

/// An example of the slightly advanced techniques.
#[derive(Clone, Debug, PartialEq, Eq)]
pub enum TechniquesCommand {
    /// A read on a socket that does not block.
    Blocking,
    /// A poll on standard input.
    Poll,
    /// The chat server with the dynamic multiplexer strategy.
    Pollserver,
    /// A select on standard input.
    Select,
    /// The chat server with the bounded multiplexer strategy.
    Selectserver,
    /// Send `msg` as a broadcast datagram to `host`.
    Broadcaster { host: String, msg: String },
}

/// The example to run.
#[allow(inconsistent_fields)]
#[derive(Clone, Debug, PartialEq, Eq)]
pub enum Example {
    /// System calls.
    Syscall { cmd: SyscallCommand },
    /// Stream sockets.
    Stream { cmd: StreamCommand },
    /// Datagram sockets.
    Dgram { cmd: DgramCommand },
    /// Slightly advanced techniques.
    Techniques { cmd: TechniquesCommand },
}

/// The command line, once it is parsed.
#[derive(Clone, Debug, PartialEq, Eq)]
pub struct Cli {
    example: Example,
}

impl Cli {
    /// The example that the command line names.
    pub closed spec fn named(&self) -> Example {
        self.example
    }

    /// The command line that names `example`.
    pub fn new(example: Example) -> (cli: Self)
        ensures
            cli.named() == example,
    {
        Cli { example }
    }

    /// The example to run.
    pub fn into_example(self) -> (example: Example)
        ensures
            example == self.named(),
    {
        self.example
    }
}

} // verus!
