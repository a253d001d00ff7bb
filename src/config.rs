use vstd::prelude::*;

verus! {

/// An IP address held as its octets, in network order.
#[derive(Clone, Copy, Debug, PartialEq, Eq)]
pub enum IpAddress {
    V4([u8; 4]),
    V6([u8; 16]),
}

/// One address/port pair, either a local binding or a remote peer.
#[derive(Clone, Copy, Debug, PartialEq, Eq)]
pub struct Address {
    pub ip: IpAddress,
    pub port: u16,
}

/// The port bound when no configuration is given.
pub const DEFAULT_BIND_PORT: u16 = 5060;

/// The peer port used when no configuration is given.
pub const DEFAULT_DESTINATION_PORT: u16 = 5061;

/// `0.0.0.0` on the default bind port.
pub open spec fn default_bind_address() -> Address {
    Address { ip: IpAddress::V4([0u8, 0u8, 0u8, 0u8]), port: DEFAULT_BIND_PORT }
}

/// `127.0.0.1` on the default peer port.
pub open spec fn default_destination_address() -> Address {
    Address { ip: IpAddress::V4([127u8, 0u8, 0u8, 1u8]), port: DEFAULT_DESTINATION_PORT }
}

impl Address {
    pub fn new(ip: IpAddress, port: u16) -> (r: Address)
        ensures
            r.ip == ip,
            r.port == port,
    {
        Address { ip, port }
    }
}

/// A resolved configuration: the local binding set and an optional peer.
#[derive(Debug)]
pub struct Config {
    pub bind_addresses: Vec<Address>,
    pub destination_address: Option<Address>,
}

impl Config {
    /// True of the configuration used when nothing else was given.
    pub open spec fn is_default(&self) -> bool {
        &&& self.bind_addresses@ == seq![default_bind_address()]
        &&& self.destination_address == Some(default_destination_address())
    }
}

impl Default for Config {
    fn default() -> (r: Config)
        ensures
            r.is_default(),
    {
        let mut bind_addresses: Vec<Address> = Vec::new();
        bind_addresses.push(Address { ip: IpAddress::V4([0u8, 0u8, 0u8, 0u8]), port: DEFAULT_BIND_PORT });
        let r = Config {
            bind_addresses,
            destination_address: Some(
                Address { ip: IpAddress::V4([127u8, 0u8, 0u8, 1u8]), port: DEFAULT_DESTINATION_PORT },
            ),
        };
        assert(r.bind_addresses@ =~= seq![default_bind_address()]);
        r
    }
}

/// Builds a configuration from the caller's own values.
pub trait FromArguments: Sized {
    fn from_arguments(local: Vec<Address>, remote: Option<Address>) -> Self;
}

/// Builds the configuration used when nothing else was given.
pub trait FromDefault: Sized {
    fn from_default() -> Self;
}

/// Builds a configuration from the values of the environment variables
/// `BIND_ADDRS`, `BIND_PORT`, `DEST_ADDRS` and `DEST_PORT`, already looked up
/// and parsed. Only one local address and one peer are supported this way.
pub trait FromEnv: Sized {
    fn from_env(
        bind_ip: IpAddress,
        bind_port: u16,
        dest_ip: Option<IpAddress>,
        dest_port: Option<u16>,
    ) -> Self;
}

impl FromArguments for Config {
    fn from_arguments(local: Vec<Address>, remote: Option<Address>) -> (r: Config)
        ensures
            r.bind_addresses@ == local@,
            r.destination_address == remote,
    {
        Config { bind_addresses: local, destination_address: remote }
    }
}

impl FromDefault for Config {
    fn from_default() -> (r: Config)
        ensures
            r.is_default(),
    {
        Config::default()
    }
}

/// The peer named by the environment: present only when both its address and
/// its port are.
pub open spec fn env_destination(dest_ip: Option<IpAddress>, dest_port: Option<u16>) -> Option<
    Address,
> {
    match (dest_ip, dest_port) {
        (Some(ip), Some(port)) => Some(Address { ip, port }),
        _ => None,
    }
}

impl FromEnv for Config {
    fn from_env(
        bind_ip: IpAddress,
        bind_port: u16,
        dest_ip: Option<IpAddress>,
        dest_port: Option<u16>,
    ) -> (r: Config)
        ensures
            r.bind_addresses@ == seq![Address { ip: bind_ip, port: bind_port }],
            r.destination_address == env_destination(dest_ip, dest_port),
    {
        let mut bind_addresses: Vec<Address> = Vec::new();
        bind_addresses.push(Address { ip: bind_ip, port: bind_port });
        let destination_address = match (dest_ip, dest_port) {
            (Some(ip), Some(port)) => Some(Address { ip, port }),
            _ => None,
        };
        let r = Config { bind_addresses, destination_address };
        assert(r.bind_addresses@ =~= seq![Address { ip: bind_ip, port: bind_port }]);
        r
    }
}

} // verus!
