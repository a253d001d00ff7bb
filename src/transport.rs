use crate::config::{Address, Config};
use crate::timers::{
    fresh_retransmission, lemma_sends_use_snapshot, run, Retransmission, RetransmissionView, Timers,
};
use vstd::prelude::*;

verus! {

/// Why a transport could not be configured.
#[derive(Clone, Copy, Debug, PartialEq, Eq)]
pub enum ConfigureError {
    /// The binding set was empty.
    NoBindAddress,
}

/// Why a send could not be made.
#[derive(Clone, Copy, Debug, PartialEq, Eq)]
pub enum SendError {
    /// No destination is configured.
    NoDestination,
}

/// One datagram to transmit: its payload, verbatim, addressed to `to`.
#[derive(Debug, PartialEq, Eq)]
pub struct Datagram {
    pub to: Address,
    pub payload: Vec<u8>,
}

/// A datagram as values.
pub ghost struct DatagramView {
    pub to: Address,
    pub payload: Seq<u8>,
}

impl View for Datagram {
    type V = DatagramView;

    open spec fn view(&self) -> DatagramView {
        DatagramView { to: self.to, payload: self.payload@ }
    }
}

/// A transport as values: its binding set and its current destination.
pub ghost struct PolygonView {
    pub bind_addresses: Seq<Address>,
    pub destination: Option<Address>,
}

/// What a send of `payload` produces on a transport in state `p`.
pub open spec fn send_outcome(p: PolygonView, payload: Seq<u8>) -> Result<DatagramView, SendError> {
    match p.destination {
        Some(to) => Ok(DatagramView { to, payload }),
        None => Err(SendError::NoDestination),
    }
}

/// What starting a retransmission of `payload` on `delays` produces on a
/// transport in state `p`: the destination is captured at this moment.
pub open spec fn timer_outcome(p: PolygonView, payload: Seq<u8>, delays: Seq<u64>) -> Result<
    RetransmissionView,
    SendError,
> {
    match p.destination {
        Some(to) => Ok(fresh_retransmission(to, payload, delays)),
        None => Err(SendError::NoDestination),
    }
}

/// The transport `p` after its destination was replaced by `a`.
pub open spec fn with_destination(p: PolygonView, a: Address) -> PolygonView {
    PolygonView { destination: Some(a), ..p }
}

/// The transport's own state: a non-empty set of local bindings and at most
/// one destination. The socket bound to those addresses is held beside it by
/// the runtime layer, which performs the sends that these methods produce.
#[derive(Debug)]
pub struct Polygon {
    bind_addresses: Vec<Address>,
    destination: Option<Address>,
}

impl View for Polygon {
    type V = PolygonView;

    closed spec fn view(&self) -> PolygonView {
        PolygonView { bind_addresses: self.bind_addresses@, destination: self.destination }
    }
}

impl Polygon {
    #[verifier::type_invariant]
    spec fn binds_somewhere(&self) -> bool {
        self.bind_addresses.len() > 0
    }

    /// Takes a resolved configuration. This succeeds exactly when the binding
    /// set is non-empty, and then keeps every address of it, in order, and
    /// the destination as given.
    pub fn configure(config: Config) -> (r: Result<Polygon, ConfigureError>)
        ensures
            r is Err <==> config.bind_addresses@.len() == 0,
            r matches Err(e) ==> e == ConfigureError::NoBindAddress,
            r matches Ok(p) ==> p@ == (PolygonView {
                bind_addresses: config.bind_addresses@,
                destination: config.destination_address,
            }),
    {
        if config.bind_addresses.len() == 0 {
            Err(ConfigureError::NoBindAddress)
        } else {
            Ok(Polygon { bind_addresses: config.bind_addresses, destination: config.destination_address })
        }
    }

    /// The local addresses the transport binds to; never empty.
    pub fn bind_addresses(&self) -> (r: &Vec<Address>)
        ensures
            r@ == self@.bind_addresses,
            r@.len() > 0,
    {
        proof {
            use_type_invariant(self);
        }
        &self.bind_addresses
    }

    /// The current destination.
    pub fn destination(&self) -> (r: Option<Address>)
        ensures
            r == self@.destination,
    {
        self.destination
    }

    /// One datagram carrying `data` to the current destination; fails when
    /// there is none.
    pub fn send(&self, data: Vec<u8>) -> (r: Result<Datagram, SendError>)
        ensures
            match r {
                Ok(d) => send_outcome(self@, data@) == Ok::<DatagramView, SendError>(d@),
                Err(e) => send_outcome(self@, data@) == Err::<DatagramView, SendError>(e),
            },
    {
        match self.destination {
            Some(to) => Ok(Datagram { to, payload: data }),
            None => Err(SendError::NoDestination),
        }
    }

    /// Starts a retransmission of `data` on `timers` to the current
    /// destination, captured now; fails when there is no destination.
    pub fn send_with_timer(&self, data: Vec<u8>, timers: Timers) -> (r: Result<Retransmission, SendError>)
        ensures
            match r {
                Ok(t) => timer_outcome(self@, data@, timers.delays@) == Ok::<RetransmissionView, SendError>(
                    t@,
                ),
                Err(e) => timer_outcome(self@, data@, timers.delays@) == Err::<
                    RetransmissionView,
                    SendError,
                >(e),
            },
    {
        match self.destination {
            Some(to) => Ok(Retransmission::new(to, data, timers)),
            None => Err(SendError::NoDestination),
        }
    }

    /// Replaces the destination; the bindings stay as they are.
    pub fn change_destination(&mut self, new_destination: Address)
        ensures
            final(self)@ == with_destination(old(self)@, new_destination),
    {
        proof {
            use_type_invariant(&*self);
        }
        self.destination = Some(new_destination);
    }
}

/// Replacing a transport's destination leaves a retransmission that was
/// already started sending to the destination it captured, while a send made
/// after the change goes to the new destination.
pub proof fn lemma_destination_change_spares_snapshot(
    p: PolygonView,
    new_destination: Address,
    payload: Seq<u8>,
    delays: Seq<u64>,
    later: Seq<u8>,
    flags: Seq<bool>,
)
    requires
        p.destination is Some,
    ensures
        timer_outcome(p, payload, delays) matches Ok(r) && forall|i: int|
            0 <= i < flags.len() && (#[trigger] run(r, flags)[i]) is Send ==> run(r, flags)[i]->to
                == p.destination->0,
        send_outcome(with_destination(p, new_destination), later) == Ok::<DatagramView, SendError>(
            DatagramView { to: new_destination, payload: later },
        ),
{
    let r = fresh_retransmission(p.destination->0, payload, delays);
    lemma_sends_use_snapshot(r, flags);
}

} // verus!
