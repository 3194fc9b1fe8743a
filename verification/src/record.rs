//! The structured records decoded from the kernel's connection table.

use vstd::prelude::*;

use crate::state::classify;
use crate::state::spec_classify;
use crate::state::spec_state_name;
use crate::state::state_name;

verus! {

/// A network address as the table carries it: four IPv4 octets when the
/// field was eight hexadecimal digits, or the raw field text otherwise
/// (a degraded value kept so that a non-IPv4 row never aborts a line).
#[derive(Debug, PartialEq, Eq)]
pub enum Address {
    /// The dotted-quad octets `a.b.c.d`.
    V4 { a: u8, b: u8, c: u8, d: u8 },
    /// An address field that was not eight hexadecimal digits, kept as it stood.
    Raw(String),
}

/// The mathematical value of an [`Address`].
pub enum AddressModel {
    V4 { a: u8, b: u8, c: u8, d: u8 },
    Raw(Seq<char>),
}

impl View for Address {
    type V = AddressModel;

    open spec fn view(&self) -> AddressModel {
        match self {
            Address::V4 { a, b, c, d } => AddressModel::V4 { a: *a, b: *b, c: *c, d: *d },
            Address::Raw(s) => AddressModel::Raw(s@),
        }
    }
}

impl DeepView for Address {
    type V = AddressModel;

    open spec fn deep_view(&self) -> AddressModel {
        self.view()
    }
}

/// One side of a TCP connection: an address and a port.
#[derive(Debug, PartialEq, Eq)]
pub struct Endpoint {
    pub addr: Address,
    pub port: u16,
}

/// The mathematical value of an [`Endpoint`].
pub struct EndpointModel {
    pub addr: AddressModel,
    pub port: u16,
}

impl View for Endpoint {
    type V = EndpointModel;

    open spec fn view(&self) -> EndpointModel {
        EndpointModel { addr: self.addr@, port: self.port }
    }
}

impl DeepView for Endpoint {
    type V = EndpointModel;

    open spec fn deep_view(&self) -> EndpointModel {
        self.view()
    }
}

/// One parsed line of the connection table: both endpoints and the raw
/// numeric state code. Classification of the code to a symbolic state is a
/// separate, always-succeeding step at the point of use.
#[derive(Debug, PartialEq, Eq)]
pub struct TcpConnection {
    pub local: Endpoint,
    pub remote: Endpoint,
    pub state: u8,
}

/// The mathematical value of a [`TcpConnection`].
pub struct TcpConnectionModel {
    pub local: EndpointModel,
    pub remote: EndpointModel,
    pub state: u8,
}

impl View for TcpConnection {
    type V = TcpConnectionModel;

    open spec fn view(&self) -> TcpConnectionModel {
        TcpConnectionModel { local: self.local@, remote: self.remote@, state: self.state }
    }
}

impl DeepView for TcpConnection {
    type V = TcpConnectionModel;

    open spec fn deep_view(&self) -> TcpConnectionModel {
        self.view()
    }
}

impl Clone for Address {
    /// A clone carries exactly the original value.
    fn clone(&self) -> (r: Self)
        ensures
            r == *self,
    {
        match self {
            Address::V4 { a, b, c, d } => Address::V4 { a: *a, b: *b, c: *c, d: *d },
            Address::Raw(s) => Address::Raw(s.clone()),
        }
    }
}

impl Clone for Endpoint {
    /// A clone carries exactly the original value.
    fn clone(&self) -> (r: Self)
        ensures
            r == *self,
    {
        Endpoint { addr: self.addr.clone(), port: self.port }
    }
}

impl Clone for TcpConnection {
    /// A clone carries exactly the original value.
    fn clone(&self) -> (r: Self)
        ensures
            r == *self,
    {
        TcpConnection { local: self.local.clone(), remote: self.remote.clone(), state: self.state }
    }
}

impl TcpConnection {
    /// The display name of this record's connection state.
    pub fn get_state_name(&self) -> (r: &'static str)
        ensures
            r@ == spec_state_name(spec_classify(self.state)),
    {
        state_name(classify(self.state))
    }
}

} // verus!
