//! Transport kinds, endpoint locators, and the endpoints that links are carried by.

use crate::identity::{bytes_equal, bytes_to_vec};
use vstd::prelude::*;

verus! {

/// A size in bytes.
#[derive(Clone, Copy, Debug, PartialEq, Eq, PartialOrd, Ord, Structural)]
pub struct ByteCount(pub u64);

/// Platform address of a BLE device, valid only as long as the platform keeps it.
#[derive(Debug, Eq, PartialOrd, Ord)]
pub struct DeviceId(pub String);

impl View for DeviceId {
    type V = Seq<char>;

    open spec fn view(&self) -> Seq<char> {
        self.0@
    }
}

impl Clone for DeviceId {
    fn clone(&self) -> (copy: Self)
        ensures
            copy@ == self@,
    {
        DeviceId(self.0.clone())
    }
}

impl PartialEq for DeviceId {
    fn eq(&self, other: &Self) -> (r: bool) {
        self.0 == other.0
    }
}

impl vstd::std_specs::cmp::PartialEqSpecImpl for DeviceId {
    open spec fn obeys_eq_spec() -> bool {
        true
    }

    open spec fn eq_spec(&self, other: &Self) -> bool {
        self@ == other@
    }
}

impl DeviceId {
    /// The device with the given platform address.
    pub fn named(address: &str) -> (device_id: DeviceId)
        ensures
            device_id@ == address@,
    {
        DeviceId(address.to_owned())
    }

    /// The platform address.
    pub fn as_str(&self) -> (address: &str)
        ensures
            address@ == self@,
    {
        self.0.as_str()
    }
}

/// Which transport carries a link.
#[derive(Debug, Eq, PartialOrd, Ord)]
pub enum TransportKind {
    BleGatt,
    BleL2cap,
    WifiAware,
    WifiLan,
    Quic,
    TcpRelay,
    Custom(String),
    LoraP2p,
}

/// What a [`TransportKind`] names.
pub ghost enum TransportKindView {
    BleGatt,
    BleL2cap,
    WifiAware,
    WifiLan,
    Quic,
    TcpRelay,
    Custom(Seq<char>),
    LoraP2p,
}

impl View for TransportKind {
    type V = TransportKindView;

    open spec fn view(&self) -> TransportKindView {
        match self {
            TransportKind::BleGatt => TransportKindView::BleGatt,
            TransportKind::BleL2cap => TransportKindView::BleL2cap,
            TransportKind::WifiAware => TransportKindView::WifiAware,
            TransportKind::WifiLan => TransportKindView::WifiLan,
            TransportKind::Quic => TransportKindView::Quic,
            TransportKind::TcpRelay => TransportKindView::TcpRelay,
            TransportKind::Custom(name) => TransportKindView::Custom(name@),
            TransportKind::LoraP2p => TransportKindView::LoraP2p,
        }
    }
}

impl Clone for TransportKind {
    fn clone(&self) -> (copy: Self)
        ensures
            copy@ == self@,
    {
        match self {
            TransportKind::BleGatt => TransportKind::BleGatt,
            TransportKind::BleL2cap => TransportKind::BleL2cap,
            TransportKind::WifiAware => TransportKind::WifiAware,
            TransportKind::WifiLan => TransportKind::WifiLan,
            TransportKind::Quic => TransportKind::Quic,
            TransportKind::TcpRelay => TransportKind::TcpRelay,
            TransportKind::Custom(name) => TransportKind::Custom(name.clone()),
            TransportKind::LoraP2p => TransportKind::LoraP2p,
        }
    }
}

impl PartialEq for TransportKind {
    fn eq(&self, other: &Self) -> (r: bool) {
        match (self, other) {
            (TransportKind::BleGatt, TransportKind::BleGatt) => true,
            (TransportKind::BleL2cap, TransportKind::BleL2cap) => true,
            (TransportKind::WifiAware, TransportKind::WifiAware) => true,
            (TransportKind::WifiLan, TransportKind::WifiLan) => true,
            (TransportKind::Quic, TransportKind::Quic) => true,
            (TransportKind::TcpRelay, TransportKind::TcpRelay) => true,
            (TransportKind::Custom(a), TransportKind::Custom(b)) => *a == *b,
            (TransportKind::LoraP2p, TransportKind::LoraP2p) => true,
            _ => false,
        }
    }
}

impl vstd::std_specs::cmp::PartialEqSpecImpl for TransportKind {
    open spec fn obeys_eq_spec() -> bool {
        true
    }

    open spec fn eq_spec(&self, other: &Self) -> bool {
        self@ == other@
    }
}

/// Where an endpoint is found on its transport.
#[derive(Debug, Eq, PartialOrd, Ord)]
pub enum EndpointLocator {
    Socket { host: String, port: u16 },
    ScopedBytes { scope: String, bytes: Vec<u8> },
    Opaque(Vec<u8>),
}

/// What an [`EndpointLocator`] names.
pub ghost enum EndpointLocatorView {
    Socket { host: Seq<char>, port: u16 },
    ScopedBytes { scope: Seq<char>, bytes: Seq<u8> },
    Opaque(Seq<u8>),
}

impl View for EndpointLocator {
    type V = EndpointLocatorView;

    open spec fn view(&self) -> EndpointLocatorView {
        match self {
            EndpointLocator::Socket { host, port } => EndpointLocatorView::Socket {
                host: host@,
                port: *port,
            },
            EndpointLocator::ScopedBytes { scope, bytes } => EndpointLocatorView::ScopedBytes {
                scope: scope@,
                bytes: bytes@,
            },
            EndpointLocator::Opaque(bytes) => EndpointLocatorView::Opaque(bytes@),
        }
    }
}

impl Clone for EndpointLocator {
    fn clone(&self) -> (copy: Self)
        ensures
            copy@ == self@,
    {
        match self {
            EndpointLocator::Socket { host, port } => EndpointLocator::Socket {
                host: host.clone(),
                port: *port,
            },
            EndpointLocator::ScopedBytes { scope, bytes } => EndpointLocator::ScopedBytes {
                scope: scope.clone(),
                bytes: bytes_to_vec(bytes.as_slice()),
            },
            EndpointLocator::Opaque(bytes) => EndpointLocator::Opaque(
                bytes_to_vec(bytes.as_slice()),
            ),
        }
    }
}

impl PartialEq for EndpointLocator {
    fn eq(&self, other: &Self) -> (r: bool) {
        match (self, other) {
            (
                EndpointLocator::Socket { host: a, port: p },
                EndpointLocator::Socket { host: b, port: q },
            ) => *a == *b && *p == *q,
            (
                EndpointLocator::ScopedBytes { scope: a, bytes: p },
                EndpointLocator::ScopedBytes { scope: b, bytes: q },
            ) => *a == *b && bytes_equal(p.as_slice(), q.as_slice()),
            (EndpointLocator::Opaque(p), EndpointLocator::Opaque(q)) => bytes_equal(
                p.as_slice(),
                q.as_slice(),
            ),
            _ => false,
        }
    }
}

impl vstd::std_specs::cmp::PartialEqSpecImpl for EndpointLocator {
    open spec fn obeys_eq_spec() -> bool {
        true
    }

    open spec fn eq_spec(&self, other: &Self) -> bool {
        self@ == other@
    }
}

/// The carrier of a link: a transport, a place on it, and the largest frame that fits.
#[derive(Debug, Eq, PartialOrd, Ord)]
pub struct LinkEndpoint {
    pub transport_kind: TransportKind,
    pub locator: EndpointLocator,
    pub mtu_bytes: ByteCount,
}

/// What a [`LinkEndpoint`] names.
pub ghost struct LinkEndpointView {
    pub transport_kind: TransportKindView,
    pub locator: EndpointLocatorView,
    pub mtu_bytes: ByteCount,
}

impl View for LinkEndpoint {
    type V = LinkEndpointView;

    open spec fn view(&self) -> LinkEndpointView {
        LinkEndpointView {
            transport_kind: self.transport_kind@,
            locator: self.locator@,
            mtu_bytes: self.mtu_bytes,
        }
    }
}

impl Clone for LinkEndpoint {
    fn clone(&self) -> (copy: Self)
        ensures
            copy@ == self@,
    {
        LinkEndpoint {
            transport_kind: self.transport_kind.clone(),
            locator: self.locator.clone(),
            mtu_bytes: self.mtu_bytes,
        }
    }
}

impl PartialEq for LinkEndpoint {
    fn eq(&self, other: &Self) -> (r: bool) {
        self.transport_kind == other.transport_kind && self.locator == other.locator
            && self.mtu_bytes == other.mtu_bytes
    }
}

impl vstd::std_specs::cmp::PartialEqSpecImpl for LinkEndpoint {
    open spec fn obeys_eq_spec() -> bool {
        true
    }

    open spec fn eq_spec(&self, other: &Self) -> bool {
        self@ == other@
    }
}

impl LinkEndpoint {
    /// The endpoint made of its three parts.
    pub fn new(
        transport_kind: TransportKind,
        locator: EndpointLocator,
        mtu_bytes: ByteCount,
    ) -> (endpoint: LinkEndpoint)
        ensures
            endpoint == (LinkEndpoint { transport_kind, locator, mtu_bytes }),
    {
        LinkEndpoint { transport_kind, locator, mtu_bytes }
    }
}

/// The views of a list of endpoints.
pub open spec fn endpoint_views(endpoints: Seq<LinkEndpoint>) -> Seq<LinkEndpointView> {
    endpoints.map_values(|e: LinkEndpoint| e@)
}

/// Whether a list of transport kinds holds one.
pub open spec fn holds_kind(kinds: Seq<TransportKind>, kind: TransportKindView) -> bool {
    exists|i: int| 0 <= i < kinds.len() && (#[trigger] kinds[i])@ == kind
}

/// The views of a list of transport kinds.
pub open spec fn kind_views(kinds: Seq<TransportKind>) -> Seq<TransportKindView> {
    kinds.map_values(|k: TransportKind| k@)
}

/// Whether a list of transport kinds holds one.
pub fn contains_kind(kinds: &Vec<TransportKind>, kind: &TransportKind) -> (found: bool)
    ensures
        found == holds_kind(kinds@, kind@),
{
    let mut i: usize = 0;
    while i < kinds.len()
        invariant
            i <= kinds@.len(),
            forall|j: int| 0 <= j < i ==> (#[trigger] kinds@[j])@ != kind@,
        decreases kinds@.len() - i,
    {
        if kinds[i] == *kind {
            return true;
        }
        i = i + 1;
    }
    false
}

/// Copies a list of transport kinds.
pub fn clone_kinds(kinds: &Vec<TransportKind>) -> (copy: Vec<TransportKind>)
    ensures
        kind_views(copy@) == kind_views(kinds@),
{
    let mut copy: Vec<TransportKind> = Vec::new();
    let mut i: usize = 0;
    while i < kinds.len()
        invariant
            i <= kinds@.len(),
            copy@.len() == i,
            forall|j: int| 0 <= j < i ==> (#[trigger] copy@[j])@ == kinds@[j]@,
        decreases kinds@.len() - i,
    {
        copy.push(kinds[i].clone());
        i = i + 1;
    }
    assert(kind_views(copy@) =~= kind_views(kinds@));
    copy
}

/// Compares two lists of transport kinds.
pub fn kinds_equal(a: &Vec<TransportKind>, b: &Vec<TransportKind>) -> (equal: bool)
    ensures
        equal == (kind_views(a@) == kind_views(b@)),
{
    if a.len() != b.len() {
        assert(kind_views(a@).len() != kind_views(b@).len());
        return false;
    }
    let mut i: usize = 0;
    while i < a.len()
        invariant
            i <= a@.len(),
            a@.len() == b@.len(),
            forall|j: int| 0 <= j < i ==> (#[trigger] a@[j])@ == b@[j]@,
        decreases a@.len() - i,
    {
        if a[i] != b[i] {
            assert(kind_views(a@)[i as int] != kind_views(b@)[i as int]);
            return false;
        }
        i = i + 1;
    }
    assert(kind_views(a@) =~= kind_views(b@));
    true
}

/// The views of lists tell every item in its place.
pub proof fn law_list_views_tell_every_item(
    endpoints: Seq<LinkEndpoint>,
    kinds: Seq<TransportKind>,
    i: int,
    j: int,
)
    requires
        0 <= i < endpoints.len(),
        0 <= j < kinds.len(),
    ensures
        endpoint_views(endpoints).len() == endpoints.len(),
        endpoint_views(endpoints)[i] == endpoints[i]@,
        kind_views(kinds).len() == kinds.len(),
        kind_views(kinds)[j] == kinds[j]@,
        holds_kind(kinds, kinds[j]@),
{
}

} // verus!
