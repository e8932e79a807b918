//! GATT service shape, UUIDs, and BLE locators.
//!
//! The Jacquard services live in the `6a6171xx` namespace: the node identity that every peer must
//! show, the two payload characteristics, and the PSM that offers an L2CAP upgrade. Discovery hints
//! use the separate namespace `6a6172xx` and carry the first six bytes of the [`NodeId`].

use crate::endpoint::{
    ByteCount, DeviceId, EndpointLocator, EndpointLocatorView, LinkEndpoint, LinkEndpointView,
    TransportKind, TransportKindView,
};
use crate::identity::{NodeId, bytes_to_vec};
use vstd::prelude::*;
use vstd::utf8::encode_utf8;

verus! {

/// A 128-bit UUID, most significant byte first.
pub type Uuid = u128;

/// Primary service for identity and transport.
pub const JACQUARD_IDENTITY_SERVICE_UUID: Uuid = 0x6a617100_8e45_4c2c_b3a5_331f3098b5c2;

/// Readable characteristic that carries the full 32-byte node identity.
pub const JACQUARD_NODE_ID_CHAR_UUID: Uuid = 0x6a617101_8e45_4c2c_b3a5_331f3098b5c2;

/// Payloads from central to peripheral: the central writes here.
pub const JACQUARD_C2P_CHAR_UUID: Uuid = 0x6a617102_8e45_4c2c_b3a5_331f3098b5c2;

/// Payloads from peripheral to central: the peripheral notifies here.
pub const JACQUARD_P2C_CHAR_UUID: Uuid = 0x6a617103_8e45_4c2c_b3a5_331f3098b5c2;

/// Optional two-byte little-endian PSM; its presence offers an L2CAP upgrade.
pub const JACQUARD_PSM_CHAR_UUID: Uuid = 0x6a617104_8e45_4c2c_b3a5_331f3098b5c2;

/// The first four bytes of every discovery UUID: `jar` and a zero byte.
pub const DISCOVERY_HINT_NAMESPACE: u128 = 0x6a617200;

/// Largest frame of the GATT payload path.
pub const GATT_MTU_BYTES: u64 = 512;

/// Largest frame of an L2CAP channel.
pub const L2CAP_MTU_BYTES: u64 = 1472;

/// How long device addresses can be relied on.
pub const IROH_BLE_DEVICE_ID_STABILITY_POLICY: &'static str =
    "BLE DeviceId values are treated as short-lived observational locators. Platform privacy rotation and runtime-specific identifiers mean this crate does not assume long-term locator stability across rediscovery.";

/// The first six bytes of a node identity.
pub open spec fn id_prefix(node_id: NodeId) -> Seq<u8> {
    node_id.0@.take(6)
}

/// The first six bytes of a node identity.
pub fn node_id_prefix(node_id: &NodeId) -> (prefix: [u8; 6])
    ensures
        prefix@ == id_prefix(*node_id),
{
    let bytes = node_id.0;
    let prefix: [u8; 6] = [bytes[0], bytes[1], bytes[2], bytes[3], bytes[4], bytes[5]];
    assert(prefix@ =~= id_prefix(*node_id));
    prefix
}

/// Whether an advertised hint fits a node identity.
pub fn hint_matches_node_id(hint: [u8; 6], node_id: &NodeId) -> (matches: bool)
    ensures
        matches == (hint@ == id_prefix(*node_id)),
{
    let prefix = node_id_prefix(node_id);
    crate::identity::bytes_equal(hint.as_slice(), prefix.as_slice())
}

/// The UUID that advertises a six-byte prefix: the namespace, the prefix, six zero bytes.
pub open spec fn discovery_value(prefix: Seq<u8>) -> int {
    DISCOVERY_HINT_NAMESPACE * 0x1_0000_0000_0000_0000_0000_0000 + prefix[0]
        * 0x1_0000_0000_0000_0000_0000_00 + prefix[1] * 0x1_0000_0000_0000_0000_0000 + prefix[2]
        * 0x1_0000_0000_0000_0000_00 + prefix[3] * 0x1_0000_0000_0000_0000 + prefix[4]
        * 0x1_0000_0000_0000_00 + prefix[5] * 0x1_0000_0000_0000
}

/// The UUID under which a node advertises itself.
pub fn discovery_service_uuid(node_id: &NodeId) -> (uuid: Uuid)
    ensures
        uuid == discovery_value(id_prefix(*node_id)),
{
    let prefix = node_id_prefix(node_id);
    DISCOVERY_HINT_NAMESPACE * 0x1_0000_0000_0000_0000_0000_0000u128 + (prefix[0] as u128)
        * 0x1_0000_0000_0000_0000_0000_00u128 + (prefix[1] as u128)
        * 0x1_0000_0000_0000_0000_0000u128 + (prefix[2] as u128)
        * 0x1_0000_0000_0000_0000_00u128 + (prefix[3] as u128) * 0x1_0000_0000_0000_0000u128 + (
    prefix[4] as u128) * 0x1_0000_0000_0000_00u128 + (prefix[5] as u128) * 0x1_0000_0000_0000u128
}

/// Whether a UUID lies in the discovery namespace.
pub open spec fn is_discovery_uuid(uuid: Uuid) -> bool {
    uuid / 0x1_0000_0000_0000_0000_0000_0000 == DISCOVERY_HINT_NAMESPACE
}

/// Bytes four to nine of a UUID.
pub open spec fn uuid_prefix(uuid: Uuid) -> Seq<u8> {
    seq![
        (uuid / 0x1_0000_0000_0000_0000_0000_00 % 256) as u8,
        (uuid / 0x1_0000_0000_0000_0000_0000 % 256) as u8,
        (uuid / 0x1_0000_0000_0000_0000_00 % 256) as u8,
        (uuid / 0x1_0000_0000_0000_0000 % 256) as u8,
        (uuid / 0x1_0000_0000_0000_00 % 256) as u8,
        (uuid / 0x1_0000_0000_0000 % 256) as u8,
    ]
}

/// The hint in a list of advertised services: the prefix of the first discovery UUID.
pub open spec fn discovery_hint(services: Seq<Uuid>) -> Option<Seq<u8>>
    decreases services.len(),
{
    if services.len() == 0 {
        None
    } else if is_discovery_uuid(services.first()) {
        Some(uuid_prefix(services.first()))
    } else {
        discovery_hint(services.drop_first())
    }
}

/// The hint that a discovered device advertises, if it is a mesh peer.
pub fn parse_discovery_hint(services: &[Uuid]) -> (hint: Option<[u8; 6]>)
    ensures
        match hint {
            Some(prefix) => discovery_hint(services@) == Some(prefix@),
            None => discovery_hint(services@) is None,
        },
{
    let mut i: usize = 0;
    assert(services@.skip(0) =~= services@);
    while i < services.len()
        invariant
            i <= services@.len(),
            discovery_hint(services@) == discovery_hint(services@.skip(i as int)),
        decreases services@.len() - i,
    {
        let uuid = services[i];
        assert(services@.skip(i as int).first() == uuid);
        assert(services@.skip(i as int).drop_first() =~= services@.skip(i + 1));
        if uuid / 0x1_0000_0000_0000_0000_0000_0000u128 == DISCOVERY_HINT_NAMESPACE {
            let prefix: [u8; 6] = [
                (uuid / 0x1_0000_0000_0000_0000_0000_00u128 % 256) as u8,
                (uuid / 0x1_0000_0000_0000_0000_0000u128 % 256) as u8,
                (uuid / 0x1_0000_0000_0000_0000_00u128 % 256) as u8,
                (uuid / 0x1_0000_0000_0000_0000u128 % 256) as u8,
                (uuid / 0x1_0000_0000_0000_00u128 % 256) as u8,
                (uuid / 0x1_0000_0000_0000u128 % 256) as u8,
            ];
            assert(prefix@ =~= uuid_prefix(uuid));
            return Some(prefix);
        }
        i = i + 1;
    }
    None
}

/// Cuts a number into what stands above a byte, the byte, and what stands below it.
proof fn lemma_cut(value: int, unit: int, above: int, byte: int, below: int)
    requires
        unit > 0,
        value == (above * 256 + byte) * unit + below,
        0 <= byte < 256,
        0 <= below < unit,
    ensures
        value / unit == above * 256 + byte,
        value / unit % 256 == byte,
{
    vstd::arithmetic::div_mod::lemma_fundamental_div_mod_converse(
        value,
        unit,
        above * 256 + byte,
        below,
    );
    vstd::arithmetic::div_mod::lemma_fundamental_div_mod_converse(
        above * 256 + byte,
        256,
        above,
        byte,
    );
}

/// A UUID of the discovery namespace gives back the six bytes that follow the namespace, whatever
/// stands below them.
proof fn lemma_discovery_bytes(p: Seq<u8>, rest: int)
    requires
        p.len() == 6,
        0 <= rest < 0x1_0000_0000_0000,
    ensures
        0 <= discovery_value(p) + rest <= u128::MAX,
        is_discovery_uuid((discovery_value(p) + rest) as u128),
        uuid_prefix((discovery_value(p) + rest) as u128) == p,
{
    let v = discovery_value(p) + rest;
    let low = 0x1_0000_0000_0000int;
    let n0 = DISCOVERY_HINT_NAMESPACE as int;
    let n1 = n0 * 256 + p[0];
    let n2 = n1 * 256 + p[1];
    let n3 = n2 * 256 + p[2];
    let n4 = n3 * 256 + p[3];
    let n5 = n4 * 256 + p[4];
    let r5 = rest;
    let r4 = p[5] * low + r5;
    let r3 = p[4] * (low * 256) + r4;
    let r2 = p[3] * (low * 65536) + r3;
    let r1 = p[2] * (low * 16777216) + r2;
    let r0 = p[1] * (low * 4294967296) + r1;
    lemma_cut(v, low, n5, p[5] as int, r5);
    lemma_cut(v, low * 256, n4, p[4] as int, r4);
    lemma_cut(v, low * 65536, n3, p[3] as int, r3);
    lemma_cut(v, low * 16777216, n2, p[2] as int, r2);
    lemma_cut(v, low * 4294967296, n1, p[1] as int, r1);
    lemma_cut(v, low * 1099511627776, n0, p[0] as int, r0);
    vstd::arithmetic::div_mod::lemma_fundamental_div_mod_converse(
        v,
        low * 281474976710656,
        n0,
        p[0] * (low * 1099511627776) + r0,
    );
    assert(uuid_prefix(v as u128) =~= p);
}

/// A discovery UUID gives back the six bytes that went into it.
pub proof fn lemma_discovery_value(p: Seq<u8>)
    requires
        p.len() == 6,
    ensures
        0 <= discovery_value(p) <= u128::MAX,
        is_discovery_uuid(discovery_value(p) as u128),
        uuid_prefix(discovery_value(p) as u128) == p,
{
    lemma_discovery_bytes(p, 0);
}

/// Whether a UUID starts with the four bytes of the discovery namespace.
pub open spec fn in_discovery_namespace(uuid: Uuid) -> bool {
    DISCOVERY_HINT_NAMESPACE * 0x1_0000_0000_0000_0000_0000_0000 <= uuid < (
    DISCOVERY_HINT_NAMESPACE + 1) * 0x1_0000_0000_0000_0000_0000_0000
}

/// A device gives a hint exactly if one of its services starts with the discovery namespace, wherever
/// the service stands in the list and whatever ends it.
pub proof fn law_hint_is_found_anywhere(services: Seq<Uuid>)
    ensures
        discovery_hint(services) is Some <==> exists|i: int|
            0 <= i < services.len() && in_discovery_namespace(#[trigger] services[i]),
        discovery_hint(services) matches Some(prefix) ==> prefix.len() == 6,
    decreases services.len(),
{
    if services.len() > 0 {
        let rest = services.drop_first();
        law_hint_is_found_anywhere(rest);
        assert(is_discovery_uuid(services[0]) <==> in_discovery_namespace(services[0]));
        if discovery_hint(services) is Some && !is_discovery_uuid(services[0]) {
            let i = choose|i: int|
                0 <= i < rest.len() && in_discovery_namespace(#[trigger] rest[i]);
            assert(in_discovery_namespace(services[i + 1]));
        }
        if exists|i: int| 0 <= i < services.len() && in_discovery_namespace(#[trigger] services[i]) {
            let i = choose|i: int|
                0 <= i < services.len() && in_discovery_namespace(#[trigger] services[i]);
            if i > 0 {
                assert(in_discovery_namespace(rest[i - 1]));
            }
        }
    }
}

/// The hint is what the six bytes behind the namespace say, in the first service of the namespace;
/// the six bytes that end it say nothing, nor does any service after it.
pub proof fn law_hint_is_read_byte_for_byte(
    prefix: Seq<u8>,
    rest: int,
    before: Seq<Uuid>,
    after: Seq<Uuid>,
)
    requires
        prefix.len() == 6,
        0 <= rest < 0x1_0000_0000_0000,
        forall|i: int| 0 <= i < before.len() ==> !in_discovery_namespace(#[trigger] before[i]),
    ensures
        discovery_hint(before.push((discovery_value(prefix) + rest) as u128) + after) == Some(
            prefix,
        ),
    decreases before.len(),
{
    lemma_discovery_bytes(prefix, rest);
    let advertised = (discovery_value(prefix) + rest) as u128;
    let all = before.push(advertised) + after;
    if before.len() == 0 {
        assert(all.first() == advertised);
    } else {
        assert(all.first() == before[0]);
        assert(!is_discovery_uuid(before[0]));
        assert(all.drop_first() =~= before.drop_first().push(advertised) + after);
        law_hint_is_read_byte_for_byte(prefix, rest, before.drop_first(), after);
    }
}

/// Two nodes advertise the same UUID only if the first six bytes of their identities agree, and a
/// hint fits a node exactly if it holds those bytes.
pub proof fn law_hint_tells_nodes_apart(a: NodeId, b: NodeId)
    ensures
        id_prefix(a).len() == 6,
        forall|i: int| 0 <= i < 6 ==> #[trigger] id_prefix(a)[i] == a.0@[i],
        discovery_value(id_prefix(a)) == discovery_value(id_prefix(b)) <==> forall|i: int|
            0 <= i < 6 ==> #[trigger] a.0@[i] == b.0@[i],
{
    lemma_discovery_value(id_prefix(a));
    lemma_discovery_value(id_prefix(b));
    if forall|i: int| 0 <= i < 6 ==> #[trigger] a.0@[i] == b.0@[i] {
        assert(id_prefix(a) =~= id_prefix(b));
    }
    if id_prefix(a) == id_prefix(b) {
        assert forall|i: int| 0 <= i < 6 implies #[trigger] a.0@[i] == b.0@[i] by {
            assert(id_prefix(a)[i] == id_prefix(b)[i]);
        }
    }
}

/// What a node advertises is read back as its own prefix, whatever services that are no discovery
/// UUIDs stand before it and whatever services stand after it.
pub proof fn law_discovery_hint_round_trip(
    node_id: NodeId,
    before: Seq<Uuid>,
    after: Seq<Uuid>,
    advertised: Uuid,
)
    requires
        advertised == discovery_value(id_prefix(node_id)),
        forall|i: int| 0 <= i < before.len() ==> !is_discovery_uuid(#[trigger] before[i]),
    ensures
        discovery_hint(before.push(advertised) + after) == Some(id_prefix(node_id)),
    decreases before.len(),
{
    lemma_discovery_value(id_prefix(node_id));
    let all = before.push(advertised) + after;
    if before.len() == 0 {
        assert(all.first() == advertised);
    } else {
        assert(all.first() == before[0]);
        assert(all.drop_first() =~= before.drop_first().push(advertised) + after);
        law_discovery_hint_round_trip(node_id, before.drop_first(), after, advertised);
    }
}

/// No UUID of the service namespace is taken for a discovery hint.
pub proof fn law_service_namespace_is_no_hint(uuid: Uuid)
    requires
        uuid / 0x1_0000_0000_0000_0000_0000_0000_00 == 0x6a6171,
    ensures
        !is_discovery_uuid(uuid),
{
}

/// What a client may do with a characteristic.
#[derive(Clone, Copy, Debug, PartialEq, Eq, Structural)]
pub struct CharacteristicProperties {
    pub read: bool,
    pub write: bool,
    pub write_without_response: bool,
    pub notify: bool,
}

/// Which accesses to a characteristic's value are permitted.
#[derive(Clone, Copy, Debug, PartialEq, Eq, Structural)]
pub struct AttributePermissions {
    pub read: bool,
    pub write: bool,
}

/// A characteristic of a GATT service. It has no descriptors.
#[derive(Debug, PartialEq, Eq)]
pub struct GattCharacteristic {
    pub uuid: Uuid,
    pub properties: CharacteristicProperties,
    pub permissions: AttributePermissions,
    pub value: Vec<u8>,
}

/// What a [`GattCharacteristic`] says.
pub ghost struct CharacteristicView {
    pub uuid: Uuid,
    pub properties: CharacteristicProperties,
    pub permissions: AttributePermissions,
    pub value: Seq<u8>,
}

impl View for GattCharacteristic {
    type V = CharacteristicView;

    open spec fn view(&self) -> CharacteristicView {
        CharacteristicView {
            uuid: self.uuid,
            properties: self.properties,
            permissions: self.permissions,
            value: self.value@,
        }
    }
}

/// A GATT service.
#[derive(Debug, PartialEq, Eq)]
pub struct GattService {
    pub uuid: Uuid,
    pub primary: bool,
    pub characteristics: Vec<GattCharacteristic>,
}

/// What a [`GattService`] says.
pub ghost struct ServiceView {
    pub uuid: Uuid,
    pub primary: bool,
    pub characteristics: Seq<CharacteristicView>,
}

impl View for GattService {
    type V = ServiceView;

    open spec fn view(&self) -> ServiceView {
        ServiceView {
            uuid: self.uuid,
            primary: self.primary,
            characteristics: self.characteristics@.map_values(|c: GattCharacteristic| c@),
        }
    }
}

/// Protocol and service multiplexer of an L2CAP listener.
#[derive(Clone, Copy, Debug, PartialEq, Eq, PartialOrd, Ord, Structural)]
pub struct Psm(pub u16);

/// A PSM as it is read over the air: low byte first.
pub open spec fn psm_bytes(psm: Psm) -> Seq<u8> {
    seq![(psm.0 % 256) as u8, (psm.0 / 256) as u8]
}

/// A PSM as it is read over the air: low byte first.
pub fn encode_psm_value(psm: Psm) -> (bytes: Vec<u8>)
    ensures
        bytes@ == psm_bytes(psm),
{
    let mut bytes: Vec<u8> = Vec::new();
    bytes.push((psm.0 % 256) as u8);
    bytes.push((psm.0 / 256) as u8);
    assert(bytes@ =~= psm_bytes(psm));
    bytes
}

/// The PSM in the first two bytes of a value, unless they are missing or zero.
pub open spec fn psm_in(bytes: Seq<u8>) -> Option<Psm> {
    if bytes.len() < 2 || bytes[0] + 256 * bytes[1] == 0 {
        None
    } else {
        Some(Psm((bytes[0] + 256 * bytes[1]) as u16))
    }
}

/// Reads the PSM that a peer offers.
pub fn parse_psm_value(bytes: &[u8]) -> (psm: Option<Psm>)
    ensures
        psm == psm_in(bytes@),
{
    if bytes.len() < 2 {
        return None;
    }
    let psm: u16 = bytes[0] as u16 + 256 * (bytes[1] as u16);
    if psm == 0 {
        None
    } else {
        Some(Psm(psm))
    }
}

/// A PSM that is offered is read back, unless it is the reserved value zero.
pub proof fn law_psm_round_trip(psm: Psm)
    ensures
        psm_in(psm_bytes(psm)) == if psm.0 == 0 {
            None::<Psm>
        } else {
            Some(psm)
        },
{
    let bytes = psm_bytes(psm);
    assert(bytes[0] == psm.0 % 256);
    assert(bytes[1] == psm.0 / 256);
}

/// The characteristic that shows a node identity.
pub open spec fn node_id_characteristic(node_id: NodeId) -> CharacteristicView {
    CharacteristicView {
        uuid: JACQUARD_NODE_ID_CHAR_UUID,
        properties: CharacteristicProperties {
            read: true,
            write: false,
            write_without_response: false,
            notify: false,
        },
        permissions: AttributePermissions { read: true, write: false },
        value: node_id.0@,
    }
}

/// The characteristic that a central writes payloads to.
pub open spec fn c2p_characteristic() -> CharacteristicView {
    CharacteristicView {
        uuid: JACQUARD_C2P_CHAR_UUID,
        properties: CharacteristicProperties {
            read: false,
            write: true,
            write_without_response: true,
            notify: false,
        },
        permissions: AttributePermissions { read: false, write: true },
        value: Seq::empty(),
    }
}

/// The characteristic that a peripheral notifies payloads on.
pub open spec fn p2c_characteristic() -> CharacteristicView {
    CharacteristicView {
        uuid: JACQUARD_P2C_CHAR_UUID,
        properties: CharacteristicProperties {
            read: false,
            write: false,
            write_without_response: false,
            notify: true,
        },
        permissions: AttributePermissions { read: true, write: false },
        value: Seq::empty(),
    }
}

/// The characteristic that offers an L2CAP upgrade.
pub open spec fn psm_characteristic(psm: Psm) -> CharacteristicView {
    CharacteristicView {
        uuid: JACQUARD_PSM_CHAR_UUID,
        properties: CharacteristicProperties {
            read: true,
            write: false,
            write_without_response: false,
            notify: false,
        },
        permissions: AttributePermissions { read: true, write: false },
        value: psm_bytes(psm),
    }
}

/// The service that a node publishes, with the PSM where it listens on L2CAP.
pub open spec fn transport_service(node_id: NodeId, psm: Option<Psm>) -> ServiceView {
    let payload_path = seq![
        node_id_characteristic(node_id),
        c2p_characteristic(),
        p2c_characteristic(),
    ];
    ServiceView {
        uuid: JACQUARD_IDENTITY_SERVICE_UUID,
        primary: true,
        characteristics: match psm {
            Some(psm) => payload_path.push(psm_characteristic(psm)),
            None => payload_path,
        },
    }
}

fn readable_characteristic(uuid: Uuid, value: Vec<u8>) -> (characteristic: GattCharacteristic)
    ensures
        characteristic.uuid == uuid,
        characteristic.value == value,
        characteristic.properties == (CharacteristicProperties {
            read: true,
            write: false,
            write_without_response: false,
            notify: false,
        }),
        characteristic.permissions == (AttributePermissions { read: true, write: false }),
{
    GattCharacteristic {
        uuid,
        properties: CharacteristicProperties {
            read: true,
            write: false,
            write_without_response: false,
            notify: false,
        },
        permissions: AttributePermissions { read: true, write: false },
        value,
    }
}

/// The service that only advertises a node: not primary and without characteristics.
pub fn advertised_hint_service(node_id: &NodeId) -> (service: GattService)
    ensures
        service.uuid == discovery_value(id_prefix(*node_id)),
        !service.primary,
        service.characteristics@.len() == 0,
{
    GattService {
        uuid: discovery_service_uuid(node_id),
        primary: false,
        characteristics: Vec::new(),
    }
}

/// The service that only shows a node identity.
pub fn identity_gatt_service(node_id: &NodeId) -> (service: GattService)
    ensures
        service@ == (ServiceView {
            uuid: JACQUARD_IDENTITY_SERVICE_UUID,
            primary: true,
            characteristics: seq![node_id_characteristic(*node_id)],
        }),
{
    let mut characteristics: Vec<GattCharacteristic> = Vec::new();
    characteristics.push(
        readable_characteristic(
            JACQUARD_NODE_ID_CHAR_UUID,
            bytes_to_vec(node_id.0.as_slice()),
        ),
    );
    let service = GattService {
        uuid: JACQUARD_IDENTITY_SERVICE_UUID,
        primary: true,
        characteristics,
    };
    assert(service@.characteristics =~= seq![node_id_characteristic(*node_id)]);
    service
}

/// The service of a node that does not listen on L2CAP.
pub fn gatt_fallback_service(node_id: &NodeId) -> (service: GattService)
    ensures
        service@ == transport_service(*node_id, None),
{
    transport_gatt_service(node_id, None)
}

/// The service of a node that listens on L2CAP.
pub fn gatt_l2cap_service(node_id: &NodeId, psm: Psm) -> (service: GattService)
    ensures
        service@ == transport_service(*node_id, Some(psm)),
{
    transport_gatt_service(node_id, Some(psm))
}

/// The service that a node publishes. Writable and notifying characteristics have no static value.
pub fn transport_gatt_service(node_id: &NodeId, psm: Option<Psm>) -> (service: GattService)
    ensures
        service@ == transport_service(*node_id, psm),
{
    let mut characteristics: Vec<GattCharacteristic> = Vec::new();
    characteristics.push(
        readable_characteristic(
            JACQUARD_NODE_ID_CHAR_UUID,
            bytes_to_vec(node_id.0.as_slice()),
        ),
    );
    characteristics.push(
        GattCharacteristic {
            uuid: JACQUARD_C2P_CHAR_UUID,
            properties: CharacteristicProperties {
                read: false,
                write: true,
                write_without_response: true,
                notify: false,
            },
            permissions: AttributePermissions { read: false, write: true },
            value: Vec::new(),
        },
    );
    characteristics.push(
        GattCharacteristic {
            uuid: JACQUARD_P2C_CHAR_UUID,
            properties: CharacteristicProperties {
                read: false,
                write: false,
                write_without_response: false,
                notify: true,
            },
            permissions: AttributePermissions { read: true, write: false },
            value: Vec::new(),
        },
    );
    assert(characteristics@[1]@.value =~= Seq::<u8>::empty());
    assert(characteristics@[2]@.value =~= Seq::<u8>::empty());
    if let Some(psm) = psm {
        characteristics.push(
            readable_characteristic(JACQUARD_PSM_CHAR_UUID, encode_psm_value(psm)),
        );
    }
    let service = GattService {
        uuid: JACQUARD_IDENTITY_SERVICE_UUID,
        primary: true,
        characteristics,
    };
    assert(service@.characteristics =~= transport_service(*node_id, psm).characteristics);
    service
}

/// The locator of a device: its address as bytes, in the scope `ble`.
pub open spec fn device_locator(device_id: Seq<char>) -> EndpointLocatorView {
    EndpointLocatorView::ScopedBytes { scope: "ble"@, bytes: encode_utf8(device_id) }
}

/// The endpoint of the GATT payload path to a device.
pub open spec fn gatt_endpoint_view(device_id: Seq<char>) -> LinkEndpointView {
    LinkEndpointView {
        transport_kind: TransportKindView::BleGatt,
        locator: device_locator(device_id),
        mtu_bytes: ByteCount(GATT_MTU_BYTES),
    }
}

/// The endpoint of an L2CAP channel to a device.
pub open spec fn l2cap_endpoint_view(device_id: Seq<char>) -> LinkEndpointView {
    LinkEndpointView {
        transport_kind: TransportKindView::BleL2cap,
        locator: device_locator(device_id),
        mtu_bytes: ByteCount(L2CAP_MTU_BYTES),
    }
}

/// The endpoint of notification fanout: all subscribers at once, so no device is named.
pub open spec fn notify_fanout_view() -> LinkEndpointView {
    LinkEndpointView {
        transport_kind: TransportKindView::BleGatt,
        locator: EndpointLocatorView::ScopedBytes { scope: "ble-notify"@, bytes: Seq::empty() },
        mtu_bytes: ByteCount(GATT_MTU_BYTES),
    }
}

/// The locator of a device.
pub fn ble_locator(device_id: &DeviceId) -> (locator: EndpointLocator)
    ensures
        locator@ == device_locator(device_id@),
{
    EndpointLocator::ScopedBytes {
        scope: "ble".to_owned(),
        bytes: bytes_to_vec(device_id.as_str().as_bytes()),
    }
}

/// The endpoint of the GATT payload path to a device.
pub fn gatt_endpoint(device_id: &DeviceId) -> (endpoint: LinkEndpoint)
    ensures
        endpoint@ == gatt_endpoint_view(device_id@),
{
    LinkEndpoint::new(TransportKind::BleGatt, ble_locator(device_id), ByteCount(GATT_MTU_BYTES))
}

/// The endpoint of an L2CAP channel to a device.
pub fn l2cap_endpoint(device_id: &DeviceId) -> (endpoint: LinkEndpoint)
    ensures
        endpoint@ == l2cap_endpoint_view(device_id@),
{
    LinkEndpoint::new(TransportKind::BleL2cap, ble_locator(device_id), ByteCount(L2CAP_MTU_BYTES))
}

/// The endpoint of notification fanout.
pub fn gatt_notify_fanout_endpoint() -> (endpoint: LinkEndpoint)
    ensures
        endpoint@ == notify_fanout_view(),
{
    let endpoint = LinkEndpoint::new(
        TransportKind::BleGatt,
        EndpointLocator::ScopedBytes { scope: "ble-notify".to_owned(), bytes: Vec::new() },
        ByteCount(GATT_MTU_BYTES),
    );
    assert(endpoint@.locator->ScopedBytes_bytes =~= Seq::<u8>::empty());
    endpoint
}

/// The device that an endpoint names: an address in the scope `ble` that is valid text.
pub open spec fn endpoint_device(endpoint: LinkEndpointView) -> Option<Seq<char>> {
    match endpoint.locator {
        EndpointLocatorView::ScopedBytes { scope, bytes } => if scope == "ble"@
            && vstd::utf8::valid_utf8(bytes) {
            Some(vstd::utf8::decode_utf8(bytes))
        } else {
            None
        },
        _ => None,
    }
}

/// `String::from_utf8`: the text that the bytes encode, or nothing where they are not UTF-8.
#[verifier::external_body]
fn string_from_utf8(bytes: Vec<u8>) -> (text: Option<String>)
    ensures
        match text {
            Some(s) => vstd::utf8::valid_utf8(bytes@) && s@ == vstd::utf8::decode_utf8(bytes@),
            None => !vstd::utf8::valid_utf8(bytes@),
        },
{
    String::from_utf8(bytes).ok()
}

/// The device that an endpoint names.
pub fn device_id_from_endpoint(endpoint: &LinkEndpoint) -> (device_id: Option<DeviceId>)
    ensures
        match device_id {
            Some(device) => endpoint_device(endpoint@) == Some(device@),
            None => endpoint_device(endpoint@) is None,
        },
{
    match &endpoint.locator {
        EndpointLocator::ScopedBytes { scope, bytes } => {
            if *scope == "ble".to_owned() {
                match string_from_utf8(bytes_to_vec(bytes.as_slice())) {
                    Some(address) => Some(DeviceId(address)),
                    None => None,
                }
            } else {
                None
            }
        },
        _ => None,
    }
}

/// The endpoint of a device, by GATT or by L2CAP, names that device.
pub proof fn law_endpoint_names_its_device(device_id: Seq<char>)
    ensures
        endpoint_device(gatt_endpoint_view(device_id)) == Some(device_id),
        endpoint_device(l2cap_endpoint_view(device_id)) == Some(device_id),
{
    vstd::utf8::encode_utf8_valid_utf8(device_id);
    vstd::utf8::encode_utf8_decode_utf8(device_id);
}

/// Notification fanout names no device and is no device's endpoint.
pub proof fn law_fanout_names_no_device(device_id: Seq<char>)
    ensures
        endpoint_device(notify_fanout_view()) is None,
        notify_fanout_view() != gatt_endpoint_view(device_id),
        notify_fanout_view() != l2cap_endpoint_view(device_id),
{
    reveal_strlit("ble");
    reveal_strlit("ble-notify");
    assert("ble"@.len() != "ble-notify"@.len());
}

/// An endpoint names a device exactly if its locator is an address in the scope `ble`, whatever its
/// transport and its size: this is how the path of a unicast payload is found.
pub proof fn law_address_decides_the_device(endpoint: LinkEndpointView, device_id: Seq<char>)
    ensures
        endpoint.locator == (EndpointLocatorView::ScopedBytes {
            scope: "ble"@,
            bytes: encode_utf8(device_id),
        }) ==> endpoint_device(endpoint) == Some(device_id),
        endpoint_device(endpoint) is Some <==> {
            &&& endpoint.locator is ScopedBytes
            &&& endpoint.locator->ScopedBytes_scope == "ble"@
            &&& vstd::utf8::valid_utf8(endpoint.locator->ScopedBytes_bytes)
        },
{
    vstd::utf8::encode_utf8_valid_utf8(device_id);
    vstd::utf8::encode_utf8_decode_utf8(device_id);
}

/// GATT and L2CAP endpoints are told apart by their transport and their size, and the endpoints of
/// two devices by their addresses.
pub proof fn law_endpoints_are_told_apart(device_id: Seq<char>, other: Seq<char>)
    ensures
        gatt_endpoint_view(device_id).transport_kind is BleGatt,
        gatt_endpoint_view(device_id).mtu_bytes == ByteCount(GATT_MTU_BYTES),
        l2cap_endpoint_view(device_id).transport_kind is BleL2cap,
        l2cap_endpoint_view(device_id).mtu_bytes == ByteCount(L2CAP_MTU_BYTES),
        notify_fanout_view().transport_kind is BleGatt,
        gatt_endpoint_view(device_id) != l2cap_endpoint_view(other),
        gatt_endpoint_view(device_id) == gatt_endpoint_view(other) <==> device_id == other,
        l2cap_endpoint_view(device_id) == l2cap_endpoint_view(other) <==> device_id == other,
{
    law_endpoint_names_its_device(device_id);
    law_endpoint_names_its_device(other);
}

/// The published service lets a stranger read who the node is, lets a central write payloads and be
/// notified of payloads, and offers L2CAP exactly if there is a PSM, which is then read back.
/// Nothing but payloads can be written.
pub proof fn law_published_service_serves_both_roles(node_id: NodeId, psm: Option<Psm>)
    ensures
        ({
            let service = transport_service(node_id, psm);
            &&& service.primary
            &&& service.uuid == JACQUARD_IDENTITY_SERVICE_UUID
            &&& exists|i: int|
                0 <= i < service.characteristics.len() && (
                #[trigger] service.characteristics[i]).uuid == JACQUARD_NODE_ID_CHAR_UUID
                    && service.characteristics[i].properties.read
                    && service.characteristics[i].permissions.read
                    && service.characteristics[i].value == node_id.0@
            &&& exists|i: int|
                0 <= i < service.characteristics.len() && (
                #[trigger] service.characteristics[i]).uuid == JACQUARD_C2P_CHAR_UUID
                    && service.characteristics[i].properties.write
                    && service.characteristics[i].properties.write_without_response
                    && service.characteristics[i].permissions.write
            &&& exists|i: int|
                0 <= i < service.characteristics.len() && (
                #[trigger] service.characteristics[i]).uuid == JACQUARD_P2C_CHAR_UUID
                    && service.characteristics[i].properties.notify
            &&& psm matches Some(psm) ==> exists|i: int|
                0 <= i < service.characteristics.len() && (
                #[trigger] service.characteristics[i]).uuid == JACQUARD_PSM_CHAR_UUID
                    && service.characteristics[i].properties.read
                    && service.characteristics[i].permissions.read
                    && service.characteristics[i].value == psm_bytes(psm)
            &&& psm is None ==> forall|i: int|
                0 <= i < service.characteristics.len() ==> (
                #[trigger] service.characteristics[i]).uuid != JACQUARD_PSM_CHAR_UUID
            &&& forall|i: int|
                0 <= i < service.characteristics.len() ==> {
                    &&& (#[trigger] service.characteristics[i]).properties.write
                        <==> service.characteristics[i].uuid == JACQUARD_C2P_CHAR_UUID
                    &&& service.characteristics[i].permissions.write
                        <==> service.characteristics[i].uuid == JACQUARD_C2P_CHAR_UUID
                    &&& service.characteristics[i].properties.notify
                        <==> service.characteristics[i].uuid == JACQUARD_P2C_CHAR_UUID
                    &&& service.characteristics[i].properties.notify
                        || service.characteristics[i].properties.write
                        ==> service.characteristics[i].value.len() == 0
                }
        }),
{
    let service = transport_service(node_id, psm);
    assert(service.characteristics[0] == node_id_characteristic(node_id));
    assert(service.characteristics[1] == c2p_characteristic());
    assert(service.characteristics[2] == p2c_characteristic());
    if let Some(psm) = psm {
        assert(service.characteristics[3] == psm_characteristic(psm));
    }
}

/// The value that a peer reads is taken for a PSM exactly if its first two bytes are there and not
/// both zero; the low byte comes first, and what follows them says nothing.
pub proof fn law_psm_is_read_low_byte_first(low: u8, high: u8, rest: Seq<u8>, short: Seq<u8>)
    requires
        short.len() < 2,
    ensures
        psm_in(short) is None,
        psm_in(seq![low, high] + rest) is None <==> low == 0 && high == 0,
        psm_in(seq![low, high] + rest) matches Some(psm) ==> psm.0 == low + 256 * high,
        psm_bytes(Psm((low + 256 * high) as u16)) == seq![low, high],
{
    let bytes = seq![low, high] + rest;
    assert(bytes[0] == low && bytes[1] == high);
    assert(psm_bytes(Psm((low + 256 * high) as u16)) =~= seq![low, high]);
}

/// What a node advertises is read by whoever discovers it as a hint that fits the node, and a hint fits
/// a node exactly if it holds the first six bytes of its identity.
pub proof fn law_advertised_nodes_are_recognised(
    node_id: NodeId,
    uuid: Uuid,
    services: &[Uuid],
    hint: Option<[u8; 6]>,
    other: NodeId,
    fits: bool,
)
    requires
        call_ensures(discovery_service_uuid, (&node_id,), uuid),
        call_ensures(parse_discovery_hint, (services,), hint),
        services@ == seq![uuid],
        call_ensures(hint_matches_node_id, (hint->0, &other), fits),
    ensures
        hint is Some,
        fits <==> forall|i: int| 0 <= i < 6 ==> #[trigger] node_id.0@[i] == other.0@[i],
{
    let prefix = id_prefix(node_id);
    lemma_discovery_value(prefix);
    assert(services@.first() == uuid);
    assert(hint->0@ == prefix);
    law_hint_tells_nodes_apart(node_id, other);
    law_hint_tells_nodes_apart(other, node_id);
    if fits {
        assert forall|i: int| 0 <= i < 6 implies #[trigger] node_id.0@[i] == other.0@[i] by {
            assert(id_prefix(node_id)[i] == id_prefix(other)[i]);
        }
    }
    if forall|i: int| 0 <= i < 6 ==> #[trigger] node_id.0@[i] == other.0@[i] {
        assert(id_prefix(node_id) =~= id_prefix(other));
    }
}

/// The endpoint of a device is read back as that device, and a PSM that is shown is read back unless it
/// is the reserved value zero.
pub proof fn law_shown_values_are_read_back(
    device_id: DeviceId,
    endpoint: LinkEndpoint,
    channel: LinkEndpoint,
    over_gatt: Option<DeviceId>,
    over_l2cap: Option<DeviceId>,
    psm: Psm,
    bytes: Vec<u8>,
    received: &[u8],
    read: Option<Psm>,
)
    requires
        call_ensures(gatt_endpoint, (&device_id,), endpoint),
        call_ensures(l2cap_endpoint, (&device_id,), channel),
        call_ensures(device_id_from_endpoint, (&endpoint,), over_gatt),
        call_ensures(device_id_from_endpoint, (&channel,), over_l2cap),
        call_ensures(encode_psm_value, (psm,), bytes),
        call_ensures(parse_psm_value, (received,), read),
        received@ == bytes@,
    ensures
        over_gatt is Some && over_gatt->0@ == device_id@,
        over_l2cap is Some && over_l2cap->0@ == device_id@,
        read == if psm.0 == 0 {
            None::<Psm>
        } else {
            Some(psm)
        },
{
    law_endpoint_names_its_device(device_id@);
    law_psm_round_trip(psm);
}

} // verus!
