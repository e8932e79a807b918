//! BLE sessions with a peer: which path carries outbound payloads, and what it falls back to.

use crate::endpoint::{DeviceId, LinkEndpoint, LinkEndpointView, endpoint_views};
use crate::gatt::{gatt_endpoint, gatt_endpoint_view, l2cap_endpoint, l2cap_endpoint_view};
use vstd::prelude::*;

verus! {

/// Identifies one L2CAP channel of this runtime.
#[derive(Clone, Copy, Debug, PartialEq, Eq, PartialOrd, Ord, Structural)]
pub struct BleChannelId(pub u64);

/// One point-to-point path to a peer.
#[derive(Debug, PartialEq, Eq)]
pub enum BleSession {
    /// Central role: this node connected to the peer and writes to its payload characteristic.
    GattCentral { device_id: DeviceId },
    /// An L2CAP channel, preferred where both sides support it.
    L2cap { device_id: DeviceId, channel_id: BleChannelId },
}

/// What a [`BleSession`] names.
pub ghost enum SessionView {
    GattCentral { device_id: Seq<char> },
    L2cap { device_id: Seq<char>, channel_id: BleChannelId },
}

impl View for BleSession {
    type V = SessionView;

    open spec fn view(&self) -> SessionView {
        match self {
            BleSession::GattCentral { device_id } => SessionView::GattCentral {
                device_id: device_id@,
            },
            BleSession::L2cap { device_id, channel_id } => SessionView::L2cap {
                device_id: device_id@,
                channel_id: *channel_id,
            },
        }
    }
}

impl SessionView {
    /// The device at the other end.
    pub open spec fn device(self) -> Seq<char> {
        match self {
            SessionView::GattCentral { device_id } => device_id,
            SessionView::L2cap { device_id, .. } => device_id,
        }
    }

    /// The endpoint that the session is reached at.
    pub open spec fn reached_at(self) -> LinkEndpointView {
        match self {
            SessionView::GattCentral { device_id } => gatt_endpoint_view(device_id),
            SessionView::L2cap { device_id, .. } => l2cap_endpoint_view(device_id),
        }
    }
}

impl Clone for BleSession {
    fn clone(&self) -> (copy: Self)
        ensures
            copy@ == self@,
    {
        match self {
            BleSession::GattCentral { device_id } => BleSession::GattCentral {
                device_id: device_id.clone(),
            },
            BleSession::L2cap { device_id, channel_id } => BleSession::L2cap {
                device_id: device_id.clone(),
                channel_id: *channel_id,
            },
        }
    }
}

impl BleSession {
    /// The device at the other end.
    pub fn device_id(&self) -> (device_id: &DeviceId)
        ensures
            device_id@ == self@.device(),
    {
        match self {
            BleSession::GattCentral { device_id } => device_id,
            BleSession::L2cap { device_id, .. } => device_id,
        }
    }

    /// The endpoint that the session is reached at.
    pub fn endpoint(&self) -> (endpoint: LinkEndpoint)
        ensures
            endpoint@ == self@.reached_at(),
    {
        match self {
            BleSession::GattCentral { device_id } => gatt_endpoint(device_id),
            BleSession::L2cap { device_id, .. } => l2cap_endpoint(device_id),
        }
    }
}

/// A central that subscribed to this node's notifications.
#[derive(Clone, Debug, PartialEq, Eq)]
pub struct BleNotifySubscriber {
    pub device_id: DeviceId,
}

/// The point-to-point paths to a peer.
#[derive(Debug, PartialEq, Eq)]
enum PeerSessionState {
    Disconnected,
    GattOnly { ingress: BleSession, egress: BleSession },
    L2capPreferred { session: BleSession, fallback: Option<BleSession> },
}

/// The paths that are open to a peer, and its subscriptions to this node's notifications.
#[derive(Debug, PartialEq, Eq)]
pub struct PeerSessions {
    state: PeerSessionState,
    notify_subscribers: Vec<BleNotifySubscriber>,
}

/// What the point-to-point side of [`PeerSessions`] holds.
pub ghost enum PathsView {
    Disconnected,
    GattOnly { ingress: SessionView, egress: SessionView },
    L2capPreferred { session: SessionView, fallback: Option<SessionView> },
}

impl PathsView {
    /// Where outbound payloads go.
    pub open spec fn egress(self) -> Option<SessionView> {
        match self {
            PathsView::Disconnected => None,
            PathsView::GattOnly { egress, .. } => Some(egress),
            PathsView::L2capPreferred { session, .. } => Some(session),
        }
    }

    /// The sessions in order of preference.
    pub open spec fn sessions(self) -> Seq<SessionView> {
        match self {
            PathsView::Disconnected => Seq::empty(),
            PathsView::GattOnly { ingress, egress } => seq![ingress, egress],
            PathsView::L2capPreferred { session, fallback } => match fallback {
                Some(fallback) => seq![session, fallback],
                None => seq![session],
            },
        }
    }

    /// The first session that is not an L2CAP channel.
    pub open spec fn gatt_fallback(self) -> Option<SessionView> {
        match self {
            PathsView::Disconnected => None,
            PathsView::GattOnly { ingress, egress } => if !(ingress is L2cap) {
                Some(ingress)
            } else if !(egress is L2cap) {
                Some(egress)
            } else {
                None
            },
            PathsView::L2capPreferred { session, fallback } => if !(session is L2cap) {
                Some(session)
            } else if fallback is Some && !(fallback->0 is L2cap) {
                fallback
            } else {
                None
            },
        }
    }

    /// The paths once a GATT connection to the peer stands: it becomes the only path, or the
    /// fallback of an L2CAP channel that has none.
    pub open spec fn with_gatt(self, gatt: SessionView) -> PathsView {
        match self {
            PathsView::L2capPreferred { session, fallback } => PathsView::L2capPreferred {
                session,
                fallback: if fallback is None {
                    Some(gatt)
                } else {
                    fallback
                },
            },
            _ => PathsView::GattOnly { ingress: gatt, egress: gatt },
        }
    }

    /// The paths once an L2CAP channel stands: it is preferred, and GATT remains as its fallback.
    pub open spec fn promoted(self, channel: SessionView) -> PathsView {
        PathsView::L2capPreferred { session: channel, fallback: self.gatt_fallback() }
    }

    /// Whether the preferred path is the L2CAP channel with this identity.
    pub open spec fn prefers_channel(self, closed: BleChannelId) -> bool {
        match self {
            PathsView::L2capPreferred { session, .. } => match session {
                SessionView::L2cap { channel_id, .. } => channel_id == closed,
                _ => false,
            },
            _ => false,
        }
    }

    /// The paths once an L2CAP channel is gone: back to the fallback, or to nothing. A channel that
    /// is not the preferred one changes nothing.
    pub open spec fn downgraded(self, closed: BleChannelId) -> PathsView {
        if self.prefers_channel(closed) {
            match self {
                PathsView::L2capPreferred { fallback: Some(gatt), .. } => PathsView::GattOnly {
                    ingress: gatt,
                    egress: gatt,
                },
                _ => PathsView::Disconnected,
            }
        } else {
            self
        }
    }
}

/// What [`PeerSessions`] hold.
pub ghost struct PeerSessionsView {
    pub paths: PathsView,
    pub subscribers: Seq<Seq<char>>,
}

impl PeerSessionsView {
    /// Whether a device occurs in a path or in a subscription.
    pub open spec fn references(self, device_id: Seq<char>) -> bool {
        ||| exists|i: int|
            0 <= i < self.paths.sessions().len() && (
            #[trigger] self.paths.sessions()[i]).device() == device_id
        ||| self.subscribers.contains(device_id)
    }

    /// The endpoints that a device is reached at, each once: those of the sessions in order of
    /// preference, then that of its subscription.
    pub open spec fn endpoints_for(self, device_id: Seq<char>) -> Seq<LinkEndpointView> {
        let by_session = session_endpoints(self.paths.sessions(), device_id);
        if self.subscribers.contains(device_id) {
            with_endpoint(by_session, gatt_endpoint_view(device_id))
        } else {
            by_session
        }
    }

    /// The path for outbound payloads, if it leads to the device.
    pub open spec fn egress_for(self, device_id: Seq<char>) -> Option<SessionView> {
        match self.paths.egress() {
            Some(session) => if session.device() == device_id {
                Some(session)
            } else {
                None
            },
            None => None,
        }
    }
}

/// The devices that subscribed.
pub open spec fn subscriber_devices(subscribers: Seq<BleNotifySubscriber>) -> Seq<Seq<char>> {
    subscribers.map_values(|s: BleNotifySubscriber| s.device_id@)
}

/// A list with one entry removed.
pub open spec fn without_first(devices: Seq<Seq<char>>, device_id: Seq<char>) -> Seq<Seq<char>> {
    if devices.contains(device_id) {
        devices.remove(devices.index_of_first(device_id)->0)
    } else {
        devices
    }
}

/// A list of endpoints with one more at its end, unless the list holds it.
pub open spec fn with_endpoint(
    endpoints: Seq<LinkEndpointView>,
    endpoint: LinkEndpointView,
) -> Seq<LinkEndpointView> {
    if endpoints.contains(endpoint) {
        endpoints
    } else {
        endpoints.push(endpoint)
    }
}

/// The endpoints of the sessions that lead to a device, in order of the sessions, each once.
pub open spec fn session_endpoints(sessions: Seq<SessionView>, device_id: Seq<char>) -> Seq<
    LinkEndpointView,
>
    decreases sessions.len(),
{
    if sessions.len() == 0 {
        Seq::empty()
    } else {
        let earlier = session_endpoints(sessions.drop_last(), device_id);
        if sessions.last().device() == device_id {
            with_endpoint(earlier, sessions.last().reached_at())
        } else {
            earlier
        }
    }
}

impl View for PeerSessions {
    type V = PeerSessionsView;

    closed spec fn view(&self) -> PeerSessionsView {
        PeerSessionsView {
            paths: match self.state {
                PeerSessionState::Disconnected => PathsView::Disconnected,
                PeerSessionState::GattOnly { ingress, egress } => PathsView::GattOnly {
                    ingress: ingress@,
                    egress: egress@,
                },
                PeerSessionState::L2capPreferred {
                    session,
                    fallback,
                } => PathsView::L2capPreferred {
                    session: session@,
                    fallback: match fallback {
                        Some(s) => Some(s@),
                        None => None,
                    },
                },
            },
            subscribers: subscriber_devices(self.notify_subscribers@),
        }
    }
}

impl PeerSessions {
    /// No path and no subscription.
    pub fn disconnected() -> (sessions: PeerSessions)
        ensures
            sessions@ == (PeerSessionsView {
                paths: PathsView::Disconnected,
                subscribers: Seq::empty(),
            }),
    {
        let sessions = PeerSessions {
            state: PeerSessionState::Disconnected,
            notify_subscribers: Vec::new(),
        };
        assert(sessions@.subscribers =~= Seq::<Seq<char>>::empty());
        sessions
    }

    /// One path in both directions.
    pub fn gatt_only(session: BleSession) -> (sessions: PeerSessions)
        ensures
            sessions@ == (PeerSessionsView {
                paths: PathsView::GattOnly { ingress: session@, egress: session@ },
                subscribers: Seq::empty(),
            }),
    {
        let sessions = PeerSessions {
            state: PeerSessionState::GattOnly { ingress: session.clone(), egress: session },
            notify_subscribers: Vec::new(),
        };
        assert(sessions@.subscribers =~= Seq::<Seq<char>>::empty());
        sessions
    }

    /// One path in both directions, ready to be the fallback of an L2CAP channel.
    pub fn gatt_with_fallback(session: BleSession) -> (sessions: PeerSessions)
        ensures
            sessions@ == (PeerSessionsView {
                paths: PathsView::GattOnly { ingress: session@, egress: session@ },
                subscribers: Seq::empty(),
            }),
    {
        PeerSessions::gatt_only(session)
    }

    /// A subscription without a path.
    pub fn gatt_notify_fanout(subscriber: BleNotifySubscriber) -> (sessions: PeerSessions)
        ensures
            sessions@ == (PeerSessionsView {
                paths: PathsView::Disconnected,
                subscribers: seq![subscriber.device_id@],
            }),
    {
        let mut notify_subscribers: Vec<BleNotifySubscriber> = Vec::new();
        notify_subscribers.push(subscriber);
        let sessions = PeerSessions { state: PeerSessionState::Disconnected, notify_subscribers };
        assert(sessions@.subscribers =~= seq![subscriber.device_id@]);
        sessions
    }

    /// An L2CAP channel, and what it falls back to.
    pub fn l2cap_preferred(session: BleSession, fallback: Option<BleSession>) -> (sessions:
        PeerSessions)
        ensures
            sessions@ == (PeerSessionsView {
                paths: PathsView::L2capPreferred {
                    session: session@,
                    fallback: match fallback {
                        Some(s) => Some(s@),
                        None => None,
                    },
                },
                subscribers: Seq::empty(),
            }),
    {
        let sessions = PeerSessions {
            state: PeerSessionState::L2capPreferred { session, fallback },
            notify_subscribers: Vec::new(),
        };
        assert(sessions@.subscribers =~= Seq::<Seq<char>>::empty());
        sessions
    }

    /// The position of the first subscription of a device.
    fn subscription_of(&self, device_id: &DeviceId) -> (found: Option<usize>)
        ensures
            match found {
                Some(i) => {
                    &&& i < self@.subscribers.len()
                    &&& self@.subscribers[i as int] == device_id@
                    &&& forall|j: int| 0 <= j < i ==> self@.subscribers[j] != device_id@
                },
                None => !self@.subscribers.contains(device_id@),
            },
    {
        let mut i: usize = 0;
        while i < self.notify_subscribers.len()
            invariant
                i <= self.notify_subscribers@.len(),
                self@.subscribers == subscriber_devices(self.notify_subscribers@),
                forall|j: int| 0 <= j < i ==> self@.subscribers[j] != device_id@,
            decreases self.notify_subscribers@.len() - i,
        {
            assert(self@.subscribers[i as int] == self.notify_subscribers@[i as int].device_id@);
            if self.notify_subscribers[i].device_id == *device_id {
                return Some(i);
            }
            i = i + 1;
        }
        None
    }

    /// Records the subscription of a device, once.
    pub fn install_gatt_subscription(&mut self, subscriber: BleNotifySubscriber)
        ensures
            final(self)@.paths == old(self)@.paths,
            final(self)@.subscribers == if old(self)@.subscribers.contains(subscriber.device_id@) {
                old(self)@.subscribers
            } else {
                old(self)@.subscribers.push(subscriber.device_id@)
            },
    {
        if self.subscription_of(&subscriber.device_id).is_none() {
            let ghost before = self@;
            self.notify_subscribers.push(subscriber);
            assert(self@.subscribers =~= before.subscribers.push(subscriber.device_id@));
        } else {
            assert(self@.subscribers.contains(subscriber.device_id@));
        }
    }

    /// Drops the subscription of a device, and says whether there was one.
    pub fn remove_gatt_subscription(&mut self, device_id: &DeviceId) -> (removed: bool)
        ensures
            removed == old(self)@.subscribers.contains(device_id@),
            final(self)@.paths == old(self)@.paths,
            final(self)@.subscribers == without_first(old(self)@.subscribers, device_id@),
    {
        match self.subscription_of(device_id) {
            Some(i) => {
                let ghost before = self@;
                proof {
                    assert(before.subscribers.contains(device_id@));
                    before.subscribers.index_of_first_ensures(device_id@);
                }
                self.notify_subscribers.remove(i);
                assert(self@.subscribers =~= before.subscribers.remove(i as int));
                true
            },
            None => false,
        }
    }

    /// The device of the first subscription.
    pub fn notify_subscriber_device_id(&self) -> (device_id: Option<&DeviceId>)
        ensures
            match device_id {
                Some(device) => self@.subscribers.len() > 0 && device@ == self@.subscribers[0],
                None => self@.subscribers.len() == 0,
            },
    {
        if self.notify_subscribers.len() == 0 {
            None
        } else {
            assert(self@.subscribers[0] == self.notify_subscribers@[0].device_id@);
            Some(&self.notify_subscribers[0].device_id)
        }
    }

    /// Records a GATT connection to the peer.
    pub fn install_gatt_central(&mut self, session: BleSession)
        ensures
            final(self)@.paths == old(self)@.paths.with_gatt(session@),
            final(self)@.subscribers == old(self)@.subscribers,
    {
        let mut state = PeerSessionState::Disconnected;
        std::mem::swap(&mut state, &mut self.state);
        self.state = match state {
            PeerSessionState::L2capPreferred {
                session: channel,
                fallback,
            } => PeerSessionState::L2capPreferred {
                session: channel,
                fallback: match fallback {
                    Some(kept) => Some(kept),
                    None => Some(session),
                },
            },
            _ => PeerSessionState::GattOnly { ingress: session.clone(), egress: session },
        };
    }

    /// Records an L2CAP channel to the peer.
    pub fn promote_l2cap(&mut self, session: BleSession)
        ensures
            final(self)@.paths == old(self)@.paths.promoted(session@),
            final(self)@.subscribers == old(self)@.subscribers,
    {
        let fallback = self.first_gatt_fallback();
        self.state = PeerSessionState::L2capPreferred { session, fallback };
    }

    /// Whether the preferred path is the L2CAP channel with this identity.
    pub fn prefers_channel(&self, closed: BleChannelId) -> (preferred: bool)
        ensures
            preferred == self@.paths.prefers_channel(closed),
    {
        match &self.state {
            PeerSessionState::L2capPreferred {
                session: BleSession::L2cap { channel_id, .. },
                ..
            } => *channel_id == closed,
            _ => false,
        }
    }

    /// Records that an L2CAP channel is gone, and hands back where outbound payloads go now.
    pub fn downgrade_l2cap(&mut self, channel_id: BleChannelId) -> (egress: Option<BleSession>)
        ensures
            final(self)@.paths == old(self)@.paths.downgraded(channel_id),
            final(self)@.subscribers == old(self)@.subscribers,
            match egress {
                Some(session) => final(self)@.paths.egress() == Some(session@),
                None => final(self)@.paths.egress() is None,
            },
    {
        let is_current = match &self.state {
            PeerSessionState::L2capPreferred { session, .. } => match session {
                BleSession::L2cap { channel_id: current, .. } => *current == channel_id,
                _ => false,
            },
            _ => false,
        };
        if !is_current {
            return self.preferred_egress();
        }
        let fallback = match &self.state {
            PeerSessionState::L2capPreferred { fallback: Some(gatt), .. } => Some(gatt.clone()),
            _ => None,
        };
        match fallback {
            Some(gatt) => {
                self.state = PeerSessionState::GattOnly {
                    ingress: gatt.clone(),
                    egress: gatt.clone(),
                };
                Some(gatt)
            },
            None => {
                self.state = PeerSessionState::Disconnected;
                None
            },
        }
    }

    /// The path for outbound payloads, if it leads to the device.
    pub fn egress_for_device(&self, device_id: &DeviceId) -> (egress: Option<BleSession>)
        ensures
            match egress {
                Some(session) => self@.egress_for(device_id@) == Some(session@),
                None => self@.egress_for(device_id@) is None,
            },
    {
        match self.preferred_egress() {
            Some(session) => {
                if *session.device_id() == *device_id {
                    Some(session)
                } else {
                    None
                }
            },
            None => None,
        }
    }

    /// The endpoints that a device is reached at, each once: those of the sessions in order of
    /// preference, then that of its subscription.
    pub fn endpoints_for_device(&self, device_id: &DeviceId) -> (endpoints: Vec<LinkEndpoint>)
        ensures
            endpoint_views(endpoints@) == self@.endpoints_for(device_id@),
    {
        let sessions = self.sessions();
        let ghost views = self@.paths.sessions();
        let mut endpoints: Vec<LinkEndpoint> = Vec::new();
        let mut i: usize = 0;
        assert(endpoint_views(endpoints@) =~= session_endpoints(views.take(0), device_id@));
        while i < sessions.len()
            invariant
                i <= sessions@.len(),
                views.len() == sessions@.len(),
                forall|j: int| 0 <= j < views.len() ==> views[j] == (#[trigger] sessions@[j])@,
                endpoint_views(endpoints@) == session_endpoints(views.take(i as int), device_id@),
            decreases sessions@.len() - i,
        {
            let session = sessions[i];
            proof {
                assert(views[i as int] == session@);
                assert(views.take(i + 1).drop_last() =~= views.take(i as int));
                assert(views.take(i + 1).last() == session@);
            }
            if *session.device_id() == *device_id {
                push_unique_endpoint(&mut endpoints, session.endpoint());
            }
            i = i + 1;
        }
        assert(views.take(i as int) =~= views);
        if self.subscription_of(device_id).is_some() {
            assert(self@.subscribers.contains(device_id@));
            push_unique_endpoint(&mut endpoints, gatt_endpoint(device_id));
        }
        endpoints
    }

    /// Whether a device occurs in a path or in a subscription.
    pub fn references_device(&self, device_id: &DeviceId) -> (found: bool)
        ensures
            found == self@.references(device_id@),
    {
        let sessions = self.sessions();
        let ghost views = self@.paths.sessions();
        let mut i: usize = 0;
        while i < sessions.len()
            invariant
                i <= sessions@.len(),
                views == self@.paths.sessions(),
                views.len() == sessions@.len(),
                forall|j: int| 0 <= j < views.len() ==> views[j] == (#[trigger] sessions@[j])@,
                forall|j: int| 0 <= j < i ==> (#[trigger] views[j]).device() != device_id@,
            decreases sessions@.len() - i,
        {
            assert(views[i as int] == sessions@[i as int]@);
            if *sessions[i].device_id() == *device_id {
                return true;
            }
            i = i + 1;
        }
        let subscribed = self.subscription_of(device_id).is_some();
        if subscribed {
            assert(self@.subscribers.contains(device_id@));
        }
        subscribed
    }

    /// Where outbound payloads go.
    pub fn preferred_egress(&self) -> (egress: Option<BleSession>)
        ensures
            match egress {
                Some(session) => self@.paths.egress() == Some(session@),
                None => self@.paths.egress() is None,
            },
    {
        match &self.state {
            PeerSessionState::Disconnected => None,
            PeerSessionState::GattOnly { egress, .. } => Some(egress.clone()),
            PeerSessionState::L2capPreferred { session, .. } => Some(session.clone()),
        }
    }

    /// The sessions in order of preference.
    fn sessions(&self) -> (sessions: Vec<&BleSession>)
        ensures
            sessions@.len() == self@.paths.sessions().len(),
            forall|i: int|
                0 <= i < sessions@.len() ==> (#[trigger] sessions@[i])@
                    == self@.paths.sessions()[i],
    {
        let mut sessions: Vec<&BleSession> = Vec::new();
        match &self.state {
            PeerSessionState::Disconnected => {},
            PeerSessionState::GattOnly { ingress, egress } => {
                sessions.push(ingress);
                sessions.push(egress);
            },
            PeerSessionState::L2capPreferred { session, fallback } => {
                sessions.push(session);
                if let Some(fallback) = fallback {
                    sessions.push(fallback);
                }
            },
        }
        sessions
    }

    /// The first session that is not an L2CAP channel.
    fn first_gatt_fallback(&self) -> (fallback: Option<BleSession>)
        ensures
            match fallback {
                Some(session) => self@.paths.gatt_fallback() == Some(session@),
                None => self@.paths.gatt_fallback() is None,
            },
    {
        let sessions = self.sessions();
        let ghost views = self@.paths.sessions();
        let mut i: usize = 0;
        while i < sessions.len()
            invariant
                i <= sessions@.len(),
                views == self@.paths.sessions(),
                views.len() == sessions@.len(),
                forall|j: int| 0 <= j < views.len() ==> views[j] == (#[trigger] sessions@[j])@,
                forall|j: int| 0 <= j < i ==> (#[trigger] views[j]) is L2cap,
            decreases sessions@.len() - i,
        {
            assert(views[i as int] == sessions@[i as int]@);
            let is_channel = match sessions[i] {
                BleSession::L2cap { .. } => true,
                BleSession::GattCentral { .. } => false,
            };
            if !is_channel {
                proof {
                    if i > 0 {
                        assert(views[0] is L2cap);
                    }
                }
                return Some(sessions[i].clone());
            }
            i = i + 1;
        }
        proof {
            if views.len() > 0 {
                assert(views[0] is L2cap);
            }
            if views.len() > 1 {
                assert(views[1] is L2cap);
            }
        }
        None
    }
}

/// Appends an endpoint unless the list holds it.
fn push_unique_endpoint(endpoints: &mut Vec<LinkEndpoint>, endpoint: LinkEndpoint)
    ensures
        endpoint_views(final(endpoints)@) == with_endpoint(
            endpoint_views(old(endpoints)@),
            endpoint@,
        ),
{
    let ghost before = endpoint_views(endpoints@);
    let mut i: usize = 0;
    while i < endpoints.len()
        invariant
            i <= endpoints@.len(),
            endpoints@ == old(endpoints)@,
            before == endpoint_views(old(endpoints)@),
            forall|j: int| 0 <= j < i ==> (#[trigger] before[j]) != endpoint@,
        decreases endpoints@.len() - i,
    {
        assert(before[i as int] == endpoints@[i as int]@);
        if endpoints[i] == endpoint {
            assert(before.contains(endpoint@));
            return ;
        }
        i = i + 1;
    }
    let ghost added = endpoint@;
    endpoints.push(endpoint);
    assert(endpoint_views(endpoints@) =~= before.push(added));
}

/// Losing an L2CAP channel right after it was opened restores the GATT path that was there before,
/// in both directions; without one, nothing is left.
pub proof fn law_downgrade_undoes_promotion(paths: PathsView, channel: SessionView)
    requires
        channel is L2cap,
    ensures
        match paths.gatt_fallback() {
            Some(gatt) => paths.promoted(channel).downgraded(channel->L2cap_channel_id)
                == (PathsView::GattOnly { ingress: gatt, egress: gatt }),
            None => paths.promoted(channel).downgraded(channel->L2cap_channel_id)
                == PathsView::Disconnected,
        },
{
}

/// An L2CAP channel carries outbound payloads as soon as it stands, and a GATT connection made
/// later does not displace it.
pub proof fn law_l2cap_is_preferred(paths: PathsView, channel: SessionView, gatt: SessionView)
    requires
        channel is L2cap,
    ensures
        paths.promoted(channel).egress() == Some(channel),
        paths.promoted(channel).with_gatt(gatt).egress() == Some(channel),
{
}

/// A channel that is not the preferred one can close without any effect.
pub proof fn law_stale_channel_is_ignored(paths: PathsView, closed: BleChannelId)
    requires
        !paths.prefers_channel(closed),
    ensures
        paths.downgraded(closed) == paths,
{
}

/// Subscriptions are no paths: a peer that only subscribed cannot be sent unicast payloads.
pub proof fn law_subscription_is_no_egress(sessions: PeerSessionsView, device_id: Seq<char>)
    requires
        sessions.paths is Disconnected,
    ensures
        sessions.egress_for(device_id) is None,
{
}

/// Whether a peer holds a session: as a path of its own or as a fallback.
pub open spec fn holds_session(paths: PathsView, session: SessionView) -> bool {
    match paths {
        PathsView::Disconnected => false,
        PathsView::GattOnly { ingress, egress } => session == ingress || session == egress,
        PathsView::L2capPreferred { session: preferred, fallback } => session == preferred
            || fallback == Some(session),
    }
}

/// Whether a session leads to a device, over whichever transport.
pub open spec fn leads_to(session: SessionView, device_id: Seq<char>) -> bool {
    match session {
        SessionView::GattCentral { device_id: at } => at == device_id,
        SessionView::L2cap { device_id: at, .. } => at == device_id,
    }
}

/// The endpoint of the transport that a session uses, at a device.
pub open spec fn session_place(session: SessionView, device_id: Seq<char>) -> LinkEndpointView {
    match session {
        SessionView::GattCentral { .. } => gatt_endpoint_view(device_id),
        SessionView::L2cap { .. } => l2cap_endpoint_view(device_id),
    }
}

proof fn lemma_session_endpoints(
    sessions: Seq<SessionView>,
    device_id: Seq<char>,
    endpoint: LinkEndpointView,
)
    ensures
        session_endpoints(sessions, device_id).no_duplicates(),
        session_endpoints(sessions, device_id).contains(endpoint) <==> exists|i: int|
            0 <= i < sessions.len() && leads_to(#[trigger] sessions[i], device_id)
                && session_place(sessions[i], device_id) == endpoint,
    decreases sessions.len(),
{
    let listed = session_endpoints(sessions, device_id);
    if sessions.len() > 0 {
        let fewer = sessions.drop_last();
        let last = sessions.last();
        let earlier = session_endpoints(fewer, device_id);
        lemma_session_endpoints(fewer, device_id, endpoint);
        lemma_session_endpoints(fewer, device_id, last.reached_at());
        if listed != earlier {
            assert(listed == earlier.push(last.reached_at()));
            assert(listed.last() == last.reached_at());
        }
        if earlier.contains(endpoint) {
            let k = earlier.index_of(endpoint);
            assert(listed[k] == endpoint);
            let i = choose|i: int|
                0 <= i < fewer.len() && leads_to(#[trigger] fewer[i], device_id) && session_place(
                    fewer[i],
                    device_id,
                ) == endpoint;
            assert(sessions[i] == fewer[i]);
        }
        if listed.contains(endpoint) && !earlier.contains(endpoint) {
            let k = listed.index_of(endpoint);
            if k < earlier.len() {
                assert(earlier[k] == endpoint);
            }
            assert(leads_to(sessions[sessions.len() - 1], device_id));
        }
        if exists|i: int|
            0 <= i < sessions.len() && leads_to(#[trigger] sessions[i], device_id)
                && session_place(sessions[i], device_id) == endpoint {
            let i = choose|i: int|
                0 <= i < sessions.len() && leads_to(#[trigger] sessions[i], device_id)
                    && session_place(sessions[i], device_id) == endpoint;
            if i < fewer.len() {
                assert(fewer[i] == sessions[i]);
            }
        }
    }
}

proof fn lemma_held_sessions(paths: PathsView, session: SessionView)
    ensures
        holds_session(paths, session) <==> exists|i: int|
            0 <= i < paths.sessions().len() && #[trigger] paths.sessions()[i] == session,
{
    let listed = paths.sessions();
    if holds_session(paths, session) {
        assert(listed[0] == session || listed[1] == session);
    }
}

/// A device is reached at an endpoint exactly if some session of the peer leads there over the
/// transport of the endpoint, be it the preferred one, the fallback, or either direction of a GATT
/// connection, or if the device subscribed and the endpoint is its GATT one. No endpoint is listed
/// twice.
pub proof fn law_every_path_to_a_device_is_listed(
    peer: PeerSessionsView,
    device_id: Seq<char>,
    endpoint: LinkEndpointView,
)
    ensures
        peer.endpoints_for(device_id).no_duplicates(),
        peer.endpoints_for(device_id).contains(endpoint) <==> {
            ||| exists|session: SessionView| #[trigger]
                holds_session(peer.paths, session) && leads_to(session, device_id)
                    && session_place(session, device_id) == endpoint
            ||| peer.subscribers.contains(device_id) && endpoint == gatt_endpoint_view(device_id)
        },
        peer.endpoints_for(device_id).len() > 0 <==> {
            ||| exists|session: SessionView| #[trigger]
                holds_session(peer.paths, session) && leads_to(session, device_id)
            ||| peer.subscribers.contains(device_id)
        },
{
    let sessions = peer.paths.sessions();
    let by_session = session_endpoints(sessions, device_id);
    let listed = peer.endpoints_for(device_id);
    lemma_session_endpoints(sessions, device_id, endpoint);
    let gatt = gatt_endpoint_view(device_id);
    if by_session.contains(endpoint) {
        let k = by_session.index_of(endpoint);
        assert(listed[k] == endpoint);
        let i = choose|i: int|
            0 <= i < sessions.len() && leads_to(#[trigger] sessions[i], device_id)
                && session_place(sessions[i], device_id) == endpoint;
        lemma_held_sessions(peer.paths, sessions[i]);
        assert(holds_session(peer.paths, sessions[i]));
    }
    if exists|session: SessionView| #[trigger]
        holds_session(peer.paths, session) && leads_to(session, device_id) && session_place(
            session,
            device_id,
        ) == endpoint {
        let session = choose|session: SessionView| #[trigger]
            holds_session(peer.paths, session) && leads_to(session, device_id) && session_place(
                session,
                device_id,
            ) == endpoint;
        lemma_held_sessions(peer.paths, session);
        let i = choose|i: int| 0 <= i < sessions.len() && #[trigger] sessions[i] == session;
        assert(leads_to(sessions[i], device_id));
        assert(by_session.contains(endpoint));
    }
    if peer.subscribers.contains(device_id) {
        if !by_session.contains(gatt) {
            assert(listed.last() == gatt);
        } else {
            let k = by_session.index_of(gatt);
            assert(listed[k] == gatt);
        }
    }
    if listed.contains(endpoint) && !by_session.contains(endpoint) {
        let k = listed.index_of(endpoint);
        if k < by_session.len() {
            assert(by_session[k] == endpoint);
        }
    }
    if exists|session: SessionView| #[trigger]
        holds_session(peer.paths, session) && leads_to(session, device_id) {
        let session = choose|session: SessionView| #[trigger]
            holds_session(peer.paths, session) && leads_to(session, device_id);
        lemma_held_sessions(peer.paths, session);
        let i = choose|i: int| 0 <= i < sessions.len() && #[trigger] sessions[i] == session;
        lemma_session_endpoints(sessions, device_id, session_place(session, device_id));
        assert(leads_to(sessions[i], device_id));
        assert(by_session.contains(session_place(session, device_id)));
    }
    if listed.len() > 0 && !peer.subscribers.contains(device_id) {
        lemma_session_endpoints(sessions, device_id, by_session[0]);
        let i = choose|i: int|
            0 <= i < sessions.len() && leads_to(#[trigger] sessions[i], device_id)
                && session_place(sessions[i], device_id) == by_session[0];
        lemma_held_sessions(peer.paths, sessions[i]);
        assert(holds_session(peer.paths, sessions[i]));
    }
}

/// A peer refers to a device exactly if one of its sessions leads there or the device subscribed.
pub proof fn law_references_miss_no_path(peer: PeerSessionsView, device_id: Seq<char>)
    ensures
        peer.references(device_id) <==> {
            ||| exists|session: SessionView| #[trigger]
                holds_session(peer.paths, session) && leads_to(session, device_id)
            ||| peer.subscribers.contains(device_id)
        },
{
    let sessions = peer.paths.sessions();
    if exists|session: SessionView| #[trigger]
        holds_session(peer.paths, session) && leads_to(session, device_id) {
        let session = choose|session: SessionView| #[trigger]
            holds_session(peer.paths, session) && leads_to(session, device_id);
        lemma_held_sessions(peer.paths, session);
        let i = choose|i: int| 0 <= i < sessions.len() && #[trigger] sessions[i] == session;
        assert(sessions[i].device() == device_id);
    }
    if exists|i: int|
        0 <= i < sessions.len() && (#[trigger] sessions[i]).device() == device_id {
        let i = choose|i: int|
            0 <= i < sessions.len() && (#[trigger] sessions[i]).device() == device_id;
        lemma_held_sessions(peer.paths, sessions[i]);
        assert(holds_session(peer.paths, sessions[i]));
    }
}

/// Payloads leave over a session of the peer, and over none only if the peer has none. A path leads
/// to a device exactly if it is the one that payloads leave over and ends there, whichever its
/// transport.
pub proof fn law_payloads_leave_over_a_held_session(peer: PeerSessionsView, device_id: Seq<char>)
    ensures
        peer.paths.egress() matches Some(session) ==> holds_session(peer.paths, session),
        peer.paths.egress() is None <==> forall|session: SessionView|
            !(#[trigger] holds_session(peer.paths, session)),
        peer.egress_for(device_id) is Some <==> peer.paths.egress() is Some && leads_to(
            peer.paths.egress()->0,
            device_id,
        ),
        peer.egress_for(device_id) is Some ==> peer.egress_for(device_id) == peer.paths.egress(),
{
    match peer.paths {
        PathsView::Disconnected => {},
        PathsView::GattOnly { ingress, egress } => {
            assert(holds_session(peer.paths, egress));
        },
        PathsView::L2capPreferred { session, fallback } => {
            assert(holds_session(peer.paths, session));
        },
    }
}

/// Opening an L2CAP channel gives up no GATT path: the fallback is a GATT session that the peer had,
/// and there is none only if the peer had none. Payloads leave over the channel from then on.
pub proof fn law_promotion_keeps_a_gatt_path(paths: PathsView, channel: SessionView)
    ensures
        ({
            let promoted = paths.promoted(channel);
            &&& promoted matches PathsView::L2capPreferred { session, fallback }
            &&& session == channel
            &&& fallback matches Some(kept) ==> kept is GattCentral && holds_session(paths, kept)
            &&& fallback is None <==> forall|held: SessionView| #[trigger]
                holds_session(paths, held) ==> held is L2cap
        }),
{
    match paths {
        PathsView::Disconnected => {},
        PathsView::GattOnly { ingress, egress } => {
            assert(holds_session(paths, ingress) && holds_session(paths, egress));
        },
        PathsView::L2capPreferred { session, fallback } => {
            assert(holds_session(paths, session));
            if fallback is Some {
                assert(holds_session(paths, fallback->0));
            }
        },
    }
}

/// A new GATT connection is always taken into use where there is room for it: a peer without an
/// L2CAP channel sends and receives over it alone, and a channel without a fallback falls back to
/// it. A channel and the fallback that it has stay as they are.
pub proof fn law_new_gatt_connection_is_used(paths: PathsView, gatt: SessionView)
    ensures
        !(paths is L2capPreferred) ==> paths.with_gatt(gatt) == (PathsView::GattOnly {
            ingress: gatt,
            egress: gatt,
        }),
        paths matches PathsView::L2capPreferred { session, fallback } ==> {
            &&& paths.with_gatt(gatt) matches PathsView::L2capPreferred {
                session: kept,
                fallback: back,
            }
            &&& kept == session
            &&& back == (if fallback is Some {
                fallback
            } else {
                Some(gatt)
            })
        },
{
}

/// Closing an L2CAP channel takes it away from whoever preferred it and from nobody else: payloads
/// then leave over the fallback, or over nothing if there was none.
pub proof fn law_closed_channel_is_not_used(paths: PathsView, closed: BleChannelId)
    ensures
        match paths {
            PathsView::L2capPreferred {
                session: SessionView::L2cap { channel_id, .. },
                fallback,
            } => if channel_id == closed {
                &&& paths.prefers_channel(closed)
                &&& paths.downgraded(closed).egress() == fallback
                &&& !(paths.downgraded(closed) is L2capPreferred)
                &&& fallback matches Some(back) ==> paths.downgraded(closed)
                    == (PathsView::GattOnly { ingress: back, egress: back })
            } else {
                !paths.prefers_channel(closed) && paths.downgraded(closed) == paths
            },
            _ => !paths.prefers_channel(closed) && paths.downgraded(closed) == paths,
        },
{
}

/// Ending a subscription takes one entry of that device off the list and leaves all the others, in
/// their order; a device that did not subscribe takes nothing off.
pub proof fn law_unsubscribing_spares_the_others(devices: Seq<Seq<char>>, device_id: Seq<char>)
    ensures
        !devices.contains(device_id) ==> without_first(devices, device_id) == devices,
        devices.contains(device_id) ==> exists|i: int|
            0 <= i < devices.len() && #[trigger] devices[i] == device_id && without_first(
                devices,
                device_id,
            ) == devices.take(i) + devices.skip(i + 1),
        forall|other: Seq<char>|
            other != device_id ==> (#[trigger] devices.contains(other) <==> without_first(
                devices,
                device_id,
            ).contains(other)),
        devices.no_duplicates() ==> !without_first(devices, device_id).contains(device_id),
{
    if devices.contains(device_id) {
        devices.index_of_first_ensures(device_id);
        let i = devices.index_of_first(device_id)->0;
        let left = without_first(devices, device_id);
        assert(left =~= devices.take(i) + devices.skip(i + 1));
        assert forall|other: Seq<char>| other != device_id implies (
        #[trigger] devices.contains(other) <==> left.contains(other)) by {
            if devices.contains(other) {
                let k = devices.index_of(other);
                if k < i {
                    assert(left[k] == other);
                } else {
                    assert(left[k - 1] == other);
                }
            }
            if left.contains(other) {
                let k = left.index_of(other);
                assert(devices[if k < i { k } else { k + 1 }] == other);
            }
        }
        if left.contains(device_id) {
            let k = left.index_of(device_id);
            assert(devices[if k < i { k } else { k + 1 }] == device_id);
        }
    }
}

/// Every change of a peer's sessions does what it is for and leaves the rest: a subscription is on
/// record once and off it when it ended, a GATT connection and an L2CAP channel are held from when
/// they are installed, a channel is not preferred any more once it closed, and subscriptions and paths
/// do not touch each other.
pub proof fn law_session_changes_are_confined()
    ensures
        forall|peer: &mut PeerSessions, subscriber: BleNotifySubscriber, nothing: ()|
            #[trigger] call_ensures(
                PeerSessions::install_gatt_subscription,
                (peer, subscriber),
                nothing,
            ) ==> {
                &&& final(peer)@.subscribers.contains(subscriber.device_id@)
                &&& final(peer)@.paths == (*peer)@.paths
                &&& (*peer)@.subscribers.no_duplicates() ==> final(peer)@.subscribers.no_duplicates()
                &&& (*peer)@.subscribers.is_prefix_of(final(peer)@.subscribers)
                &&& final(peer)@.subscribers.len() <= (*peer)@.subscribers.len() + 1
            },
        forall|peer: &mut PeerSessions, device_id: DeviceId, removed: bool|
            #[trigger] call_ensures(
                PeerSessions::remove_gatt_subscription,
                (peer, &device_id),
                removed,
            ) ==> {
                &&& removed <==> (*peer)@.subscribers.contains(device_id@)
                &&& final(peer)@.paths == (*peer)@.paths
                &&& (*peer)@.subscribers.no_duplicates()
                    ==> !final(peer)@.subscribers.contains(device_id@)
                &&& forall|other: Seq<char>|
                    other != device_id@ ==> (#[trigger] (*peer)@.subscribers.contains(other)
                        <==> final(peer)@.subscribers.contains(other))
            },
        forall|peer: &mut PeerSessions, session: BleSession, nothing: ()|
            #[trigger] call_ensures(
                PeerSessions::install_gatt_central,
                (peer, session),
                nothing,
            ) ==> {
                &&& final(peer)@.subscribers == (*peer)@.subscribers
                &&& !((*peer)@.paths is L2capPreferred) ==> final(peer)@.paths.egress() == Some(
                    session@,
                )
                &&& (*peer)@.paths is L2capPreferred ==> final(peer)@.paths.egress()
                    == (*peer)@.paths.egress()
                &&& (*peer)@.paths is L2capPreferred
                    && (*peer)@.paths->L2capPreferred_fallback is None ==> holds_session(
                    final(peer)@.paths,
                    session@,
                )
            },
        forall|peer: &mut PeerSessions, session: BleSession, nothing: ()|
            #[trigger] call_ensures(
                PeerSessions::promote_l2cap,
                (peer, session),
                nothing,
            ) ==> {
                &&& final(peer)@.subscribers == (*peer)@.subscribers
                &&& final(peer)@.paths.egress() == Some(session@)
            },
        forall|peer: &mut PeerSessions, channel_id: BleChannelId, egress: Option<BleSession>|
            #[trigger] call_ensures(
                PeerSessions::downgrade_l2cap,
                (peer, channel_id),
                egress,
            ) ==> {
                &&& final(peer)@.subscribers == (*peer)@.subscribers
                &&& !final(peer)@.paths.prefers_channel(channel_id)
                &&& egress is Some <==> final(peer)@.paths.egress() is Some
                &&& egress matches Some(session) ==> final(peer)@.paths.egress() == Some(session@)
                &&& (*peer)@.paths is GattOnly ==> final(peer)@.paths == (*peer)@.paths
            },
{
    assert forall|peer: &mut PeerSessions, subscriber: BleNotifySubscriber, nothing: ()|
        #[trigger] call_ensures(
            PeerSessions::install_gatt_subscription,
            (peer, subscriber),
            nothing,
        ) implies {
        &&& final(peer)@.subscribers.contains(subscriber.device_id@)
        &&& (*peer)@.subscribers.no_duplicates() ==> final(peer)@.subscribers.no_duplicates()
        &&& (*peer)@.subscribers.is_prefix_of(final(peer)@.subscribers)
    } by {
        let before = (*peer)@.subscribers;
        let after = final(peer)@.subscribers;
        if !before.contains(subscriber.device_id@) {
            assert(after[before.len() as int] == subscriber.device_id@);
        }
        assert(before =~= after.take(before.len() as int));
    }
    assert forall|peer: &mut PeerSessions, device_id: DeviceId, removed: bool|
        #[trigger] call_ensures(
            PeerSessions::remove_gatt_subscription,
            (peer, &device_id),
            removed,
        ) implies {
        &&& (*peer)@.subscribers.no_duplicates() ==> !final(peer)@.subscribers.contains(device_id@)
        &&& forall|other: Seq<char>|
            other != device_id@ ==> (#[trigger] (*peer)@.subscribers.contains(other)
                <==> final(peer)@.subscribers.contains(other))
    } by {
        law_unsubscribing_spares_the_others((*peer)@.subscribers, device_id@);
    }
}

} // verus!
