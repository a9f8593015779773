//! Booking and releasing interfaces.
//!
//! A booking alternates database work, shell commands and decisions. The
//! decisions stand here as two state machines: `start_booking` and
//! `end_booking` open a process and give its first action, `step` takes the
//! outcome of the last action and gives the next one. The program that drives
//! them performs each action and hands back what came of it.

use crate::network::{
    add_peer_command, lemma_peer_keeps_network_part, booking_credentials, credentials_text, dotted_quad, ipv4_net_parse,
    parse_interface_address, peer_address_of, remove_peer_command, wireguard_add_peer_command,
    wireguard_remove_peer_command,
};
use crate::records::{
    BookingData, BookingDataView, ConnectedPeer, ConnectedPeerView, InterfaceData,
    InterfaceDataView, TeamName,
};
use crate::text::{decimal, join_with, views};
use vstd::prelude::*;
use vstd::string::*;

verus! {

/// Check that at least `needed_devices` interfaces are available.
pub fn request_possible(needed_devices: u8, available_interfaces: u8) -> (possible: bool)
    ensures
        possible == (available_interfaces >= needed_devices),
{
    available_interfaces >= needed_devices
}

/// The reply to a booking that no free interface can serve.
pub open spec fn no_interface_reply() -> Seq<char> {
    "\nNo_suitable_interface_available"@
}

/// Why a booking process stopped short.
#[derive(PartialEq, Eq, Structural, Debug, Clone, Copy)]
pub enum BookingFailure {
    /// The database refused the entry of the peer.
    PeerEntryNotCreated,
    /// The database refused to change the availability of the interface.
    AvailabilityNotChanged,
    /// The database refused to remove the peer.
    PeerNotRemoved,
}

impl BookingFailure {
    /// The message with which the process stops.
    pub fn message(&self) -> (m: String)
        ensures
            m@ == self.spec_message(),
    {
        match self {
            BookingFailure::PeerEntryNotCreated => String::from_str(
                "Couldn't create a database entry for the peer",
            ),
            BookingFailure::AvailabilityNotChanged => String::from_str(
                "Couldn't change the availability of the interface",
            ),
            BookingFailure::PeerNotRemoved => String::from_str(
                "Couldn't remove the peer from the database",
            ),
        }
    }

    pub open spec fn spec_message(&self) -> Seq<char> {
        match self {
            BookingFailure::PeerEntryNotCreated => "Couldn't create a database entry for the peer"@,
            BookingFailure::AvailabilityNotChanged => "Couldn't change the availability of the interface"@,
            BookingFailure::PeerNotRemoved => "Couldn't remove the peer from the database"@,
        }
    }
}

/// What came of the last action.
pub enum BookingEvent {
    /// The number of available interfaces.
    InterfacesCounted(u8),
    /// The first available interface.
    InterfaceRetrieved(InterfaceData),
    /// The peer connected for a team.
    PeerRetrieved(ConnectedPeer),
    /// Whether a database write succeeded.
    StoreWritten(bool),
    /// The command was started.
    CommandStarted,
}

/// What the driving program does next.
pub enum BookingAction {
    CountInterfaces,
    RetrieveFirstInterface,
    RetrieveConnectedPeer { team: String },
    AddPeerToDb { team_name: String, interface_id: String, public_key: String },
    ChangeAvailability { interface_id: String, available: bool },
    RemovePeerFromDb { public_key: String },
    /// Run a command line, program first.
    RunCommand(Vec<String>),
    /// Answer the request with this text; the process is over.
    Reply(String),
    /// The process is over, with nothing to answer.
    Finish,
    /// Stop the process with the failure's message.
    Fail(BookingFailure),
}

pub enum BookingEventView {
    InterfacesCounted(u8),
    InterfaceRetrieved(InterfaceDataView),
    PeerRetrieved(ConnectedPeerView),
    StoreWritten(bool),
    CommandStarted,
}

#[verifier::ext_equal]
pub enum BookingActionView {
    CountInterfaces,
    RetrieveFirstInterface,
    RetrieveConnectedPeer { team: Seq<char> },
    AddPeerToDb { team_name: Seq<char>, interface_id: Seq<char>, public_key: Seq<char> },
    ChangeAvailability { interface_id: Seq<char>, available: bool },
    RemovePeerFromDb { public_key: Seq<char> },
    RunCommand(Seq<Seq<char>>),
    Reply(Seq<char>),
    Finish,
    Fail(BookingFailure),
}

impl View for BookingEvent {
    type V = BookingEventView;

    open spec fn view(&self) -> BookingEventView {
        match self {
            BookingEvent::InterfacesCounted(n) => BookingEventView::InterfacesCounted(*n),
            BookingEvent::InterfaceRetrieved(i) => BookingEventView::InterfaceRetrieved(i@),
            BookingEvent::PeerRetrieved(p) => BookingEventView::PeerRetrieved(p@),
            BookingEvent::StoreWritten(ok) => BookingEventView::StoreWritten(*ok),
            BookingEvent::CommandStarted => BookingEventView::CommandStarted,
        }
    }
}

impl View for BookingAction {
    type V = BookingActionView;

    open spec fn view(&self) -> BookingActionView {
        match self {
            BookingAction::CountInterfaces => BookingActionView::CountInterfaces,
            BookingAction::RetrieveFirstInterface => BookingActionView::RetrieveFirstInterface,
            BookingAction::RetrieveConnectedPeer { team } => BookingActionView::RetrieveConnectedPeer {
                team: team@,
            },
            BookingAction::AddPeerToDb { team_name, interface_id, public_key } =>
                BookingActionView::AddPeerToDb {
                team_name: team_name@,
                interface_id: interface_id@,
                public_key: public_key@,
            },
            BookingAction::ChangeAvailability { interface_id, available } =>
                BookingActionView::ChangeAvailability {
                interface_id: interface_id@,
                available: *available,
            },
            BookingAction::RemovePeerFromDb { public_key } => BookingActionView::RemovePeerFromDb {
                public_key: public_key@,
            },
            BookingAction::RunCommand(cmd) => BookingActionView::RunCommand(views(cmd@)),
            BookingAction::Reply(text) => BookingActionView::Reply(text@),
            BookingAction::Finish => BookingActionView::Finish,
            BookingAction::Fail(f) => BookingActionView::Fail(*f),
        }
    }
}

// ---------------------------------------------------------------------------
// Starting a booking
// ---------------------------------------------------------------------------

/// Where a booking stands.
pub enum StartStage {
    AwaitingCount,
    AwaitingInterface,
    AwaitingPeerEntry(InterfaceData),
    AwaitingAvailability(InterfaceData),
    AwaitingWireguard(String),
    Finished,
}

#[verifier::ext_equal]
pub enum StartStageView {
    AwaitingCount,
    AwaitingInterface,
    AwaitingPeerEntry(InterfaceDataView),
    AwaitingAvailability(InterfaceDataView),
    AwaitingWireguard(Seq<char>),
    Finished,
}

impl View for StartStage {
    type V = StartStageView;

    open spec fn view(&self) -> StartStageView {
        match self {
            StartStage::AwaitingCount => StartStageView::AwaitingCount,
            StartStage::AwaitingInterface => StartStageView::AwaitingInterface,
            StartStage::AwaitingPeerEntry(i) => StartStageView::AwaitingPeerEntry(i@),
            StartStage::AwaitingAvailability(i) => StartStageView::AwaitingAvailability(i@),
            StartStage::AwaitingWireguard(c) => StartStageView::AwaitingWireguard(c@),
            StartStage::Finished => StartStageView::Finished,
        }
    }
}

/// A booking in progress: the request and where it stands.
pub struct StartBooking {
    pub data: BookingData,
    pub stage: StartStage,
}

/// The events a booking can go on with at each stage. Once the interface is
/// marked unavailable, the booking goes on only if `ipnet` parses the
/// interface's address as an IPv4 network: there is no answer for an
/// interface without one.
pub open spec fn start_accepts(stage: StartStageView, event: BookingEventView) -> bool {
    match (stage, event) {
        (StartStageView::AwaitingCount, BookingEventView::InterfacesCounted(_)) => true,
        (StartStageView::AwaitingInterface, BookingEventView::InterfaceRetrieved(_)) => true,
        (StartStageView::AwaitingPeerEntry(_), BookingEventView::StoreWritten(_)) => true,
        (StartStageView::AwaitingAvailability(i), BookingEventView::StoreWritten(ok)) => !ok
            || ipv4_net_parse(i.ip_address) is Some,
        (StartStageView::AwaitingWireguard(_), BookingEventView::CommandStarted) => true,
        _ => false,
    }
}

/// The next stage and action of a booking of `data`.
///
/// A booking counts the available interfaces and is refused when none is
/// available or fewer than the devices it asks for. Otherwise it takes the first available interface,
/// enters the team's peer in the database, marks the interface unavailable,
/// adds the peer at the address `a.b.c.5` of the interface's network to the
/// interface, and replies with the credentials.
pub open spec fn start_next(
    data: BookingDataView,
    stage: StartStageView,
    event: BookingEventView,
) -> (StartStageView, BookingActionView) {
    match (stage, event) {
        (StartStageView::AwaitingCount, BookingEventView::InterfacesCounted(n)) => {
            if n >= 1 && n >= data.devices {
                (StartStageView::AwaitingInterface, BookingActionView::RetrieveFirstInterface)
            } else {
                (StartStageView::Finished, BookingActionView::Reply(no_interface_reply()))
            }
        },
        (StartStageView::AwaitingInterface, BookingEventView::InterfaceRetrieved(i)) => (
            StartStageView::AwaitingPeerEntry(i),
            BookingActionView::AddPeerToDb {
                team_name: data.team_name,
                interface_id: i.interface_id,
                public_key: data.public_key,
            },
        ),
        (StartStageView::AwaitingPeerEntry(i), BookingEventView::StoreWritten(ok)) => {
            if ok {
                (
                    StartStageView::AwaitingAvailability(i),
                    BookingActionView::ChangeAvailability {
                        interface_id: i.interface_id,
                        available: false,
                    },
                )
            } else {
                (
                    StartStageView::Finished,
                    BookingActionView::Fail(BookingFailure::PeerEntryNotCreated),
                )
            }
        },
        (StartStageView::AwaitingAvailability(i), BookingEventView::StoreWritten(ok)) => {
            if !ok {
                (
                    StartStageView::Finished,
                    BookingActionView::Fail(BookingFailure::AvailabilityNotChanged),
                )
            } else {
                match ipv4_net_parse(i.ip_address) {
                    None => (stage, BookingActionView::Finish),
                    Some(net) => {
                        let peer = peer_address_of(dotted_quad(net.0, net.1, net.2, net.3));
                        (
                            StartStageView::AwaitingWireguard(credentials_text(peer, net.4, i)),
                            BookingActionView::RunCommand(
                                add_peer_command(i.interface_id, data.public_key, peer),
                            ),
                        )
                    },
                }
            }
        },
        (StartStageView::AwaitingWireguard(c), BookingEventView::CommandStarted) => (
            StartStageView::Finished,
            BookingActionView::Reply(c),
        ),
        _ => (stage, BookingActionView::Finish),
    }
}

/// Opens a booking of `data`; its first action counts the available
/// interfaces.
pub fn start_booking(data: BookingData) -> (res: (StartBooking, BookingAction))
    ensures
        res.0.data@ == data@,
        res.0.stage@ == StartStageView::AwaitingCount,
        res.1@ == BookingActionView::CountInterfaces,
{
    (StartBooking { data, stage: StartStage::AwaitingCount }, BookingAction::CountInterfaces)
}

impl StartBooking {
    /// Whether the booking waits for `event`.
    pub fn accepts(&self, event: &BookingEvent) -> (b: bool)
        ensures
            b == start_accepts(self.stage@, event@),
    {
        match (&self.stage, event) {
            (StartStage::AwaitingCount, BookingEvent::InterfacesCounted(_)) => true,
            (StartStage::AwaitingInterface, BookingEvent::InterfaceRetrieved(_)) => true,
            (StartStage::AwaitingPeerEntry(_), BookingEvent::StoreWritten(_)) => true,
            (StartStage::AwaitingAvailability(i), BookingEvent::StoreWritten(ok)) => !*ok
                || parse_interface_address(i).is_some(),
            (StartStage::AwaitingWireguard(_), BookingEvent::CommandStarted) => true,
            _ => false,
        }
    }

    /// Takes what came of the last action and gives the next one.
    pub fn step(self, event: BookingEvent) -> (res: (StartBooking, BookingAction))
        requires
            start_accepts(self.stage@, event@),
        ensures
            res.0.data@ == self.data@,
            (res.0.stage@, res.1@) == start_next(self.data@, self.stage@, event@),
    {
        let StartBooking { data, stage } = self;
        match (stage, event) {
            (StartStage::AwaitingCount, BookingEvent::InterfacesCounted(n)) => {
                if n >= 1 && request_possible(data.devices, n) {
                    (
                        StartBooking { data, stage: StartStage::AwaitingInterface },
                        BookingAction::RetrieveFirstInterface,
                    )
                } else {
                    let reply = String::from_str("\nNo_suitable_interface_available");
                    (StartBooking { data, stage: StartStage::Finished }, BookingAction::Reply(reply))
                }
            },
            (StartStage::AwaitingInterface, BookingEvent::InterfaceRetrieved(interface)) => {
                let action = BookingAction::AddPeerToDb {
                    team_name: data.team_name.clone(),
                    interface_id: interface.interface_id.clone(),
                    public_key: data.public_key.clone(),
                };
                (StartBooking { data, stage: StartStage::AwaitingPeerEntry(interface) }, action)
            },
            (StartStage::AwaitingPeerEntry(interface), BookingEvent::StoreWritten(ok)) => {
                if ok {
                    let action = BookingAction::ChangeAvailability {
                        interface_id: interface.interface_id.clone(),
                        available: false,
                    };
                    (StartBooking { data, stage: StartStage::AwaitingAvailability(interface) }, action)
                } else {
                    (
                        StartBooking { data, stage: StartStage::Finished },
                        BookingAction::Fail(BookingFailure::PeerEntryNotCreated),
                    )
                }
            },
            (StartStage::AwaitingAvailability(interface), BookingEvent::StoreWritten(ok)) => {
                if !ok {
                    (
                        StartBooking { data, stage: StartStage::Finished },
                        BookingAction::Fail(BookingFailure::AvailabilityNotChanged),
                    )
                } else {
                    match parse_interface_address(&interface) {
                        None => {
                            assert(false);
                            (StartBooking { data, stage: StartStage::Finished }, BookingAction::Finish)
                        },
                        Some(net) => {
                            let (peer, credentials) = booking_credentials(net, &interface);
                            let cmd = wireguard_add_peer_command(
                                interface.interface_id.as_str(),
                                data.public_key.as_str(),
                                peer.as_str(),
                            );
                            (
                                StartBooking {
                                    data,
                                    stage: StartStage::AwaitingWireguard(credentials),
                                },
                                BookingAction::RunCommand(cmd),
                            )
                        },
                    }
                }
            },
            (StartStage::AwaitingWireguard(credentials), BookingEvent::CommandStarted) => {
                (
                    StartBooking { data, stage: StartStage::Finished },
                    BookingAction::Reply(credentials),
                )
            },
            _ => {
                assert(false);
                (StartBooking { data, stage: StartStage::Finished }, BookingAction::Finish)
            },
        }
    }

    /// Goes on with `event` where the booking can: the next booking and
    /// action, or `None` where the booking does not wait for the event or the
    /// interface's address is no IPv4 network.
    pub fn advance(self, event: BookingEvent) -> (res: Option<(StartBooking, BookingAction)>)
        ensures
            res is Some <==> start_accepts(self.stage@, event@),
            res matches Some(r) ==> r.0.data@ == self.data@ && (r.0.stage@, r.1@) == start_next(
                self.data@,
                self.stage@,
                event@,
            ),
            (self.stage@ is AwaitingCount && event@ is InterfacesCounted) ==> res is Some,
    {
        proof {
            if event@ is InterfacesCounted {
                lemma_every_count_is_answered(self.data@, event@->InterfacesCounted_0);
            }
        }
        if self.accepts(&event) {
            Some(self.step(event))
        } else {
            None
        }
    }
}

// ---------------------------------------------------------------------------
// Ending a booking
// ---------------------------------------------------------------------------

/// Where the end of a booking stands.
pub enum EndStage {
    AwaitingPeer,
    AwaitingRemoval(ConnectedPeer),
    AwaitingAvailability(ConnectedPeer),
    AwaitingPeerDeletion,
    Finished,
}

#[verifier::ext_equal]
pub enum EndStageView {
    AwaitingPeer,
    AwaitingRemoval(ConnectedPeerView),
    AwaitingAvailability(ConnectedPeerView),
    AwaitingPeerDeletion,
    Finished,
}

impl View for EndStage {
    type V = EndStageView;

    open spec fn view(&self) -> EndStageView {
        match self {
            EndStage::AwaitingPeer => EndStageView::AwaitingPeer,
            EndStage::AwaitingRemoval(p) => EndStageView::AwaitingRemoval(p@),
            EndStage::AwaitingAvailability(p) => EndStageView::AwaitingAvailability(p@),
            EndStage::AwaitingPeerDeletion => EndStageView::AwaitingPeerDeletion,
            EndStage::Finished => EndStageView::Finished,
        }
    }
}

/// The end of a booking in progress.
pub struct EndBooking {
    pub stage: EndStage,
}

/// The events the end of a booking waits for at each stage.
pub open spec fn end_accepts(stage: EndStageView, event: BookingEventView) -> bool {
    match (stage, event) {
        (EndStageView::AwaitingPeer, BookingEventView::PeerRetrieved(_)) => true,
        (EndStageView::AwaitingRemoval(_), BookingEventView::CommandStarted) => true,
        (EndStageView::AwaitingAvailability(_), BookingEventView::StoreWritten(_)) => true,
        (EndStageView::AwaitingPeerDeletion, BookingEventView::StoreWritten(_)) => true,
        _ => false,
    }
}

/// The next stage and action of the end of a booking.
///
/// It looks up the team's peer, removes the peer from its interface, makes
/// the interface available again and removes the peer from the database.
pub open spec fn end_next(stage: EndStageView, event: BookingEventView) -> (
    EndStageView,
    BookingActionView,
) {
    match (stage, event) {
        (EndStageView::AwaitingPeer, BookingEventView::PeerRetrieved(p)) => (
            EndStageView::AwaitingRemoval(p),
            BookingActionView::RunCommand(remove_peer_command(p.interface_id, p.public_key)),
        ),
        (EndStageView::AwaitingRemoval(p), BookingEventView::CommandStarted) => (
            EndStageView::AwaitingAvailability(p),
            BookingActionView::ChangeAvailability { interface_id: p.interface_id, available: true },
        ),
        (EndStageView::AwaitingAvailability(p), BookingEventView::StoreWritten(ok)) => {
            if ok {
                (
                    EndStageView::AwaitingPeerDeletion,
                    BookingActionView::RemovePeerFromDb { public_key: p.public_key },
                )
            } else {
                (
                    EndStageView::Finished,
                    BookingActionView::Fail(BookingFailure::AvailabilityNotChanged),
                )
            }
        },
        (EndStageView::AwaitingPeerDeletion, BookingEventView::StoreWritten(ok)) => {
            if ok {
                (EndStageView::Finished, BookingActionView::Finish)
            } else {
                (EndStageView::Finished, BookingActionView::Fail(BookingFailure::PeerNotRemoved))
            }
        },
        _ => (stage, BookingActionView::Finish),
    }
}

/// Opens the end of the booking of `team`; its first action looks up the
/// team's connected peer.
pub fn end_booking(team: TeamName) -> (res: (EndBooking, BookingAction))
    ensures
        res.0.stage@ == EndStageView::AwaitingPeer,
        res.1@ == (BookingActionView::RetrieveConnectedPeer { team: team@ }),
{
    (EndBooking { stage: EndStage::AwaitingPeer }, BookingAction::RetrieveConnectedPeer {
        team: team.name,
    })
}

impl EndBooking {
    /// Whether the end of the booking waits for `event`.
    pub fn accepts(&self, event: &BookingEvent) -> (b: bool)
        ensures
            b == end_accepts(self.stage@, event@),
    {
        match (&self.stage, event) {
            (EndStage::AwaitingPeer, BookingEvent::PeerRetrieved(_)) => true,
            (EndStage::AwaitingRemoval(_), BookingEvent::CommandStarted) => true,
            (EndStage::AwaitingAvailability(_), BookingEvent::StoreWritten(_)) => true,
            (EndStage::AwaitingPeerDeletion, BookingEvent::StoreWritten(_)) => true,
            _ => false,
        }
    }

    /// Takes what came of the last action and gives the next one.
    pub fn step(self, event: BookingEvent) -> (res: (EndBooking, BookingAction))
        requires
            end_accepts(self.stage@, event@),
        ensures
            (res.0.stage@, res.1@) == end_next(self.stage@, event@),
    {
        match (self.stage, event) {
            (EndStage::AwaitingPeer, BookingEvent::PeerRetrieved(peer)) => {
                let cmd = wireguard_remove_peer_command(
                    peer.interface_id.as_str(),
                    peer.public_key.as_str(),
                );
                (EndBooking { stage: EndStage::AwaitingRemoval(peer) }, BookingAction::RunCommand(cmd))
            },
            (EndStage::AwaitingRemoval(peer), BookingEvent::CommandStarted) => {
                let action = BookingAction::ChangeAvailability {
                    interface_id: peer.interface_id.clone(),
                    available: true,
                };
                (EndBooking { stage: EndStage::AwaitingAvailability(peer) }, action)
            },
            (EndStage::AwaitingAvailability(peer), BookingEvent::StoreWritten(ok)) => {
                if ok {
                    (
                        EndBooking { stage: EndStage::AwaitingPeerDeletion },
                        BookingAction::RemovePeerFromDb { public_key: peer.public_key },
                    )
                } else {
                    (
                        EndBooking { stage: EndStage::Finished },
                        BookingAction::Fail(BookingFailure::AvailabilityNotChanged),
                    )
                }
            },
            (EndStage::AwaitingPeerDeletion, BookingEvent::StoreWritten(ok)) => {
                if ok {
                    (EndBooking { stage: EndStage::Finished }, BookingAction::Finish)
                } else {
                    (
                        EndBooking { stage: EndStage::Finished },
                        BookingAction::Fail(BookingFailure::PeerNotRemoved),
                    )
                }
            },
            _ => {
                assert(false);
                (EndBooking { stage: EndStage::Finished }, BookingAction::Finish)
            },
        }
    }
}

// ---------------------------------------------------------------------------
// Runs of the two processes
// ---------------------------------------------------------------------------

/// The final stage and the actions of a booking that meets `events` one after
/// the other from `stage`.
pub open spec fn start_run(
    data: BookingDataView,
    stage: StartStageView,
    events: Seq<BookingEventView>,
) -> (StartStageView, Seq<BookingActionView>)
    decreases events.len(),
{
    if events.len() == 0 {
        (stage, Seq::empty())
    } else {
        let (next, action) = start_next(data, stage, events[0]);
        let (last, actions) = start_run(data, next, events.drop_first());
        (last, seq![action] + actions)
    }
}

/// The final stage and the actions of the end of a booking that meets
/// `events` one after the other from `stage`.
pub open spec fn end_run(stage: EndStageView, events: Seq<BookingEventView>) -> (
    EndStageView,
    Seq<BookingActionView>,
)
    decreases events.len(),
{
    if events.len() == 0 {
        (stage, Seq::empty())
    } else {
        let (next, action) = end_next(stage, events[0]);
        let (last, actions) = end_run(next, events.drop_first());
        (last, seq![action] + actions)
    }
}

/// A booking that finds an interface and whose database writes succeed
/// enters the team's peer, marks that interface unavailable, adds the peer at
/// `a.b.c.5` in the interface's network `a.b.c.d/len`, and replies with the
/// credentials of that interface.
pub proof fn lemma_granted_booking(data: BookingDataView, count: u8, interface: InterfaceDataView)
    requires
        count >= 1,
        count >= data.devices,
        ipv4_net_parse(interface.ip_address) is Some,
    ensures
        ({
            let net = ipv4_net_parse(interface.ip_address)->Some_0;
            let peer = join_with(
                seq![decimal(net.0 as nat), decimal(net.1 as nat), decimal(net.2 as nat), seq!['5']],
                '.',
            );
            start_run(
                data,
                StartStageView::AwaitingCount,
                seq![
                    BookingEventView::InterfacesCounted(count),
                    BookingEventView::InterfaceRetrieved(interface),
                    BookingEventView::StoreWritten(true),
                    BookingEventView::StoreWritten(true),
                    BookingEventView::CommandStarted,
                ],
            ) == (
                StartStageView::Finished,
                seq![
                    BookingActionView::RetrieveFirstInterface,
                    BookingActionView::AddPeerToDb {
                        team_name: data.team_name,
                        interface_id: interface.interface_id,
                        public_key: data.public_key,
                    },
                    BookingActionView::ChangeAvailability {
                        interface_id: interface.interface_id,
                        available: false,
                    },
                    BookingActionView::RunCommand(
                        add_peer_command(interface.interface_id, data.public_key, peer),
                    ),
                    BookingActionView::Reply(credentials_text(peer, net.4, interface)),
                ],
            )
        }),
{
    let net = ipv4_net_parse(interface.ip_address)->Some_0;
    lemma_peer_keeps_network_part(net.0, net.1, net.2, net.3);
    let events = seq![
        BookingEventView::InterfacesCounted(count),
        BookingEventView::InterfaceRetrieved(interface),
        BookingEventView::StoreWritten(true),
        BookingEventView::StoreWritten(true),
        BookingEventView::CommandStarted,
    ];
    assert(events.drop_first() =~= seq![
        BookingEventView::InterfaceRetrieved(interface),
        BookingEventView::StoreWritten(true),
        BookingEventView::StoreWritten(true),
        BookingEventView::CommandStarted,
    ]);
    assert(events.drop_first().drop_first() =~= seq![
        BookingEventView::StoreWritten(true),
        BookingEventView::StoreWritten(true),
        BookingEventView::CommandStarted,
    ]);
    assert(events.drop_first().drop_first().drop_first() =~= seq![
        BookingEventView::StoreWritten(true),
        BookingEventView::CommandStarted,
    ]);
    assert(events.drop_first().drop_first().drop_first().drop_first() =~= seq![
        BookingEventView::CommandStarted,
    ]);
    assert(events.drop_first().drop_first().drop_first().drop_first().drop_first()
        =~= Seq::<BookingEventView>::empty());
    reveal_with_fuel(start_run, 6);
    let r = start_run(data, StartStageView::AwaitingCount, events);
    assert(r.1 =~= seq![
        BookingActionView::RetrieveFirstInterface,
        BookingActionView::AddPeerToDb {
            team_name: data.team_name,
            interface_id: interface.interface_id,
            public_key: data.public_key,
        },
        BookingActionView::ChangeAvailability {
            interface_id: interface.interface_id,
            available: false,
        },
        BookingActionView::RunCommand(
            add_peer_command(
                interface.interface_id,
                data.public_key,
                peer_address_of(dotted_quad(net.0, net.1, net.2, net.3)),
            ),
        ),
        BookingActionView::Reply(
            credentials_text(peer_address_of(dotted_quad(net.0, net.1, net.2, net.3)), net.4, interface),
        ),
    ]);
}

/// A booking is refused, with the reply that no interface is available and
/// without touching the database, exactly when no interface is available or
/// fewer than the devices it asks for.
pub proof fn lemma_refused_booking(data: BookingDataView, count: u8)
    ensures
        (start_next(data, StartStageView::AwaitingCount, BookingEventView::InterfacesCounted(count))
            == (StartStageView::Finished, BookingActionView::Reply(no_interface_reply())))
            <==> (count == 0 || count < data.devices),
{
}

/// A booking is over exactly when it replies or fails, and once over it
/// waits for nothing.
pub proof fn lemma_start_over_when_answered(
    data: BookingDataView,
    stage: StartStageView,
    event: BookingEventView,
)
    requires
        start_accepts(stage, event),
    ensures
        ({
            let (next, action) = start_next(data, stage, event);
            (next is Finished) <==> (action is Reply || action is Fail)
        }),
        forall|e: BookingEventView| !start_accepts(StartStageView::Finished, e),
{
}

/// Ending a booking whose steps all succeed removes the peer from its
/// interface, makes that interface available again, and removes the peer
/// from the database.
pub proof fn lemma_released_booking(peer: ConnectedPeerView)
    ensures
        end_run(
            EndStageView::AwaitingPeer,
            seq![
                BookingEventView::PeerRetrieved(peer),
                BookingEventView::CommandStarted,
                BookingEventView::StoreWritten(true),
                BookingEventView::StoreWritten(true),
            ],
        ) == (
            EndStageView::Finished,
            seq![
                BookingActionView::RunCommand(
                    remove_peer_command(peer.interface_id, peer.public_key),
                ),
                BookingActionView::ChangeAvailability {
                    interface_id: peer.interface_id,
                    available: true,
                },
                BookingActionView::RemovePeerFromDb { public_key: peer.public_key },
                BookingActionView::Finish,
            ],
        ),
{
    let events = seq![
        BookingEventView::PeerRetrieved(peer),
        BookingEventView::CommandStarted,
        BookingEventView::StoreWritten(true),
        BookingEventView::StoreWritten(true),
    ];
    assert(events.drop_first() =~= seq![
        BookingEventView::CommandStarted,
        BookingEventView::StoreWritten(true),
        BookingEventView::StoreWritten(true),
    ]);
    assert(events.drop_first().drop_first() =~= seq![
        BookingEventView::StoreWritten(true),
        BookingEventView::StoreWritten(true),
    ]);
    assert(events.drop_first().drop_first().drop_first() =~= seq![
        BookingEventView::StoreWritten(true),
    ]);
    assert(events.drop_first().drop_first().drop_first().drop_first()
        =~= Seq::<BookingEventView>::empty());
    reveal_with_fuel(end_run, 5);
    let r = end_run(EndStageView::AwaitingPeer, events);
    assert(r.1 =~= seq![
        BookingActionView::RunCommand(remove_peer_command(peer.interface_id, peer.public_key)),
        BookingActionView::ChangeAvailability { interface_id: peer.interface_id, available: true },
        BookingActionView::RemovePeerFromDb { public_key: peer.public_key },
        BookingActionView::Finish,
    ]);
}

/// The end of a booking is over exactly when it finishes or fails.
pub proof fn lemma_end_over_when_answered(stage: EndStageView, event: BookingEventView)
    requires
        end_accepts(stage, event),
    ensures
        ({
            let (next, action) = end_next(stage, event);
            (next is Finished) <==> (action is Finish || action is Fail)
        }),
        forall|e: BookingEventView| !end_accepts(EndStageView::Finished, e),
{
}


// ---------------------------------------------------------------------------
// The tables a booking works on
// ---------------------------------------------------------------------------

/// A row of the peers table: the team, the interface its peer is connected
/// to, and the peer's public key.
pub struct PeerRow {
    pub team_name: Seq<char>,
    pub interface_id: Seq<char>,
    pub public_key: Seq<char>,
}

/// The tables that the actions of a booking change: the availability of each
/// interface by its id, and the rows of the peers table.
#[verifier::ext_equal]
pub struct Tables {
    pub availability: Map<Seq<char>, bool>,
    pub peers: Set<PeerRow>,
}

/// What an action does to the tables when its database write succeeds:
/// entering a peer inserts its row, changing the availability of an interface
/// updates it where the interface exists, removing a peer deletes the rows
/// with its public key. Other actions leave the tables as they are.
pub open spec fn apply_action(t: Tables, action: BookingActionView) -> Tables {
    match action {
        BookingActionView::AddPeerToDb { team_name, interface_id, public_key } => Tables {
            availability: t.availability,
            peers: t.peers.insert(PeerRow { team_name, interface_id, public_key }),
        },
        BookingActionView::ChangeAvailability { interface_id, available } => {
            if t.availability.contains_key(interface_id) {
                Tables {
                    availability: t.availability.insert(interface_id, available),
                    peers: t.peers,
                }
            } else {
                t
            }
        },
        BookingActionView::RemovePeerFromDb { public_key } => Tables {
            availability: t.availability,
            peers: t.peers.filter(|r: PeerRow| r.public_key != public_key),
        },
        _ => t,
    }
}

/// The tables after the actions, one after the other.
pub open spec fn apply_actions(t: Tables, actions: Seq<BookingActionView>) -> Tables
    decreases actions.len(),
{
    if actions.len() == 0 {
        t
    } else {
        apply_actions(apply_action(t, actions[0]), actions.drop_first())
    }
}

/// The events of a booking that finds `count` available interfaces, is given
/// `interface`, and whose writes and command succeed.
pub open spec fn granted_events(count: u8, interface: InterfaceDataView) -> Seq<BookingEventView> {
    seq![
        BookingEventView::InterfacesCounted(count),
        BookingEventView::InterfaceRetrieved(interface),
        BookingEventView::StoreWritten(true),
        BookingEventView::StoreWritten(true),
        BookingEventView::CommandStarted,
    ]
}

/// The events of the end of a booking that finds `peer` and whose command
/// and writes succeed.
pub open spec fn released_events(peer: ConnectedPeerView) -> Seq<BookingEventView> {
    seq![
        BookingEventView::PeerRetrieved(peer),
        BookingEventView::CommandStarted,
        BookingEventView::StoreWritten(true),
        BookingEventView::StoreWritten(true),
    ]
}

/// Booking an available interface and then ending that booking leaves the
/// tables as they were: the interface is available again and the team's
/// peer is gone. The team has no peer before the booking, and the end of the
/// booking finds the peer row that the booking entered for the team.
pub proof fn lemma_booking_round_trip(
    db0: Tables,
    data: BookingDataView,
    count: u8,
    interface: InterfaceDataView,
    peer: ConnectedPeerView,
)
    requires
        count >= 1,
        count >= data.devices,
        ipv4_net_parse(interface.ip_address) is Some,
        db0.availability.contains_key(interface.interface_id),
        db0.availability[interface.interface_id],
        forall|r: PeerRow|
            #[trigger] db0.peers.contains(r) ==> r.public_key != data.public_key && r.team_name
                != data.team_name,
        apply_actions(
            db0,
            start_run(data, StartStageView::AwaitingCount, granted_events(count, interface)).1,
        ).peers.contains(
            PeerRow {
                team_name: data.team_name,
                interface_id: peer.interface_id,
                public_key: peer.public_key,
            },
        ),
    ensures
        ({
            let db1 = apply_actions(
                db0,
                start_run(data, StartStageView::AwaitingCount, granted_events(count, interface)).1,
            );
            apply_actions(db1, end_run(EndStageView::AwaitingPeer, released_events(peer)).1) == db0
        }),
{
    lemma_granted_booking(data, count, interface);
    let start_actions = start_run(
        data,
        StartStageView::AwaitingCount,
        granted_events(count, interface),
    ).1;
    let id = interface.interface_id;
    let row = PeerRow { team_name: data.team_name, interface_id: id, public_key: data.public_key };
    let after_add = Tables { availability: db0.availability, peers: db0.peers.insert(row) };
    let db1 = Tables {
        availability: db0.availability.insert(id, false),
        peers: db0.peers.insert(row),
    };
    assert(start_actions.len() == 5);
    assert(apply_action(db0, start_actions[0]) == db0);
    assert(apply_action(db0, start_actions[1]) == after_add);
    assert(apply_action(after_add, start_actions[2]) == db1);
    assert(apply_action(db1, start_actions[3]) == db1);
    assert(apply_action(db1, start_actions[4]) == db1);
    assert(start_actions.drop_first().drop_first().drop_first().drop_first().drop_first()
        =~= Seq::<BookingActionView>::empty());
    reveal_with_fuel(apply_actions, 6);
    assert(apply_actions(db0, start_actions) == db1);

    let asked = PeerRow {
        team_name: data.team_name,
        interface_id: peer.interface_id,
        public_key: peer.public_key,
    };
    assert(asked == row) by {
        if asked != row {
            assert(db0.peers.contains(asked));
        }
    }

    lemma_released_booking(peer);
    let end_actions = end_run(EndStageView::AwaitingPeer, released_events(peer)).1;
    let freed = Tables { availability: db0.availability.insert(id, true), peers: db1.peers };
    let db2 = Tables {
        availability: db0.availability.insert(id, true),
        peers: db1.peers.filter(|r: PeerRow| r.public_key != data.public_key),
    };
    assert(end_actions.len() == 4);
    assert(apply_action(db1, end_actions[0]) == db1);
    assert(apply_action(db1, end_actions[1]) =~= freed);
    assert(apply_action(freed, end_actions[2]) == db2);
    assert(apply_action(db2, end_actions[3]) == db2);
    assert(end_actions.drop_first().drop_first().drop_first().drop_first()
        =~= Seq::<BookingActionView>::empty());
    reveal_with_fuel(apply_actions, 5);
    assert(apply_actions(db1, end_actions) == db2);
    assert(db2.availability =~= db0.availability);
    assert(db2.peers =~= db0.peers);
}


/// A booking waiting for the count goes on with every count: when no
/// interface is free or fewer than the devices asked for, it answers
/// `"\nNo_suitable_interface_available"` and is over; otherwise it asks for
/// the first available interface.
pub proof fn lemma_every_count_is_answered(data: BookingDataView, count: u8)
    ensures
        start_accepts(StartStageView::AwaitingCount, BookingEventView::InterfacesCounted(count)),
        (count == 0 || count < data.devices) ==> start_next(
            data,
            StartStageView::AwaitingCount,
            BookingEventView::InterfacesCounted(count),
        ) == (StartStageView::Finished, BookingActionView::Reply(
            "\nNo_suitable_interface_available"@,
        )),
        (count >= 1 && count >= data.devices) ==> start_next(
            data,
            StartStageView::AwaitingCount,
            BookingEventView::InterfacesCounted(count),
        ) == (StartStageView::AwaitingInterface, BookingActionView::RetrieveFirstInterface),
{
}

} // verus!
