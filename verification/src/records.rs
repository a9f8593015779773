//! The records that requests carry and that the database holds.

use vstd::prelude::*;

verus! {

/// A booking request of a team.
pub struct BookingData {
    pub devices: u8,
    pub _minutes: i32,
    pub team_name: String,
    pub public_key: String,
}

/// A device that can be reached through an interface.
pub struct DeviceData {
    pub mac_address: String,
    pub interface_port: String,
    pub interface_id: String,
}

/// A WireGuard interface of the server and whether it is free.
pub struct InterfaceData {
    pub interface_id: String,
    pub ip_address: String,
    pub port: String,
    pub host_public_key: String,
    pub available: bool,
}

/// A peer connected to an interface.
pub struct ConnectedPeer {
    pub interface_id: String,
    pub public_key: String,
}

/// The team whose booking ends.
pub struct TeamName {
    pub name: String,
}

pub struct BookingDataView {
    pub devices: u8,
    pub minutes: i32,
    pub team_name: Seq<char>,
    pub public_key: Seq<char>,
}

pub struct DeviceDataView {
    pub mac_address: Seq<char>,
    pub interface_port: Seq<char>,
    pub interface_id: Seq<char>,
}

pub struct InterfaceDataView {
    pub interface_id: Seq<char>,
    pub ip_address: Seq<char>,
    pub port: Seq<char>,
    pub host_public_key: Seq<char>,
    pub available: bool,
}

pub struct ConnectedPeerView {
    pub interface_id: Seq<char>,
    pub public_key: Seq<char>,
}

impl View for BookingData {
    type V = BookingDataView;

    open spec fn view(&self) -> BookingDataView {
        BookingDataView {
            devices: self.devices,
            minutes: self._minutes,
            team_name: self.team_name@,
            public_key: self.public_key@,
        }
    }
}

impl View for DeviceData {
    type V = DeviceDataView;

    open spec fn view(&self) -> DeviceDataView {
        DeviceDataView {
            mac_address: self.mac_address@,
            interface_port: self.interface_port@,
            interface_id: self.interface_id@,
        }
    }
}

impl View for InterfaceData {
    type V = InterfaceDataView;

    open spec fn view(&self) -> InterfaceDataView {
        InterfaceDataView {
            interface_id: self.interface_id@,
            ip_address: self.ip_address@,
            port: self.port@,
            host_public_key: self.host_public_key@,
            available: self.available,
        }
    }
}

impl View for ConnectedPeer {
    type V = ConnectedPeerView;

    open spec fn view(&self) -> ConnectedPeerView {
        ConnectedPeerView { interface_id: self.interface_id@, public_key: self.public_key@ }
    }
}

impl View for TeamName {
    type V = Seq<char>;

    open spec fn view(&self) -> Seq<char> {
        self.name@
    }
}

} // verus!
