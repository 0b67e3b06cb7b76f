//! Why a synthesis was given up.

use crate::ip::IpNet;
use crate::topology::IpPrefixId;
use crate::topology::PhysicalPortId;
use vstd::prelude::*;

verus! {

/// A walk along the cabling came back to a port that it had left before,
/// or went on for longer than a list of ports can be.
#[derive(Clone, Copy, Debug, PartialEq, Eq, Structural)]
pub struct CyclicCablingError;

/// Why no target configuration could be built.
#[derive(Clone, Debug, PartialEq, Eq)]
pub enum SetupError {
    /// The device does not say which model it is.
    RouterboardNotDefined,
    /// No port is known for the model of this name.
    NoPortsFound(String),
    /// The inventory places an interface on a port that the model lacks.
    PortNotFound(PhysicalPortId),
    /// A DHCP server was asked for on an address that belongs to no prefix.
    MissingPrefixOnIpAddress { ip: IpNet },
    /// A DHCP server was asked for on a prefix that the snapshot does not hold.
    MissingAddressOnPrefix { prefix: IpPrefixId },
    /// The cabling of the device runs in a circle.
    CyclicCabling,
    /// More VLANs lack a tag than there are tags from 60000 on to give.
    TagSpaceExhausted,
    /// A prefix holds more ranges, networks and addresses than a search for
    /// free ranges takes.
    TooManyReservations,
}

/// An error, with the name in it as its characters.
pub enum SetupErrorView {
    RouterboardNotDefined,
    NoPortsFound(Seq<char>),
    PortNotFound(PhysicalPortId),
    MissingPrefixOnIpAddress { ip: IpNet },
    MissingAddressOnPrefix { prefix: IpPrefixId },
    CyclicCabling,
    TagSpaceExhausted,
    TooManyReservations,
}

impl View for SetupError {
    type V = SetupErrorView;

    open spec fn view(&self) -> SetupErrorView {
        match self {
            SetupError::RouterboardNotDefined => SetupErrorView::RouterboardNotDefined,
            SetupError::NoPortsFound(m) => SetupErrorView::NoPortsFound(m@),
            SetupError::PortNotFound(p) => SetupErrorView::PortNotFound(*p),
            SetupError::MissingPrefixOnIpAddress { ip } => SetupErrorView::MissingPrefixOnIpAddress {
                ip: *ip,
            },
            SetupError::MissingAddressOnPrefix { prefix } => SetupErrorView::MissingAddressOnPrefix {
                prefix: *prefix,
            },
            SetupError::CyclicCabling => SetupErrorView::CyclicCabling,
            SetupError::TagSpaceExhausted => SetupErrorView::TagSpaceExhausted,
            SetupError::TooManyReservations => SetupErrorView::TooManyReservations,
        }
    }
}

} // verus!
