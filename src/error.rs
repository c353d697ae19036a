use vstd::prelude::*;

verus! {

/// Why an operation failed with a networking error.
#[derive(Clone, Copy, Debug, PartialEq, Eq, Structural)]
pub enum FailureCause {
    /// The kernel stayed busy past the total retry budget.
    Timeout,
    /// The kernel answered with this (negative) netlink error code.
    Netlink { code: i32 },
    /// The netlink request failed for a reason other than a kernel error code.
    Transport,
    /// The namespace worker reported an error or could not be reached.
    Worker,
    /// The two interfaces live in different namespaces.
    DifferentNamespaces,
    /// The virtual network still has attached connection points.
    ConnectionPointsAttached,
    /// The veth peer is still recorded but its namespace worker failed.
    VethPeerPresent,
    /// Reading, writing or removing a file failed.
    Os,
    /// The DHCP configuration template is missing or does not render.
    Template,
    /// A process could not be spawned or signalled.
    Process,
    /// The netfilter transaction could not be sent or was refused.
    Netfilter,
    /// The namespace still holds interfaces.
    NamespaceInUse,
    /// A value given to the netfilter layer is malformed.
    Address,
}

/// Errors of the networking plugin.
#[derive(Clone, Copy, Debug, PartialEq, Eq, Structural)]
pub enum NetError {
    /// A catalog or kernel lookup missed.
    NotFound,
    /// The operation does not apply to this kind of interface.
    WrongKind,
    /// The relation that the operation needs is absent.
    NotConnected,
    /// The record already exists.
    AlreadyPresent,
    /// The feature is reserved but not built.
    Unimplemented,
    /// A kernel, worker, process, file or policy failure.
    NetworkingError(FailureCause),
    /// A path, template string or serialized form could not be converted.
    EncodingError,
    /// Stopping the plugin could not complete its teardown.
    HardFailure,
}

} // verus!
