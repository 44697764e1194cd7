use vstd::prelude::*;

verus! {

/// The kind of port an instance drives.
#[derive(Debug, Clone, Copy, PartialEq, Eq, Structural)]
pub enum InstanceType {
    Serial,
    Tcp,
    Udp,
    Visa,
}

/// The short tag of a type inside handle ids.
pub open spec fn handle_prefix_of(t: InstanceType) -> Seq<char> {
    match t {
        InstanceType::Serial => "ser"@,
        InstanceType::Tcp => "tcp"@,
        InstanceType::Udp => "udp"@,
        InstanceType::Visa => "visa"@,
    }
}

/// The name of a type in responses.
pub open spec fn instance_type_name(t: InstanceType) -> Seq<char> {
    match t {
        InstanceType::Serial => "Serial"@,
        InstanceType::Tcp => "TCP"@,
        InstanceType::Udp => "UDP"@,
        InstanceType::Visa => "Visa"@,
    }
}

impl InstanceType {
    pub fn name(self) -> (n: &'static str)
        ensures
            n@ == instance_type_name(self),
    {
        match self {
            InstanceType::Serial => "Serial",
            InstanceType::Tcp => "TCP",
            InstanceType::Udp => "UDP",
            InstanceType::Visa => "Visa",
        }
    }

    pub fn handle_prefix(self) -> (p: &'static str)
        ensures
            p@ == handle_prefix_of(self),
    {
        match self {
            InstanceType::Serial => "ser",
            InstanceType::Tcp => "tcp",
            InstanceType::Udp => "udp",
            InstanceType::Visa => "visa",
        }
    }
}

/// Lifecycle state of an instance.
#[derive(Debug, Clone, Copy, PartialEq, Eq, Structural)]
pub enum InstanceState {
    Created,
    Configured,
    Connected,
    Disconnecting,
    Disconnected,
    Error,
    Released,
}

/// The name of a state in responses.
pub open spec fn state_name(s: InstanceState) -> Seq<char> {
    match s {
        InstanceState::Created => "Created"@,
        InstanceState::Configured => "Configured"@,
        InstanceState::Connected => "Connected"@,
        InstanceState::Disconnecting => "Disconnecting"@,
        InstanceState::Disconnected => "Disconnected"@,
        InstanceState::Error => "Error"@,
        InstanceState::Released => "Released"@,
    }
}

impl InstanceState {
    pub fn name(self) -> (n: &'static str)
        ensures
            n@ == state_name(self),
    {
        match self {
            InstanceState::Created => "Created",
            InstanceState::Configured => "Configured",
            InstanceState::Connected => "Connected",
            InstanceState::Disconnecting => "Disconnecting",
            InstanceState::Disconnected => "Disconnected",
            InstanceState::Error => "Error",
            InstanceState::Released => "Released",
        }
    }

    /// Every state but `Released` is kept by the registry.
    pub fn is_persistent(self) -> (b: bool)
        ensures
            b == (self != InstanceState::Released),
    {
        !matches!(self, InstanceState::Released)
    }
}

} // verus!
