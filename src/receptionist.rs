//! What the transfer handler decides from a cloud instance's description:
//! where to send a player, and whether to start the instance first.
use crate::protocol::{MessageView, Transfer};
use vstd::prelude::*;

verus! {

/// The recognised options of the configuration document.
#[derive(Debug, Clone)]
pub struct ReceptionistConfig {
    /// The name tag of the backend instance.
    pub target_instance_name: String,
    /// The port placed in emitted transfers.
    pub mc_target_port: u16,
    /// The description placed in status replies.
    pub mc_target_motd: String,
}

/// The lifecycle state of a cloud instance.
#[derive(PartialEq, Eq, Structural, Clone, Copy, Debug)]
pub enum InstanceState {
    Pending,
    Running,
    ShuttingDown,
    Terminated,
    Stopping,
    Stopped,
    Unknown,
}

/// What the handler reads from an instance's description.
#[derive(Debug, Clone)]
pub struct InstanceInfo {
    pub instance_id: Option<String>,
    pub state: Option<InstanceState>,
    /// The public address of each network interface, where it has one, in order.
    pub public_ips: Vec<Option<String>>,
}

/// The first public address among the network interfaces, if any.
pub open spec fn spec_first_public_ip(ips: Seq<Option<String>>) -> Option<Seq<char>>
    decreases ips.len(),
{
    if ips.len() == 0 {
        None
    } else {
        match ips[0] {
            Some(ip) => Some(ip@),
            None => spec_first_public_ip(ips.drop_first()),
        }
    }
}

pub fn get_public_ip(instance: &InstanceInfo) -> (r: Option<String>)
    ensures
        match r {
            Some(ip) => spec_first_public_ip(instance.public_ips@) == Some(ip@),
            None => spec_first_public_ip(instance.public_ips@) is None,
        },
{
    let mut i: usize = 0;
    assert(instance.public_ips@.skip(0) =~= instance.public_ips@);
    while i < instance.public_ips.len()
        invariant
            i <= instance.public_ips@.len(),
            spec_first_public_ip(instance.public_ips@) == spec_first_public_ip(
                instance.public_ips@.skip(i as int),
            ),
        decreases instance.public_ips@.len() - i,
    {
        let ghost rest = instance.public_ips@.skip(i as int);
        assert(rest[0] == instance.public_ips@[i as int]);
        match &instance.public_ips[i] {
            Some(ip) => {
                return Some(ip.clone());
            },
            None => {},
        }
        assert(rest.drop_first() =~= instance.public_ips@.skip(i + 1));
        i = i + 1;
    }
    None
}

/// The transfer to a running instance at its first public address.
pub open spec fn spec_transfer_for(instance: InstanceInfo, port: u16) -> Option<MessageView> {
    if instance.state == Some(InstanceState::Running) {
        match spec_first_public_ip(instance.public_ips@) {
            Some(ip) => Some(MessageView::Transfer { hostname: ip, port }),
            None => None,
        }
    } else {
        None
    }
}

/// Where to send the player: the running instance's first public address at
/// `port`; nothing while it is not running or has no public address.
pub fn get_transfer(instance: &InstanceInfo, port: u16) -> (r: Option<Transfer>)
    ensures
        match r {
            Some(t) => spec_transfer_for(*instance, port) == Some(t@),
            None => spec_transfer_for(*instance, port) is None,
        },
{
    if instance.state != Some(InstanceState::Running) {
        return None;
    }
    match get_public_ip(instance) {
        Some(hostname) => Some(Transfer { hostname, port }),
        None => None,
    }
}

/// Whether the instance should be started: exactly when it is stopped.
pub fn should_launch(instance: &InstanceInfo) -> (r: bool)
    ensures
        r == (instance.state == Some(InstanceState::Stopped)),
{
    instance.state == Some(InstanceState::Stopped)
}

/// What to do when a player joins.
#[derive(Debug)]
pub enum JoinDecision {
    /// Send the player here.
    Transfer(Transfer),
    /// Start the instance with this id; the player waits.
    Launch(String),
    /// Neither is possible yet; the player waits.
    Wait,
}

/// On a join: the transfer where the instance can take the player; else a
/// start where it is stopped and has an id; else waiting.
pub fn decide_join(instance: &InstanceInfo, port: u16) -> (r: JoinDecision)
    ensures
        match r {
            JoinDecision::Transfer(t) => spec_transfer_for(*instance, port) == Some(t@),
            JoinDecision::Launch(id) => spec_transfer_for(*instance, port) is None
                && instance.state == Some(InstanceState::Stopped) && (instance.instance_id
                matches Some(i) && i@ == id@),
            JoinDecision::Wait => spec_transfer_for(*instance, port) is None && !(instance.state
                == Some(InstanceState::Stopped) && instance.instance_id is Some),
        },
{
    match get_transfer(instance, port) {
        Some(t) => JoinDecision::Transfer(t),
        None => {
            if should_launch(instance) {
                match &instance.instance_id {
                    Some(id) => JoinDecision::Launch(id.clone()),
                    None => JoinDecision::Wait,
                }
            } else {
                JoinDecision::Wait
            }
        },
    }
}

} // verus!
