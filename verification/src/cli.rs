//! The command line of the management tool: its commands, and what each
//! one asks the tool to do.

use vstd::prelude::*;
use crate::devices::DeviceType;

verus! {

/// The command line.
#[derive(Debug, Clone)]
pub struct Cli {
    /// Log at debug level.
    pub verbose: bool,
    pub command: Commands,
}

/// The command groups.
#[derive(Debug, Clone)]
pub enum Commands {
    /// Manage the devices queries are attributed to.
    Devices { command: DeviceCommand },
    /// Point the system's DNS at the local server.
    Dns { command: DnsCommand },
}

/// The device commands.
#[derive(Debug, Clone)]
pub enum DeviceCommand {
    /// List the known devices.
    List,
    /// Register a new device.
    New { name: String, device_type: DeviceType },
    /// Remove a device.
    Delete { id: String },
}

/// The DNS commands.
#[derive(Debug, Clone)]
pub enum DnsCommand {
    /// Use the local server, over DNS over HTTPS unless `no_doh`, for `device` if given.
    Configure { device: Option<String>, no_doh: bool },
}

/// What a command asks the tool to do.
#[derive(Debug, Clone)]
pub enum CliTask {
    ListDevices,
    NewDevice { name: String, device_type: DeviceType },
    /// A command the tool does not carry out.
    NotImplemented,
    /// Point the system's DNS at the local server.
    SetDns { device: Option<String>, no_doh: bool },
}

/// The task a command line asks for; deleting a device is not carried out.
pub fn task_of(command: Commands) -> (t: CliTask)
    ensures
        match command {
            Commands::Devices { command: DeviceCommand::List } => t is ListDevices,
            Commands::Devices { command: DeviceCommand::New { name, device_type } } => t
                matches CliTask::NewDevice { name: n, device_type: d } && n == name && d
                == device_type,
            Commands::Devices { command: DeviceCommand::Delete { .. } } => t is NotImplemented,
            Commands::Dns { command: DnsCommand::Configure { device, no_doh } } => t matches CliTask::SetDns {
                device: d,
                no_doh: n,
            } && d == device && n == no_doh,
        },
{
    match command {
        Commands::Devices { command } => match command {
            DeviceCommand::List => CliTask::ListDevices,
            DeviceCommand::New { name, device_type } => CliTask::NewDevice { name, device_type },
            DeviceCommand::Delete { .. } => CliTask::NotImplemented,
        },
        Commands::Dns { command } => match command {
            DnsCommand::Configure { device, no_doh } => CliTask::SetDns { device, no_doh },
        },
    }
}

} // verus!
