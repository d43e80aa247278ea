use vstd::prelude::*;

verus! {

/// A user-defined command run on a torrent; `args` may hold the placeholders
/// `{location}`, `{id}`, `{hash}`, `{download_dir}` and `{name}`.
#[derive(Clone, Debug)]
pub struct Action {
    pub description: String,
    pub shortcut: String,
    pub cmd: String,
    pub args: Vec<String>,
}

/// A named pair of a remote path and the local path it is mounted at.
#[derive(Clone, Debug)]
pub struct DirMapping {
    pub label: String,
    pub remote_path: String,
    pub local_path: String,
}

/// One remote-service endpoint profile.
#[derive(Clone, Debug)]
pub struct Connection {
    pub name: String,
    pub username: String,
    pub password: String,
    pub url: String,
    pub download_dir: String,
    pub local_download_dir: String,
}

/// Which rate the traffic sparkline follows.
#[derive(Clone, Copy, Debug, PartialEq, Eq, Structural)]
pub enum TrafficMonitorOptions {
    Disabled,
    Download,
    Upload,
}

impl Default for TrafficMonitorOptions {
    fn default() -> (r: Self)
        ensures
            r == TrafficMonitorOptions::Upload,
    {
        TrafficMonitorOptions::Upload
    }
}

/// The settings the client reads at startup.
#[derive(Clone, Debug)]
pub struct Config {
    pub refresh_interval: u16,
    pub traffic_monitor: TrafficMonitorOptions,
    pub show_icons: bool,
    pub connections: Vec<Connection>,
    pub actions: Vec<Action>,
    pub file_actions: Vec<Action>,
}

/// The settings used when no configuration file exists: one connection to a
/// service on this machine, refreshed every 1200 ms.
pub fn empty_config() -> (c: Config)
    ensures
        c.refresh_interval == 1200,
        c.traffic_monitor == TrafficMonitorOptions::Upload,
        c.show_icons,
        c.connections@.len() == 1,
        c.connections@[0].name@ == "localhost"@,
        c.connections@[0].url@ == "http://127.0.0.1:9091/transmission/rpc"@,
        c.connections@[0].username@.len() == 0,
        c.connections@[0].password@.len() == 0,
        c.connections@[0].download_dir@.len() == 0,
        c.connections@[0].local_download_dir@.len() == 0,
        c.actions@.len() == 0,
        c.file_actions@.len() == 0,
{
    let mut connections: Vec<Connection> = Vec::new();
    connections.push(
        Connection {
            name: String::from_str("localhost"),
            username: String::new(),
            password: String::new(),
            url: String::from_str("http://127.0.0.1:9091/transmission/rpc"),
            download_dir: String::new(),
            local_download_dir: String::new(),
        },
    );
    Config {
        connections,
        refresh_interval: 1200,
        show_icons: true,
        actions: Vec::new(),
        file_actions: Vec::new(),
        traffic_monitor: TrafficMonitorOptions::Upload,
    }
}

} // verus!
