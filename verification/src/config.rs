//! The servers that the program administers.

use vstd::prelude::*;
use vstd::string::StringExecFns;
use crate::text::same_text;

verus! {

/// One of the five servers, by the place it has in the configuration.
#[derive(Clone, Copy, Debug, PartialEq, Eq, Structural)]
pub enum ServerChoice {
    Smp,
    Cmp,
    Cmp2,
    Copy,
    Snapshots,
}

/// How to reach one server, and what it is allowed.
#[derive(Clone, Debug, PartialEq, Eq)]
pub struct ServerConfig {
    /// The name that tells which of the five servers this is.
    pub server_name: String,
    /// The dotted IPv4 address of the host.
    pub host: String,
    /// The port that players connect to.
    pub port: u16,
    /// The port of the remote console.
    pub rcon_port: u16,
    /// The secret of the remote console.
    pub rcon_password: String,
    /// The server's id at the hosting panel.
    pub panel_id: String,
    /// Whether a player put on the whitelist is made an operator too.
    pub operator: bool,
}

/// A server name that is none of the five.
#[derive(Clone, Debug, PartialEq, Eq)]
pub struct UnknownServer {
    pub name: String,
}

/// The number of servers.
pub const SERVER_COUNT: usize = 5;

impl ServerChoice {
    /// The place of the server in the configuration.
    pub open spec fn place(self) -> int {
        match self {
            ServerChoice::Smp => 0,
            ServerChoice::Cmp => 1,
            ServerChoice::Cmp2 => 2,
            ServerChoice::Copy => 3,
            ServerChoice::Snapshots => 4,
        }
    }

    /// The name under which the server is shown.
    pub open spec fn label(self) -> Seq<char> {
        match self {
            ServerChoice::Smp => "SMP"@,
            ServerChoice::Cmp => "CMP"@,
            ServerChoice::Cmp2 => "CMP2"@,
            ServerChoice::Copy => "Copy"@,
            ServerChoice::Snapshots => "Snapshots"@,
        }
    }

    /// The server that a configuration names, if it names one.
    pub open spec fn named(name: Seq<char>) -> Option<ServerChoice> {
        if name == "smp"@ {
            Some(ServerChoice::Smp)
        } else if name == "cmp"@ {
            Some(ServerChoice::Cmp)
        } else if name == "cmp2"@ {
            Some(ServerChoice::Cmp2)
        } else if name == "copy"@ {
            Some(ServerChoice::Copy)
        } else if name == "snapshots"@ {
            Some(ServerChoice::Snapshots)
        } else {
            None
        }
    }

    /// The place of the server in the configuration.
    pub fn index(self) -> (i: usize)
        ensures
            i == self.place(),
            i < SERVER_COUNT,
    {
        match self {
            ServerChoice::Smp => 0,
            ServerChoice::Cmp => 1,
            ServerChoice::Cmp2 => 2,
            ServerChoice::Copy => 3,
            ServerChoice::Snapshots => 4,
        }
    }

    /// The name under which the server is shown.
    pub fn to_string(&self) -> (s: String)
        ensures
            s@ == self.label(),
    {
        match self {
            ServerChoice::Smp => String::from_str("SMP"),
            ServerChoice::Cmp => String::from_str("CMP"),
            ServerChoice::Cmp2 => String::from_str("CMP2"),
            ServerChoice::Copy => String::from_str("Copy"),
            ServerChoice::Snapshots => String::from_str("Snapshots"),
        }
    }

    /// The server that `server_config` is the configuration of, by its name.
    pub fn try_from(server_config: &ServerConfig) -> (r: Result<ServerChoice, UnknownServer>)
        ensures
            match ServerChoice::named(server_config.server_name@) {
                Some(choice) => r == Ok::<ServerChoice, UnknownServer>(choice),
                None => r is Err && r->Err_0.name@ == server_config.server_name@,
            },
    {
        let name = server_config.server_name.as_str();
        if same_text(name, "smp") {
            Ok(ServerChoice::Smp)
        } else if same_text(name, "cmp") {
            Ok(ServerChoice::Cmp)
        } else if same_text(name, "cmp2") {
            Ok(ServerChoice::Cmp2)
        } else if same_text(name, "copy") {
            Ok(ServerChoice::Copy)
        } else if same_text(name, "snapshots") {
            Ok(ServerChoice::Snapshots)
        } else {
            Err(UnknownServer { name: server_config.server_name.clone() })
        }
    }
}

/// The configurations of the five servers, each at the place of its choice.
#[derive(Debug)]
pub struct MinecraftConfig {
    configs: Vec<ServerConfig>,
}

impl Clone for MinecraftConfig {
    fn clone(&self) -> (copy: MinecraftConfig) {
        proof {
            use_type_invariant(self);
        }
        let mut configs: Vec<ServerConfig> = Vec::new();
        let mut i: usize = 0;
        while i < SERVER_COUNT
            invariant
                i <= SERVER_COUNT,
                configs@.len() == i,
                self.configs@.len() == SERVER_COUNT,
            decreases SERVER_COUNT - i,
        {
            configs.push(self.configs[i].clone());
            i = i + 1;
        }
        MinecraftConfig { configs }
    }
}

impl MinecraftConfig {
    #[verifier::type_invariant]
    spec fn inv(&self) -> bool {
        self.configs@.len() == SERVER_COUNT
    }

    /// The five configurations, in the order of the choices.
    pub closed spec fn servers(&self) -> Seq<ServerConfig> {
        self.configs@
    }

    /// The configuration of the five servers.
    pub fn new(
        smp: ServerConfig,
        cmp: ServerConfig,
        cmp2: ServerConfig,
        copy: ServerConfig,
        snapshots: ServerConfig,
    ) -> (config: MinecraftConfig)
        ensures
            config.servers() == seq![smp, cmp, cmp2, copy, snapshots],
    {
        let mut configs: Vec<ServerConfig> = Vec::new();
        configs.push(smp);
        configs.push(cmp);
        configs.push(cmp2);
        configs.push(copy);
        configs.push(snapshots);
        assert(configs@ =~= seq![smp, cmp, cmp2, copy, snapshots]);
        MinecraftConfig { configs }
    }

    /// The configuration of the chosen server.
    pub fn get(&self, choice: ServerChoice) -> (config: &ServerConfig)
        ensures
            self.servers().len() == SERVER_COUNT,
            *config == self.servers()[choice.place()],
    {
        proof {
            use_type_invariant(self);
        }
        &self.configs[choice.index()]
    }

    /// The configuration of the chosen server, taken out of the whole.
    pub fn get_owned(self, choice: ServerChoice) -> (config: ServerConfig)
        ensures
            self.servers().len() == SERVER_COUNT,
            config == self.servers()[choice.place()],
    {
        proof {
            use_type_invariant(&self);
        }
        let mut configs = self.configs;
        configs.remove(choice.index())
    }

    /// The five configurations, in the order of the choices.
    pub fn into_vec(self) -> (configs: Vec<ServerConfig>)
        ensures
            configs@ == self.servers(),
            configs@.len() == SERVER_COUNT,
    {
        proof {
            use_type_invariant(&self);
        }
        self.configs
    }

    pub fn smp(&self) -> (config: &ServerConfig)
        ensures
            *config == self.servers()[0],
    {
        self.get(ServerChoice::Smp)
    }

    pub fn smp_owned(self) -> (config: ServerConfig)
        ensures
            config == self.servers()[0],
    {
        self.get_owned(ServerChoice::Smp)
    }

    pub fn cmp(&self) -> (config: &ServerConfig)
        ensures
            *config == self.servers()[1],
    {
        self.get(ServerChoice::Cmp)
    }

    pub fn cmp_owned(self) -> (config: ServerConfig)
        ensures
            config == self.servers()[1],
    {
        self.get_owned(ServerChoice::Cmp)
    }

    pub fn cmp2(&self) -> (config: &ServerConfig)
        ensures
            *config == self.servers()[2],
    {
        self.get(ServerChoice::Cmp2)
    }

    pub fn cmp2_owned(self) -> (config: ServerConfig)
        ensures
            config == self.servers()[2],
    {
        self.get_owned(ServerChoice::Cmp2)
    }

    pub fn copy(&self) -> (config: &ServerConfig)
        ensures
            *config == self.servers()[3],
    {
        self.get(ServerChoice::Copy)
    }

    pub fn copy_owned(self) -> (config: ServerConfig)
        ensures
            config == self.servers()[3],
    {
        self.get_owned(ServerChoice::Copy)
    }

    pub fn snapshots(&self) -> (config: &ServerConfig)
        ensures
            *config == self.servers()[4],
    {
        self.get(ServerChoice::Snapshots)
    }

    pub fn snapshots_owned(self) -> (config: ServerConfig)
        ensures
            config == self.servers()[4],
    {
        self.get_owned(ServerChoice::Snapshots)
    }
}

} // verus!
