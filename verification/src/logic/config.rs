use vstd::prelude::*;

verus! {

/// The server's settings.
pub struct Config {
    pub cmd_prefix: String,
    pub map_path: String,
    pub description_path: String,
    pub stat_limit: u16,
    pub initial_points: u16,
    pub major_rev: u8,
    pub minor_rev: u8,
    pub help_cmd: String,
}

/// The value of a `Config`.
pub struct ConfigV {
    pub cmd_prefix: Seq<char>,
    pub map_path: Seq<char>,
    pub description_path: Seq<char>,
    pub stat_limit: u16,
    pub initial_points: u16,
    pub major_rev: u8,
    pub minor_rev: u8,
    pub help_cmd: Seq<char>,
}

impl View for Config {
    type V = ConfigV;

    open spec fn view(&self) -> ConfigV {
        ConfigV {
            cmd_prefix: self.cmd_prefix@,
            map_path: self.map_path@,
            description_path: self.description_path@,
            stat_limit: self.stat_limit,
            initial_points: self.initial_points,
            major_rev: self.major_rev,
            minor_rev: self.minor_rev,
            help_cmd: self.help_cmd@,
        }
    }
}

/// The operator's help text, with each command written after `prefix`.
pub open spec fn help_text(prefix: Seq<char>) -> Seq<char> {
    "Lurk Server CLI:\nUsage:\n    "@ + prefix
        + "help                           - Display this help message\n    "@ + prefix
        + "broadcast <content>            - Send a message to all players\n    "@ + prefix
        + "message <recipient> <content>  - Send a private message to a player\n    "@ + prefix
        + "nuke                           - Remove all disconnected players on the map"@
}

/// The operator's help text for the command prefix `prefix`.
pub fn help_for(prefix: &str) -> (r: String)
    ensures
        r@ == help_text(prefix@),
{
    let mut r = String::from_str("Lurk Server CLI:\nUsage:\n    ");
    r.append(prefix);
    r.append("help                           - Display this help message\n    ");
    r.append(prefix);
    r.append("broadcast <content>            - Send a message to all players\n    ");
    r.append(prefix);
    r.append("message <recipient> <content>  - Send a private message to a player\n    ");
    r.append(prefix);
    r.append("nuke                           - Remove all disconnected players on the map");
    r
}

impl Config {
    /// The settings, with the help text written for the command prefix.
    pub fn new(
        cmd_prefix: String,
        map_path: String,
        description_path: String,
        stat_limit: u16,
        initial_points: u16,
        major_rev: u8,
        minor_rev: u8,
    ) -> (c: Config)
        ensures
            c@ == (ConfigV {
                cmd_prefix: cmd_prefix@,
                map_path: map_path@,
                description_path: description_path@,
                stat_limit,
                initial_points,
                major_rev,
                minor_rev,
                help_cmd: help_text(cmd_prefix@),
            }),
    {
        let help_cmd = help_for(cmd_prefix.as_str());
        Config {
            cmd_prefix,
            map_path,
            description_path,
            stat_limit,
            initial_points,
            major_rev,
            minor_rev,
            help_cmd,
        }
    }
}

} // verus!
