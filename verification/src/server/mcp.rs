//! Which configuration files the MCP server setup reads and writes, and what
//! it writes when they cannot be read.
use vstd::prelude::*;

use crate::text::{contains_seq, occurs_at, str_contains, str_eq};

verus! {

/// The server name under which the setup runs.
pub const MCP_SERVER_NAME: &'static str = "MCP server";

/// The configuration file read for a path that names a configuration or
/// settings file.
pub const MCP_CONFIG_FILE: &'static str = "mcp_config.txt";

/// The configuration file read for any other path.
pub const JSON_CONFIG_FILE: &'static str = "config.json";

/// The file the device configuration is written to.
pub const DEVICE_CONFIG_FILE: &'static str = "mcp_server.json";

/// The configuration written when the file read holds nothing.
pub const DEFAULT_MCP_CONFIG: &'static str = "{\"database\": {\"host\": \"localhost\", \"user\": \"admin\", \"password\": \"password\"}, \"auth_method\": \"token\", \"enable_ssl\": true}";

/// Whether a path names a configuration or settings file: it contains
/// `config` or `settings`.
pub open spec fn names_config(path: Seq<char>) -> bool {
    contains_seq(path, "config"@) || contains_seq(path, "settings"@)
}

/// The configuration file read for a path.
pub open spec fn config_file_name_of(path: Seq<char>) -> Seq<char> {
    if names_config(path) {
        MCP_CONFIG_FILE@
    } else {
        JSON_CONFIG_FILE@
    }
}

/// Whether the setup runs for a server name: only for `MCP server`.
pub fn is_mcp_server(server_name: &str) -> (r: bool)
    ensures
        r == (server_name@ == MCP_SERVER_NAME@),
{
    str_eq(server_name, MCP_SERVER_NAME)
}

/// The configuration file read for a path: `mcp_config.txt` when the path
/// contains `config` or `settings`, else `config.json`.
pub fn config_file_name(path: &str) -> (r: &'static str)
    ensures
        r@ == config_file_name_of(path@),
{
    if str_contains(path, "config") || str_contains(path, "settings") {
        MCP_CONFIG_FILE
    } else {
        JSON_CONFIG_FILE
    }
}

/// The file the device configuration is written to.
pub fn get_device_config_path() -> (r: String)
    ensures
        r@ == DEVICE_CONFIG_FILE@,
{
    String::from_str(DEVICE_CONFIG_FILE)
}

/// The configuration to write: what was read, or the default when that is
/// empty (an unreadable file reads as empty).
pub open spec fn config_or_default_of(content: Seq<char>) -> Seq<char> {
    if content.len() == 0 {
        DEFAULT_MCP_CONFIG@
    } else {
        content
    }
}

/// The configuration to write: what was read, or the default when that is
/// empty.
pub fn config_or_default(content: String) -> (r: String)
    ensures
        r@ == config_or_default_of(content@),
{
    if content.as_str().unicode_len() == 0 {
        String::from_str(DEFAULT_MCP_CONFIG)
    } else {
        content
    }
}

/// One copy of a configuration: read `read_from` (the default if that gives
/// nothing) and write it to `write_to`.
#[derive(Debug, Clone)]
pub struct ConfigCopy {
    pub read_from: String,
    pub write_to: String,
}

/// The configuration copies of the setup, in order: the user configuration,
/// read from the file for the path named after the server, then the device
/// configuration, read from the file for the device path; both are written
/// to the device path.
pub open spec fn setup_copies_of(server_name: Seq<char>) -> Seq<(Seq<char>, Seq<char>)> {
    seq![
        (config_file_name_of(config_file_name_of(server_name)), DEVICE_CONFIG_FILE@),
        (config_file_name_of(DEVICE_CONFIG_FILE@), DEVICE_CONFIG_FILE@),
    ]
}

/// The read and write paths of each copy.
pub open spec fn copy_views(v: Seq<ConfigCopy>) -> Seq<(Seq<char>, Seq<char>)> {
    v.map_values(|c: ConfigCopy| (c.read_from@, c.write_to@))
}

/// The configuration copies that the setup of the server makes, in order;
/// the port and the timeout are not used by the setup.
pub fn setup_mcp_server(server_name: &str, _port: u32, _timeout: u32) -> (r: Vec<ConfigCopy>)
    ensures
        copy_views(r@) == setup_copies_of(server_name@),
{
    let user_config_path = config_file_name(server_name);
    let device_config_path = get_device_config_path();
    let mut out: Vec<ConfigCopy> = Vec::new();
    out.push(
        ConfigCopy {
            read_from: String::from_str(config_file_name(user_config_path)),
            write_to: device_config_path.clone(),
        },
    );
    out.push(
        ConfigCopy {
            read_from: String::from_str(config_file_name(device_config_path.as_str())),
            write_to: device_config_path,
        },
    );
    proof {
        assert(copy_views(out@) =~= setup_copies_of(server_name@));
    }
    out
}

/// The configuration file read for any path is one of the two known files.
pub proof fn lemma_config_file_is_known(path: Seq<char>)
    ensures
        config_file_name_of(path) == MCP_CONFIG_FILE@ || config_file_name_of(path) == JSON_CONFIG_FILE@,
{
}

/// The user configuration is always read from `mcp_config.txt`, whatever the
/// server is called: both file names that a server name can give name a
/// configuration file.
pub proof fn lemma_user_config_read_from_mcp_config(server_name: Seq<char>)
    ensures
        setup_copies_of(server_name)[0].0 == MCP_CONFIG_FILE@,
{
    reveal_strlit("mcp_config.txt");
    reveal_strlit("config.json");
    reveal_strlit("config");
    assert(MCP_CONFIG_FILE@.subrange(4, 10) =~= "config"@);
    assert(JSON_CONFIG_FILE@.subrange(0, 6) =~= "config"@);
    assert(occurs_at(MCP_CONFIG_FILE@, "config"@, 4));
    assert(occurs_at(JSON_CONFIG_FILE@, "config"@, 0));
}

/// What is written is never empty.
pub proof fn lemma_config_or_default_nonempty(content: Seq<char>)
    ensures
        config_or_default_of(content).len() > 0,
{
    reveal_strlit("{\"database\": {\"host\": \"localhost\", \"user\": \"admin\", \"password\": \"password\"}, \"auth_method\": \"token\", \"enable_ssl\": true}");
}

} // verus!
