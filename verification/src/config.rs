//! The configuration surface: what the environment may set, and the defaults
//! where it sets nothing.

use crate::number::{parse_u16, plus_unsigned_of};
use vstd::prelude::*;
use vstd::string::StringSliceAdditionalSpecFns;

verus! {

/// Where the backing store is and how to sign in.
#[derive(Clone, Debug)]
pub struct DbConfig {
    pub host: String,
    pub port: u16,
    pub dbname: String,
    pub user: String,
    pub password: String,
}

pub struct DbConfigView {
    pub host: Seq<char>,
    pub port: u16,
    pub dbname: Seq<char>,
    pub user: Seq<char>,
    pub password: Seq<char>,
}

impl View for DbConfig {
    type V = DbConfigView;

    open spec fn view(&self) -> DbConfigView {
        DbConfigView {
            host: self.host@,
            port: self.port,
            dbname: self.dbname@,
            user: self.user@,
            password: self.password@,
        }
    }
}

/// The text that a variable gives, or the default where it is not set.
pub open spec fn text_or(value: Option<Seq<char>>, default: Seq<char>) -> Seq<char> {
    match value {
        Some(v) => v,
        None => default,
    }
}

/// The port that a text denotes: a numeral up to 65535, with or without a
/// `+` before it.
pub open spec fn port_of(text: &str) -> Option<u16> {
    match plus_unsigned_of(text.spec_bytes(), 0xffff) {
        Some(v) => Some(v as u16),
        None => None,
    }
}

/// The store's port: 5432 where the variable is not set or denotes no port.
pub open spec fn db_port_of(value: Option<&str>) -> u16 {
    match value {
        Some(text) => match port_of(text) {
            Some(port) => port,
            None => 5432,
        },
        None => 5432,
    }
}

/// The port to listen on: 3000 where the variable is not set; none where it
/// is set and denotes no port.
pub open spec fn listen_port_of(value: Option<&str>) -> Option<u16> {
    match value {
        Some(text) => port_of(text),
        None => Some(3000u16),
    }
}

fn or_default(value: Option<String>, default: &str) -> (text: String)
    ensures
        text@ == text_or(
            match value {
                Some(v) => Some(v@),
                None => None,
            },
            default@,
        ),
{
    match value {
        Some(v) => v,
        None => default.to_owned(),
    }
}

/// Reads a port number.
pub fn parse_port(text: &str) -> (port: Option<u16>)
    ensures
        port == port_of(text),
{
    parse_u16(text.as_bytes())
}

/// The store's port from `DB_PORT`.
pub fn db_port(value: Option<&str>) -> (port: u16)
    ensures
        port == db_port_of(value),
{
    match value {
        Some(text) => match parse_port(text) {
            Some(port) => port,
            None => 5432,
        },
        None => 5432,
    }
}

/// The port to listen on from `PORT`.
pub fn listen_port(value: Option<&str>) -> (port: Option<u16>)
    ensures
        port == listen_port_of(value),
{
    match value {
        Some(text) => parse_port(text),
        None => Some(3000),
    }
}

/// The store's configuration from `DB_HOST`, `DB_PORT`, `DB_NAME`, `DB_USER`
/// and `DB_PASSWORD`, each with its default.
pub fn db_config(
    host: Option<String>,
    port: Option<&str>,
    dbname: Option<String>,
    user: Option<String>,
    password: Option<String>,
) -> (config: DbConfig)
    ensures
        config@.host == text_or(
            match host {
                Some(v) => Some(v@),
                None => None,
            },
            "localhost"@,
        ),
        config@.port == db_port_of(port),
        config@.dbname == text_or(
            match dbname {
                Some(v) => Some(v@),
                None => None,
            },
            "test-db"@,
        ),
        config@.user == text_or(
            match user {
                Some(v) => Some(v@),
                None => None,
            },
            "postgres"@,
        ),
        config@.password == text_or(
            match password {
                Some(v) => Some(v@),
                None => None,
            },
            "123456"@,
        ),
{
    DbConfig {
        host: or_default(host, "localhost"),
        port: db_port(port),
        dbname: or_default(dbname, "test-db"),
        user: or_default(user, "postgres"),
        password: or_default(password, "123456"),
    }
}

} // verus!
