use vstd::prelude::*;
use vstd::string::StringExecFns;
use crate::text::{push_i64, int_text};

verus! {

/// The kind of database the server connects to.
#[derive(Clone, Copy, Debug, PartialEq, Eq, Structural)]
pub enum DatabaseType {
    Mysql,
    PgSql,
    Sqlite,
}

/// How the server reaches its database.
#[derive(Clone, Debug)]
pub struct DatabaseConfig {
    pub database_type: DatabaseType,
    pub ip: String,
    port: i16,
    name: String,
    password: String,
    database_name: String,
}

/// The connection URL of a database configuration.
pub open spec fn database_url(
    database_type: DatabaseType,
    ip: Seq<char>,
    name: Seq<char>,
    password: Seq<char>,
    database_name: Seq<char>,
) -> Seq<char> {
    match database_type {
        DatabaseType::Mysql => "mysql://"@ + name + ":"@ + password + "@"@ + ip + "/"@ + database_name,
        DatabaseType::PgSql => "postgres://"@ + name + ":"@ + password + "@"@ + ip + "/"@ + database_name,
        DatabaseType::Sqlite => "sqlite://"@ + ip + ".db"@,
    }
}

/// A database configuration as plain values.
pub struct DatabaseConfigView {
    pub database_type: DatabaseType,
    pub ip: Seq<char>,
    pub port: i16,
    pub name: Seq<char>,
    pub password: Seq<char>,
    pub database_name: Seq<char>,
}

impl DatabaseConfigView {
    /// The URL that this configuration names.
    pub open spec fn url(self) -> Seq<char> {
        database_url(self.database_type, self.ip, self.name, self.password, self.database_name)
    }
}

impl View for DatabaseConfig {
    type V = DatabaseConfigView;

    closed spec fn view(&self) -> DatabaseConfigView {
        DatabaseConfigView {
            database_type: self.database_type,
            ip: self.ip@,
            port: self.port,
            name: self.name@,
            password: self.password@,
            database_name: self.database_name@,
        }
    }
}

impl DatabaseConfig {
    pub fn new(
        ip: String,
        port: i16,
        name: String,
        password: String,
        database_name: String,
        database_type: DatabaseType,
    ) -> (res: Self)
        ensures
            res@ == (DatabaseConfigView {
                database_type,
                ip: ip@,
                port,
                name: name@,
                password: password@,
                database_name: database_name@,
            }),
    {
        DatabaseConfig { ip, port, name, password, database_name, database_type }
    }

    /// The kind of database, as the view holds it.
    pub fn database_type(&self) -> (res: DatabaseType)
        ensures
            res == self@.database_type,
    {
        self.database_type
    }

    /// The database's address, as the view holds it.
    pub fn ip(&self) -> (res: &String)
        ensures
            res@ == self@.ip,
    {
        &self.ip
    }

    /// The database's port.
    pub fn port(&self) -> (res: i16)
        ensures
            res == self@.port,
    {
        self.port
    }

    /// The user the server connects as.
    pub fn name(&self) -> (res: &String)
        ensures
            res@ == self@.name,
    {
        &self.name
    }

    /// The user's password.
    pub fn password(&self) -> (res: &String)
        ensures
            res@ == self@.password,
    {
        &self.password
    }

    /// The name of the database.
    pub fn database_name(&self) -> (res: &String)
        ensures
            res@ == self@.database_name,
    {
        &self.database_name
    }

    /// The connection URL: `mysql://name:password@ip/database`,
    /// `postgres://name:password@ip/database` or `sqlite://ip.db`.
    pub fn format_url(&self) -> (res: String)
        ensures
            res@ == self@.url(),
    {
        match self.database_type {
            DatabaseType::Mysql => {
                let mut s = String::from_str("mysql://");
                s.append(self.name.as_str());
                s.append(":");
                s.append(self.password.as_str());
                s.append("@");
                s.append(self.ip.as_str());
                s.append("/");
                s.append(self.database_name.as_str());
                s
            },
            DatabaseType::PgSql => {
                let mut s = String::from_str("postgres://");
                s.append(self.name.as_str());
                s.append(":");
                s.append(self.password.as_str());
                s.append("@");
                s.append(self.ip.as_str());
                s.append("/");
                s.append(self.database_name.as_str());
                s
            },
            DatabaseType::Sqlite => {
                let mut s = String::from_str("sqlite://");
                s.append(self.ip.as_str());
                s.append(".db");
                s
            },
        }
    }
}

impl Default for DatabaseConfig {
    /// A MySQL database on `127.0.0.1`, port 0, with `default` as user,
    /// password and database name.
    fn default() -> (res: Self)
        ensures
            res@ == (DatabaseConfigView {
                database_type: DatabaseType::Mysql,
                ip: "127.0.0.1"@,
                port: 0,
                name: "default"@,
                password: "default"@,
                database_name: "default"@,
            }),
    {
        DatabaseConfig {
            ip: String::from_str("127.0.0.1"),
            port: 0,
            name: String::from_str("default"),
            password: String::from_str("default"),
            database_name: String::from_str("default"),
            database_type: DatabaseType::Mysql,
        }
    }
}

/// Where the server listens.
#[derive(Clone, Debug)]
pub struct ServerConfig {
    pub ip: String,
    pub port: i16,
}

impl ServerConfig {
    /// Listens on `0.0.0.0:8080`.
    pub fn new() -> (res: Self)
        ensures
            res.ip@ == "0.0.0.0"@,
            res.port == 8080,
    {
        ServerConfig { ip: String::from_str("0.0.0.0"), port: 8080 }
    }
}

impl Default for ServerConfig {
    fn default() -> (res: Self)
        ensures
            res.ip@ == "0.0.0.0"@,
            res.port == 8080,
    {
        Self::new()
    }
}

/// The public name of this instance (a URL or an IP).
#[derive(Clone, Debug)]
pub struct InstanceConfig {
    pub domain: String,
}

impl InstanceConfig {
    /// An instance with an empty domain.
    pub fn new() -> (res: Self)
        ensures
            res.domain@ == Seq::<char>::empty(),
    {
        InstanceConfig { domain: String::new() }
    }
}

impl Default for InstanceConfig {
    fn default() -> (res: Self)
        ensures
            res.domain@ == Seq::<char>::empty(),
    {
        Self::new()
    }
}

/// The whole configuration file.
#[derive(Clone, Debug)]
pub struct Config {
    pub instance: InstanceConfig,
    pub server: ServerConfig,
    pub database: DatabaseConfig,
}

impl Default for Config {
    /// The defaults of each section.
    fn default() -> (res: Self)
        ensures
            res.instance.domain@ == Seq::<char>::empty(),
            res.server.ip@ == "0.0.0.0"@,
            res.server.port == 8080,
            res.database@ == (DatabaseConfigView {
                database_type: DatabaseType::Mysql,
                ip: "127.0.0.1"@,
                port: 0,
                name: "default"@,
                password: "default"@,
                database_name: "default"@,
            }),
    {
        Config {
            instance: InstanceConfig::new(),
            server: ServerConfig::new(),
            database: DatabaseConfig::default(),
        }
    }
}

impl Config {
    /// The listening address `ip:port` of the server section.
    pub fn format_ip(&self) -> (res: String)
        ensures
            res@ == self.server.ip@ + ":"@ + int_text(self.server.port as int),
    {
        let mut s = String::from_str(self.server.ip.as_str());
        s.append(":");
        push_i64(&mut s, self.server.port as i64);
        s
    }
}

} // verus!
