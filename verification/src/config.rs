//! The settings of the service and the credentials for the devices.

use crate::ip::IpAddr;
use crate::ip::Ipv6Addr;
use crate::text::same_text;
use vstd::prelude::*;
use vstd::string::*;

verus! {

/// A name and a password for devices.
#[derive(Debug, Clone, PartialEq, Eq, Default)]
pub struct MikrotikCredentials {
    pub user: Option<String>,
    pub password: Option<String>,
}

/// The name that is used where the credentials give none.
pub open spec fn default_user() -> Seq<char> {
    "admin"@
}

impl MikrotikCredentials {
    pub open spec fn spec_user(&self) -> Seq<char> {
        match self.user {
            Some(u) => u@,
            None => default_user(),
        }
    }

    /// The name to log in with: `admin` where none is given.
    pub fn user(&self) -> (r: &str)
        ensures
            r@ == self.spec_user(),
    {
        match &self.user {
            Some(u) => u.as_str(),
            None => "admin",
        }
    }

    /// The password to log in with, where one is given.
    pub fn password(&self) -> (r: Option<&str>)
        ensures
            r is Some <==> self.password is Some,
            r matches Some(p) ==> p@ == self.password->0@,
    {
        match &self.password {
            Some(p) => Some(p.as_str()),
            None => None,
        }
    }
}

/// Credentials under a name.
#[derive(Debug, Clone, PartialEq, Eq)]
pub struct NamedCredentials {
    pub name: String,
    pub credentials: MikrotikCredentials,
}

/// The settings of the service.
#[derive(Debug, Clone, PartialEq, Eq)]
pub struct Settings {
    pub auth_client_id: String,
    pub auth_issuer: String,
    pub auth_token_url: Option<String>,
    pub auth_url: Option<String>,
    pub auth_users: Vec<String>,
    pub server_port: Option<u16>,
    pub server_mgmt_port: Option<u16>,
    pub server_bind_address: Option<IpAddr>,
    pub netbox_url: String,
    pub netbox_token: String,
    /// The credentials for the devices, each under its name. Of two under
    /// one name the first is found.
    pub mikrotik_credentials: Vec<NamedCredentials>,
}

/// The place of the first credentials of the name `name`; the length of
/// the list where there are none.
pub open spec fn credentials_at(list: Seq<NamedCredentials>, name: Seq<char>) -> int
    decreases list.len(),
{
    if list.len() == 0 {
        0
    } else if list[0].name@ == name {
        0
    } else {
        1 + credentials_at(list.skip(1), name)
    }
}

proof fn lemma_credentials_at(list: Seq<NamedCredentials>, name: Seq<char>, at: int)
    requires
        0 <= at <= list.len(),
        forall|j: int| 0 <= j < at ==> (#[trigger] list[j]).name@ != name,
        at < list.len() ==> list[at].name@ == name,
    ensures
        credentials_at(list, name) == at,
    decreases at,
{
    if at > 0 {
        let t = list.skip(1);
        assert(list[0].name@ != name);
        assert forall|j: int| 0 <= j < at - 1 implies (#[trigger] t[j]).name@ != name by {
            assert(t[j] == list[j + 1]);
        }
        if at < list.len() {
            assert(t[at - 1] == list[at]);
        }
        lemma_credentials_at(t, name, at - 1);
    }
}

impl Settings {
    pub fn auth_client_id(&self) -> (r: &str)
        ensures
            r@ == self.auth_client_id@,
    {
        self.auth_client_id.as_str()
    }

    pub fn auth_issuer(&self) -> (r: &str)
        ensures
            r@ == self.auth_issuer@,
    {
        self.auth_issuer.as_str()
    }

    /// Where tokens are had: as set, or else below the issuer.
    pub fn auth_token_url(&self) -> (r: String)
        ensures
            r@ == (match self.auth_token_url {
                Some(u) => u@,
                None => self.auth_issuer@ + "/protocol/openid-connect/token"@,
            }),
    {
        match &self.auth_token_url {
            Some(u) => u.clone(),
            None => {
                let mut s = self.auth_issuer.clone();
                s.append("/protocol/openid-connect/token");
                s
            },
        }
    }

    /// Where users log in: as set, or else below the issuer.
    pub fn auth_url(&self) -> (r: String)
        ensures
            r@ == (match self.auth_url {
                Some(u) => u@,
                None => self.auth_issuer@ + "/protocol/openid-connect/auth"@,
            }),
    {
        match &self.auth_url {
            Some(u) => u.clone(),
            None => {
                let mut s = self.auth_issuer.clone();
                s.append("/protocol/openid-connect/auth");
                s
            },
        }
    }

    pub open spec fn spec_server_port(&self) -> u16 {
        match self.server_port {
            Some(p) => p,
            None => 8080,
        }
    }

    /// The port of the service: 8080 where none is set.
    pub fn server_port(&self) -> (r: u16)
        ensures
            r == self.spec_server_port(),
    {
        match self.server_port {
            Some(p) => p,
            None => 8080,
        }
    }

    /// The port for the management of the service: as set, or else a
    /// thousand above the port of the service.
    pub fn server_mgmt_port(&self) -> (r: u16)
        requires
            self.server_mgmt_port is None ==> self.spec_server_port() + 1000 <= u16::MAX,
        ensures
            r == (match self.server_mgmt_port {
                Some(p) => p as int,
                None => self.spec_server_port() + 1000,
            }),
    {
        match self.server_mgmt_port {
            Some(p) => p,
            None => self.server_port() + 1000,
        }
    }

    /// The address that the service listens on: every address where none
    /// is set.
    pub fn server_bind_address(&self) -> (r: IpAddr)
        ensures
            r == (match self.server_bind_address {
                Some(a) => a,
                None => IpAddr::V6(Ipv6Addr(0)),
            }),
    {
        match self.server_bind_address {
            Some(a) => a,
            None => IpAddr::V6(Ipv6Addr(0)),
        }
    }

    /// The credentials of the name `name`.
    pub fn credentials(&self, name: &str) -> (r: Option<&MikrotikCredentials>)
        ensures
            r is Some <==> credentials_at(self.mikrotik_credentials@, name@)
                < self.mikrotik_credentials@.len(),
            r matches Some(c) ==> *c == self.mikrotik_credentials@[credentials_at(
                self.mikrotik_credentials@,
                name@,
            )].credentials,
    {
        let wanted = String::from_str(name);
        let mut i: usize = 0;
        while i < self.mikrotik_credentials.len()
            invariant
                i <= self.mikrotik_credentials.len(),
                wanted@ == name@,
                forall|j: int| 0 <= j < i ==> (#[trigger] self.mikrotik_credentials@[j]).name@ != name@,
            decreases self.mikrotik_credentials.len() - i,
        {
            if same_text(&self.mikrotik_credentials[i].name, &wanted) {
                proof {
                    lemma_credentials_at(self.mikrotik_credentials@, name@, i as int);
                }
                return Some(&self.mikrotik_credentials[i].credentials);
            }
            i += 1;
        }
        proof {
            lemma_credentials_at(self.mikrotik_credentials@, name@, i as int);
        }
        None
    }
}

/// What a user is known by.
#[derive(Debug, Clone, PartialEq, Eq)]
pub struct UserInfo {
    pub name: String,
    pub email: Option<String>,
    pub email_verified: Option<bool>,
}

/// The credentials to reach a device with: those of a name in the
/// settings, or a name and a password given for the occasion.
#[derive(Debug, Clone, PartialEq, Eq, Hash)]
pub enum Credentials {
    Named(String),
    Adhoc { username: Option<String>, password: Option<String> },
}

/// A name and a password to log in with.
#[derive(Debug, Clone, PartialEq, Eq)]
pub struct Login {
    pub user: String,
    pub password: Option<String>,
}

/// No credentials are known under the name.
#[derive(Debug, Clone, Copy, PartialEq, Eq, Structural)]
pub struct MissingCredentials;

impl Credentials {
    /// The credentials to reach a device with: those of `credential_name`
    /// where a name is given, else those given for the occasion, else those
    /// of the name that the inventory has for the device.
    pub fn select(
        credential_name: Option<String>,
        adhoc: Option<(Option<String>, Option<String>)>,
        of_device: Option<&str>,
    ) -> (r: Option<Credentials>)
        ensures
            match (credential_name, adhoc, of_device) {
                (Some(name), _, _) => r matches Some(Credentials::Named(n)) && n@ == name@,
                (None, Some((u, p)), _) => r matches Some(
                    Credentials::Adhoc { username, password },
                ) && username == u && password == p,
                (None, None, Some(name)) => r matches Some(Credentials::Named(n)) && n@ == name@,
                (None, None, None) => r is None,
            },
    {
        match credential_name {
            Some(name) => Some(Credentials::Named(name)),
            None => match adhoc {
                Some((username, password)) => Some(Credentials::Adhoc { username, password }),
                None => match of_device {
                    Some(name) => Some(Credentials::Named(String::from_str(name))),
                    None => None,
                },
            },
        }
    }

    /// The name and the password that the credentials stand for: those
    /// under the name in the settings, which may be missing, or those given,
    /// with `admin` for a name that is not given.
    pub fn login(&self, settings: &Settings) -> (r: Result<Login, MissingCredentials>)
        ensures
            match self {
                Credentials::Named(name) => {
                    let at = credentials_at(settings.mikrotik_credentials@, name@);
                    if at < settings.mikrotik_credentials@.len() {
                        let c = settings.mikrotik_credentials@[at].credentials;
                        &&& r matches Ok(l)
                        &&& l.user@ == c.spec_user()
                        &&& l.password is Some <==> c.password is Some
                        &&& l.password matches Some(p) ==> p@ == c.password->0@
                    } else {
                        r is Err
                    }
                },
                Credentials::Adhoc { username, password } => {
                    &&& r matches Ok(l)
                    &&& l.user@ == (match username {
                        Some(u) => u@,
                        None => default_user(),
                    })
                    &&& l.password is Some <==> password is Some
                    &&& l.password matches Some(p) ==> p@ == password->0@
                },
            },
    {
        match self {
            Credentials::Named(name) => match settings.credentials(name.as_str()) {
                Some(c) => Ok(
                    Login {
                        user: String::from_str(c.user()),
                        password: match c.password() {
                            Some(p) => Some(String::from_str(p)),
                            None => None,
                        },
                    },
                ),
                None => Err(MissingCredentials),
            },
            Credentials::Adhoc { username, password } => Ok(
                Login {
                    user: match username {
                        Some(u) => u.clone(),
                        None => String::from_str("admin"),
                    },
                    password: match password {
                        Some(p) => Some(p.clone()),
                        None => None,
                    },
                },
            ),
        }
    }
}

/// A length of time in nanoseconds, as it is passed to and from clients.
#[derive(Copy, Clone, PartialEq, Eq, Structural, PartialOrd, Ord, Hash, Debug)]
pub struct ScalarDuration(pub u64);

impl ScalarDuration {
    /// The length of time that a client gave as a number of nanoseconds.
    pub fn from_nanos(nanos: u64) -> (r: ScalarDuration)
        ensures
            r.0 == nanos,
    {
        ScalarDuration(nanos)
    }

    /// The length of time of `nanos` nanoseconds, cut to 64 bits.
    pub fn from_duration_nanos(nanos: u128) -> (r: ScalarDuration)
        ensures
            r.0 == nanos % 0x1_0000_0000_0000_0000,
    {
        ScalarDuration((nanos % 0x1_0000_0000_0000_0000) as u64)
    }

    /// The number of nanoseconds.
    pub fn as_nanos(&self) -> (r: u64)
        ensures
            r == self.0,
    {
        self.0
    }
}

} // verus!
