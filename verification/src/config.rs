//! The configuration model of one server connection: the password
//! fields the password-reading rules inspect, and the plan those rules
//! produce. Reading a password from a file or a command is outside
//! work; this module only decides which reads happen, in which order,
//! where each result is stored, and which configurations are rejected
//! as giving a password twice.
use vstd::prelude::*;

verus! {

/// A configuration error.
#[derive(Debug)]
pub enum Error {
    /// A server password was given in more than one way.
    DuplicatePassword,
    /// A nick password was given in more than one way.
    DuplicateNickPassword,
    /// A SASL password was given in more than one way, or not at all.
    DuplicateSaslPassword,
    /// A password command failed; holds what it printed.
    ExecutePasswordCommand(String),
    /// Reading a password file failed; holds the description.
    Io(String),
}

/// SASL authentication settings.
#[derive(Debug)]
pub enum Sasl {
    Plain {
        username: String,
        password: Option<String>,
        password_file: Option<String>,
        password_command: Option<String>,
    },
    External { cert: String },
}

/// Clones an optional string, preserving its value exactly.
pub(crate) fn clone_opt_string(o: &Option<String>) -> (r: Option<String>)
    ensures
        r == *o,
{
    match o {
        None => None,
        Some(s) => Some(s.clone()),
    }
}

impl Clone for Sasl {
    fn clone(&self) -> (r: Self)
        ensures
            r == *self,
    {
        match self {
            Sasl::Plain { username, password, password_file, password_command } => Sasl::Plain {
                username: username.clone(),
                password: clone_opt_string(password),
                password_file: clone_opt_string(password_file),
                password_command: clone_opt_string(password_command),
            },
            Sasl::External { cert } => Sasl::External { cert: cert.clone() },
        }
    }
}

/// The connection settings of one server, narrowed to the fields the
/// password rules read and fill.
#[derive(Debug)]
pub struct ServerConfig {
    pub password: Option<String>,
    pub password_file: Option<String>,
    pub password_command: Option<String>,
    pub nick_password: Option<String>,
    pub nick_password_file: Option<String>,
    pub nick_password_command: Option<String>,
    pub sasl: Option<Sasl>,
}

impl Clone for ServerConfig {
    fn clone(&self) -> (r: Self)
        ensures
            r == *self,
    {
        ServerConfig {
            password: clone_opt_string(&self.password),
            password_file: clone_opt_string(&self.password_file),
            password_command: clone_opt_string(&self.password_command),
            nick_password: clone_opt_string(&self.nick_password),
            nick_password_file: clone_opt_string(&self.nick_password_file),
            nick_password_command: clone_opt_string(&self.nick_password_command),
            sasl: match &self.sasl {
                Some(s) => Some(s.clone()),
                None => None,
            },
        }
    }
}

impl Default for ServerConfig {
    /// A configuration with no password given in any way.
    fn default() -> (r: Self)
        ensures
            r.password is None,
            r.password_file is None,
            r.password_command is None,
            r.nick_password is None,
            r.nick_password_file is None,
            r.nick_password_command is None,
            r.sasl is None,
    {
        ServerConfig {
            password: None,
            password_file: None,
            password_command: None,
            nick_password: None,
            nick_password_file: None,
            nick_password_command: None,
            sasl: None,
        }
    }
}

/// The configuration field a fulfilled password read is stored into.
/// A nick password command fills the plain server password field, as
/// the collaborating client does.
#[derive(Debug, Clone, Copy, PartialEq, Eq, Structural)]
pub enum PasswordTarget {
    Password,
    NickPassword,
    Sasl,
}

/// Where a password value is read from.
#[derive(Debug)]
pub enum PasswordSource {
    File(String),
    Command(String),
}

/// One outside read the password plan asks for.
#[derive(Debug)]
pub struct PasswordRequest {
    pub target: PasswordTarget,
    pub source: PasswordSource,
}

impl ServerConfig {
    /// The server password was given in more than one way: a password
    /// file beside a literal password or a command, or a command
    /// beside a literal password.
    pub open spec fn duplicate_password(self) -> bool {
        (self.password_file is Some && (self.password is Some || self.password_command is Some))
            || (self.password_command is Some && self.password is Some)
    }

    /// Whether the password field is filled once every requested
    /// server-password read has been stored.
    pub open spec fn password_filled_after_reads(self) -> bool {
        self.password is Some || self.password_file is Some || self.password_command is Some
    }

    /// The nick password was given in more than one way. A nick
    /// password command conflicts with the server password, which it
    /// would overwrite.
    pub open spec fn duplicate_nick_password(self) -> bool {
        (self.nick_password_file is Some && (self.nick_password is Some
            || self.nick_password_command is Some)) || (self.nick_password_command is Some
            && self.password_filled_after_reads())
    }

    /// A plain SASL section must give its password in exactly one way.
    pub open spec fn duplicate_sasl_password(self) -> bool {
        match self.sasl {
            Some(Sasl::Plain { password, password_file, password_command, .. }) => !((password
                is Some && password_file is None && password_command is None) || (password is None
                && password_file is Some && password_command is None) || (password is None
                && password_file is None && password_command is Some)),
            _ => false,
        }
    }

    /// The outside reads a valid configuration asks for, in the order
    /// they are performed and stored.
    pub open spec fn spec_password_plan(self) -> Seq<PasswordRequest> {
        (match self.password_file {
            Some(f) => seq![
                PasswordRequest {
                    target: PasswordTarget::Password,
                    source: PasswordSource::File(f),
                },
            ],
            None => Seq::empty(),
        }) + (match self.password_command {
            Some(c) => seq![
                PasswordRequest {
                    target: PasswordTarget::Password,
                    source: PasswordSource::Command(c),
                },
            ],
            None => Seq::empty(),
        }) + (match self.nick_password_file {
            Some(f) => seq![
                PasswordRequest {
                    target: PasswordTarget::NickPassword,
                    source: PasswordSource::File(f),
                },
            ],
            None => Seq::empty(),
        }) + (match self.nick_password_command {
            Some(c) => seq![
                PasswordRequest {
                    target: PasswordTarget::Password,
                    source: PasswordSource::Command(c),
                },
            ],
            None => Seq::empty(),
        }) + (match self.sasl {
            Some(
                Sasl::Plain { password: None, password_file: Some(f), password_command: None, .. },
            ) => seq![
                PasswordRequest { target: PasswordTarget::Sasl, source: PasswordSource::File(f) },
            ],
            Some(
                Sasl::Plain { password: None, password_file: None, password_command: Some(c), .. },
            ) => seq![
                PasswordRequest {
                    target: PasswordTarget::Sasl,
                    source: PasswordSource::Command(c),
                },
            ],
            _ => Seq::empty(),
        })
    }

    /// Decides which password reads this configuration asks for.
    /// Rejects, in this order of checks, a duplicate server password,
    /// a duplicate nick password, and an ill-formed SASL section; a
    /// valid configuration yields exactly its plan.
    pub fn password_sources(&self) -> (r: Result<Vec<PasswordRequest>, Error>)
        ensures
            self.duplicate_password() ==> (r matches Err(e) && e is DuplicatePassword),
            !self.duplicate_password() && self.duplicate_nick_password() ==> (r matches Err(e)
                && e is DuplicateNickPassword),
            !self.duplicate_password() && !self.duplicate_nick_password()
                && self.duplicate_sasl_password() ==> (r matches Err(e)
                && e is DuplicateSaslPassword),
            !self.duplicate_password() && !self.duplicate_nick_password()
                && !self.duplicate_sasl_password() ==> (r matches Ok(v) && v@
                == self.spec_password_plan()),
    {
        let mut plan: Vec<PasswordRequest> = Vec::new();
        if let Some(f) = &self.password_file {
            if self.password.is_some() || self.password_command.is_some() {
                return Err(Error::DuplicatePassword);
            }
            plan.push(
                PasswordRequest {
                    target: PasswordTarget::Password,
                    source: PasswordSource::File(f.clone()),
                },
            );
        }
        if let Some(c) = &self.password_command {
            if self.password.is_some() {
                return Err(Error::DuplicatePassword);
            }
            plan.push(
                PasswordRequest {
                    target: PasswordTarget::Password,
                    source: PasswordSource::Command(c.clone()),
                },
            );
        }
        if let Some(f) = &self.nick_password_file {
            if self.nick_password.is_some() || self.nick_password_command.is_some() {
                return Err(Error::DuplicateNickPassword);
            }
            plan.push(
                PasswordRequest {
                    target: PasswordTarget::NickPassword,
                    source: PasswordSource::File(f.clone()),
                },
            );
        }
        if let Some(c) = &self.nick_password_command {
            if self.password.is_some() || self.password_file.is_some()
                || self.password_command.is_some() {
                return Err(Error::DuplicateNickPassword);
            }
            plan.push(
                PasswordRequest {
                    target: PasswordTarget::Password,
                    source: PasswordSource::Command(c.clone()),
                },
            );
        }
        match &self.sasl {
            Some(Sasl::Plain { password, password_file, password_command, .. }) => {
                if password.is_some() && password_file.is_none() && password_command.is_none() {
                } else if password.is_none() && password_file.is_some()
                    && password_command.is_none() {
                    let f = match password_file {
                        Some(f) => f.clone(),
                        None => {
                            return Err(Error::DuplicateSaslPassword);
                        },
                    };
                    plan.push(
                        PasswordRequest {
                            target: PasswordTarget::Sasl,
                            source: PasswordSource::File(f),
                        },
                    );
                } else if password.is_none() && password_file.is_none()
                    && password_command.is_some() {
                    let c = match password_command {
                        Some(c) => c.clone(),
                        None => {
                            return Err(Error::DuplicateSaslPassword);
                        },
                    };
                    plan.push(
                        PasswordRequest {
                            target: PasswordTarget::Sasl,
                            source: PasswordSource::Command(c),
                        },
                    );
                } else {
                    return Err(Error::DuplicateSaslPassword);
                }
            },
            _ => {},
        }
        proof {
            assert(plan@ =~= self.spec_password_plan());
        }
        Ok(plan)
    }

    /// What a configuration becomes when a password value is stored
    /// at the given target: the server password, the nick password, or
    /// the plain SASL password. A SASL value without a plain SASL
    /// section is dropped.
    pub open spec fn spec_stored(pre: ServerConfig, target: PasswordTarget, value: String) -> ServerConfig {
        match target {
            PasswordTarget::Password => ServerConfig { password: Some(value), ..pre },
            PasswordTarget::NickPassword => ServerConfig { nick_password: Some(value), ..pre },
            PasswordTarget::Sasl => match pre.sasl {
                Some(Sasl::Plain { username, password_file, password_command, .. }) => ServerConfig {
                    sasl: Some(
                        Sasl::Plain {
                            username,
                            password: Some(value),
                            password_file,
                            password_command,
                        },
                    ),
                    ..pre
                },
                _ => pre,
            },
        }
    }

    /// Stores a password value where a fulfilled read request points.
    pub fn store_password(&mut self, target: &PasswordTarget, value: String)
        ensures
            *final(self) == Self::spec_stored(*old(self), *target, value),
    {
        match target {
            PasswordTarget::Password => {
                self.password = Some(value);
            },
            PasswordTarget::NickPassword => {
                self.nick_password = Some(value);
            },
            PasswordTarget::Sasl => {
                let updated = match &self.sasl {
                    Some(Sasl::Plain { username, password_file, password_command, .. }) => Some(
                        Sasl::Plain {
                            username: username.clone(),
                            password: Some(value),
                            password_file: clone_opt_string(password_file),
                            password_command: clone_opt_string(password_command),
                        },
                    ),
                    Some(Sasl::External { cert }) => Some(Sasl::External { cert: cert.clone() }),
                    None => None,
                };
                self.sasl = updated;
            },
        }
    }
}

} // verus!
