//! Connection profiles and their authentication mode.

use vstd::prelude::*;
use crate::error::AppError;
use crate::text::{ascii_lower, ascii_lowercase, same_text};

verus! {

/// How the ssh client authenticates against a host.
#[derive(Debug, Clone, Copy, PartialEq, Eq, Structural)]
pub enum AuthMode {
    /// Leave it to the ssh agent or the client's defaults.
    Agent,
    /// A stored password, fed to the client by a helper.
    Password,
    /// A private key file recorded on this machine.
    Key,
}

/// The mode that a lower-cased name selects, if any. The empty name and
/// `auto` both mean `Agent`.
pub open spec fn mode_of_name(lowered: Seq<char>) -> Option<AuthMode> {
    if lowered == ""@ || lowered == "auto"@ || lowered == "agent"@ {
        Some(AuthMode::Agent)
    } else if lowered == "password"@ {
        Some(AuthMode::Password)
    } else if lowered == "key"@ {
        Some(AuthMode::Key)
    } else {
        None
    }
}

/// The text that an optional mode argument stands for: nothing is the
/// empty text.
pub open spec fn mode_text(s: Option<&str>) -> Seq<char> {
    match s {
        Some(t) => t@,
        None => Seq::empty(),
    }
}

impl AuthMode {
    /// The stored name of the mode.
    pub open spec fn name(self) -> Seq<char> {
        match self {
            AuthMode::Agent => "agent"@,
            AuthMode::Password => "password"@,
            AuthMode::Key => "key"@,
        }
    }

    /// Parses a mode name, ignoring ASCII case; a missing name means
    /// `Agent`. An unknown name is rejected with the lower-cased name.
    pub fn from_str(s: Option<&str>) -> (r: Result<AuthMode, AppError>)
        ensures
            mode_of_name(ascii_lower(mode_text(s))) matches Some(m) ==> r == Ok::<AuthMode, AppError>(m),
            mode_of_name(ascii_lower(mode_text(s))) is None ==> (r matches Err(AppError::InvalidAuthMode(t))
                && t@ == ascii_lower(mode_text(s))),
    {
        let raw: &str = match s {
            Some(t) => t,
            None => {
                proof { reveal_strlit(""); }
                ""
            },
        };
        let lowered = ascii_lowercase(raw);
        let low = lowered.as_str();
        assert(raw@ == mode_text(s));
        assert(low@ == ascii_lower(mode_text(s)));
        if same_text(low, "") || same_text(low, "auto") || same_text(low, "agent") {
            Ok(AuthMode::Agent)
        } else if same_text(low, "password") {
            Ok(AuthMode::Password)
        } else if same_text(low, "key") {
            Ok(AuthMode::Key)
        } else {
            Err(AppError::InvalidAuthMode(lowered))
        }
    }

    /// The stored name of the mode.
    pub fn as_str(&self) -> (r: &'static str)
        ensures
            r@ == self.name(),
    {
        match self {
            AuthMode::Agent => "agent",
            AuthMode::Password => "password",
            AuthMode::Key => "key",
        }
    }
}

/// A stored connection profile. A present label is unique among profiles;
/// a missing port means 22.
#[derive(Debug, Clone, PartialEq, Eq)]
pub struct Model {
    pub id: u32,
    pub label: Option<String>,
    pub hostname: String,
    pub username: String,
    pub port: Option<u16>,
    pub auth_mode: AuthMode,
    pub tags: Option<String>,
    pub note: Option<String>,
}

fn copy_text(o: &Option<String>) -> (r: Option<String>)
    ensures
        r == *o,
{
    match o {
        Some(s) => Some(s.clone()),
        None => None,
    }
}

impl Model {
    /// A copy of the profile, field for field.
    pub fn duplicate(&self) -> (r: Model)
        ensures
            r == *self,
    {
        Model {
            id: self.id,
            label: copy_text(&self.label),
            hostname: self.hostname.clone(),
            username: self.username.clone(),
            port: self.port,
            auth_mode: self.auth_mode,
            tags: copy_text(&self.tags),
            note: copy_text(&self.note),
        }
    }
}

} // verus!
