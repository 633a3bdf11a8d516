//! Client configuration: the server address, the caller identity, and the
//! authentication method with its secret.

use vstd::prelude::*;

verus! {

/// How the client authenticates against the server.
#[derive(PartialEq, Eq, Structural, Clone, Copy, Debug)]
pub enum AuthMethod {
    Token,
    Password,
}

impl AuthMethod {
    /// The method selected by a menu index; anything out of range falls
    /// back to the first entry, mirroring the forgiving menu behaviour.
    pub fn from_index(s: usize) -> (r: AuthMethod)
        ensures
            r == (if s == 1 {
                AuthMethod::Password
            } else {
                AuthMethod::Token
            }),
    {
        if s == 1 {
            AuthMethod::Password
        } else {
            AuthMethod::Token
        }
    }

    /// The display name of the method.
    pub fn to_string(&self) -> (r: String)
        ensures
            *self is Token ==> r@ == ("Token")@,
            *self is Password ==> r@ == ("Password")@,
    {
        match self {
            AuthMethod::Token => String::from_str("Token"),
            AuthMethod::Password => String::from_str("Password"),
        }
    }
}

/// The loaded configuration.
pub struct AppConfig {
    pub server_address: String,
    pub username: String,
    pub secret: String,
    pub auth_method: AuthMethod,
}

/// The mathematical value of a configuration.
#[verifier::ext_equal]
pub struct ConfigV {
    pub server_address: Seq<char>,
    pub username: Seq<char>,
    pub secret: Seq<char>,
    pub auth_method: AuthMethod,
}

impl View for AppConfig {
    type V = ConfigV;

    open spec fn view(&self) -> ConfigV {
        ConfigV {
            server_address: self.server_address@,
            username: self.username@,
            secret: self.secret@,
            auth_method: self.auth_method,
        }
    }
}

/// The placeholder configuration a fresh installation starts from.
pub open spec fn spec_default_config() -> ConfigV {
    ConfigV {
        server_address: ("<THE ADDRESS OF THE WEBSERVER>")@,
        username: ("<YOUR USERNAME>")@,
        secret: ("<YOUR TOKEN / SECRET>")@,
        auth_method: AuthMethod::Token,
    }
}

/// The minimal configuration: all fields empty, token authentication.
pub open spec fn spec_empty_config() -> ConfigV {
    ConfigV {
        server_address: Seq::empty(),
        username: Seq::empty(),
        secret: Seq::empty(),
        auth_method: AuthMethod::Token,
    }
}

impl Default for AppConfig {
    /// The placeholder configuration a fresh installation starts from.
    fn default() -> (r: AppConfig)
        ensures
            r@ == spec_default_config(),
    {
        AppConfig {
            server_address: String::from_str("<THE ADDRESS OF THE WEBSERVER>"),
            username: String::from_str("<YOUR USERNAME>"),
            secret: String::from_str("<YOUR TOKEN / SECRET>"),
            auth_method: AuthMethod::Token,
        }
    }
}

impl AppConfig {
    pub fn new(
        server_address: String,
        username: String,
        secret: String,
        auth_method: AuthMethod,
    ) -> (r: AppConfig)
        ensures
            r@ == (ConfigV {
                server_address: server_address@,
                username: username@,
                secret: secret@,
                auth_method,
            }),
    {
        AppConfig { server_address, username, secret, auth_method }
    }

    /// The minimal configuration.
    pub fn empty() -> (r: AppConfig)
        ensures
            r@ == spec_empty_config(),
    {
        proof {
            reveal_strlit("");
            assert(("")@ =~= Seq::<char>::empty());
        }
        AppConfig {
            server_address: String::from_str(""),
            username: String::from_str(""),
            secret: String::from_str(""),
            auth_method: AuthMethod::Token,
        }
    }

    /// Field-wise equality of configurations.
    pub fn same_config(&self, other: &AppConfig) -> (r: bool)
        ensures
            r == (self@ == other@),
    {
        let sa = self.server_address == other.server_address;
        let un = self.username == other.username;
        let se = self.secret == other.secret;
        let am = self.auth_method == other.auth_method;
        proof {
            if sa && un && se && am {
                assert(self@ =~= other@);
            }
        }
        sa && un && se && am
    }

    /// Whether this is still the placeholder configuration.
    pub fn is_default(&self) -> (r: bool)
        ensures
            r == (self@ == spec_default_config()),
    {
        let d = AppConfig::default();
        self.same_config(&d)
    }

    /// Whether this is the minimal configuration.
    pub fn is_empty(&self) -> (r: bool)
        ensures
            r == (self@ == spec_empty_config()),
    {
        let e = AppConfig::empty();
        self.same_config(&e)
    }
}

/// A run of masking stars, one per character of the secret.
pub open spec fn spec_stars(n: nat) -> Seq<char>
    decreases n,
{
    if n == 0 {
        Seq::empty()
    } else {
        spec_stars((n - 1) as nat) + seq!['*']
    }
}

/// The display text of a configuration, with the secret masked.
pub open spec fn spec_config_display(c: ConfigV) -> Seq<char> {
    ("Server: ")@ + c.server_address + ("\nUsername: ")@ + c.username + ("\nSecret: ")@
        + spec_stars(c.secret.len()) + ("\nAuth Method: ")@ + (match c.auth_method {
        AuthMethod::Token => ("Token")@,
        AuthMethod::Password => ("Password")@,
    })
}

impl AppConfig {
    /// Renders the configuration for display; the secret is masked, one
    /// star per character.
    pub fn to_display_string(&self) -> (r: String)
        ensures
            r@ == spec_config_display(self@),
    {
        let mut s = String::new();
        s.append("Server: ");
        s.append(self.server_address.as_str());
        s.append("\nUsername: ");
        s.append(self.username.as_str());
        s.append("\nSecret: ");
        let n = self.secret.as_str().unicode_len();
        let mut i: usize = 0;
        let ghost base = s@;
        while i < n
            invariant
                0 <= i <= n,
                s@ == base + spec_stars(i as nat),
            decreases n - i,
        {
            s.append("*");
            proof {
                reveal_strlit("*");
                assert(("*")@ =~= seq!['*']);
            }
            i = i + 1;
        }
        s.append("\nAuth Method: ");
        let am = self.auth_method.to_string();
        s.append(am.as_str());
        proof {
            assert(s@ =~= spec_config_display(self@));
        }
        s
    }
}

} // verus!
