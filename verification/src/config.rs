//! The immutable configuration value of the service.
//!
//! It is constructed once at process start by the embedding program
//! (which reads the environment) and passed by reference into every
//! component that needs it; the library holds no ambient global state.

use vstd::prelude::*;
use vstd::string::StringExecFns;

verus! {

/// Public base URL of the deployed service, used when it does not run
/// locally.
pub const MAIN_URL: &'static str = "https://tyutyun.shop";

/// Runtime configuration, read from the environment by the caller.
pub struct EnvConfiguration {
    pub database_name: String,
    pub database_host: String,
    pub database_port: String,
    pub database_user: String,
    pub database_password: String,
    pub server_port: String,
    pub server_address: String,
    pub smtp_address: String,
    pub smtp_port: String,
    pub mail_username: String,
    pub mail_password: String,
    pub jwt_secret: String,
    pub admin_role: String,
    pub admin_password: String,
    pub dir_product_images: String,
    pub local: bool,
}

/// The account-activation link mailed to a registering user.
pub open spec fn registration_link_spec(config: EnvConfiguration, token: Seq<char>) -> Seq<char> {
    if config.local {
        "http://"@ + config.server_address@ + ":"@ + config.server_port@
            + "/api/registration?token="@ + token
    } else {
        MAIN_URL@ + "/api/registration?token="@ + token
    }
}

/// Builds the account-activation link that carries a registration
/// token.
pub fn generate_registration_link(config: &EnvConfiguration, token: &str) -> (r: String)
    ensures
        r@ == registration_link_spec(*config, token@),
{
    if config.local {
        let s = String::from_str("http://");
        let s = s.concat(config.server_address.as_str());
        let s = s.concat(":");
        let s = s.concat(config.server_port.as_str());
        let s = s.concat("/api/registration?token=");
        let s = s.concat(token);
        proof {
            assert(s@ =~= registration_link_spec(*config, token@));
        }
        s
    } else {
        let s = String::from_str(MAIN_URL);
        let s = s.concat("/api/registration?token=");
        let s = s.concat(token);
        proof {
            assert(s@ =~= registration_link_spec(*config, token@));
        }
        s
    }
}

} // verus!
