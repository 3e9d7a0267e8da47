use crate::config::Config;
use vstd::prelude::*;
use vstd::string::StringExecFns;

verus! {

/// The hierarchical names under which Google Cloud KMS addresses a project's location and
/// the wrapping keys of a key ring.
pub struct GcpKeyring {
    pub location: String,
    pub keyring: String,
}

/// `projects/<project>/locations/<location>`
pub open spec fn location_name(project: Seq<char>, location: Seq<char>) -> Seq<char> {
    "projects/"@ + project + "/locations/"@ + location
}

/// `<location name>/keyRings/<keyring>/cryptoKeys`
pub open spec fn keyring_name(location: Seq<char>, keyring: Seq<char>) -> Seq<char> {
    location + "/keyRings/"@ + keyring + "/cryptoKeys"@
}

impl GcpKeyring {
    /// The names built from the configured project, key ring location and key ring.
    pub fn new(config: &Config) -> (r: GcpKeyring)
        ensures
            r.location@ == location_name(config.gcp_project_id@, config.gcp_keyring_location@),
            r.keyring@ == keyring_name(r.location@, config.gcp_keyring_name@),
    {
        let mut location = String::from_str("projects/");
        location.append(config.gcp_project_id());
        location.append("/locations/");
        location.append(config.gcp_keyring_location());
        let mut keyring = location.clone();
        keyring.append("/keyRings/");
        keyring.append(config.gcp_keyring_name());
        keyring.append("/cryptoKeys");
        GcpKeyring { location, keyring }
    }

    /// The full name of the wrapping key `key` of the key ring.
    pub fn key_name(&self, key: &str) -> (r: String)
        ensures
            r@ == self.keyring@ + "/"@ + key@,
    {
        let mut name = self.keyring.clone();
        name.append("/");
        name.append(key);
        name
    }
}

/// The routing header value that names the resource of a request: `name=<resource>`.
pub fn request_params(resource: &str) -> (r: String)
    ensures
        r@ == "name="@ + resource@,
{
    let mut params = String::from_str("name=");
    params.append(resource);
    params
}

} // verus!
